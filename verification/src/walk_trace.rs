//! Whole walks: what the walker makes of a sequence of events, and what holds
//! of every walk.

use vstd::prelude::*;
use vstd::multiset::{lemma_multiset_empty_len, Multiset};
use vstd::seq_lib::{
    lemma_flatten_concat, lemma_multiset_commutative, to_multiset_build, to_multiset_len,
};

use crate::entry::EntryView;
use crate::report::FailureView;
use crate::walker::{walk_step, WalkEventView, WalkOutcome, WalkState};

verus! {

/// How a walk stands when its events are used up.
pub ghost enum WalkEnd {
    /// The root directory was read to its end.
    Finished,
    /// A failure ended the walk.
    Aborted(FailureView),
    /// The walk waits for its next event.
    Waiting(WalkState),
}

/// What a walk did: the batches it had flushed, in order, and how it stands.
pub ghost struct WalkTrace {
    pub flushes: Seq<Seq<EntryView>>,
    pub end: WalkEnd,
}

/// The flushes that one step asks for: one batch or none.
pub open spec fn flushed(flush: Option<Seq<EntryView>>) -> Seq<Seq<EntryView>> {
    match flush {
        Some(batch) => seq![batch],
        None => Seq::<Seq<EntryView>>::empty(),
    }
}

/// The trace of a step that flushed `flush`, followed by `rest`.
pub open spec fn flush_then(flush: Option<Seq<EntryView>>, rest: WalkTrace) -> WalkTrace {
    WalkTrace { flushes: flushed(flush) + rest.flushes, end: rest.end }
}

/// The walk from `state` over `events`, taken in order. Events that follow the
/// end of the walk are not looked at.
pub open spec fn walk_run(state: WalkState, events: Seq<WalkEventView>) -> WalkTrace
    decreases events.len(),
{
    if events.len() == 0 {
        WalkTrace { flushes: Seq::<Seq<EntryView>>::empty(), end: WalkEnd::Waiting(state) }
    } else {
        match walk_step(state, events.first()) {
            WalkOutcome::Read { state: next, flush } => flush_then(
                flush,
                walk_run(next, events.drop_first()),
            ),
            WalkOutcome::Descend { state: next, .. } => walk_run(next, events.drop_first()),
            WalkOutcome::Ascend { state: next, flush } => flush_then(
                flush,
                walk_run(next, events.drop_first()),
            ),
            WalkOutcome::Finish { flush } => WalkTrace {
                flushes: flushed(flush),
                end: WalkEnd::Finished,
            },
            WalkOutcome::Abort { failure } => WalkTrace {
                flushes: Seq::<Seq<EntryView>>::empty(),
                end: WalkEnd::Aborted(failure),
            },
        }
    }
}

/// The events of a directory that holds these files and nothing else, before
/// its end is reported.
pub open spec fn file_events(files: Seq<EntryView>) -> Seq<WalkEventView> {
    files.map_values(|file: EntryView| WalkEventView::File(file))
}

/// `files` cut into consecutive batches of `capacity` entries; the last batch
/// holds what is left, at least one entry.
pub open spec fn batches(files: Seq<EntryView>, capacity: nat) -> Seq<Seq<EntryView>>
    decreases files.len(),
{
    if files.len() == 0 {
        Seq::<Seq<EntryView>>::empty()
    } else if capacity == 0 || files.len() <= capacity {
        seq![files]
    } else {
        seq![files.take(capacity as int)] + batches(files.skip(capacity as int), capacity)
    }
}

/// The files among the events, in the order in which they were met.
pub open spec fn files_of(events: Seq<WalkEventView>) -> Seq<EntryView>
    decreases events.len(),
{
    if events.len() == 0 {
        Seq::<EntryView>::empty()
    } else {
        match events.first() {
            WalkEventView::File(file) => seq![file] + files_of(events.drop_first()),
            _ => files_of(events.drop_first()),
        }
    }
}

/// The events are those of a walk that starts with `depth` directories open
/// below the root and runs to the end of the root without a failure: every
/// directory that is entered is read to its end, in any order of entries, and
/// the last event is the end of the root.
pub open spec fn complete_walk(events: Seq<WalkEventView>, depth: nat) -> bool
    decreases events.len(),
{
    if events.len() == 0 {
        false
    } else {
        match events.first() {
            WalkEventView::Directory(_) => complete_walk(events.drop_first(), depth + 1),
            WalkEventView::File(_) => complete_walk(events.drop_first(), depth),
            WalkEventView::EndOfDirectory => if depth == 0 {
                events.len() == 1
            } else {
                complete_walk(events.drop_first(), (depth - 1) as nat)
            },
            WalkEventView::Failed(_) => false,
        }
    }
}

/// A step leaves a well-formed walk well formed; descending opens one level
/// and ascending closes one.
pub proof fn lemma_step_keeps_wf(state: WalkState, event: WalkEventView)
    requires
        state.wf(),
    ensures
        match walk_step(state, event) {
            WalkOutcome::Read { state: next, flush } => next.wf() && next.frames.len()
                == state.frames.len(),
            WalkOutcome::Descend { state: next, .. } => next.wf() && next.frames.len()
                == state.frames.len() + 1,
            WalkOutcome::Ascend { state: next, .. } => next.wf() && next.frames.len()
                == state.frames.len() - 1,
            _ => true,
        },
{
}

proof fn lemma_flat_directory_from(state: WalkState, files: Seq<EntryView>)
    requires
        state.wf(),
        state.frames.len() == 1,
    ensures
        walk_run(state, file_events(files).push(WalkEventView::EndOfDirectory)).end
            == WalkEnd::Finished,
        walk_run(state, file_events(files).push(WalkEventView::EndOfDirectory)).flushes
            == batches(state.top() + files, state.capacity),
    decreases files.len(),
{
    let events = file_events(files).push(WalkEventView::EndOfDirectory);
    let all = state.top() + files;
    if files.len() > 0 {
        let file = files.first();
        let rest = files.drop_first();
        assert(events.drop_first() =~= file_events(rest).push(WalkEventView::EndOfDirectory));
        let batch = state.top().push(file);
        lemma_step_keeps_wf(state, events.first());
        if batch.len() >= state.capacity {
            let next = state.with_top(Seq::<EntryView>::empty());
            lemma_flat_directory_from(next, rest);
            assert(all.take(state.capacity as int) =~= batch);
            assert(all.skip(state.capacity as int) =~= rest);
            if rest.len() == 0 {
                assert(all =~= batch);
            }
        } else {
            let next = state.with_top(batch);
            lemma_flat_directory_from(next, rest);
            assert(next.top() + rest =~= all);
        }
    }
}

/// A directory of files and nothing else is flushed in consecutive batches of
/// `capacity` entries, in listing order, the last batch holding what is left.
pub proof fn lemma_flat_directory_is_flushed_in_batches(capacity: nat, files: Seq<EntryView>)
    requires
        capacity >= 1,
    ensures
        walk_run(
            WalkState::initial(capacity),
            file_events(files).push(WalkEventView::EndOfDirectory),
        ) == (WalkTrace { flushes: batches(files, capacity), end: WalkEnd::Finished }),
{
    let state = WalkState::initial(capacity);
    lemma_flat_directory_from(state, files);
}

/// However large the batches, they hold every file once and in listing
/// order; there are as many as the files need, each full but possibly the
/// last, and none is empty.
pub proof fn lemma_batches_cover(files: Seq<EntryView>, capacity: nat)
    requires
        capacity >= 1,
    ensures
        batches(files, capacity).flatten() == files,
        batches(files, capacity).len() == (files.len() + capacity - 1) / (capacity as int),
        forall|k: int|
            0 <= k < batches(files, capacity).len() - 1 ==> (#[trigger] batches(
                files,
                capacity,
            )[k]).len() == capacity,
        files.len() > 0 ==> 1 <= batches(files, capacity).last().len() <= capacity,
    decreases files.len(),
{
    let cut = batches(files, capacity);
    if files.len() == 0 {
        assert((files.len() + capacity - 1) / (capacity as int) == 0) by (nonlinear_arith)
            requires
                files.len() == 0,
                capacity >= 1,
        ;
    } else if files.len() <= capacity {
        cut.lemma_flatten_one_element();
        assert((files.len() + capacity - 1) / (capacity as int) == 1) by (nonlinear_arith)
            requires
                1 <= files.len() <= capacity,
        ;
    } else {
        let head = files.take(capacity as int);
        let tail = files.skip(capacity as int);
        let rest = batches(tail, capacity);
        lemma_batches_cover(tail, capacity);
        lemma_flatten_concat(seq![head], rest);
        seq![head].lemma_flatten_one_element();
        assert((files.len() + capacity - 1) / (capacity as int) == 1 + (tail.len() + capacity
            - 1) / (capacity as int)) by (nonlinear_arith)
            requires
                tail.len() == files.len() - capacity,
                capacity >= 1,
        ;
    }
}

/// A directory that holds one file more than a batch is flushed twice: a full
/// batch, then a batch with the one file left.
pub proof fn lemma_one_more_than_a_batch(capacity: nat, files: Seq<EntryView>)
    requires
        capacity >= 1,
        files.len() == capacity + 1,
    ensures
        batches(files, capacity) == seq![
            files.take(capacity as int),
            files.skip(capacity as int),
        ],
        files.take(capacity as int).len() == capacity,
        files.skip(capacity as int).len() == 1,
{
    let tail = files.skip(capacity as int);
    assert(batches(tail, capacity) =~= seq![tail]) by {
        reveal_with_fuel(batches, 2);
    }
}

proof fn lemma_multiset_of_none()
    ensures
        Seq::<EntryView>::empty().to_multiset() == Multiset::<EntryView>::empty(),
{
    broadcast use vstd::multiset::group_multiset_axioms;

    to_multiset_len(Seq::<EntryView>::empty());
    lemma_multiset_empty_len(Seq::<EntryView>::empty().to_multiset());
}

proof fn lemma_multiset_of_one_more(files: Seq<EntryView>, file: EntryView)
    ensures
        (seq![file] + files).to_multiset() == files.to_multiset().insert(file),
        files.push(file).to_multiset() == files.to_multiset().insert(file),
{
    broadcast use vstd::multiset::group_multiset_axioms;
    broadcast use vstd::multiset::group_multiset_properties;

    lemma_multiset_of_none();
    lemma_multiset_commutative(seq![file], files);
    to_multiset_build(Seq::<EntryView>::empty(), file);
    to_multiset_build(files, file);
}

proof fn lemma_complete_walk_from(state: WalkState, events: Seq<WalkEventView>)
    requires
        state.wf(),
        complete_walk(events, (state.frames.len() - 1) as nat),
    ensures
        walk_run(state, events).end == WalkEnd::Finished,
        walk_run(state, events).flushes.flatten().to_multiset() == state.frames.flatten().to_multiset().add(
            files_of(events).to_multiset(),
        ),
    decreases events.len(),
{
    broadcast use vstd::multiset::group_multiset_axioms;
    broadcast use vstd::multiset::group_multiset_properties;
    broadcast use Seq::lemma_flatten_push;

    let event = events.first();
    let rest = events.drop_first();
    let trace = walk_run(state, events);
    let lower = state.frames.drop_last();
    let top = state.top();
    assert(state.frames =~= lower.push(top));
    lemma_multiset_commutative(lower.flatten(), top);
    lemma_step_keeps_wf(state, event);
    match event {
        WalkEventView::Directory(_) => {
            let next = state.descended();
            lemma_complete_walk_from(next, rest);
        },
        WalkEventView::File(file) => {
            let batch = top.push(file);
            lemma_multiset_of_one_more(top, file);
            lemma_multiset_of_one_more(files_of(rest), file);
            if batch.len() >= state.capacity {
                let next = state.with_top(Seq::<EntryView>::empty());
                lemma_complete_walk_from(next, rest);
                let after = walk_run(next, rest);
                lemma_flatten_concat(seq![batch], after.flushes);
                seq![batch].lemma_flatten_one_element();
                lemma_multiset_commutative(batch, after.flushes.flatten());
                lemma_multiset_of_none();
            } else {
                let next = state.with_top(batch);
                lemma_complete_walk_from(next, rest);
                let after = walk_run(next, rest);
                assert(trace.flushes =~= after.flushes);
                lemma_multiset_commutative(lower.flatten(), batch);
                assert(trace.flushes.flatten().to_multiset() =~= state.frames.flatten().to_multiset().add(
                    files_of(events).to_multiset(),
                ));
            }
        },
        WalkEventView::EndOfDirectory => {
            if state.frames.len() > 1 {
                let next = state.ascended();
                lemma_complete_walk_from(next, rest);
                let after = walk_run(next, rest);
                if top.len() > 0 {
                    lemma_flatten_concat(seq![top], after.flushes);
                    seq![top].lemma_flatten_one_element();
                    lemma_multiset_commutative(top, after.flushes.flatten());
                }
            } else if top.len() > 0 {
                seq![top].lemma_flatten_one_element();
            }
        },
        WalkEventView::Failed(_) => {},
    }
}

/// A walk that runs to the end of its root flushes every file that was met
/// exactly once, whatever the shape of the tree, the order in which the
/// entries of a directory were listed and the batch capacity: the flushed
/// entries are the files met, each as often as it was met.
pub proof fn lemma_walk_flushes_every_file_once(capacity: nat, events: Seq<WalkEventView>)
    requires
        capacity >= 1,
        complete_walk(events, 0),
    ensures
        walk_run(WalkState::initial(capacity), events).end == WalkEnd::Finished,
        walk_run(WalkState::initial(capacity), events).flushes.flatten().to_multiset()
            == files_of(events).to_multiset(),
{
    broadcast use vstd::multiset::group_multiset_axioms;

    let state = WalkState::initial(capacity);
    lemma_complete_walk_from(state, events);
    state.frames.lemma_flatten_one_element();
    lemma_multiset_of_none();
}

/// A failure ends the walk where it stands: the batches flushed before it
/// stay flushed, what waits in a batch is not flushed, and no later event is
/// looked at.
pub proof fn lemma_failure_ends_the_walk(
    state: WalkState,
    before: Seq<WalkEventView>,
    failure: FailureView,
    after: Seq<WalkEventView>,
)
    requires
        walk_run(state, before).end is Waiting,
    ensures
        walk_run(state, before + seq![WalkEventView::Failed(failure)] + after) == (WalkTrace {
            flushes: walk_run(state, before).flushes,
            end: WalkEnd::Aborted(failure),
        }),
    decreases before.len(),
{
    let events = before + seq![WalkEventView::Failed(failure)] + after;
    if before.len() > 0 {
        assert(events.drop_first() =~= before.drop_first() + seq![
            WalkEventView::Failed(failure),
        ] + after);
        match walk_step(state, before.first()) {
            WalkOutcome::Read { state: next, .. } => {
                lemma_failure_ends_the_walk(next, before.drop_first(), failure, after);
            },
            WalkOutcome::Descend { state: next, .. } => {
                lemma_failure_ends_the_walk(next, before.drop_first(), failure, after);
            },
            WalkOutcome::Ascend { state: next, .. } => {
                lemma_failure_ends_the_walk(next, before.drop_first(), failure, after);
            },
            _ => {},
        }
    }
}

} // verus!
