//! The indexing pipeline as a whole: what a flush makes of an index when the
//! store answers as an index does and every file can be read, and what holds
//! of every such flush.

use vstd::prelude::*;
use vstd::seq_lib::to_multiset_contains;

use crate::digest::digest_text;
use crate::entry::{record_of, EntryView, RecordView};
use crate::flush::{next_step, FlushState, FlushStepView};
use crate::index::{lookup, upsert, Index};
use crate::report::NoticeView;
use crate::walk_trace::{
    batches, complete_walk, files_of, lemma_batches_cover, lemma_walk_flushes_every_file_once,
    walk_run,
};
use crate::walker::{WalkEventView, WalkState};

verus! {

/// The bytes of every file, by path.
pub type Contents = Map<Seq<char>, Seq<u8>>;

/// The fingerprint that hashing the file at `path` yields.
pub open spec fn fingerprint(contents: Contents, path: Seq<char>) -> Seq<char> {
    digest_text(contents[path])
}

/// What a flush did: the index it left, the notices it gave, one per entry
/// and in batch order, and the records it wrote, in the order of writing.
pub ghost struct FlushResult {
    pub index: Index,
    pub notices: Seq<NoticeView>,
    pub writes: Seq<RecordView>,
}

/// The result of a flush that gave `notice` and wrote `write` before it did
/// `rest`.
pub open spec fn preceded(
    notice: NoticeView,
    write: Seq<RecordView>,
    rest: FlushResult,
) -> FlushResult {
    FlushResult {
        index: rest.index,
        notices: seq![notice] + rest.notices,
        writes: write + rest.writes,
    }
}

/// The flush machine driven to its end from `state`: every lookup is answered
/// from the index, every file is hashed to the fingerprint of its content,
/// and every record handed out is upserted.
pub open spec fn drive(state: FlushState, index: Index, contents: Contents) -> FlushResult
    decreases state.entries.len() - state.cursor,
{
    match next_step(state) {
        FlushStepView::Done => FlushResult {
            index,
            notices: Seq::<NoticeView>::empty(),
            writes: Seq::<RecordView>::empty(),
        },
        FlushStepView::Lookup(pending) => match lookup(index, pending.current().path) {
            Some(stored) => preceded(
                pending.skipped(stored.digest),
                Seq::<RecordView>::empty(),
                drive(pending.advanced(), index, contents),
            ),
            None => {
                let digest = fingerprint(contents, pending.current().path);
                let record = pending.record(digest);
                preceded(
                    pending.processed(digest),
                    seq![record],
                    drive(pending.advanced(), upsert(index, record), contents),
                )
            },
        },
    }
}

/// The flush of `entries`, said directly: each entry in turn is skipped with
/// the fingerprint on record if the index has its path, and is otherwise
/// hashed and recorded with its size.
pub open spec fn flush_model(entries: Seq<EntryView>, index: Index, contents: Contents) -> FlushResult
    decreases entries.len(),
{
    if entries.len() == 0 {
        FlushResult {
            index,
            notices: Seq::<NoticeView>::empty(),
            writes: Seq::<RecordView>::empty(),
        }
    } else {
        let entry = entries.first();
        match lookup(index, entry.path) {
            Some(stored) => preceded(
                NoticeView::Skipped { path: entry.path, digest: stored.digest },
                Seq::<RecordView>::empty(),
                flush_model(entries.drop_first(), index, contents),
            ),
            None => {
                let record = record_of(entry, fingerprint(contents, entry.path));
                preceded(
                    NoticeView::Processed { path: entry.path, digest: record.digest },
                    seq![record],
                    flush_model(entries.drop_first(), upsert(index, record), contents),
                )
            },
        }
    }
}

/// The flushes of several batches, one after the other, each on the index the
/// one before it left.
pub open spec fn flush_batches(
    batches: Seq<Seq<EntryView>>,
    index: Index,
    contents: Contents,
) -> FlushResult
    decreases batches.len(),
{
    if batches.len() == 0 {
        FlushResult {
            index,
            notices: Seq::<NoticeView>::empty(),
            writes: Seq::<RecordView>::empty(),
        }
    } else {
        let head = flush_model(batches.first(), index, contents);
        let tail = flush_batches(batches.drop_first(), head.index, contents);
        FlushResult {
            index: tail.index,
            notices: head.notices + tail.notices,
            writes: head.writes + tail.writes,
        }
    }
}

/// The notices of entries that are all skipped: each with the fingerprint the
/// index has for its path.
pub open spec fn skip_notices(entries: Seq<EntryView>, index: Index) -> Seq<NoticeView> {
    Seq::new(
        entries.len(),
        |position: int|
            NoticeView::Skipped {
                path: entries[position].path,
                digest: index[entries[position].path].digest,
            },
    )
}

/// The machine, driven by an index and readable files, does what the model
/// says of the entries it has not dealt with yet.
pub proof fn lemma_drive_is_model(state: FlushState, index: Index, contents: Contents)
    requires
        state.cursor <= state.entries.len(),
    ensures
        drive(state, index, contents) == flush_model(state.remaining(), index, contents),
    decreases state.entries.len() - state.cursor,
{
    let remaining = state.remaining();
    if state.cursor < state.entries.len() {
        assert(remaining.drop_first() =~= state.advanced().remaining());
        match lookup(index, state.current().path) {
            Some(_) => {
                lemma_drive_is_model(state.advanced(), index, contents);
            },
            None => {
                let record = state.record(fingerprint(contents, state.current().path));
                lemma_drive_is_model(state.advanced(), upsert(index, record), contents);
            },
        }
    }
}

/// Whether `path` is the path of one of the entries.
pub open spec fn among(entries: Seq<EntryView>, path: Seq<char>) -> bool {
    exists|position: int| 0 <= position < entries.len() && (#[trigger] entries[position]).path == path
}

/// A flush gives one notice per entry, leaves every record that the index
/// had as it was, leaves a record for the path of every entry, and records
/// no other path.
pub proof fn lemma_flush_records_every_entry(
    entries: Seq<EntryView>,
    index: Index,
    contents: Contents,
)
    ensures
        flush_model(entries, index, contents).notices.len() == entries.len(),
        forall|path: Seq<char>| #[trigger]
            index.dom().contains(path) ==> lookup(
                flush_model(entries, index, contents).index,
                path,
            ) == lookup(index, path),
        forall|position: int|
            0 <= position < entries.len() ==> flush_model(
                entries,
                index,
                contents,
            ).index.dom().contains(#[trigger] entries[position].path),
        forall|path: Seq<char>| #[trigger]
            flush_model(entries, index, contents).index.dom().contains(path)
                ==> index.dom().contains(path) || among(entries, path),
    decreases entries.len(),
{
    if entries.len() > 0 {
        let entry = entries.first();
        let rest = entries.drop_first();
        let next = match lookup(index, entry.path) {
            Some(_) => index,
            None => upsert(index, record_of(entry, fingerprint(contents, entry.path))),
        };
        lemma_flush_records_every_entry(rest, next, contents);
        let result = flush_model(entries, index, contents);
        let after = flush_model(rest, next, contents);
        assert forall|path: Seq<char>| #[trigger] index.dom().contains(path) implies lookup(
            result.index,
            path,
        ) == lookup(index, path) by {
            assert(lookup(next, path) == lookup(index, path));
        }
        assert forall|position: int| 0 <= position < entries.len() implies result.index.dom().contains(
            #[trigger] entries[position].path,
        ) by {
            if position > 0 {
                assert(after.index.dom().contains(rest[position - 1].path));
            } else {
                assert(lookup(after.index, entry.path) == lookup(next, entry.path));
            }
        }
        assert forall|path: Seq<char>| #[trigger]
            result.index.dom().contains(path) implies index.dom().contains(path) || among(
            entries,
            path,
        ) by {
            if among(rest, path) {
                let position = choose|position: int|
                    0 <= position < rest.len() && (#[trigger] rest[position]).path == path;
                assert(entries[position + 1].path == path);
            } else if !index.dom().contains(path) {
                assert(next.dom().contains(path));
                assert(entries[0].path == path);
            }
        }
    }
}

/// A flush that is stopped at an entry, as it is when the file of that entry
/// cannot be read, has dealt with the entries before it and with nothing
/// else: their paths are on record, the records that the index had are as
/// they were, and the entry at which it stopped has no record unless it had
/// one, or an entry before it has the same path.
pub proof fn lemma_stopped_flush_keeps_earlier_records(
    entries: Seq<EntryView>,
    stopped: int,
    index: Index,
    contents: Contents,
)
    requires
        0 <= stopped < entries.len(),
    ensures
        ({
            let done = flush_model(entries.take(stopped), index, contents);
            &&& forall|position: int|
                0 <= position < stopped ==> done.index.dom().contains(
                    #[trigger] entries[position].path,
                )
            &&& forall|path: Seq<char>| #[trigger]
                index.dom().contains(path) ==> lookup(done.index, path) == lookup(index, path)
            &&& done.index.dom().contains(entries[stopped].path) ==> index.dom().contains(
                entries[stopped].path,
            ) || among(entries.take(stopped), entries[stopped].path)
        }),
{
    let before = entries.take(stopped);
    lemma_flush_records_every_entry(before, index, contents);
    assert forall|position: int| 0 <= position < stopped implies flush_model(
        before,
        index,
        contents,
    ).index.dom().contains(#[trigger] entries[position].path) by {
        assert(before[position] == entries[position]);
    }
}

/// Entries whose paths are all on record are all skipped: nothing is hashed,
/// nothing is written, the index stays as it is, and each notice carries the
/// fingerprint on record.
pub proof fn lemma_indexed_entries_are_skipped(
    entries: Seq<EntryView>,
    index: Index,
    contents: Contents,
)
    requires
        forall|position: int|
            0 <= position < entries.len() ==> index.dom().contains(
                #[trigger] entries[position].path,
            ),
    ensures
        flush_model(entries, index, contents).index == index,
        flush_model(entries, index, contents).writes == Seq::<RecordView>::empty(),
        flush_model(entries, index, contents).notices == skip_notices(entries, index),
    decreases entries.len(),
{
    if entries.len() > 0 {
        let rest = entries.drop_first();
        assert forall|position: int| 0 <= position < rest.len() implies index.dom().contains(
            #[trigger] rest[position].path,
        ) by {
            assert(rest[position] == entries[position + 1]);
        }
        lemma_indexed_entries_are_skipped(rest, index, contents);
    }
}

/// A second run over a tree that holds no path the first run did not meet
/// writes nothing: whatever the files hold by then, and in whatever order
/// they are listed, every one is skipped with the fingerprint that the index
/// held after the first run, and the index stays as the first run left it.
pub proof fn lemma_second_run_writes_nothing(
    first: Seq<EntryView>,
    second: Seq<EntryView>,
    index: Index,
    contents: Contents,
    later: Contents,
)
    requires
        forall|position: int|
            0 <= position < second.len() ==> among(first, (#[trigger] second[position]).path),
    ensures
        ({
            let once = flush_model(first, index, contents);
            let twice = flush_model(second, once.index, later);
            &&& twice.writes == Seq::<RecordView>::empty()
            &&& twice.index == once.index
            &&& twice.notices == skip_notices(second, once.index)
        }),
{
    let once = flush_model(first, index, contents);
    lemma_flush_records_every_entry(first, index, contents);
    assert forall|position: int| 0 <= position < second.len() implies once.index.dom().contains(
        #[trigger] second[position].path,
    ) by {
        let earlier = choose|earlier: int|
            0 <= earlier < first.len() && (#[trigger] first[earlier]).path
                == second[position].path;
        assert(among(first, second[position].path));
        assert(once.index.dom().contains(first[earlier].path));
    }
    lemma_indexed_entries_are_skipped(second, once.index, later);
}

/// The index keeps identity by path, not by content: two files with the same
/// bytes under different paths, neither on record, get a record each, and
/// the two records carry the same fingerprint.
pub proof fn lemma_same_content_is_recorded_per_path(
    first: EntryView,
    second: EntryView,
    index: Index,
    contents: Contents,
)
    requires
        first.path != second.path,
        !index.dom().contains(first.path),
        !index.dom().contains(second.path),
        contents[first.path] == contents[second.path],
    ensures
        ({
            let result = flush_model(seq![first, second], index, contents);
            &&& result.writes == seq![
                record_of(first, fingerprint(contents, first.path)),
                record_of(second, fingerprint(contents, second.path)),
            ]
            &&& lookup(result.index, first.path) is Some
            &&& lookup(result.index, second.path) is Some
            &&& result.index[first.path].digest == result.index[second.path].digest
        }),
{
    reveal_with_fuel(flush_model, 3);
    let entries = seq![first, second];
    assert(entries.drop_first() =~= seq![second]);
    assert(entries.drop_first().drop_first() =~= Seq::<EntryView>::empty());
}

/// Flushing two batches one after the other does what flushing their entries
/// as one batch does.
pub proof fn lemma_flush_of_two(
    first: Seq<EntryView>,
    second: Seq<EntryView>,
    index: Index,
    contents: Contents,
)
    ensures
        ({
            let head = flush_model(first, index, contents);
            let tail = flush_model(second, head.index, contents);
            let whole = flush_model(first + second, index, contents);
            &&& whole.index == tail.index
            &&& whole.notices == head.notices + tail.notices
            &&& whole.writes == head.writes + tail.writes
        }),
    decreases first.len(),
{
    if first.len() > 0 {
        let entry = first.first();
        let next = match lookup(index, entry.path) {
            Some(_) => index,
            None => upsert(index, record_of(entry, fingerprint(contents, entry.path))),
        };
        assert((first + second).drop_first() =~= first.drop_first() + second);
        lemma_flush_of_two(first.drop_first(), second, next, contents);
    }
}

/// The batch size does not show in the result: flushing batch by batch does
/// what one flush of all the entries, in the same order, does.
pub proof fn lemma_batches_flush_as_one(
    batches: Seq<Seq<EntryView>>,
    index: Index,
    contents: Contents,
)
    ensures
        flush_batches(batches, index, contents) == flush_model(
            batches.flatten(),
            index,
            contents,
        ),
    decreases batches.len(),
{
    if batches.len() > 0 {
        let head = flush_model(batches.first(), index, contents);
        lemma_batches_flush_as_one(batches.drop_first(), head.index, contents);
        lemma_flush_of_two(batches.first(), batches.drop_first().flatten(), index, contents);
    }
}

/// The run over a tree: the walk of `events` from the root, every batch
/// flushed as the walker hands it out.
pub open spec fn run_model(
    capacity: nat,
    events: Seq<WalkEventView>,
    index: Index,
    contents: Contents,
) -> FlushResult {
    flush_batches(walk_run(WalkState::initial(capacity), events).flushes, index, contents)
}

/// The files of a directory without subdirectories are indexed all the same
/// whatever the batch capacity.
pub proof fn lemma_batch_capacity_does_not_matter(
    files: Seq<EntryView>,
    capacity: nat,
    other: nat,
    index: Index,
    contents: Contents,
)
    requires
        capacity >= 1,
        other >= 1,
    ensures
        flush_batches(batches(files, capacity), index, contents) == flush_model(
            files,
            index,
            contents,
        ),
        flush_batches(batches(files, capacity), index, contents) == flush_batches(
            batches(files, other),
            index,
            contents,
        ),
{
    lemma_batches_cover(files, capacity);
    lemma_batches_cover(files, other);
    lemma_batches_flush_as_one(batches(files, capacity), index, contents);
    lemma_batches_flush_as_one(batches(files, other), index, contents);
}

/// A run that reaches the end of its root reports every file it met once,
/// and leaves the path of every one of them on record.
pub proof fn lemma_run_indexes_every_file(
    capacity: nat,
    events: Seq<WalkEventView>,
    index: Index,
    contents: Contents,
)
    requires
        capacity >= 1,
        complete_walk(events, 0),
    ensures
        run_model(capacity, events, index, contents).notices.len() == files_of(events).len(),
        forall|position: int|
            0 <= position < files_of(events).len() ==> run_model(
                capacity,
                events,
                index,
                contents,
            ).index.dom().contains(#[trigger] files_of(events)[position].path),
{
    let flushes = walk_run(WalkState::initial(capacity), events).flushes;
    let flushed = flushes.flatten();
    let files = files_of(events);
    let result = run_model(capacity, events, index, contents);
    lemma_walk_flushes_every_file_once(capacity, events);
    lemma_batches_flush_as_one(flushes, index, contents);
    lemma_flush_records_every_entry(flushed, index, contents);
    vstd::seq_lib::to_multiset_len(flushed);
    vstd::seq_lib::to_multiset_len(files);
    assert forall|position: int| 0 <= position < files.len() implies result.index.dom().contains(
        #[trigger] files[position].path,
    ) by {
        let file = files[position];
        to_multiset_contains(files, file);
        to_multiset_contains(flushed, file);
        assert(flushed.contains(file));
    }
}

/// A second run over a tree that holds no path the first run did not meet
/// writes nothing: in whatever order the entries are listed the second time,
/// with whatever batch capacity, and whatever the files hold by then, the
/// index stays as the first run left it, and the second run gives one notice
/// per file, each a skip with the fingerprint that the first run left on
/// record.
pub proof fn lemma_second_run_only_skips(
    capacity: nat,
    events: Seq<WalkEventView>,
    again_capacity: nat,
    again: Seq<WalkEventView>,
    index: Index,
    contents: Contents,
    later: Contents,
)
    requires
        capacity >= 1,
        again_capacity >= 1,
        complete_walk(events, 0),
        complete_walk(again, 0),
        forall|position: int|
            0 <= position < files_of(again).len() ==> among(
                files_of(events),
                (#[trigger] files_of(again)[position]).path,
            ),
    ensures
        ({
            let once = run_model(capacity, events, index, contents);
            let twice = run_model(again_capacity, again, once.index, later);
            let flushed = walk_run(WalkState::initial(again_capacity), again).flushes.flatten();
            &&& twice.writes == Seq::<RecordView>::empty()
            &&& twice.index == once.index
            &&& twice.notices == skip_notices(flushed, once.index)
            &&& twice.notices.len() == files_of(again).len()
        }),
{
    let once = run_model(capacity, events, index, contents);
    let flushes = walk_run(WalkState::initial(again_capacity), again).flushes;
    let flushed = flushes.flatten();
    let files = files_of(again);
    lemma_run_indexes_every_file(capacity, events, index, contents);
    lemma_walk_flushes_every_file_once(again_capacity, again);
    lemma_batches_flush_as_one(flushes, once.index, later);
    vstd::seq_lib::to_multiset_len(flushed);
    vstd::seq_lib::to_multiset_len(files);
    assert forall|position: int| 0 <= position < flushed.len() implies once.index.dom().contains(
        #[trigger] flushed[position].path,
    ) by {
        let file = flushed[position];
        to_multiset_contains(flushed, file);
        to_multiset_contains(files, file);
        let at = choose|at: int| 0 <= at < files.len() && files[at] == file;
        assert(among(files_of(events), files[at].path));
        let earlier = choose|earlier: int|
            0 <= earlier < files_of(events).len() && (#[trigger] files_of(events)[earlier]).path
                == file.path;
        assert(once.index.dom().contains(files_of(events)[earlier].path));
    }
    lemma_indexed_entries_are_skipped(flushed, once.index, later);
}

} // verus!
