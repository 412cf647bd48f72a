//! The tree walk as a state machine. A driver lists directories depth first
//! and reports what it meets, one event at a time; the walker keeps one batch
//! of pending entries per directory level and says when to flush, when to
//! descend and when the walk is over.
//!
//! An entry counts as a directory when it resolves to one, links included;
//! everything else is taken as a file.

use vstd::prelude::*;

use crate::batch::{effective_capacity, BatchCollector};
use crate::entry::{entry_views, EntryView, PendingEntry};
use crate::report::{Failure, FailureView, Notice, NoticeView};

verus! {

/// What the driver met since the last step.
#[derive(Debug, PartialEq, Eq)]
pub enum WalkEvent {
    /// The next entry of the current directory is a directory.
    Directory(String),
    /// The next entry of the current directory is a file.
    File(PendingEntry),
    /// The current directory has no more entries.
    EndOfDirectory,
    /// Opening or reading a directory, fetching metadata, or a flush failed.
    Failed(Failure),
}

/// An event as contracts speak of it.
pub ghost enum WalkEventView {
    Directory(Seq<char>),
    File(EntryView),
    EndOfDirectory,
    Failed(FailureView),
}

impl View for WalkEvent {
    type V = WalkEventView;

    open spec fn view(&self) -> WalkEventView {
        match self {
            WalkEvent::Directory(directory) => WalkEventView::Directory(directory@),
            WalkEvent::File(entry) => WalkEventView::File(entry@),
            WalkEvent::EndOfDirectory => WalkEventView::EndOfDirectory,
            WalkEvent::Failed(failure) => WalkEventView::Failed(failure@),
        }
    }
}

impl Clone for WalkEvent {
    fn clone(&self) -> (copy: Self)
        ensures
            copy@ == self@,
    {
        match self {
            WalkEvent::Directory(directory) => WalkEvent::Directory(directory.clone()),
            WalkEvent::File(entry) => WalkEvent::File(entry.clone()),
            WalkEvent::EndOfDirectory => WalkEvent::EndOfDirectory,
            WalkEvent::Failed(failure) => WalkEvent::Failed(failure.clone()),
        }
    }
}

/// The walk in progress: the batch of every directory level that is open, the
/// root's first and the current directory's last, and the batch capacity.
pub ghost struct WalkState {
    pub frames: Seq<Seq<EntryView>>,
    pub capacity: nat,
}

impl WalkState {
    /// A walk that has just opened its root directory.
    pub open spec fn initial(capacity: nat) -> WalkState {
        WalkState { frames: seq![Seq::<EntryView>::empty()], capacity }
    }

    /// At least the root is open, and no batch has reached the capacity: a
    /// batch is flushed the moment it does.
    pub open spec fn wf(self) -> bool {
        &&& self.capacity >= 1
        &&& self.frames.len() >= 1
        &&& forall|level: int|
            0 <= level < self.frames.len() ==> (#[trigger] self.frames[level]).len()
                < self.capacity
    }

    /// The batch of the current directory.
    pub open spec fn top(self) -> Seq<EntryView> {
        self.frames.last()
    }

    /// The same walk with another batch for the current directory.
    pub open spec fn with_top(self, batch: Seq<EntryView>) -> WalkState {
        WalkState { frames: self.frames.drop_last().push(batch), capacity: self.capacity }
    }

    /// The walk after a subdirectory was opened.
    pub open spec fn descended(self) -> WalkState {
        WalkState {
            frames: self.frames.push(Seq::<EntryView>::empty()),
            capacity: self.capacity,
        }
    }

    /// The walk after the current directory was left.
    pub open spec fn ascended(self) -> WalkState {
        WalkState { frames: self.frames.drop_last(), capacity: self.capacity }
    }
}

/// The batch to flush, if it holds anything.
pub open spec fn trailing(batch: Seq<EntryView>) -> Option<Seq<EntryView>> {
    if batch.len() > 0 {
        Some(batch)
    } else {
        None
    }
}

/// What a step asks of the driver, as contracts speak of it.
pub ghost enum WalkOutcome {
    Read { state: WalkState, flush: Option<Seq<EntryView>> },
    Descend { state: WalkState, directory: Seq<char> },
    Ascend { state: WalkState, flush: Option<Seq<EntryView>> },
    Finish { flush: Option<Seq<EntryView>> },
    Abort { failure: FailureView },
}

/// The walker's rule.
///
/// A directory is descended into before its siblings are looked at, with a
/// batch of its own. A file joins the batch of the current directory, and the
/// batch is flushed as soon as it holds `capacity` entries. At the end of a
/// directory what is left in its batch is flushed and the walk returns to the
/// parent, or ends if the directory was the root. Any failure ends the walk.
pub open spec fn walk_step(state: WalkState, event: WalkEventView) -> WalkOutcome {
    match event {
        WalkEventView::Directory(directory) => WalkOutcome::Descend {
            state: state.descended(),
            directory,
        },
        WalkEventView::File(entry) => {
            let batch = state.top().push(entry);
            if batch.len() >= state.capacity {
                WalkOutcome::Read {
                    state: state.with_top(Seq::<EntryView>::empty()),
                    flush: Some(batch),
                }
            } else {
                WalkOutcome::Read { state: state.with_top(batch), flush: None }
            }
        },
        WalkEventView::EndOfDirectory => {
            if state.frames.len() > 1 {
                WalkOutcome::Ascend { state: state.ascended(), flush: trailing(state.top()) }
            } else {
                WalkOutcome::Finish { flush: trailing(state.top()) }
            }
        },
        WalkEventView::Failed(failure) => WalkOutcome::Abort { failure },
    }
}

/// The walker: one batch per open directory level.
pub struct Walker {
    frames: Vec<BatchCollector>,
    capacity: usize,
}

impl View for Walker {
    type V = WalkState;

    closed spec fn view(&self) -> WalkState {
        WalkState {
            frames: self.frames@.map_values(|batch: BatchCollector| batch@),
            capacity: self.capacity as nat,
        }
    }
}

/// What the driver is to do after a step.
pub enum WalkStep {
    /// Flush the batch, if there is one, then read the next entry of the
    /// current directory.
    Read { walker: Walker, flush: Option<Vec<PendingEntry>> },
    /// Open the directory and read its first entry.
    Descend { walker: Walker, directory: String },
    /// Flush the batch, if there is one, then close the current directory and
    /// read the next entry of its parent.
    Ascend { walker: Walker, flush: Option<Vec<PendingEntry>> },
    /// Flush the batch, if there is one; the walk is complete.
    Finish { flush: Option<Vec<PendingEntry>> },
    /// Stop: the run has failed.
    Abort { failure: Failure },
}

/// A batch to flush as contracts speak of it.
pub open spec fn flush_view(flush: Option<Vec<PendingEntry>>) -> Option<Seq<EntryView>> {
    match flush {
        Some(entries) => Some(entry_views(entries@)),
        None => None,
    }
}

impl View for WalkStep {
    type V = WalkOutcome;

    open spec fn view(&self) -> WalkOutcome {
        match self {
            WalkStep::Read { walker, flush } => WalkOutcome::Read {
                state: walker@,
                flush: flush_view(*flush),
            },
            WalkStep::Descend { walker, directory } => WalkOutcome::Descend {
                state: walker@,
                directory: directory@,
            },
            WalkStep::Ascend { walker, flush } => WalkOutcome::Ascend {
                state: walker@,
                flush: flush_view(*flush),
            },
            WalkStep::Finish { flush } => WalkOutcome::Finish { flush: flush_view(*flush) },
            WalkStep::Abort { failure } => WalkOutcome::Abort { failure: failure@ },
        }
    }
}

/// The notice that goes with a step: entering a directory is told, nothing
/// else is.
pub open spec fn walk_notice(outcome: WalkOutcome) -> Option<NoticeView> {
    match outcome {
        WalkOutcome::Descend { directory, .. } => Some(NoticeView::Entering { directory }),
        _ => None,
    }
}

/// A notice, if there is one, as contracts speak of it.
pub open spec fn notice_view(notice: Option<Notice>) -> Option<NoticeView> {
    match notice {
        Some(notice) => Some(notice@),
        None => None,
    }
}

impl WalkStep {
    /// The notice to give before the step is carried out.
    pub fn notice(&self) -> (notice: Option<Notice>)
        ensures
            notice_view(notice) == walk_notice(self@),
    {
        match self {
            WalkStep::Descend { directory, .. } => Some(
                Notice::Entering { directory: directory.clone() },
            ),
            _ => None,
        }
    }

    /// The walker that goes on, if any, is well formed.
    pub open spec fn wf(&self) -> bool {
        match self {
            WalkStep::Read { walker, .. } => walker.wf(),
            WalkStep::Descend { walker, .. } => walker.wf(),
            WalkStep::Ascend { walker, .. } => walker.wf(),
            _ => true,
        }
    }
}

impl Walker {
    /// The walker's state is a well-formed walk, and every level's batch has
    /// the walker's capacity.
    pub closed spec fn wf(&self) -> bool {
        &&& self@.wf()
        &&& forall|level: int|
            0 <= level < self.frames.len() ==> {
                &&& (#[trigger] self.frames[level]).wf()
                &&& self.frames[level].spec_capacity() == self.capacity
            }
    }

    /// A walker for a root directory that the driver has just opened. A
    /// capacity of zero is taken as one.
    pub fn new(capacity: usize) -> (walker: Self)
        ensures
            walker.wf(),
            walker@ == WalkState::initial(effective_capacity(capacity as nat)),
    {
        let root = BatchCollector::new(capacity);
        let capacity: usize = root.capacity();
        let mut frames: Vec<BatchCollector> = Vec::new();
        frames.push(root);
        let walker = Walker { frames, capacity };
        assert(walker@.frames =~= seq![Seq::<EntryView>::empty()]);
        walker
    }

    /// A well-formed walker stands for a well-formed walk.
    pub proof fn lemma_wf(&self)
        requires
            self.wf(),
        ensures
            self@.wf(),
    {
    }

    /// Takes one event and says what to do next, as [`walk_step`] rules.
    pub fn step(self, event: WalkEvent) -> (next: WalkStep)
        requires
            self.wf(),
        ensures
            next@ == walk_step(self@, event@),
            next.wf(),
    {
        let mut walker = self;
        match event {
            WalkEvent::Directory(directory) => {
                let batch = BatchCollector::new(walker.capacity);
                walker.frames.push(batch);
                assert(walker@.frames =~= self@.descended().frames);
                WalkStep::Descend { walker, directory }
            },
            WalkEvent::File(entry) => {
                let mut top = walker.frames.pop().unwrap();
                top.push(entry);
                if top.is_full() {
                    let batch = top.drain();
                    walker.frames.push(top);
                    assert(walker@.frames =~= self@.with_top(Seq::<EntryView>::empty()).frames);
                    WalkStep::Read { walker, flush: Some(batch) }
                } else {
                    walker.frames.push(top);
                    assert(walker@.frames =~= self@.with_top(self@.top().push(entry@)).frames);
                    WalkStep::Read { walker, flush: None }
                }
            },
            WalkEvent::EndOfDirectory => {
                let mut top = walker.frames.pop().unwrap();
                let flush = if top.is_empty() {
                    None
                } else {
                    Some(top.drain())
                };
                assert(walker@.frames =~= self@.ascended().frames);
                if walker.frames.len() > 0 {
                    WalkStep::Ascend { walker, flush }
                } else {
                    WalkStep::Finish { flush }
                }
            },
            WalkEvent::Failed(failure) => WalkStep::Abort { failure },
        }
    }
}

} // verus!
