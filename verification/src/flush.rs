//! The flush of one batch: for each pending entry, in batch order, ask the
//! index for the path; a path on record is skipped, any other is hashed and
//! its record written.
//!
//! The driver does the asking, the hashing and the writing. Each of these
//! hands back a value that stands for the wait, and the only way on from it
//! is its answer: a failure leaves the driver with nothing to go on with, so
//! a flush ends at the first entry that fails.

use vstd::prelude::*;

use crate::entry::{entry_views, record_of, EntryView, FileRecord, PendingEntry, RecordView};
use crate::report::{Notice, NoticeView};

verus! {

/// A flush in progress: the batch and the position of the entry that is being
/// dealt with.
pub ghost struct FlushState {
    pub entries: Seq<EntryView>,
    pub cursor: nat,
}

impl FlushState {
    /// The flush of a batch, before its first entry.
    pub open spec fn start(entries: Seq<EntryView>) -> FlushState {
        FlushState { entries, cursor: 0 }
    }

    /// There is an entry to deal with.
    pub open spec fn wf(self) -> bool {
        self.cursor < self.entries.len()
    }

    /// The entry that is being dealt with.
    pub open spec fn current(self) -> EntryView {
        self.entries[self.cursor as int]
    }

    /// The entries that have not been dealt with yet, the current one first.
    pub open spec fn remaining(self) -> Seq<EntryView> {
        self.entries.skip(self.cursor as int)
    }

    /// The flush once the current entry is dealt with.
    pub open spec fn advanced(self) -> FlushState {
        FlushState { entries: self.entries, cursor: self.cursor + 1 }
    }

    /// The notice for the current entry when the index has it on record with
    /// `digest`.
    pub open spec fn skipped(self, digest: Seq<char>) -> NoticeView {
        NoticeView::Skipped { path: self.current().path, digest }
    }

    /// The record to write for the current entry when its content has the
    /// fingerprint `digest`.
    pub open spec fn record(self, digest: Seq<char>) -> RecordView {
        record_of(self.current(), digest)
    }

    /// The notice for the current entry once its record is written.
    pub open spec fn processed(self, digest: Seq<char>) -> NoticeView {
        NoticeView::Processed { path: self.current().path, digest }
    }
}

/// What comes next in a flush, as contracts speak of it.
pub ghost enum FlushStepView {
    Lookup(FlushState),
    Done,
}

/// What comes after `state`: the lookup of its current entry, or nothing when
/// the batch is used up.
pub open spec fn next_step(state: FlushState) -> FlushStepView {
    if state.cursor < state.entries.len() {
        FlushStepView::Lookup(state)
    } else {
        FlushStepView::Done
    }
}

/// The batch and the position in it.
struct Cursor {
    entries: Vec<PendingEntry>,
    position: usize,
}

impl View for Cursor {
    type V = FlushState;

    closed spec fn view(&self) -> FlushState {
        FlushState { entries: entry_views(self.entries@), cursor: self.position as nat }
    }
}

impl Cursor {
    fn current(&self) -> (entry: &PendingEntry)
        requires
            self@.wf(),
        ensures
            entry@ == self@.current(),
    {
        &self.entries[self.position]
    }

    fn advance(self) -> (step: FlushStep)
        requires
            self@.wf(),
        ensures
            step@ == next_step(self@.advanced()),
            step.wf(),
    {
        assert(self@.entries.len() == self.entries.len());
        let cursor = Cursor { entries: self.entries, position: self.position + 1 };
        if cursor.position < cursor.entries.len() {
            FlushStep::Lookup(LookupPending { cursor })
        } else {
            FlushStep::Done
        }
    }
}

/// What the driver is to do next in a flush.
pub enum FlushStep {
    /// Ask the index for the path of the current entry.
    Lookup(LookupPending),
    /// The batch is flushed.
    Done,
}

impl View for FlushStep {
    type V = FlushStepView;

    open spec fn view(&self) -> FlushStepView {
        match self {
            FlushStep::Lookup(pending) => FlushStepView::Lookup(pending@),
            FlushStep::Done => FlushStepView::Done,
        }
    }
}

impl FlushStep {
    /// A pending lookup has an entry to look up.
    pub open spec fn wf(&self) -> bool {
        match self {
            FlushStep::Lookup(pending) => pending.wf(),
            FlushStep::Done => true,
        }
    }
}

/// Starts the flush of a batch.
pub fn begin(entries: Vec<PendingEntry>) -> (step: FlushStep)
    ensures
        step@ == next_step(FlushState::start(entry_views(entries@))),
        step.wf(),
{
    let cursor = Cursor { entries, position: 0 };
    if cursor.position < cursor.entries.len() {
        FlushStep::Lookup(LookupPending { cursor })
    } else {
        FlushStep::Done
    }
}

/// The flush waits for the index to say whether the current path is on
/// record.
pub struct LookupPending {
    cursor: Cursor,
}

impl View for LookupPending {
    type V = FlushState;

    closed spec fn view(&self) -> FlushState {
        self.cursor@
    }
}

impl LookupPending {
    pub open spec fn wf(&self) -> bool {
        self@.wf()
    }

    /// The path to look up.
    pub fn path(&self) -> (path: &str)
        requires
            self.wf(),
        ensures
            path@ == self@.current().path,
    {
        self.cursor.current().path.as_str()
    }

    /// The index has the path on record with `digest`: the entry is skipped,
    /// its file is not read, and the flush moves on.
    pub fn found(self, digest: String) -> (next: (Notice, FlushStep))
        requires
            self.wf(),
        ensures
            next.0@ == self@.skipped(digest@),
            next.1@ == next_step(self@.advanced()),
            next.1.wf(),
    {
        let path = self.cursor.current().path.clone();
        let notice = Notice::Skipped { path, digest };
        (notice, self.cursor.advance())
    }

    /// The index has no record for the path: the file is to be hashed.
    pub fn missing(self) -> (pending: HashPending)
        requires
            self.wf(),
        ensures
            pending@ == self@,
            pending.wf(),
    {
        HashPending { cursor: self.cursor }
    }
}

/// The flush waits for the fingerprint of the current file.
pub struct HashPending {
    cursor: Cursor,
}

impl View for HashPending {
    type V = FlushState;

    closed spec fn view(&self) -> FlushState {
        self.cursor@
    }
}

impl HashPending {
    pub open spec fn wf(&self) -> bool {
        self@.wf()
    }

    /// The path of the file to hash.
    pub fn path(&self) -> (path: &str)
        requires
            self.wf(),
        ensures
            path@ == self@.current().path,
    {
        self.cursor.current().path.as_str()
    }

    /// The file was hashed: its record is to be written.
    pub fn hashed(self, digest: String) -> (pending: StorePending)
        requires
            self.wf(),
        ensures
            pending@ == self@,
            pending.digest() == digest@,
            pending.wf(),
    {
        StorePending { cursor: self.cursor, digest }
    }
}

/// The flush waits for the store to take the record of the current file.
pub struct StorePending {
    cursor: Cursor,
    digest: String,
}

impl View for StorePending {
    type V = FlushState;

    closed spec fn view(&self) -> FlushState {
        self.cursor@
    }
}

impl StorePending {
    /// The fingerprint that the record carries.
    pub closed spec fn digest(&self) -> Seq<char> {
        self.digest@
    }

    pub open spec fn wf(&self) -> bool {
        self@.wf()
    }

    /// The record to upsert: the entry's path and size with the fingerprint.
    pub fn record(&self) -> (record: FileRecord)
        requires
            self.wf(),
        ensures
            record@ == self@.record(self.digest()),
    {
        FileRecord::of(self.cursor.current(), self.digest.clone())
    }

    /// The store took the record: the entry is processed, and the flush moves
    /// on.
    pub fn stored(self) -> (next: (Notice, FlushStep))
        requires
            self.wf(),
        ensures
            next.0@ == self@.processed(self.digest()),
            next.1@ == next_step(self@.advanced()),
            next.1.wf(),
    {
        let path = self.cursor.current().path.clone();
        let notice = Notice::Processed { path, digest: self.digest };
        (notice, self.cursor.advance())
    }
}

} // verus!
