//! The batch of pending entries that a directory level fills before it
//! touches the store.

use vstd::prelude::*;

use crate::entry::{entry_views, EntryView, PendingEntry};

verus! {

/// The number of entries a batch holds before it is flushed.
pub const BATCH_SIZE: usize = 20;

/// The capacity that a collector made for `requested` entries has: a
/// collector holds at least one entry.
pub open spec fn effective_capacity(requested: nat) -> nat {
    if requested == 0 {
        1
    } else {
        requested
    }
}

/// Pending entries, never more than a fixed capacity. It holds paths and
/// sizes only, no open files, so entries can wait in it at no cost.
pub struct BatchCollector {
    entries: Vec<PendingEntry>,
    capacity: usize,
}

impl View for BatchCollector {
    type V = Seq<EntryView>;

    closed spec fn view(&self) -> Seq<EntryView> {
        entry_views(self.entries@)
    }
}

impl BatchCollector {
    /// The most entries the collector may hold.
    pub closed spec fn spec_capacity(&self) -> usize {
        self.capacity
    }

    /// The collector can hold an entry, and holds no more than it can.
    pub open spec fn wf(&self) -> bool {
        1 <= self.spec_capacity() && self@.len() <= self.spec_capacity()
    }

    /// An empty collector for batches of `capacity` entries; a capacity of
    /// zero is taken as one, so that every file is flushed as it is found.
    pub fn new(capacity: usize) -> (batch: Self)
        ensures
            batch.wf(),
            batch@ == Seq::<EntryView>::empty(),
            batch.spec_capacity() == effective_capacity(capacity as nat),
    {
        let batch = BatchCollector {
            entries: Vec::new(),
            capacity: if capacity == 0 { 1 } else { capacity },
        };
        batch
    }

    #[verifier::when_used_as_spec(spec_capacity)]
    pub fn capacity(&self) -> (capacity: usize)
        ensures
            capacity == self.spec_capacity(),
    {
        self.capacity
    }

    pub fn len(&self) -> (len: usize)
        ensures
            len == self@.len(),
    {
        self.entries.len()
    }

    pub fn is_empty(&self) -> (empty: bool)
        ensures
            empty == (self@.len() == 0),
    {
        self.entries.len() == 0
    }

    /// Whether the batch has reached its capacity and must be flushed before
    /// anything else is appended.
    pub fn is_full(&self) -> (full: bool)
        ensures
            full == (self@.len() >= self.spec_capacity()),
    {
        self.entries.len() >= self.capacity
    }

    /// Appends an entry. A full batch takes no more: flush it first.
    pub fn push(&mut self, entry: PendingEntry)
        requires
            old(self).wf(),
            old(self)@.len() < old(self).spec_capacity(),
        ensures
            final(self).wf(),
            final(self)@ == old(self)@.push(entry@),
            final(self).spec_capacity() == old(self).spec_capacity(),
    {
        self.entries.push(entry);
    }

    /// Hands out the entries for a flush, in the order in which they were
    /// appended, and leaves the batch empty.
    pub fn drain(&mut self) -> (entries: Vec<PendingEntry>)
        requires
            old(self).wf(),
        ensures
            final(self).wf(),
            entry_views(entries@) == old(self)@,
            final(self)@ == Seq::<EntryView>::empty(),
            final(self).spec_capacity() == old(self).spec_capacity(),
    {
        let mut entries: Vec<PendingEntry> = Vec::new();
        core::mem::swap(&mut self.entries, &mut entries);
        entries
    }

    /// Forgets the entries after a flush.
    pub fn clear(&mut self)
        requires
            old(self).wf(),
        ensures
            final(self).wf(),
            final(self)@ == Seq::<EntryView>::empty(),
            final(self).spec_capacity() == old(self).spec_capacity(),
    {
        self.entries.clear();
    }
}

} // verus!
