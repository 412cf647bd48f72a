//! The two records of the catalogue: a file that was discovered and waits to
//! be indexed, and a file as the index holds it.

use vstd::prelude::*;

verus! {

/// A discovered file that waits in a batch: its path and its size in bytes,
/// both known from the directory listing alone.
#[derive(Debug, PartialEq, Eq)]
pub struct PendingEntry {
    pub path: String,
    pub size: i64,
}

/// A pending entry as contracts speak of it.
pub ghost struct EntryView {
    pub path: Seq<char>,
    pub size: int,
}

impl View for PendingEntry {
    type V = EntryView;

    open spec fn view(&self) -> EntryView {
        EntryView { path: self.path@, size: self.size as int }
    }
}

/// The views of a sequence of entries, in the same order.
pub open spec fn entry_views(entries: Seq<PendingEntry>) -> Seq<EntryView> {
    entries.map_values(|entry: PendingEntry| entry@)
}

impl Clone for PendingEntry {
    fn clone(&self) -> (copy: Self)
        ensures
            copy@ == self@,
    {
        PendingEntry { path: self.path.clone(), size: self.size }
    }
}

impl PendingEntry {
    pub fn new(path: String, size: i64) -> (entry: Self)
        ensures
            entry@ == (EntryView { path: path@, size: size as int }),
    {
        PendingEntry { path, size }
    }
}

/// What the index holds for a path: the fingerprint of the file's content and
/// its size when it was hashed.
#[derive(Debug, PartialEq, Eq)]
pub struct FileRecord {
    pub path: String,
    pub digest: String,
    pub size: i64,
}

/// A record as contracts speak of it.
pub ghost struct RecordView {
    pub path: Seq<char>,
    pub digest: Seq<char>,
    pub size: int,
}

impl View for FileRecord {
    type V = RecordView;

    open spec fn view(&self) -> RecordView {
        RecordView { path: self.path@, digest: self.digest@, size: self.size as int }
    }
}

/// The record that indexing `entry` with fingerprint `digest` writes.
pub open spec fn record_of(entry: EntryView, digest: Seq<char>) -> RecordView {
    RecordView { path: entry.path, digest, size: entry.size }
}

impl Clone for FileRecord {
    fn clone(&self) -> (copy: Self)
        ensures
            copy@ == self@,
    {
        FileRecord { path: self.path.clone(), digest: self.digest.clone(), size: self.size }
    }
}

impl FileRecord {
    /// The record for a pending entry whose content has the given
    /// fingerprint.
    pub fn of(entry: &PendingEntry, digest: String) -> (record: Self)
        ensures
            record@ == record_of(entry@, digest@),
    {
        FileRecord { path: entry.path.clone(), digest, size: entry.size }
    }
}

} // verus!
