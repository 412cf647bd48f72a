//! The index as the pipeline sees it: a mapping from path to fingerprint and
//! size, with at most one record per path. The durable store behind it is the
//! driver's business; these are the answers the pipeline counts on.

use vstd::prelude::*;

use crate::entry::RecordView;

verus! {

/// What the index holds for one path.
pub ghost struct Stored {
    pub digest: Seq<char>,
    pub size: int,
}

/// The records of the index, by path.
pub type Index = Map<Seq<char>, Stored>;

/// What a record stores under its path.
pub open spec fn stored_of(record: RecordView) -> Stored {
    Stored { digest: record.digest, size: record.size }
}

/// The point query: what is on record for `path`, or `None` if the path was
/// never indexed.
pub open spec fn lookup(index: Index, path: Seq<char>) -> Option<Stored> {
    if index.dom().contains(path) {
        Some(index[path])
    } else {
        None
    }
}

/// Insert, or replace what the path had.
pub open spec fn upsert(index: Index, record: RecordView) -> Index {
    index.insert(record.path, stored_of(record))
}

/// After an upsert the path holds the record, and every other path holds what
/// it held.
pub proof fn lemma_upsert_then_lookup(index: Index, record: RecordView, path: Seq<char>)
    ensures
        lookup(upsert(index, record), record.path) == Some(stored_of(record)),
        path != record.path ==> lookup(upsert(index, record), path) == lookup(index, path),
{
}

/// A path has one record: an upsert for a path that already has a record
/// replaces it. The index then holds the new fingerprint for the path, holds
/// no record more than before, and is what it would be had the earlier record
/// never been written.
pub proof fn lemma_upsert_replaces(index: Index, earlier: RecordView, later: RecordView)
    requires
        earlier.path == later.path,
    ensures
        lookup(upsert(upsert(index, earlier), later), later.path) == Some(stored_of(later)),
        upsert(upsert(index, earlier), later).dom() == upsert(index, earlier).dom(),
        upsert(upsert(index, earlier), later) == upsert(index, later),
{
}

/// An upsert may be repeated: the second call with the same record changes
/// nothing.
pub proof fn lemma_upsert_is_idempotent(index: Index, record: RecordView)
    ensures
        upsert(upsert(index, record), record) == upsert(index, record),
{
}

} // verus!
