//! The persisted index as a relational store sees it: one table keyed by
//! path, and the statements that the pipeline's three store operations are
//! made with. The texts are for a driver and its SQLite connection.

use vstd::prelude::*;

verus! {

/// Creates the table on first use: one row per path.
pub const CREATE_TABLE: &'static str =
    "CREATE TABLE IF NOT EXISTS file_hashes (id INTEGER PRIMARY KEY, path TEXT NOT NULL UNIQUE, digest TEXT NOT NULL, size INTEGER NOT NULL)";

/// Creates the index that makes the point query cheap.
pub const CREATE_INDEX: &'static str = "CREATE INDEX IF NOT EXISTS idx_path ON file_hashes(path)";

/// The point query: fingerprint and size on record for the path `?1`.
pub const LOOKUP: &'static str = "SELECT digest, size FROM file_hashes WHERE path = ?1";

/// Inserts the record `?1`, `?2`, `?3` (path, fingerprint, size), or replaces
/// fingerprint and size where the path is on record.
pub const UPSERT: &'static str =
    "INSERT INTO file_hashes (path, digest, size) VALUES (?1, ?2, ?3) ON CONFLICT(path) DO UPDATE SET digest = excluded.digest, size = excluded.size";

} // verus!
