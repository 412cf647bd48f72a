//! A file-identity catalogue: walk a directory tree, fingerprint every file
//! and keep a path-to-fingerprint index, skipping paths that are already
//! indexed.
//!
//! This crate holds the decisions and the hashing; it performs no I/O. A
//! driver lists directories, reads files and talks to the durable store, and
//! hands what it found to the state machines defined here.

pub mod batch;
pub mod command;
pub mod digest;
pub mod entry;
pub mod flush;
pub mod index;
pub mod pipeline;
pub mod report;
pub mod schema;
pub mod walk_trace;
pub mod walker;
