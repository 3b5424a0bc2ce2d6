//! A storage abstraction with one set of operation semantics for a local
//! filesystem and a remote object store.
//!
//! The library holds the rules of the abstraction: how listings are shaped,
//! how digests are formed, how a chunked upload moves through its states and
//! how a directory tree is walked. The backends perform the reads and writes
//! and hand plain values in and out.

pub mod checksum;
pub mod delete;
pub mod filesystemstore;
pub mod path;
pub mod retry;
pub mod s3store;
pub mod store;
pub mod upload;
pub mod walker;
