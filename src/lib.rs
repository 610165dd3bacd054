//! Verified core of a one-way folder mirror to a WebDAV store: content
//! fingerprints, the hash ledger that remembers them, the path and status
//! rules of the WebDAV client, and the per-file decisions of a sync run.

pub mod config;
pub mod paths;
pub mod hash_store;
pub mod fingerprint;
pub mod sync;
pub mod webdav;
