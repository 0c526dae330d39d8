//! Change-detection engine for notifying search endpoints about modified
//! files: scans a content tree, fingerprints files by content hash, diffs
//! the result against a persisted path-to-hash store, applies the resulting
//! mutations in one transaction, and batches the changed URLs for submission.

pub mod config;
pub mod constants;
pub mod filter;
pub mod hashing;
pub mod http;
pub mod payload;
pub mod scan;
pub mod store;
pub mod strutil;
