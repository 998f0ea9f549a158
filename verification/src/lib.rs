//! Verified core of a gallery downloader: escape repair for embedded JSON
//! text, a permissive metadata decoder, search-page interpretation, and the
//! decision logic for resumable, concurrency-capped page downloads.
//!
//! Network and filesystem work live outside this crate; every call into an
//! outside crate that computes on plain values stands behind a small trusted
//! wrapper whose contract names what the call returns.

pub mod download;
pub mod escape;
pub mod gallery;
pub mod json;
pub mod markup;
pub mod query;
pub mod strutil;
