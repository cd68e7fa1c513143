//! Chunked-upload ingestion and integrity library.
//!
//! The crate reassembles large binary payloads that arrive as numbered byte
//! chunks, guards the storage namespace against path traversal, sanitizes
//! user-supplied file names, computes and checks content digests, hashes and
//! verifies credentials under selectable schemes, and serves bounded range
//! reads of stored artifacts.

pub mod errors;
pub mod path_guard;
pub mod strutil;
pub mod hexutil;
pub mod digest;
pub mod session;
pub mod clock;
pub mod sanitize;
pub mod config;
pub mod validate;
pub mod range;
pub mod password;
pub mod upload;
pub mod requests;
