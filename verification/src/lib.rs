//! Content-addressed paste store for build exports, with a cache-aside
//! acceleration layer.
//!
//! The pipeline turns an untrusted upload into a validated, hashed,
//! uniquely identified, durably stored object:
//! size check, decompression, structural validation, content hashing,
//! identifier encoding, path mapping, storage with bounded retry.
//! Reads go through an edge-cache middleware that populates the cache
//! in a detached background task.

pub mod api;
pub mod b64;
pub mod cache;
pub mod codec;
pub mod config;
pub mod error;
pub mod hashing;
pub mod http;
pub mod ids;
pub mod laws;
pub mod meta;
pub mod model;
pub mod router;
pub mod storage;
pub mod strutil;
pub mod validator;
pub mod xml;

use vstd::prelude::*;

verus! {

/// Maximum accepted upload size in bytes.
pub const MAX_UPLOAD_SIZE: usize = 2097152;

} // verus!
