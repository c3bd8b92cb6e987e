//! The content hasher: a fixed-size digest of the raw uploaded bytes.
//!
//! The digest is the dedup key of the whole store: identical bytes hash
//! to identical digests, so identical uploads land on identical
//! identifiers.

use sha1::Digest;
use vstd::prelude::*;

verus! {

/// Number of bytes in a digest.
pub const DIGEST_LEN: usize = 20;

/// What `sha1` returns for a given input: the digest is a function of
/// the hashed bytes alone.
pub uninterp spec fn sha1_of(b: Seq<u8>) -> Seq<u8>;

/// Relies on sha1::Sha1 (RustCrypto): the SHA-1 digest is 20 bytes and
/// depends on the input bytes alone.
#[verifier::external_body]
pub fn sha1(b: &Vec<u8>) -> (r: Vec<u8>)
    ensures
        r@ == sha1_of(b@),
        r@.len() == DIGEST_LEN,
{
    sha1::Sha1::digest(b).to_vec()
}

} // verus!
