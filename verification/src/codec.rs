//! The codec: reversible compression between the wire payload and plain
//! text.
//!
//! A wire payload is unpadded URL-safe base64 over a zlib stream whose
//! inflation must be valid UTF-8.  `decompress` is the inbound gate;
//! `compress` produces payloads for share links.

use crate::b64;
use vstd::prelude::*;
use vstd::string::StringSliceAdditionalSpecFns;
use vstd::string::StrSliceExecFns;
use vstd::string::StringExecFns;
use vstd::utf8::{encode_utf8, valid_utf8};

verus! {

/// Compression level handed to the deflater for share-link payloads.
pub const COMPRESSION_LEVEL: u8 = 6;

/// What `zlib_inflate` returns for a given input: inflation is a function
/// of the compressed bytes alone, `None` on malformed framing.
pub uninterp spec fn inflate_of(b: Seq<u8>) -> Option<Seq<u8>>;

/// What `zlib_deflate` returns for a given input and level.
pub uninterp spec fn deflate_of(b: Seq<u8>, level: u8) -> Seq<u8>;

/// Relies on miniz_oxide::inflate::decompress_to_vec_zlib: inflates a
/// zlib-framed stream, failing on malformed framing; the result depends
/// on the input bytes alone.
#[verifier::external_body]
fn zlib_inflate(b: &Vec<u8>) -> (r: Option<Vec<u8>>)
    ensures
        match r {
            Some(v) => inflate_of(b@) == Some(v@),
            None => inflate_of(b@) is None,
        },
{
    miniz_oxide::inflate::decompress_to_vec_zlib(b).ok()
}

/// Relies on miniz_oxide::deflate::compress_to_vec_zlib: emits a
/// zlib-framed stream; the result depends on the input and level alone.
#[verifier::external_body]
fn zlib_deflate(b: &Vec<u8>, level: u8) -> (r: Vec<u8>)
    ensures
        r@ == deflate_of(b@, level),
{
    miniz_oxide::deflate::compress_to_vec_zlib(b, level)
}

/// Relies on core::str::from_utf8: succeeds exactly on valid UTF-8 and
/// returns the string of those bytes.
#[verifier::external_body]
fn utf8_to_str(b: &[u8]) -> (r: Option<&str>)
    ensures
        match r {
            Some(s) => valid_utf8(b@) && s.spec_bytes() == b@,
            None => !valid_utf8(b@),
        },
{
    core::str::from_utf8(b).ok()
}

/// Relies on alloc::string::String::from_utf8: bytes below 128 are valid
/// UTF-8 (ASCII) and decode to the characters of the same values.
#[verifier::external_body]
pub fn ascii_to_string(b: &Vec<u8>) -> (r: String)
    requires
        forall|i: int| 0 <= i < b@.len() ==> b@[i] < 128,
    ensures
        r@.len() == b@.len(),
        forall|i: int| 0 <= i < b@.len() ==> r@[i] == b@[i] as char,
        vstd::utf8::is_ascii_chars(r@),
{
    String::from_utf8(b.clone()).unwrap()
}

/// The characters of an ASCII byte sequence, value for value.
pub open spec fn ascii_chars(b: Seq<u8>) -> Seq<char> {
    Seq::new(b.len(), |i: int| b[i] as char)
}

/// Why decoding a wire payload failed.
pub enum DecodeError {
    /// The payload is not base64 over the URL-safe alphabet.
    Encoding,
    /// The base64-decoded bytes are not a well-formed zlib stream.
    Framing,
    /// The inflated bytes are not valid UTF-8.
    Text,
}

impl DecodeError {
    /// The short client-visible description of the failure.
    pub fn message(&self) -> (m: &'static str)
        ensures
            m@ == self.spec_message(),
    {
        match self {
            DecodeError::Encoding => "invalid payload encoding",
            DecodeError::Framing => "invalid payload compression",
            DecodeError::Text => "invalid payload text",
        }
    }

    pub open spec fn spec_message(&self) -> Seq<char> {
        match self {
            DecodeError::Encoding => "invalid payload encoding"@,
            DecodeError::Framing => "invalid payload compression"@,
            DecodeError::Text => "invalid payload text"@,
        }
    }
}

/// A payload with up to two trailing `=` padding bytes, as classic
/// encoders emit them, is read as its unpadded form.
pub open spec fn strip_padding(s: Seq<u8>) -> Seq<u8> {
    if s.len() > 0 && s[s.len() - 1] == 61 {
        if s.len() > 1 && s[s.len() - 2] == 61 {
            s.take(s.len() - 2)
        } else {
            s.take(s.len() - 1)
        }
    } else {
        s
    }
}

/// Drops up to two trailing `=` bytes.
fn strip_padding_exec(payload: &[u8]) -> (r: &[u8])
    ensures
        r@ == strip_padding(payload@),
{
    let n = payload.len();
    if n > 0 && payload[n - 1] == 61 {
        if n > 1 && payload[n - 2] == 61 {
            vstd::slice::slice_subrange(payload, 0, n - 2)
        } else {
            vstd::slice::slice_subrange(payload, 0, n - 1)
        }
    } else {
        let r = vstd::slice::slice_subrange(payload, 0, n);
        proof {
            assert(r@ =~= payload@);
        }
        r
    }
}

/// The inflated bytes of a wire payload, if every gate passes: padding
/// stripped, base64 decoding, zlib inflation, UTF-8 validity.
pub open spec fn spec_decompress(b: Seq<u8>) -> Option<Seq<u8>> {
    match b64::spec_b64_decode(strip_padding(b)) {
        Some(z) => match inflate_of(z) {
            Some(t) => if valid_utf8(t) {
                Some(t)
            } else {
                None
            },
            None => None,
        },
        None => None,
    }
}

/// Decompresses a wire payload to plain text.
///
/// Fails on malformed base64, malformed zlib framing, or invalid text
/// encoding after inflation, each with its own error.
pub fn decompress(payload: &[u8]) -> (r: Result<String, DecodeError>)
    ensures
        match r {
            Ok(s) => spec_decompress(payload@) == Some(encode_utf8(s@)),
            Err(DecodeError::Encoding) => b64::spec_b64_decode(strip_padding(payload@)) is None,
            Err(DecodeError::Framing) => b64::spec_b64_decode(strip_padding(payload@))
                matches Some(z) && inflate_of(z) is None,
            Err(DecodeError::Text) => b64::spec_b64_decode(strip_padding(payload@))
                matches Some(z) && inflate_of(z) matches Some(t) && !valid_utf8(t),
        },
        r is Err <==> spec_decompress(payload@) is None,
{
    let stripped = strip_padding_exec(payload);
    let z = match b64::b64_decode(stripped) {
        Some(z) => z,
        None => {
            return Err(DecodeError::Encoding);
        },
    };
    let t = match zlib_inflate(&z) {
        Some(t) => t,
        None => {
            return Err(DecodeError::Framing);
        },
    };
    match utf8_to_str(t.as_slice()) {
        Some(s) => Ok(s.to_owned()),
        None => Err(DecodeError::Text),
    }
}

/// Compresses plain text to a wire payload: deflate, then base64.
pub fn compress(text: &str) -> (r: String)
    ensures
        r@ == ascii_chars(b64::spec_b64_encode(deflate_of(text.spec_bytes(), COMPRESSION_LEVEL))),
{
    let bytes = text.as_bytes_vec();
    let z = zlib_deflate(&bytes, COMPRESSION_LEVEL);
    let enc = b64::b64_encode(z.as_slice());
    proof {
        b64::lemma_b64_encode_alphabet(z@);
        assert forall|i: int| 0 <= i < enc@.len() implies enc@[i] < 128 by {
            assert(b64::is_b64_byte(enc@[i]));
        }
    }
    let r = ascii_to_string(&enc);
    proof {
        assert(r@ =~= ascii_chars(enc@));
    }
    r
}

} // verus!
