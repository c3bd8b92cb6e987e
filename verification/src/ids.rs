//! Identifier encoding and path mapping.
//!
//! A public identifier is the URL-safe base64 encoding of a digest,
//! truncated to [`ID_LEN`] code units: a dense six-bits-per-character
//! alphabet, deliberately not hexadecimal, so identifiers stay short.
//! Truncation is deterministic; identical digests always yield the
//! identical identifier.
//!
//! A storage key is the identifier under the `pastes/` namespace, after
//! the identifier passes charset and length validation, so that
//! attacker-controlled identifiers in download URLs cannot reach outside
//! the namespace.

use crate::b64;
use crate::codec::ascii_to_string;
use crate::error::Error;
use vstd::prelude::*;
use vstd::string::StrSliceExecFns;
use vstd::string::StringExecFns;

verus! {

/// Length of a public identifier in characters.
pub const ID_LEN: usize = 9;

/// Longest identifier `to_path` accepts.
pub const MAX_ID_LEN: usize = 90;

/// The characters of the identifier derived from a digest: the first
/// `n` code units of its base64 encoding.
pub open spec fn spec_short_id(digest: Seq<u8>, n: int) -> Seq<char> {
    Seq::new(n as nat, |i: int| b64::spec_b64_encode(digest)[i] as char)
}

/// Maps a digest to a short public identifier: base64-encode, truncate.
///
/// Fails only when more characters are asked for than the digest can
/// supply.
pub fn hash_to_short_id(digest: &Vec<u8>, len: usize) -> (r: Result<String, Error>)
    ensures
        len <= digest@.len() ==> (r matches Ok(id) && id@ == spec_short_id(digest@, len as int)),
        len > digest@.len() ==> (r matches Err(e) && e is InternalError),
{
    proof {
        b64::lemma_b64_encode_len(digest@);
    }
    if len > digest.len() {
        return Err(Error::InternalError("digest too short for id".to_owned()));
    }
    let mut enc = b64::b64_encode(digest.as_slice());
    proof {
        b64::lemma_b64_encode_alphabet(digest@);
    }
    enc.truncate(len);
    proof {
        assert forall|i: int| 0 <= i < enc@.len() implies enc@[i] < 128 by {
            assert(b64::is_b64_byte(enc@[i]));
        }
    }
    let s = ascii_to_string(&enc);
    proof {
        assert(s@ =~= spec_short_id(digest@, len as int));
    }
    Ok(s)
}

/// A character the identifier charset admits: the base64 URL-safe
/// alphabet.  Path separators, dots and everything else are outside it.
pub open spec fn is_id_char(c: char) -> bool {
    (65 <= c as u32 && c as u32 <= 90)  // 'A'..='Z'
    || (97 <= c as u32 && c as u32 <= 122)  // 'a'..='z'
    || (48 <= c as u32 && c as u32 <= 57)  // '0'..='9'
    || c == '-' || c == '_'
}

/// An identifier `to_path` accepts: non-empty, bounded, over the
/// identifier charset.
pub open spec fn valid_id(s: Seq<char>) -> bool {
    &&& 1 <= s.len() <= MAX_ID_LEN
    &&& forall|i: int| 0 <= i < s.len() ==> is_id_char(s[i])
}

/// The storage key of a valid identifier.
pub open spec fn spec_storage_key(id: Seq<char>) -> Seq<char> {
    "pastes/"@ + id
}

/// Maps an identifier to a namespaced storage key.
///
/// Rejects the empty identifier, overlong identifiers, and any character
/// outside the identifier charset with `BadRequest`, so no
/// attacker-supplied identifier can smuggle a path into the store.
pub fn to_path(id: &str) -> (r: Result<String, Error>)
    ensures
        valid_id(id@) ==> (r matches Ok(p) && p@ == spec_storage_key(id@)),
        !valid_id(id@) ==> (r matches Err(e) && e is BadRequest),
{
    let n = id.unicode_len();
    if n == 0 || n > MAX_ID_LEN {
        return Err(Error::BadRequest("invalid id".to_owned()));
    }
    let mut i: usize = 0;
    while i < n
        invariant
            i <= n,
            n == id@.len(),
            1 <= n <= MAX_ID_LEN,
            forall|j: int| 0 <= j < i ==> is_id_char(id@[j]),
        decreases n - i,
    {
        let c = id.get_char(i);
        let v = c as u32;
        let ok = (65 <= v && v <= 90) || (97 <= v && v <= 122) || (48 <= v && v <= 57) || c == '-'
            || c == '_';
        if !ok {
            assert(!is_id_char(id@[i as int]));
            return Err(Error::BadRequest("invalid id".to_owned()));
        }
        i += 1;
    }
    let mut p = "pastes/".to_owned();
    p.append(id);
    Ok(p)
}

/// Every identifier the encoder emits passes `to_path`: its characters
/// come from the identifier alphabet and its length is in bounds.
pub proof fn lemma_short_id_valid(digest: Seq<u8>, n: int)
    requires
        1 <= n <= MAX_ID_LEN,
        n <= b64::spec_b64_encode(digest).len(),
    ensures
        valid_id(spec_short_id(digest, n)),
{
    b64::lemma_b64_encode_alphabet(digest);
    let id = spec_short_id(digest, n);
    assert forall|i: int| 0 <= i < id.len() implies is_id_char(id[i]) by {
        let c = b64::spec_b64_encode(digest)[i];
        assert(b64::is_b64_byte(c));
        assert(id[i] == c as char);
    }
}

/// Path safety: `to_path` turns away the empty identifier and every
/// identifier holding a path separator or a dot — in particular `..` —
/// with `BadRequest`.
pub proof fn lemma_path_safety(id: Seq<char>)
    ensures
        id.len() == 0 ==> !valid_id(id),
        (exists|i: int| 0 <= i < id.len() && id[i] == '/') ==> !valid_id(id),
        (exists|i: int| 0 <= i < id.len() && id[i] == '.') ==> !valid_id(id),
{
    if exists|i: int| 0 <= i < id.len() && id[i] == '/' {
        let i = choose|i: int| 0 <= i < id.len() && id[i] == '/';
        assert(!is_id_char(id[i]));
    }
    if exists|i: int| 0 <= i < id.len() && id[i] == '.' {
        let i = choose|i: int| 0 <= i < id.len() && id[i] == '.';
        assert(!is_id_char(id[i]));
    }
}

} // verus!
