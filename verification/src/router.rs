//! Request dispatch by method and path pattern.
//!
//! Uploads go to two exact paths; downloads are recognized by shape:
//! `/{id}/raw` (leading slashes trimmed, the rest after the first
//! remaining slash must be exactly `raw`) or `/pob/{id}` (everything
//! after the last slash, when what stands before it is exactly `/pob`).
//! Unmatched requests fall through to the rendering collaborator.

use crate::http::Method;
use vstd::prelude::*;
use vstd::string::StrSliceExecFns;
use vstd::string::StringExecFns;

verus! {

/// First position at or after `i` that is not a `/`.
pub open spec fn skip_slashes(p: Seq<char>, i: int) -> int
    decreases p.len() - i,
{
    if 0 <= i < p.len() && p[i] == '/' {
        skip_slashes(p, i + 1)
    } else {
        i
    }
}

/// First position at or after `i` holding `c`, if any.
pub open spec fn find_char(p: Seq<char>, c: char, i: int) -> Option<int>
    decreases p.len() - i,
{
    if !(0 <= i < p.len()) {
        None
    } else if p[i] == c {
        Some(i)
    } else {
        find_char(p, c, i + 1)
    }
}

/// Last position up to `i` holding `c`, if any.
pub open spec fn rfind_char(p: Seq<char>, c: char, i: int) -> Option<int>
    decreases i,
{
    if !(0 <= i < p.len()) {
        None
    } else if p[i] == c {
        Some(i)
    } else if i == 0 {
        None
    } else {
        rfind_char(p, c, i - 1)
    }
}

/// The identifier of a raw-download path: trim leading slashes, split at
/// the first remaining slash, and demand that the rest is exactly `raw`.
pub open spec fn spec_raw_download_id(p: Seq<char>) -> Option<Seq<char>> {
    let st = skip_slashes(p, 0);
    match find_char(p, '/', st) {
        Some(q) => if p.subrange(q + 1, p.len() as int) == "raw"@ {
            Some(p.subrange(st, q))
        } else {
            None
        },
        None => None,
    }
}

/// The identifier of a legacy download path: everything after the last
/// slash, when what stands before it is exactly `/pob`.
pub open spec fn spec_pob_download_id(p: Seq<char>) -> Option<Seq<char>> {
    match rfind_char(p, '/', p.len() - 1) {
        Some(q) => if p.subrange(0, q) == "/pob"@ {
            Some(p.subrange(q + 1, p.len() as int))
        } else {
            None
        },
        None => None,
    }
}

/// The identifier a download request addresses, if the request is a GET
/// whose path has one of the two download shapes.
pub open spec fn spec_download_id(p: Seq<char>, m: Method) -> Option<Seq<char>> {
    if m != Method::Get {
        None
    } else {
        match spec_pob_download_id(p) {
            Some(id) => Some(id),
            None => spec_raw_download_id(p),
        }
    }
}

fn skip_slashes_exec(path: &str, n: usize, i: usize) -> (j: usize)
    requires
        n == path@.len(),
        i <= n,
    ensures
        j == skip_slashes(path@, i as int),
        i <= j <= n,
    decreases n - i,
{
    if i < n && path.get_char(i) == '/' {
        skip_slashes_exec(path, n, i + 1)
    } else {
        i
    }
}

fn find_char_exec(path: &str, n: usize, c: char, i: usize) -> (r: Option<usize>)
    requires
        n == path@.len(),
        i <= n,
    ensures
        match r {
            Some(q) => find_char(path@, c, i as int) == Some(q as int) && i <= q < n,
            None => find_char(path@, c, i as int) is None,
        },
    decreases n - i,
{
    if i >= n {
        None
    } else if path.get_char(i) == c {
        Some(i)
    } else {
        find_char_exec(path, n, c, i + 1)
    }
}

fn rfind_char_exec(path: &str, n: usize, c: char, i: usize) -> (r: Option<usize>)
    requires
        n == path@.len(),
        i < n || n == 0,
    ensures
        match r {
            Some(q) => rfind_char(path@, c, i as int) == Some(q as int) && q <= i,
            None => rfind_char(path@, c, i as int) is None,
        },
    decreases i,
{
    if n == 0 || i >= n {
        None
    } else if path.get_char(i) == c {
        Some(i)
    } else if i == 0 {
        None
    } else {
        rfind_char_exec(path, n, c, i - 1)
    }
}

/// Recognizes `/{id}/raw` and yields the identifier.
pub fn is_raw_download_url(path: &str) -> (r: Option<String>)
    ensures
        match r {
            Some(id) => spec_raw_download_id(path@) == Some(id@),
            None => spec_raw_download_id(path@) is None,
        },
{
    let n = path.unicode_len();
    let st = skip_slashes_exec(path, n, 0);
    match find_char_exec(path, n, '/', st) {
        Some(q) => {
            let rest = path.substring_char(q + 1, n);
            if crate::strutil::str_eq(rest, "raw") {
                Some(path.substring_char(st, q).to_owned())
            } else {
                None
            }
        },
        None => None,
    }
}

/// Recognizes `/pob/{id}` and yields the identifier.
pub fn is_pob_download_url(path: &str) -> (r: Option<String>)
    ensures
        match r {
            Some(id) => spec_pob_download_id(path@) == Some(id@),
            None => spec_pob_download_id(path@) is None,
        },
{
    let n = path.unicode_len();
    let last: usize = if n == 0 {
        0
    } else {
        n - 1
    };
    proof {
        if n == 0 {
            assert(rfind_char(path@, '/', path@.len() - 1) is None);
        }
    }
    match rfind_char_exec(path, n, '/', last) {
        Some(q) => {
            let pre = path.substring_char(0, q);
            if crate::strutil::str_eq(pre, "/pob") {
                Some(path.substring_char(q + 1, n).to_owned())
            } else {
                None
            }
        },
        None => None,
    }
}

/// Recognizes a download request: GET with one of the two download
/// shapes; the legacy shape is tried first.
pub fn is_download_url(path: &str, method: Method) -> (r: Option<String>)
    ensures
        match r {
            Some(id) => spec_download_id(path@, method) == Some(id@),
            None => spec_download_id(path@, method) is None,
        },
{
    if !matches!(method, Method::Get) {
        return None;
    }
    match is_pob_download_url(path) {
        Some(id) => Some(id),
        None => is_raw_download_url(path),
    }
}

} // verus!
