//! Small string and number utilities the pipeline leans on.

use vstd::prelude::*;
use vstd::string::StrSliceExecFns;
use vstd::string::StringExecFns;

verus! {

/// Character-wise string equality.
pub fn str_eq(a: &str, b: &str) -> (r: bool)
    ensures
        r == (a@ == b@),
{
    let x = a.to_owned();
    let y = b.to_owned();
    x == y
}

/// `p` is the prefix of `s`.
pub open spec fn spec_starts_with(s: Seq<char>, p: Seq<char>) -> bool {
    p.len() <= s.len() && s.subrange(0, p.len() as int) == p
}

/// `p` occurs in `s` at position `at`.
pub open spec fn occurs_at(s: Seq<char>, p: Seq<char>, at: int) -> bool {
    0 <= at && at + p.len() <= s.len() && s.subrange(at, at + p.len()) == p
}

/// `p` occurs somewhere in `s`.
pub open spec fn spec_contains(s: Seq<char>, p: Seq<char>) -> bool {
    exists|at: int| occurs_at(s, p, at)
}

/// Whether `p` occurs in `s` at position `at`.
pub fn occurs_at_exec(s: &str, p: &str, at: usize) -> (r: bool)
    requires
        at + p@.len() <= s@.len(),
        s@.len() <= usize::MAX,
    ensures
        r == occurs_at(s@, p@, at as int),
{
    let m = p.unicode_len();
    let mut k: usize = 0;
    while k < m
        invariant
            k <= m,
            m == p@.len(),
            at + m <= s@.len(),
            s@.len() <= usize::MAX,
            forall|j: int| 0 <= j < k ==> s@[at + j] == p@[j],
        decreases m - k,
    {
        if s.get_char(at + k) != p.get_char(k) {
            assert(s@.subrange(at as int, at + p@.len()) != p@) by {
                assert(s@.subrange(at as int, at + p@.len())[k as int] != p@[k as int]);
            }
            return false;
        }
        k += 1;
    }
    proof {
        assert(s@.subrange(at as int, at + p@.len()) =~= p@);
    }
    true
}

/// Whether `p` is a prefix of `s`.
pub fn starts_with(s: &str, p: &str) -> (r: bool)
    ensures
        r == spec_starts_with(s@, p@),
{
    let n = s.unicode_len();
    let m = p.unicode_len();
    if m > n {
        return false;
    }
    occurs_at_exec(s, p, 0)
}

/// Whether `p` occurs anywhere in `s`.
pub fn contains(s: &str, p: &str) -> (r: bool)
    ensures
        r == spec_contains(s@, p@),
{
    let n = s.unicode_len();
    let m = p.unicode_len();
    if m > n {
        assert(forall|at: int| !occurs_at(s@, p@, at));
        return false;
    }
    if m == 0 {
        proof {
            assert(s@.subrange(0, 0) =~= p@);
            assert(occurs_at(s@, p@, 0));
        }
        return true;
    }
    let mut at: usize = 0;
    while at <= n - m
        invariant
            0 < m <= n,
            n == s@.len(),
            m == p@.len(),
            at <= n - m + 1,
            forall|j: int| 0 <= j < at ==> !occurs_at(s@, p@, j),
        decreases n - m + 1 - at,
    {
        if occurs_at_exec(s, p, at) {
            return true;
        }
        at += 1;
    }
    proof {
        assert forall|j: int| !occurs_at(s@, p@, j) by {
            if 0 <= j < at {
            }
        }
    }
    false
}

/// The decimal digits of a non-negative number, most significant first;
/// empty for zero.
pub open spec fn spec_digits_rec(n: int) -> Seq<char>
    decreases n,
{
    if n <= 0 {
        Seq::empty()
    } else {
        spec_digits_rec(n / 10).push(((n % 10) + 48) as char)
    }
}

/// The decimal rendering of a non-negative number.
pub open spec fn spec_digits(n: int) -> Seq<char> {
    if n == 0 {
        seq!['0']
    } else {
        spec_digits_rec(n)
    }
}

/// Renders a number in decimal.
pub fn u64_to_string(n: u64) -> (r: String)
    ensures
        r@ == spec_digits(n as int),
{
    if n == 0 {
        let r = "0".to_owned();
        proof {
            reveal_strlit("0");
            assert(r@ =~= spec_digits(0));
        }
        return r;
    }
    let mut bytes: Vec<u8> = Vec::new();
    let ghost mut suffix: Seq<char> = Seq::empty();
    let mut m: u64 = n;
    while m > 0
        invariant
            spec_digits_rec(n as int) == spec_digits_rec(m as int) + suffix,
            bytes@.len() == suffix.len(),
            forall|k: int|
                0 <= k < suffix.len() ==> bytes@[k] == suffix[k] as u8 && bytes@[k] < 128
                    && suffix[k] as u8 as char == suffix[k],
            m <= n,
        decreases m,
    {
        let d: u8 = (m % 10) as u8 + 48;
        let ghost c: char = ((m as int % 10) + 48) as char;
        let ghost old_suffix = suffix;
        let ghost old_bytes = bytes@;
        proof {
            assert(c as u8 == d && d < 128 && d as char == c);
        }
        bytes.insert(0, d);
        proof {
            suffix = seq![c] + suffix;
            assert(spec_digits_rec(m as int) =~= spec_digits_rec(m as int / 10).push(c));
            assert(spec_digits_rec(m as int / 10) + suffix =~= spec_digits_rec(m as int)
                + old_suffix);
            assert forall|k: int|
                0 <= k < suffix.len() implies bytes@[k] == suffix[k] as u8 && bytes@[k] < 128
                    && suffix[k] as u8 as char == suffix[k] by {
                if k > 0 {
                    assert(bytes@[k] == old_bytes[k - 1]);
                    assert(suffix[k] == old_suffix[k - 1]);
                }
            }
        }
        m = m / 10;
    }
    proof {
        assert forall|i: int| 0 <= i < bytes@.len() implies bytes@[i] < 128 by {
            assert(bytes@[i] == suffix[i] as u8 && bytes@[i] < 128);
        }
    }
    let r = crate::codec::ascii_to_string(&bytes);
    proof {
        assert forall|k: int| 0 <= k < suffix.len() implies r@[k] == suffix[k] by {
            assert(r@[k] == bytes@[k] as char);
        }
        assert(r@ =~= suffix);
        assert(spec_digits_rec(n as int) =~= suffix);
    }
    r
}

} // verus!
