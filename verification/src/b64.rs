//! URL-safe base64: the framing of the wire payload and the alphabet of
//! public identifiers.
//!
//! The alphabet is `A-Z a-z 0-9 - _`, one code unit per six bits:
//! value 0 is `A`, value 63 is `_`.  Encoding emits no padding;
//! decoding accepts unpadded input whose length is not 1 modulo 4.

use vstd::prelude::*;

verus! {

/// The code unit for six-bit value `v` of the URL-safe alphabet.
pub open spec fn b64_char(v: int) -> u8 {
    if v < 26 {
        (65 + v) as u8  // 'A'..='Z'
    } else if v < 52 {
        (97 + v - 26) as u8  // 'a'..='z'
    } else if v < 62 {
        (48 + v - 52) as u8  // '0'..='9'
    } else if v == 62 {
        45u8  // '-'
    } else {
        95u8  // '_'
    }
}

/// The six-bit value of code unit `c`, or -1 if `c` is not in the alphabet.
pub open spec fn b64_val(c: u8) -> int {
    if 65 <= c && c <= 90 {
        c - 65
    } else if 97 <= c && c <= 122 {
        c - 97 + 26
    } else if 48 <= c && c <= 57 {
        c - 48 + 52
    } else if c == 45 {
        62
    } else if c == 95 {
        63
    } else {
        -1
    }
}

pub open spec fn is_b64_byte(c: u8) -> bool {
    b64_val(c) >= 0
}

pub open spec fn all_b64(s: Seq<u8>) -> bool {
    forall|i: int| 0 <= i < s.len() ==> is_b64_byte(s[i])
}

/// The bytes of one final decoding group of 2 to 4 alphabet code units.
pub open spec fn group_dec(g: Seq<u8>) -> Seq<u8>
    recommends
        2 <= g.len() <= 4,
        all_b64(g),
{
    let a = b64_val(g[0]);
    let b = b64_val(g[1]);
    if g.len() <= 2 {
        seq![((a * 4) + b / 16) as u8]
    } else {
        let c = b64_val(g[2]);
        if g.len() == 3 {
            seq![((a * 4) + b / 16) as u8, ((b % 16) * 16 + c / 4) as u8]
        } else {
            let d = b64_val(g[3]);
            seq![
                ((a * 4) + b / 16) as u8,
                ((b % 16) * 16 + c / 4) as u8,
                ((c % 4) * 64 + d) as u8,
            ]
        }
    }
}

/// The decoded bytes of a code-unit sequence, taken in groups of four
/// from the front; the final group may hold two or three units.
pub open spec fn b64_groups(s: Seq<u8>) -> Seq<u8>
    decreases s.len(),
{
    if s.len() == 0 {
        Seq::empty()
    } else if s.len() <= 4 {
        group_dec(s)
    } else {
        group_dec(s.take(4)) + b64_groups(s.skip(4))
    }
}

/// Decoding succeeds exactly on sequences over the alphabet whose length
/// is not 1 modulo 4.
pub open spec fn spec_b64_decode(s: Seq<u8>) -> Option<Seq<u8>> {
    if all_b64(s) && s.len() % 4 != 1 {
        Some(b64_groups(s))
    } else {
        None
    }
}

/// The encoding of a byte sequence, taken in groups of three from the
/// front: a code unit per six bits, the final group unpadded.
pub open spec fn spec_b64_encode(b: Seq<u8>) -> Seq<u8>
    decreases b.len(),
{
    if b.len() == 0 {
        Seq::empty()
    } else if b.len() == 1 {
        seq![b64_char(b[0] as int / 4), b64_char((b[0] as int % 4) * 16)]
    } else if b.len() == 2 {
        seq![
            b64_char(b[0] as int / 4),
            b64_char((b[0] as int % 4) * 16 + b[1] as int / 16),
            b64_char((b[1] as int % 16) * 4),
        ]
    } else {
        seq![
            b64_char(b[0] as int / 4),
            b64_char((b[0] as int % 4) * 16 + b[1] as int / 16),
            b64_char((b[1] as int % 16) * 4 + b[2] as int / 64),
            b64_char(b[2] as int % 64),
        ] + spec_b64_encode(b.skip(3))
    }
}

/// Length of the encoding: four units per three bytes, then two or three
/// units for a final group of one or two bytes.
pub proof fn lemma_b64_encode_len(b: Seq<u8>)
    ensures
        b.len() % 3 == 0 ==> spec_b64_encode(b).len() == b.len() / 3 * 4,
        b.len() % 3 == 1 ==> spec_b64_encode(b).len() == b.len() / 3 * 4 + 2,
        b.len() % 3 == 2 ==> spec_b64_encode(b).len() == b.len() / 3 * 4 + 3,
    decreases b.len(),
{
    if b.len() > 2 {
        lemma_b64_encode_len(b.skip(3));
    }
}

/// Every code unit the encoder emits is in the alphabet.
pub proof fn lemma_b64_encode_alphabet(b: Seq<u8>)
    ensures
        all_b64(spec_b64_encode(b)),
    decreases b.len(),
{
    assert forall|v: int| 0 <= v < 64 implies is_b64_byte(b64_char(v)) by {}
    if b.len() > 2 {
        lemma_b64_encode_alphabet(b.skip(3));
        assert forall|i: int| 0 <= i < spec_b64_encode(b).len() implies is_b64_byte(
            spec_b64_encode(b)[i],
        ) by {
            if i >= 4 {
                assert(spec_b64_encode(b)[i] == spec_b64_encode(b.skip(3))[i - 4]);
            }
        }
    }
}

fn b64_val_exec(c: u8) -> (r: Option<u8>)
    ensures
        match r {
            Some(v) => b64_val(c) == v as int && v < 64,
            None => b64_val(c) < 0,
        },
{
    if 65 <= c && c <= 90 {
        Some(c - 65)
    } else if 97 <= c && c <= 122 {
        Some(c - 97 + 26)
    } else if 48 <= c && c <= 57 {
        Some(c - 48 + 52)
    } else if c == 45 {
        Some(62)
    } else if c == 95 {
        Some(63)
    } else {
        None
    }
}

fn b64_char_exec(v: u8) -> (r: u8)
    requires
        v < 64,
    ensures
        r == b64_char(v as int),
{
    if v < 26 {
        65 + v
    } else if v < 52 {
        97 + v - 26
    } else if v < 62 {
        48 + v - 52
    } else if v == 62 {
        45
    } else {
        95
    }
}

/// Decodes an unpadded URL-safe base64 sequence.
pub fn b64_decode(s: &[u8]) -> (r: Option<Vec<u8>>)
    ensures
        match r {
            Some(v) => spec_b64_decode(s@) == Some(v@),
            None => spec_b64_decode(s@) is None,
        },
{
    if s.len() % 4 == 1 {
        return None;
    }
    let mut out: Vec<u8> = Vec::new();
    let mut i: usize = 0;
    proof {
        assert(s@.skip(0) =~= s@);
        assert(out@ + b64_groups(s@) =~= b64_groups(s@));
    }
    while i < s.len()
        invariant
            i <= s.len(),
            i % 4 == 0 || i == s.len(),
            s@.len() % 4 != 1,
            all_b64(s@.take(i as int)),
            b64_groups(s@) == out@ + b64_groups(s@.skip(i as int)),
        decreases s.len() - i,
    {
        let ghost rem = s@.skip(i as int);
        let n: usize = s.len() - i;
        let a = match b64_val_exec(s[i]) {
            Some(v) => v,
            None => {
                assert(!is_b64_byte(s@[i as int]));
                return None;
            },
        };
        if n < 2 {
            assert(rem.len() == 1);
            assert(s@.len() % 4 == 1) by {
                assert(s@.len() == i + 1);
            }
            return None;
        }
        let b = match b64_val_exec(s[i + 1]) {
            Some(v) => v,
            None => {
                assert(!is_b64_byte(s@[i as int + 1]));
                return None;
            },
        };
        let mut group: Vec<u8> = Vec::new();
        group.push(a * 4 + b / 16);
        let step: usize;
        if n == 2 {
            step = 2;
        } else {
            let c = match b64_val_exec(s[i + 2]) {
                Some(v) => v,
                None => {
                    assert(!is_b64_byte(s@[i as int + 2]));
                    return None;
                },
            };
            group.push((b % 16) * 16 + c / 4);
            if n == 3 {
                step = 3;
            } else {
                let d = match b64_val_exec(s[i + 3]) {
                    Some(v) => v,
                    None => {
                        assert(!is_b64_byte(s@[i as int + 3]));
                        return None;
                    },
                };
                group.push((c % 4) * 64 + d);
                step = 4;
            }
        }
        proof {
            if rem.len() <= 4 {
                assert(rem.len() == step);
                assert(group@ =~= group_dec(rem));
                assert(b64_groups(rem) == group_dec(rem));
                assert(b64_groups(s@.skip(i + step)) =~= Seq::<u8>::empty()) by {
                    assert(s@.skip(i + step as int).len() == 0);
                }
            } else {
                assert(step == 4);
                assert(group@ =~= group_dec(rem.take(4)));
                assert(b64_groups(rem) == group_dec(rem.take(4)) + b64_groups(rem.skip(4)));
                assert(rem.skip(4) =~= s@.skip(i + 4));
            }
            assert(s@.take(i + step) =~= s@.take(i as int) + rem.take(step as int));
        }
        let mut k: usize = 0;
        let ghost out0 = out@;
        while k < group.len()
            invariant
                k <= group.len(),
                out@ == out0 + group@.take(k as int),
            decreases group.len() - k,
        {
            out.push(group[k]);
            k += 1;
            proof {
                assert(out@ =~= out0 + group@.take(k as int));
            }
        }
        proof {
            assert(group@.take(group@.len() as int) =~= group@);
        }
        i += step;
        proof {
            assert(all_b64(s@.take(i as int)));
            assert(b64_groups(s@) == out@ + b64_groups(s@.skip(i as int)));
        }
    }
    proof {
        assert(s@.take(s@.len() as int) =~= s@);
        assert(s@.skip(s@.len() as int) =~= Seq::<u8>::empty());
        assert(out@ =~= b64_groups(s@));
    }
    Some(out)
}

/// Encodes bytes as unpadded URL-safe base64.
pub fn b64_encode(b: &[u8]) -> (r: Vec<u8>)
    ensures
        r@ == spec_b64_encode(b@),
{
    let mut out: Vec<u8> = Vec::new();
    let mut i: usize = 0;
    proof {
        assert(b@.skip(0) =~= b@);
        assert(out@ + spec_b64_encode(b@) =~= spec_b64_encode(b@));
    }
    while i < b.len()
        invariant
            i <= b.len(),
            i % 3 == 0 || i == b.len(),
            spec_b64_encode(b@) == out@ + spec_b64_encode(b@.skip(i as int)),
        decreases b.len() - i,
    {
        let ghost rem = b@.skip(i as int);
        let n: usize = b.len() - i;
        let x = b[i];
        let step: usize;
        let mut group: Vec<u8> = Vec::new();
        if n == 1 {
            group.push(b64_char_exec(x / 4));
            group.push(b64_char_exec((x % 4) * 16));
            step = 1;
        } else {
            let y = b[i + 1];
            if n == 2 {
                group.push(b64_char_exec(x / 4));
                group.push(b64_char_exec((x % 4) * 16 + y / 16));
                group.push(b64_char_exec((y % 16) * 4));
                step = 2;
            } else {
                let z = b[i + 2];
                group.push(b64_char_exec(x / 4));
                group.push(b64_char_exec((x % 4) * 16 + y / 16));
                group.push(b64_char_exec((y % 16) * 4 + z / 64));
                group.push(b64_char_exec(z % 64));
                step = 3;
            }
        }
        proof {
            if rem.len() <= 2 {
                assert(rem.len() == step);
                assert(spec_b64_encode(rem) =~= group@);
                assert(b@.skip(i + step as int).len() == 0);
                assert(spec_b64_encode(b@.skip(i + step as int)) =~= Seq::<u8>::empty());
            } else {
                assert(step == 3);
                assert(rem.skip(3) =~= b@.skip(i + 3));
                assert(spec_b64_encode(rem) =~= group@ + spec_b64_encode(rem.skip(3)));
            }
        }
        let mut k: usize = 0;
        let ghost out0 = out@;
        while k < group.len()
            invariant
                k <= group.len(),
                out@ == out0 + group@.take(k as int),
            decreases group.len() - k,
        {
            out.push(group[k]);
            k += 1;
            proof {
                assert(out@ =~= out0 + group@.take(k as int));
            }
        }
        proof {
            assert(group@.take(group@.len() as int) =~= group@);
        }
        i += step;
    }
    proof {
        assert(b@.skip(b@.len() as int).len() == 0);
        assert(spec_b64_encode(b@.skip(b@.len() as int)) =~= Seq::<u8>::empty());
        assert(out@ =~= spec_b64_encode(b@));
    }
    out
}

} // verus!
