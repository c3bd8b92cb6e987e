//! Page metadata: title, description, preview image and theme color for
//! the HTML views around the store, and the ascendancy color table.

use crate::strutil::str_eq;
use vstd::prelude::*;
use vstd::string::StringExecFns;

verus! {

/// Metadata of one rendered page.
pub struct Meta {
    pub title: String,
    pub description: String,
    pub image: String,
    pub color: String,
}

pub open spec fn spec_description() -> Seq<char> {
    "POB B.in is a website to share your Path of Building builds online"@
}

pub open spec fn spec_default_color() -> Seq<char> {
    "#0ea5e9"@
}

impl Meta {
    /// Metadata of the landing page.
    pub fn index() -> (r: Meta)
        ensures
            r.title@ == "POB B.in - Share your Path of Exile build"@,
            r.description@ == spec_description(),
            r.image@ == Seq::<char>::empty(),
            r.color@ == spec_default_color(),
    {
        Meta {
            title: "POB B.in - Share your Path of Exile build".to_owned(),
            description: "POB B.in is a website to share your Path of Building builds online".to_owned(),
            image: String::new(),
            color: "#0ea5e9".to_owned(),
        }
    }

    /// Metadata of the not-found page.
    pub fn not_found() -> (r: Meta)
        ensures
            r.title@ == "POB B.in - Not Found"@,
            r.description@ == spec_description(),
            r.image@ == Seq::<char>::empty(),
            r.color@ == spec_default_color(),
    {
        Meta {
            title: "POB B.in - Not Found".to_owned(),
            description: "POB B.in is a website to share your Path of Building builds online".to_owned(),
            image: String::new(),
            color: "#0ea5e9".to_owned(),
        }
    }

    /// Metadata of the server-error page.
    pub fn server_error() -> (r: Meta)
        ensures
            r.title@ == "POB B.in - Server Error"@,
            r.description@ == spec_description(),
            r.image@ == Seq::<char>::empty(),
            r.color@ == spec_default_color(),
    {
        Meta {
            title: "POB B.in - Server Error".to_owned(),
            description: "POB B.in is a website to share your Path of Building builds online".to_owned(),
            image: String::new(),
            color: "#0ea5e9".to_owned(),
        }
    }
}

impl Default for Meta {
    /// The landing page's metadata.
    fn default() -> (r: Meta)
        ensures
            r.title@ == "POB B.in - Share your Path of Exile build"@,
            r.description@ == spec_description(),
            r.image@ == Seq::<char>::empty(),
            r.color@ == spec_default_color(),
    {
        Meta::index()
    }
}

/// The theme color of an ascendancy: one per class family, the default
/// for everything unknown.
pub open spec fn spec_get_color(name: Seq<char>) -> Seq<char> {
    if name == "Slayer"@ || name == "Gladiator"@ || name == "Champion"@ {
        "#96afc8"@
    } else if name == "Juggernaut"@ || name == "Berserker"@ || name == "Chieftain"@ {
        "#af5a32"@
    } else if name == "Raider"@ || name == "Deadeye"@ || name == "Pathfinder"@ {
        "#7cb376"@
    } else if name == "Assassin"@ || name == "Trickster"@ || name == "Saboteur"@ {
        "#72818d"@
    } else if name == "Inquisitor"@ || name == "Hierophant"@ || name == "Guardian"@ {
        "#cfbd8a"@
    } else if name == "Occultist"@ || name == "Elementalist"@ || name == "Necromancer"@ {
        "#9ac3c9"@
    } else if name == "Ascendant"@ {
        "#cccccc"@
    } else {
        spec_default_color()
    }
}

/// Maps an ascendancy name to its theme color.
pub fn get_color(ascendancy_name: &str) -> (r: &'static str)
    ensures
        r@ == spec_get_color(ascendancy_name@),
{
    if str_eq(ascendancy_name, "Slayer") || str_eq(ascendancy_name, "Gladiator") || str_eq(
        ascendancy_name,
        "Champion",
    ) {
        "#96afc8"
    } else if str_eq(ascendancy_name, "Juggernaut") || str_eq(ascendancy_name, "Berserker")
        || str_eq(ascendancy_name, "Chieftain") {
        "#af5a32"
    } else if str_eq(ascendancy_name, "Raider") || str_eq(ascendancy_name, "Deadeye") || str_eq(
        ascendancy_name,
        "Pathfinder",
    ) {
        "#7cb376"
    } else if str_eq(ascendancy_name, "Assassin") || str_eq(ascendancy_name, "Trickster")
        || str_eq(ascendancy_name, "Saboteur") {
        "#72818d"
    } else if str_eq(ascendancy_name, "Inquisitor") || str_eq(ascendancy_name, "Hierophant")
        || str_eq(ascendancy_name, "Guardian") {
        "#cfbd8a"
    } else if str_eq(ascendancy_name, "Occultist") || str_eq(ascendancy_name, "Elementalist")
        || str_eq(ascendancy_name, "Necromancer") {
        "#9ac3c9"
    } else if str_eq(ascendancy_name, "Ascendant") {
        "#cccccc"
    } else {
        "#0ea5e9"
    }
}

/// The hydration marker attribute as bytes: `data-hk`.
pub open spec fn marker() -> Seq<u8> {
    seq![100u8, 97u8, 116u8, 97u8, 45u8, 104u8, 107u8]
}

/// The marker stands in `s` at position `i`.
pub open spec fn marker_at(s: Seq<u8>, i: int) -> bool {
    0 <= i && i + 7 <= s.len() && s.subrange(i, i + 7) == marker()
}

/// Position `j` is one of the two bytes a marker at or before `limit`
/// rewrites: the sixth or seventh byte of an occurrence.
pub open spec fn masked_by(s: Seq<u8>, j: int, limit: int) -> bool {
    exists|i: int| #[trigger] marker_at(s, i) && i < limit && (j == i + 5 || j == i + 6)
}

/// What masking leaves at each position: `x` over the tail of every
/// marker, everything else untouched.
pub open spec fn spec_mask(s: Seq<u8>) -> Seq<u8> {
    Seq::new(s.len(), |j: int| if masked_by(s, j, s.len() as int) {
        120u8
    } else {
        s[j]
    })
}

/// Rewrites every rendered hydration marker `data-hk` to `data-xx`, so
/// server-rendered metadata cannot collide with client hydration.  A
/// safe scan over an owned buffer; the input is kept for matching, so
/// no rewrite can hide or invent an occurrence.
pub fn mask_hydration_markers(s: &Vec<u8>) -> (r: Vec<u8>)
    ensures
        r@ == spec_mask(s@),
{
    let mut out = vstd::slice::slice_to_vec(s.as_slice());
    let n = s.len();
    if n < 7 {
        proof {
            assert forall|j: int| 0 <= j < n implies !masked_by(s@, j, n as int) by {
                if exists|i: int| #[trigger] marker_at(s@, i) && i < n && (j == i + 5 || j == i
                    + 6) {
                    let i = choose|i: int| #[trigger] marker_at(s@, i) && i < n && (j == i + 5 || j
                        == i + 6);
                    assert(i + 7 <= s@.len());
                }
            }
            assert(out@ =~= spec_mask(s@));
        }
        return out;
    }
    let mut i: usize = 0;
    while i <= n - 7
        invariant
            n == s@.len(),
            7 <= n,
            i <= n - 6,
            out@.len() == n,
            forall|j: int|
                0 <= j < n ==> out@[j] == (if masked_by(s@, j, i as int) {
                    120u8
                } else {
                    s@[j]
                }),
        decreases n - i,
    {
        let ghost pre = out@;
        let mut hit = true;
        let m: [u8; 7] = [100, 97, 116, 97, 45, 104, 107];
        let mut k: usize = 0;
        proof {
            assert(s@.subrange(i as int, i as int) =~= marker().take(0));
        }
        while k < 7
            invariant
                i + 7 <= n,
                n == s@.len(),
                k <= 7,
                m@ == marker(),
                hit == (s@.subrange(i as int, i + k) == marker().take(k as int)),
            decreases 7 - k,
        {
            let same = s[i + k] == m[k];
            proof {
                assert(s@.subrange(i as int, i + k + 1).drop_last() =~= s@.subrange(
                    i as int,
                    i + k as int,
                ));
                assert(marker().take(k + 1).drop_last() =~= marker().take(k as int));
                if hit && same {
                    assert(s@.subrange(i as int, i + k + 1) =~= marker().take(k + 1));
                } else {
                    if s@.subrange(i as int, i + k + 1) == marker().take(k + 1) {
                        assert(s@.subrange(i as int, i + k + 1).drop_last() == marker().take(
                            k + 1,
                        ).drop_last());
                        assert(s@.subrange(i as int, i + k + 1).last() == marker().take(
                            k + 1,
                        ).last());
                        assert(false);
                    }
                }
            }
            hit = hit && same;
            k += 1;
        }
        proof {
            assert(marker().take(7) =~= marker());
        }
        if hit {
            out.set(i + 5, 120);
            out.set(i + 6, 120);
            proof {
                assert(marker_at(s@, i as int));
                assert forall|j: int|
                    0 <= j < n implies out@[j] == (if masked_by(s@, j, i + 1) {
                        120u8
                    } else {
                        s@[j]
                    }) by {
                    if j == i + 5 || j == i + 6 {
                        assert(masked_by(s@, j, i + 1));
                    } else {
                        assert(out@[j] == pre[j]);
                        assert(masked_by(s@, j, i + 1) == masked_by(s@, j, i as int)) by {
                            if masked_by(s@, j, i + 1) && !masked_by(s@, j, i as int) {
                                let w = choose|w: int| #[trigger] marker_at(s@, w) && w < i + 1 && (
                                j == w + 5 || j == w + 6);
                                assert(w == i);
                            }
                        }
                    }
                }
            }
        } else {
            proof {
                assert(!marker_at(s@, i as int));
                assert forall|j: int|
                    0 <= j < n implies out@[j] == (if masked_by(s@, j, i + 1) {
                        120u8
                    } else {
                        s@[j]
                    }) by {
                    assert(masked_by(s@, j, i + 1) == masked_by(s@, j, i as int)) by {
                        if masked_by(s@, j, i + 1) && !masked_by(s@, j, i as int) {
                            let w = choose|w: int| #[trigger] marker_at(s@, w) && w < i + 1 && (j
                                == w + 5 || j == w + 6);
                            assert(w == i);
                        }
                    }
                }
            }
        }
        i += 1;
    }
    proof {
        assert forall|j: int| 0 <= j < n implies masked_by(s@, j, n as int) == masked_by(
            s@,
            j,
            i as int,
        ) by {
            if masked_by(s@, j, n as int) && !masked_by(s@, j, i as int) {
                let w = choose|w: int| #[trigger] marker_at(s@, w) && w < n && (j == w + 5 || j == w
                    + 6);
                assert(w + 7 <= n);
                assert(w < i);
            }
        }
        assert(out@ =~= spec_mask(s@));
    }
    out
}

} // verus!
