//! The validation gate: decompressed text must parse as a structurally
//! sound build-export document before anything is written.
//!
//! Validation is a pure check that rejects malformed uploads early;
//! nothing of it outlives the request.  A sound document
//! is one the markup grammar derives whose root element is
//! `PathOfBuilding` holding a `Build` child (with `className`,
//! `ascendClassName`, a level and a main socket group that read as
//! small numbers), a `Skills` child, and a `Tree` child with a readable
//! `activeSpec` number and at least one `Spec` child.

use crate::xml::{
    attrs_view, bytes_eq, elem_view, elems_view, lemma_elems_view_index, parse_doc,
    parse_doc_exec, Element, GAttr, GElem,
};
use vstd::prelude::*;
use vstd::string::StringSliceAdditionalSpecFns;

verus! {

/// The value of the first attribute called `name`, if any.
pub open spec fn find_in_attrs(attrs: Seq<GAttr>, name: Seq<u8>) -> Option<Seq<u8>>
    decreases attrs.len(),
{
    if attrs.len() == 0 {
        None
    } else if attrs[0].name == name {
        Some(attrs[0].value)
    } else {
        find_in_attrs(attrs.drop_first(), name)
    }
}

/// The first child element called `name`, if any.
pub open spec fn find_in_children(cs: Seq<GElem>, name: Seq<u8>) -> Option<GElem>
    decreases cs.len(),
{
    if cs.len() == 0 {
        None
    } else if cs[0].name == name {
        Some(cs[0])
    } else {
        find_in_children(cs.drop_first(), name)
    }
}

/// How many elements of `cs` are called `name`.
pub open spec fn count_named(cs: Seq<GElem>, name: Seq<u8>) -> int
    decreases cs.len(),
{
    if cs.len() == 0 {
        0int
    } else {
        (if cs[0].name == name {
            1int
        } else {
            0int
        }) + count_named(cs.drop_first(), name)
    }
}

pub open spec fn is_digit(c: u8) -> bool {
    48 <= c && c <= 57
}

pub open spec fn all_digits(s: Seq<u8>) -> bool {
    forall|i: int| 0 <= i < s.len() ==> is_digit(s[i])
}

/// The number a digit string denotes, most significant first.
pub open spec fn digits_val(s: Seq<u8>) -> int
    decreases s.len(),
{
    if s.len() == 0 {
        0int
    } else {
        digits_val(s.drop_last()) * 10 + (s.last() - 48)
    }
}

/// A byte string reads as a `u8` when it is one or more digits whose
/// value fits; leading zeroes are allowed.
pub open spec fn spec_parse_u8(s: Seq<u8>) -> Option<u8> {
    if s.len() > 0 && all_digits(s) && digits_val(s) <= 255 {
        Some(digits_val(s) as u8)
    } else {
        None
    }
}

proof fn lemma_digits_val_nonneg(s: Seq<u8>)
    requires
        all_digits(s),
    ensures
        digits_val(s) >= 0,
    decreases s.len(),
{
    if s.len() > 0 {
        assert(all_digits(s.drop_last()));
        lemma_digits_val_nonneg(s.drop_last());
    }
}

proof fn lemma_digits_val_prefix(s: Seq<u8>, k: int)
    requires
        all_digits(s),
        0 <= k <= s.len(),
    ensures
        digits_val(s) >= digits_val(s.take(k)),
    decreases s.len() - k,
{
    if k < s.len() {
        lemma_digits_val_prefix(s, k + 1);
        assert(s.take(k + 1).drop_last() =~= s.take(k));
        assert(all_digits(s.take(k)));
        lemma_digits_val_nonneg(s.take(k));
        assert(digits_val(s.take(k + 1)) == digits_val(s.take(k)) * 10 + (s.take(k + 1).last()
            - 48));
    } else {
        assert(s.take(k) =~= s);
    }
}

/// Reads a digit string as a `u8`, exactly as [`spec_parse_u8`] says.
pub fn parse_u8_bytes(s: &[u8]) -> (r: Option<u8>)
    ensures
        r == spec_parse_u8(s@),
{
    let n = s.len();
    if n == 0 {
        return None;
    }
    let mut acc: u16 = 0;
    let mut i: usize = 0;
    while i < n
        invariant
            i <= n,
            n == s@.len(),
            acc <= 255,
            all_digits(s@.take(i as int)),
            acc == digits_val(s@.take(i as int)),
        decreases n - i,
    {
        let c = s[i];
        if !(48 <= c && c <= 57) {
            assert(!is_digit(s@[i as int]));
            return None;
        }
        let acc2: u16 = acc * 10 + ((c - 48) as u16);
        proof {
            assert(s@.take(i + 1).drop_last() =~= s@.take(i as int));
            assert(s@.take(i + 1).last() == s@[i as int]);
        }
        if acc2 > 255 {
            proof {
                if all_digits(s@) {
                    lemma_digits_val_prefix(s@, i + 1);
                }
            }
            return None;
        }
        acc = acc2;
        i += 1;
    }
    proof {
        assert(s@.take(n as int) =~= s@);
    }
    Some(acc as u8)
}

/// Finds the first attribute of `e` called `name`; yields its index.
fn find_attr_idx(e: &Element, name: &str) -> (r: Option<usize>)
    ensures
        match r {
            Some(ix) => ix < e.attrs@.len() && find_in_attrs(attrs_view(e.attrs@), name.spec_bytes())
                == Some(e.attrs@[ix as int].value@),
            None => find_in_attrs(attrs_view(e.attrs@), name.spec_bytes()) is None,
        },
{
    let ghost a = attrs_view(e.attrs@);
    proof {
        assert(a.skip(0) =~= a);
    }
    let n = e.attrs.len();
    let mut i: usize = 0;
    while i < n
        invariant
            i <= n,
            n == e.attrs@.len(),
            a == attrs_view(e.attrs@),
            find_in_attrs(a, name.spec_bytes()) == find_in_attrs(a.skip(i as int), name.spec_bytes()),
        decreases n - i,
    {
        if bytes_eq(e.attrs[i].name.as_slice(), name.as_bytes()) {
            proof {
                assert(a.skip(i as int)[0] == a[i as int]);
            }
            return Some(i);
        }
        proof {
            assert(a.skip(i as int)[0] == a[i as int]);
            assert(a.skip(i as int).drop_first() =~= a.skip(i + 1));
        }
        i += 1;
    }
    proof {
        assert(a.skip(n as int).len() == 0);
    }
    None
}

/// Finds the first child of `e` called `name`; yields its index.
fn find_child_idx(e: &Element, name: &str) -> (r: Option<usize>)
    ensures
        match r {
            Some(ix) => ix < e.children@.len() && find_in_children(
                elems_view(e.children@),
                name.spec_bytes(),
            ) == Some(elem_view(e.children@[ix as int])),
            None => find_in_children(elems_view(e.children@), name.spec_bytes()) is None,
        },
{
    let ghost g = elems_view(e.children@);
    proof {
        lemma_elems_view_index(e.children@);
        assert(g.skip(0) =~= g);
    }
    let n = e.children.len();
    let mut i: usize = 0;
    while i < n
        invariant
            i <= n,
            n == e.children@.len(),
            g == elems_view(e.children@),
            g.len() == n,
            forall|j: int| 0 <= j < n ==> g[j] == elem_view(e.children@[j]),
            find_in_children(g, name.spec_bytes()) == find_in_children(
                g.skip(i as int),
                name.spec_bytes(),
            ),
        decreases n - i,
    {
        if bytes_eq(e.children[i].name.as_slice(), name.as_bytes()) {
            proof {
                assert(g.skip(i as int)[0] == g[i as int]);
            }
            return Some(i);
        }
        proof {
            assert(g.skip(i as int)[0] == g[i as int]);
            assert(g.skip(i as int).drop_first() =~= g.skip(i + 1));
        }
        i += 1;
    }
    proof {
        assert(g.skip(n as int).len() == 0);
    }
    None
}

/// Counts the children of `e` called `name`.
fn count_children(e: &Element, name: &str) -> (r: usize)
    ensures
        r == count_named(elems_view(e.children@), name.spec_bytes()),
{
    let ghost g = elems_view(e.children@);
    proof {
        lemma_elems_view_index(e.children@);
        assert(g.skip(0) =~= g);
    }
    let n = e.children.len();
    let mut count: usize = 0;
    let mut i: usize = 0;
    while i < n
        invariant
            i <= n,
            count <= i,
            n == e.children@.len(),
            g == elems_view(e.children@),
            g.len() == n,
            forall|j: int| 0 <= j < n ==> g[j] == elem_view(e.children@[j]),
            count_named(g, name.spec_bytes()) == count + count_named(
                g.skip(i as int),
                name.spec_bytes(),
            ),
        decreases n - i,
    {
        proof {
            assert(g.skip(i as int)[0] == g[i as int]);
            assert(g.skip(i as int).drop_first() =~= g.skip(i + 1));
        }
        if bytes_eq(e.children[i].name.as_slice(), name.as_bytes()) {
            count += 1;
        }
        i += 1;
    }
    proof {
        assert(g.skip(n as int).len() == 0);
    }
    count
}

/// What a structurally sound document looks like.
pub open spec fn doc_ok(root: GElem) -> bool {
    &&& root.name == "PathOfBuilding".spec_bytes()
    &&& match find_in_children(root.children, "Build".spec_bytes()) {
        Some(b) => {
            &&& find_in_attrs(b.attrs, "className".spec_bytes()) is Some
            &&& find_in_attrs(b.attrs, "ascendClassName".spec_bytes()) is Some
            &&& (find_in_attrs(b.attrs, "level".spec_bytes()) matches Some(v) && spec_parse_u8(v)
                is Some)
            &&& (find_in_attrs(b.attrs, "mainSocketGroup".spec_bytes()) matches Some(v)
                && spec_parse_u8(v) is Some)
        },
        None => false,
    }
    &&& find_in_children(root.children, "Skills".spec_bytes()) is Some
    &&& match find_in_children(root.children, "Tree".spec_bytes()) {
        Some(t) => (find_in_attrs(t.attrs, "activeSpec".spec_bytes()) matches Some(v)
            && spec_parse_u8(v) is Some) && count_named(t.children, "Spec".spec_bytes()) >= 1,
        None => false,
    }
}

/// The character level a sound document states.
pub open spec fn doc_level(root: GElem) -> u8 {
    spec_parse_u8(
        find_in_attrs(
            find_in_children(root.children, "Build".spec_bytes())->0.attrs,
            "level".spec_bytes(),
        )->0,
    )->0
}

/// The main socket group a sound document states.
pub open spec fn doc_main_socket_group(root: GElem) -> u8 {
    spec_parse_u8(
        find_in_attrs(
            find_in_children(root.children, "Build".spec_bytes())->0.attrs,
            "mainSocketGroup".spec_bytes(),
        )->0,
    )->0
}

/// The active tree specification index a sound document states.
pub open spec fn doc_active_spec(root: GElem) -> u8 {
    spec_parse_u8(
        find_in_attrs(
            find_in_children(root.children, "Tree".spec_bytes())->0.attrs,
            "activeSpec".spec_bytes(),
        )->0,
    )->0
}

/// How many skill groups a sound document holds.
pub open spec fn doc_skill_count(root: GElem) -> int {
    count_named(
        find_in_children(root.children, "Skills".spec_bytes())->0.children,
        "Skill".spec_bytes(),
    )
}

/// How many tree specifications a sound document holds.
pub open spec fn doc_spec_count(root: GElem) -> int {
    count_named(
        find_in_children(root.children, "Tree".spec_bytes())->0.children,
        "Spec".spec_bytes(),
    )
}

/// The structured result of validating a document, kept only as a gate:
/// the numbers the required attributes state and the element counts.
pub struct ParsedDocument {
    pub level: u8,
    pub main_socket_group: u8,
    pub active_spec: u8,
    pub skill_count: usize,
    pub spec_count: usize,
}

/// Why validation failed.
pub enum ParseError {
    /// The text is not a sentence of the markup grammar.
    Syntax,
    /// The markup parsed but the document shape is not a build export.
    Structure,
}

impl ParseError {
    /// The short client-visible description of the failure.
    pub fn message(&self) -> (m: &'static str)
        ensures
            m@ == self.spec_message(),
    {
        match self {
            ParseError::Syntax => "invalid markup",
            ParseError::Structure => "not a build export",
        }
    }

    pub open spec fn spec_message(&self) -> Seq<char> {
        match self {
            ParseError::Syntax => "invalid markup"@,
            ParseError::Structure => "not a build export"@,
        }
    }
}

/// Parses decompressed text into a [`ParsedDocument`], or rejects it.
///
/// Succeeds exactly on text the grammar derives whose document shape is
/// sound, and then returns exactly the numbers the document states.
/// Has no side effects: this is the whole validation gate.
pub fn parse(text: &str) -> (r: Result<ParsedDocument, ParseError>)
    ensures
        match r {
            Ok(d) => parse_doc(text.spec_bytes()) matches Some(root) && doc_ok(root) && d.level
                == doc_level(root) && d.main_socket_group == doc_main_socket_group(root)
                && d.active_spec == doc_active_spec(root) && d.skill_count == doc_skill_count(root)
                && d.spec_count == doc_spec_count(root),
            Err(ParseError::Syntax) => parse_doc(text.spec_bytes()) is None,
            Err(ParseError::Structure) => parse_doc(text.spec_bytes()) matches Some(root)
                && !doc_ok(root),
        },
        r is Ok <==> (parse_doc(text.spec_bytes()) matches Some(root) && doc_ok(root)),
{
    let bytes = text.as_bytes();
    let root = match parse_doc_exec(bytes) {
        Some(root) => root,
        None => {
            return Err(ParseError::Syntax);
        },
    };
    if !bytes_eq(root.name.as_slice(), "PathOfBuilding".as_bytes()) {
        return Err(ParseError::Structure);
    }
    let build = match find_child_idx(&root, "Build") {
        Some(ix) => &root.children[ix],
        None => {
            return Err(ParseError::Structure);
        },
    };
    if find_attr_idx(build, "className").is_none() {
        return Err(ParseError::Structure);
    }
    if find_attr_idx(build, "ascendClassName").is_none() {
        return Err(ParseError::Structure);
    }
    let level = match find_attr_idx(build, "level") {
        Some(ix) => match parse_u8_bytes(build.attrs[ix].value.as_slice()) {
            Some(v) => v,
            None => {
                return Err(ParseError::Structure);
            },
        },
        None => {
            return Err(ParseError::Structure);
        },
    };
    let main_socket_group = match find_attr_idx(build, "mainSocketGroup") {
        Some(ix) => match parse_u8_bytes(build.attrs[ix].value.as_slice()) {
            Some(v) => v,
            None => {
                return Err(ParseError::Structure);
            },
        },
        None => {
            return Err(ParseError::Structure);
        },
    };
    let skills = match find_child_idx(&root, "Skills") {
        Some(ix) => &root.children[ix],
        None => {
            return Err(ParseError::Structure);
        },
    };
    let skill_count = count_children(skills, "Skill");
    let tree = match find_child_idx(&root, "Tree") {
        Some(ix) => &root.children[ix],
        None => {
            return Err(ParseError::Structure);
        },
    };
    let active_spec = match find_attr_idx(tree, "activeSpec") {
        Some(ix) => match parse_u8_bytes(tree.attrs[ix].value.as_slice()) {
            Some(v) => v,
            None => {
                return Err(ParseError::Structure);
            },
        },
        None => {
            return Err(ParseError::Structure);
        },
    };
    let spec_count = count_children(tree, "Spec");
    if spec_count == 0 {
        return Err(ParseError::Structure);
    }
    Ok(ParsedDocument { level, main_socket_group, active_spec, skill_count, spec_count })
}

} // verus!
