//! A small markup reader for build-export documents.
//!
//! The accepted language is a strict subset of XML, stated as a
//! deterministic recursive-descent grammar over the UTF-8 bytes of the
//! text: optional whitespace, then one element; an element is
//! `<name attr="value" ...>` with children and matching `</name>`, or
//! self-closing `<name .../>`; text may stand between elements and runs
//! to the next `<`.  There are no declarations, comments, CDATA
//! sections or entity references.  Attribute values run to the next
//! `"` and may not contain `<`.
//!
//! The grammar below is the specification; the executable parser is
//! proved to return exactly what the grammar derives.

use vstd::prelude::*;

verus! {

broadcast use vstd::std_specs::vec::axiom_vec_index_decreases;

/// An attribute of a parsed element.
pub struct Attr {
    pub name: Vec<u8>,
    pub value: Vec<u8>,
}

/// A parsed element: its tag name, attributes in order, and child
/// elements in order.  Text content is checked but not kept.
pub struct Element {
    pub name: Vec<u8>,
    pub attrs: Vec<Attr>,
    pub children: Vec<Element>,
}

/// The mathematical shape of an attribute.
pub struct GAttr {
    pub name: Seq<u8>,
    pub value: Seq<u8>,
}

/// The mathematical shape of an element.
pub struct GElem {
    pub name: Seq<u8>,
    pub attrs: Seq<GAttr>,
    pub children: Seq<GElem>,
}

pub open spec fn attrs_view(v: Seq<Attr>) -> Seq<GAttr> {
    Seq::new(v.len(), |i: int| GAttr { name: v[i].name@, value: v[i].value@ })
}

pub open spec fn elems_view(es: Seq<Element>) -> Seq<GElem>
    decreases es,
{
    if es.len() == 0 {
        Seq::empty()
    } else {
        seq![elem_view(es[0])] + elems_view(es.drop_first())
    }
}

pub open spec fn elem_view(e: Element) -> GElem
    decreases e,
{
    GElem { name: e.name@, attrs: attrs_view(e.attrs@), children: elems_view(e.children@) }
}

pub open spec fn is_ws(c: u8) -> bool {
    c == 32 || c == 9 || c == 10 || c == 13
}

pub open spec fn is_name_start(c: u8) -> bool {
    (65 <= c && c <= 90) || (97 <= c && c <= 122) || c == 95
}

pub open spec fn is_name_char(c: u8) -> bool {
    is_name_start(c) || (48 <= c && c <= 57) || c == 45 || c == 46
}

/// First position at or after `i` holding a non-whitespace byte, or the
/// end of input.
pub open spec fn skip_ws(s: Seq<u8>, i: int) -> int
    decreases s.len() - i,
{
    if 0 <= i < s.len() && is_ws(s[i]) {
        skip_ws(s, i + 1)
    } else {
        i
    }
}

/// First position at or after `i` holding a byte that cannot continue a
/// name, or the end of input.
pub open spec fn name_end(s: Seq<u8>, i: int) -> int
    decreases s.len() - i,
{
    if 0 <= i < s.len() && is_name_char(s[i]) {
        name_end(s, i + 1)
    } else {
        i
    }
}

/// Position of the closing quote of an attribute value starting at `i`,
/// or nothing if the input ends or an `<` intervenes.
pub open spec fn find_quote(s: Seq<u8>, i: int) -> Option<int>
    decreases s.len() - i,
{
    if !(0 <= i < s.len()) {
        None
    } else if s[i] == 34 {
        Some(i)
    } else if s[i] == 60 {
        None
    } else {
        find_quote(s, i + 1)
    }
}

/// First position at or after `i` holding `<`, or the end of input:
/// where a run of text content ends.
pub open spec fn text_end(s: Seq<u8>, i: int) -> int
    decreases s.len() - i,
{
    if 0 <= i < s.len() && s[i] != 60 {
        text_end(s, i + 1)
    } else {
        i
    }
}

/// Derives `(ws* name ws* = ws* "value")*` starting at `i`; yields the
/// attributes and the position after the skipped trailing whitespace.
pub open spec fn parse_attrs(s: Seq<u8>, i: int) -> Option<(Seq<GAttr>, int)>
    decreases s.len() - i,
{
    let j = skip_ws(s, i);
    if j < s.len() && is_name_start(s[j]) {
        let ne = name_end(s, j + 1);
        let k = skip_ws(s, ne);
        if k < s.len() && s[k] == 61 {
            let v = skip_ws(s, k + 1);
            if v < s.len() && s[v] == 34 {
                match find_quote(s, v + 1) {
                    Some(q) => if i <= q < s.len() {
                        match parse_attrs(s, q + 1) {
                            Some((rest, end)) => Some(
                                (
                                    seq![
                                        GAttr {
                                            name: s.subrange(j, ne),
                                            value: s.subrange(v + 1, q),
                                        },
                                    ] + rest,
                                    end,
                                ),
                            ),
                            None => None,
                        }
                    } else {
                        None
                    },
                    None => None,
                }
            } else {
                None
            }
        } else {
            None
        }
    } else {
        Some((Seq::empty(), j))
    }
}

/// Derives one element starting at `i`: `<name attrs/>` or
/// `<name attrs>content</name>` with matching names.
pub open spec fn parse_element(s: Seq<u8>, i: int) -> Option<(GElem, int)>
    decreases s.len() - i, 0int,
{
    if !(0 <= i && i + 1 < s.len() && s[i] == 60 && is_name_start(s[i + 1])) {
        None
    } else {
        let ne = name_end(s, i + 2);
        let name = s.subrange(i + 1, ne);
        match parse_attrs(s, ne) {
            Some((attrs, k)) => if k < i || k > s.len() {
                None
            } else if k + 1 < s.len() && s[k] == 47 && s[k + 1] == 62 {
                Some((GElem { name, attrs, children: Seq::empty() }, k + 2))
            } else if k < s.len() && s[k] == 62 {
                match parse_content(s, k + 1) {
                    Some((children, c)) => if c + 3 < s.len() && s[c] == 60 && s[c + 1] == 47 {
                        let ce = name_end(s, c + 2);
                        if s.subrange(c + 2, ce) == name && ce < s.len() && s[ce] == 62 {
                            Some((GElem { name, attrs, children }, ce + 1))
                        } else {
                            None
                        }
                    } else {
                        None
                    },
                    None => None,
                }
            } else {
                None
            },
            None => None,
        }
    }
}

/// Derives element content starting at `i`: interleaved text runs and
/// child elements, up to (but not consuming) a closing tag.
pub open spec fn parse_content(s: Seq<u8>, i: int) -> Option<(Seq<GElem>, int)>
    decreases s.len() - i, 1int,
{
    if !(0 <= i && i < s.len()) {
        None
    } else if s[i] == 60 {
        if i + 1 < s.len() && s[i + 1] == 47 {
            Some((Seq::empty(), i))
        } else {
            match parse_element(s, i) {
                Some((e, j)) => if j <= i || j > s.len() {
                    None
                } else {
                    match parse_content(s, j) {
                        Some((rest, c)) => Some((seq![e] + rest, c)),
                        None => None,
                    }
                },
                None => None,
            }
        }
    } else {
        let t = text_end(s, i);
        if t <= i || t > s.len() {
            None
        } else {
            parse_content(s, t)
        }
    }
}

/// Derives a whole document: optional whitespace, one element, optional
/// whitespace, end of input.
pub open spec fn parse_doc(s: Seq<u8>) -> Option<GElem> {
    match parse_element(s, skip_ws(s, 0)) {
        Some((e, j)) => if skip_ws(s, j) == s.len() {
            Some(e)
        } else {
            None
        },
        None => None,
    }
}

fn skip_ws_exec(s: &[u8], i: usize) -> (j: usize)
    requires
        i <= s@.len(),
    ensures
        j == skip_ws(s@, i as int),
        i <= j <= s@.len(),
    decreases s@.len() - i,
{
    if i < s.len() && (s[i] == 32 || s[i] == 9 || s[i] == 10 || s[i] == 13) {
        skip_ws_exec(s, i + 1)
    } else {
        i
    }
}

fn name_end_exec(s: &[u8], i: usize) -> (j: usize)
    requires
        i <= s@.len(),
    ensures
        j == name_end(s@, i as int),
        i <= j <= s@.len(),
    decreases s@.len() - i,
{
    if i < s.len() && {
        let c = s[i];
        (65 <= c && c <= 90) || (97 <= c && c <= 122) || c == 95 || (48 <= c && c <= 57) || c == 45
            || c == 46
    } {
        name_end_exec(s, i + 1)
    } else {
        i
    }
}

fn find_quote_exec(s: &[u8], i: usize) -> (r: Option<usize>)
    requires
        i <= s@.len(),
    ensures
        match r {
            Some(q) => find_quote(s@, i as int) == Some(q as int) && i <= q < s@.len(),
            None => find_quote(s@, i as int) is None,
        },
    decreases s@.len() - i,
{
    if i >= s.len() {
        None
    } else if s[i] == 34 {
        Some(i)
    } else if s[i] == 60 {
        None
    } else {
        find_quote_exec(s, i + 1)
    }
}

fn text_end_exec(s: &[u8], i: usize) -> (j: usize)
    requires
        i <= s@.len(),
    ensures
        j == text_end(s@, i as int),
        i <= j <= s@.len(),
    decreases s@.len() - i,
{
    if i < s.len() && s[i] != 60 {
        text_end_exec(s, i + 1)
    } else {
        i
    }
}

fn is_name_start_exec(c: u8) -> (r: bool)
    ensures
        r == is_name_start(c),
{
    (65 <= c && c <= 90) || (97 <= c && c <= 122) || c == 95
}

/// Reads the attribute list of a tag, mirroring [`parse_attrs`].
fn parse_attrs_exec(s: &[u8], i: usize) -> (r: Option<(Vec<Attr>, usize)>)
    requires
        i <= s@.len(),
    ensures
        match r {
            Some((attrs, end)) => parse_attrs(s@, i as int) == Some(
                (attrs_view(attrs@), end as int),
            ) && i <= end <= s@.len(),
            None => parse_attrs(s@, i as int) is None,
        },
    decreases s@.len() - i,
{
    let j = skip_ws_exec(s, i);
    if j < s.len() && is_name_start_exec(s[j]) {
        let ne = name_end_exec(s, j + 1);
        let k = skip_ws_exec(s, ne);
        if k < s.len() && s[k] == 61 {
            let v = skip_ws_exec(s, k + 1);
            if v < s.len() && s[v] == 34 {
                match find_quote_exec(s, v + 1) {
                    Some(q) => {
                        match parse_attrs_exec(s, q + 1) {
                            Some((mut attrs, end)) => {
                                let name = vstd::slice::slice_to_vec(
                                    vstd::slice::slice_subrange(s, j, ne),
                                );
                                let value = vstd::slice::slice_to_vec(
                                    vstd::slice::slice_subrange(s, v + 1, q),
                                );
                                let ghost rest = attrs_view(attrs@);
                                attrs.insert(0, Attr { name, value });
                                proof {
                                    assert(attrs_view(attrs@) =~= seq![
                                        GAttr {
                                            name: s@.subrange(j as int, ne as int),
                                            value: s@.subrange(v as int + 1, q as int),
                                        },
                                    ] + rest);
                                }
                                Some((attrs, end))
                            },
                            None => None,
                        }
                    },
                    None => None,
                }
            } else {
                None
            }
        } else {
            None
        }
    } else {
        proof {
            assert(parse_attrs(s@, i as int) == Some((Seq::<GAttr>::empty(), j as int)));
            assert(attrs_view(Seq::<Attr>::empty()) =~= Seq::<GAttr>::empty());
        }
        Some((Vec::new(), j))
    }
}

/// Reads one element, mirroring [`parse_element`].
pub fn parse_element_exec(s: &[u8], i: usize) -> (r: Option<(Element, usize)>)
    requires
        i <= s@.len(),
    ensures
        match r {
            Some((e, j)) => parse_element(s@, i as int) == Some((elem_view(e), j as int)) && i < j
                <= s@.len(),
            None => parse_element(s@, i as int) is None,
        },
    decreases s@.len() - i, 0int,
{
    if !(i < s.len() && s[i] == 60 && i + 1 < s.len() && is_name_start_exec(s[i + 1])) {
        return None;
    }
    let ne = name_end_exec(s, i + 2);
    let name = vstd::slice::slice_to_vec(vstd::slice::slice_subrange(s, i + 1, ne));
    match parse_attrs_exec(s, ne) {
        Some((attrs, k)) => {
            if k < s.len() && s[k] == 47 && k + 1 < s.len() && s[k + 1] == 62 {
                let e = Element { name, attrs, children: Vec::new() };
                proof {
                    assert(elem_view(e).children =~= Seq::<GElem>::empty());
                }
                Some((e, k + 2))
            } else if k < s.len() && s[k] == 62 {
                match parse_content_exec(s, k + 1) {
                    Some((children, c)) => {
                        if c < s.len() && s[c] == 60 && c + 1 < s.len() && s[c + 1] == 47
                            && c + 2 < s.len() && c + 3 < s.len() {
                            let ce = name_end_exec(s, c + 2);
                            let close_ok = {
                                let close = vstd::slice::slice_subrange(s, c + 2, ce);
                                bytes_eq(close, name.as_slice())
                            };
                            if close_ok && ce < s.len() && s[ce] == 62 {
                                let e = Element { name, attrs, children };
                                Some((e, ce + 1))
                            } else {
                                None
                            }
                        } else {
                            None
                        }
                    },
                    None => None,
                }
            } else {
                None
            }
        },
        None => None,
    }
}

/// Reads element content, mirroring [`parse_content`].
fn parse_content_exec(s: &[u8], i: usize) -> (r: Option<(Vec<Element>, usize)>)
    requires
        i <= s@.len(),
    ensures
        match r {
            Some((cs, c)) => parse_content(s@, i as int) == Some((elems_view(cs@), c as int))
                && i <= c <= s@.len(),
            None => parse_content(s@, i as int) is None,
        },
    decreases s@.len() - i, 1int,
{
    if i >= s.len() {
        return None;
    }
    if s[i] == 60 {
        if i + 1 < s.len() && s[i + 1] == 47 {
            let empty: Vec<Element> = Vec::new();
            proof {
                assert(elems_view(empty@) =~= Seq::<GElem>::empty());
            }
            return Some((empty, i));
        }
        match parse_element_exec(s, i) {
            Some((e, j)) => {
                match parse_content_exec(s, j) {
                    Some((mut cs, c)) => {
                        let ghost pre = cs@;
                        let ghost rest = elems_view(cs@);
                        let ghost ev = elem_view(e);
                        cs.insert(0, e);
                        proof {
                            assert(cs@.drop_first() =~= pre);
                            assert(elems_view(cs@) == seq![ev] + rest);
                        }
                        Some((cs, c))
                    },
                    None => None,
                }
            },
            None => None,
        }
    } else {
        let t = text_end_exec(s, i);
        if t <= i {
            return None;
        }
        parse_content_exec(s, t)
    }
}

/// Byte-wise equality of two slices.
pub fn bytes_eq(a: &[u8], b: &[u8]) -> (r: bool)
    ensures
        r == (a@ == b@),
{
    if a.len() != b.len() {
        assert(a@ != b@) by {
            assert(a@.len() != b@.len());
        }
        return false;
    }
    let n = a.len();
    let mut i: usize = 0;
    while i < n
        invariant
            i <= n,
            n == a@.len() == b@.len(),
            forall|j: int| 0 <= j < i ==> a@[j] == b@[j],
        decreases n - i,
    {
        if a[i] != b[i] {
            return false;
        }
        i += 1;
    }
    proof {
        assert(a@ =~= b@);
    }
    true
}

pub proof fn lemma_elems_view_index(es: Seq<Element>)
    ensures
        elems_view(es).len() == es.len(),
        forall|i: int| 0 <= i < es.len() ==> elems_view(es)[i] == elem_view(es[i]),
    decreases es.len(),
{
    if es.len() > 0 {
        lemma_elems_view_index(es.drop_first());
        assert forall|i: int| 0 <= i < es.len() implies elems_view(es)[i] == elem_view(es[i]) by {
            if i > 0 {
                assert(es.drop_first()[i - 1] == es[i]);
                assert(elems_view(es)[i] == elems_view(es.drop_first())[i - 1]);
            }
        }
    }
}

/// Reads a whole document, mirroring [`parse_doc`].
pub fn parse_doc_exec(s: &[u8]) -> (r: Option<Element>)
    ensures
        match r {
            Some(e) => parse_doc(s@) == Some(elem_view(e)),
            None => parse_doc(s@) is None,
        },
{
    let i = skip_ws_exec(s, 0);
    match parse_element_exec(s, i) {
        Some((e, j)) => {
            let t = skip_ws_exec(s, j);
            if t == s.len() {
                Some(e)
            } else {
                None
            }
        },
        None => None,
    }
}

} // verus!
