//! A small XML document parser, sufficient for tile-source descriptors:
//! one root element, nested elements with double- or single-quoted
//! attributes, the five named character entities in attribute values,
//! comments and processing instructions (skipped), and text content
//! (ignored). `CDATA` sections and document type declarations are not
//! supported and fail the parse.

use vstd::prelude::*;

verus! {

broadcast use vstd::seq::axiom_seq_index_decreases, vstd::std_specs::vec::axiom_vec_decreases_to_view;

/// An attribute: a name and its (entity-decoded) value.
pub struct XmlAttr {
    pub name: Vec<char>,
    pub value: Vec<char>,
}

/// An element: its name, attributes in document order, and child
/// elements in document order. Text content is not retained.
pub struct XmlElement {
    pub name: Vec<char>,
    pub attrs: Vec<XmlAttr>,
    pub children: Vec<XmlElement>,
}

/// The mathematical shape of an attribute.
pub struct XmlAttrV {
    pub name: Seq<char>,
    pub value: Seq<char>,
}

/// The mathematical shape of an element.
pub struct XmlNodeV {
    pub name: Seq<char>,
    pub attrs: Seq<XmlAttrV>,
    pub children: Seq<XmlNodeV>,
}

impl View for XmlAttr {
    type V = XmlAttrV;

    open spec fn view(&self) -> XmlAttrV {
        XmlAttrV { name: self.name@, value: self.value@ }
    }
}

/// The views of a sequence of attributes.
pub open spec fn attrs_view(a: Seq<XmlAttr>) -> Seq<XmlAttrV> {
    Seq::new(a.len(), |i: int| a[i]@)
}

/// The views of a sequence of elements.
pub open spec fn children_view(c: Seq<XmlElement>) -> Seq<XmlNodeV>
    decreases c,
{
    Seq::new(
        c.len(),
        |i: int|
            if 0 <= i < c.len() {
                c[i]@
            } else {
                XmlNodeV { name: Seq::empty(), attrs: Seq::empty(), children: Seq::empty() }
            },
    )
}

impl View for XmlElement {
    type V = XmlNodeV;

    open spec fn view(&self) -> XmlNodeV
        decreases self,
    {
        XmlNodeV {
            name: self.name@,
            attrs: attrs_view(self.attrs@),
            children: children_view(self.children@),
        }
    }
}

use crate::text::{skip_ws, skip_ws_exec};

/// A character that may start an element or attribute name.
pub open spec fn is_name_start(c: char) -> bool {
    ('a' <= c <= 'z') || ('A' <= c <= 'Z') || c == '_' || c == ':'
}

/// A character that may continue a name.
pub open spec fn is_name_char(c: char) -> bool {
    is_name_start(c) || ('0' <= c <= '9') || c == '-' || c == '.'
}

/// The first position at or after `i` holding a non-name character.
pub open spec fn scan_name(s: Seq<char>, i: int) -> int
    decreases s.len() - i,
{
    if 0 <= i < s.len() && is_name_char(s[i]) {
        scan_name(s, i + 1)
    } else {
        i
    }
}

/// The character denoted by a named entity (`lt`, `gt`, `amp`, `apos`,
/// `quot`), if any.
pub open spec fn entity_char(name: Seq<char>) -> Option<char> {
    if name == seq!['l', 't'] {
        Some('<')
    } else if name == seq!['g', 't'] {
        Some('>')
    } else if name == seq!['a', 'm', 'p'] {
        Some('&')
    } else if name == seq!['a', 'p', 'o', 's'] {
        Some('\'')
    } else if name == seq!['q', 'u', 'o', 't'] {
        Some('"')
    } else {
        None
    }
}

/// The position just after the first occurrence of `ab` at or after `i`,
/// or `None` when there is none.
pub open spec fn scan_past2(s: Seq<char>, i: int, a: char, b: char) -> Option<int>
    decreases s.len() - i,
{
    if i < 0 || i + 2 > s.len() {
        None
    } else if s[i] == a && s[i + 1] == b {
        Some(i + 2)
    } else {
        scan_past2(s, i + 1, a, b)
    }
}

/// The position just after the first occurrence of `abc` at or after `i`,
/// or `None` when there is none.
pub open spec fn scan_past3(s: Seq<char>, i: int, a: char, b: char, c: char) -> Option<int>
    decreases s.len() - i,
{
    if i < 0 || i + 3 > s.len() {
        None
    } else if s[i] == a && s[i + 1] == b && s[i + 2] == c {
        Some(i + 3)
    } else {
        scan_past3(s, i + 1, a, b, c)
    }
}

/// An attribute value read up to the closing quote `q`, with the five
/// named entities decoded, accumulated onto `acc`; the position returned
/// is just after the quote.
pub open spec fn spec_parse_value(s: Seq<char>, i: int, q: char, acc: Seq<char>) -> Option<
    (Seq<char>, int),
>
    decreases s.len() - i,
{
    if i < 0 || i >= s.len() {
        None
    } else if s[i] == q {
        Some((acc, i + 1))
    } else if s[i] == '&' {
        let j = scan_name(s, i + 1);
        if j < s.len() && s[j] == ';' && j + 1 > i + 1 {
            match entity_char(s.subrange(i + 1, j)) {
                Some(c) => spec_parse_value(s, j + 1, q, acc.push(c)),
                None => None,
            }
        } else {
            None
        }
    } else {
        spec_parse_value(s, i + 1, q, acc.push(s[i]))
    }
}

/// The attributes readable from position `i` (each preceded by optional
/// whitespace), accumulated onto `acc`; the position returned has
/// whitespace already skipped and holds no further attribute.
pub open spec fn spec_parse_attrs(s: Seq<char>, i: int, acc: Seq<XmlAttrV>) -> Option<
    (Seq<XmlAttrV>, int),
>
    decreases s.len() - i,
{
    let j = skip_ws(s, i);
    if j < s.len() && is_name_start(s[j]) && j >= i {
        let ne = scan_name(s, j);
        let name = s.subrange(j, ne);
        let k = skip_ws(s, ne);
        if k < s.len() && s[k] == '=' {
            let m = skip_ws(s, k + 1);
            if m < s.len() && (s[m] == '"' || s[m] == '\'') {
                match spec_parse_value(s, m + 1, s[m], Seq::empty()) {
                    Some((value, e)) => if e > i && e <= s.len() {
                        spec_parse_attrs(s, e, acc.push(XmlAttrV { name, value }))
                    } else {
                        None
                    },
                    None => None,
                }
            } else {
                None
            }
        } else {
            None
        }
    } else {
        Some((acc, j))
    }
}

/// An element parsed from position `i` (which must hold `<`), and the
/// position just after its closing tag.
pub open spec fn spec_parse_element(s: Seq<char>, i: int) -> Option<(XmlNodeV, int)>
    decreases s.len() - i, 0int,
{
    if !(0 <= i && i + 1 < s.len() && s[i] == '<' && is_name_start(s[i + 1])) {
        None
    } else {
        let ne = scan_name(s, i + 1);
        let name = s.subrange(i + 1, ne);
        match spec_parse_attrs(s, ne, Seq::empty()) {
            None => None,
            Some((attrs, j)) => if j + 1 < s.len() && s[j] == '/' && s[j + 1] == '>' {
                Some((XmlNodeV { name, attrs, children: Seq::empty() }, j + 2))
            } else if j < s.len() && s[j] == '>' && j + 1 > i {
                match spec_parse_content(s, j + 1, Seq::empty()) {
                    None => None,
                    Some((children, k)) => {
                        // closing tag: `</name ws? >`
                        if k + 1 < s.len() && s[k] == '<' && s[k + 1] == '/' {
                            let ce = scan_name(s, k + 2);
                            if s.subrange(k + 2, ce) == name {
                                let k2 = skip_ws(s, ce);
                                if k2 < s.len() && s[k2] == '>' {
                                    Some((XmlNodeV { name, attrs, children }, k2 + 1))
                                } else {
                                    None
                                }
                            } else {
                                None
                            }
                        } else {
                            None
                        }
                    },
                }
            } else {
                None
            },
        }
    }
}

/// The children and ignored content readable from position `i` up to
/// (but not including) the next closing tag, accumulated onto `acc`.
pub open spec fn spec_parse_content(s: Seq<char>, i: int, acc: Seq<XmlNodeV>) -> Option<
    (Seq<XmlNodeV>, int),
>
    decreases s.len() - i, 1int,
{
    if i < 0 || i >= s.len() {
        None
    } else if s[i] == '<' {
        if i + 1 < s.len() && s[i + 1] == '/' {
            Some((acc, i))
        } else if i + 3 < s.len() && s[i + 1] == '!' && s[i + 2] == '-' && s[i + 3] == '-' {
            match scan_past3(s, i + 4, '-', '-', '>') {
                Some(j) => if j > i && j <= s.len() {
                    spec_parse_content(s, j, acc)
                } else {
                    None
                },
                None => None,
            }
        } else if i + 1 < s.len() && s[i + 1] == '?' {
            match scan_past2(s, i + 2, '?', '>') {
                Some(j) => if j > i && j <= s.len() {
                    spec_parse_content(s, j, acc)
                } else {
                    None
                },
                None => None,
            }
        } else {
            match spec_parse_element(s, i) {
                None => None,
                Some((child, j)) => if j > i && j <= s.len() {
                    spec_parse_content(s, j, acc.push(child))
                } else {
                    None
                },
            }
        }
    } else {
        spec_parse_content(s, i + 1, acc)
    }
}

/// Skips whitespace, comments and processing instructions from `i`;
/// `None` when a comment or instruction is unterminated.
pub open spec fn skip_misc(s: Seq<char>, i: int) -> Option<int>
    decreases s.len() - i,
{
    let j = skip_ws(s, i);
    if j + 3 < s.len() && s[j] == '<' && s[j + 1] == '!' && s[j + 2] == '-' && s[j + 3] == '-' {
        match scan_past3(s, j + 4, '-', '-', '>') {
            Some(k) => if k > i && k <= s.len() {
                skip_misc(s, k)
            } else {
                None
            },
            None => None,
        }
    } else if j + 1 < s.len() && s[j] == '<' && s[j + 1] == '?' {
        match scan_past2(s, j + 2, '?', '>') {
            Some(k) => if k > i && k <= s.len() {
                skip_misc(s, k)
            } else {
                None
            },
            None => None,
        }
    } else if j >= i {
        Some(j)
    } else {
        None
    }
}

/// A whole document: optional declaration, comments and instructions,
/// one root element, trailing comments and whitespace, end of input.
pub open spec fn spec_parse_xml(s: Seq<char>) -> Option<XmlNodeV> {
    match skip_misc(s, 0) {
        None => None,
        Some(i) => match spec_parse_element(s, i) {
            None => None,
            Some((root, j)) => match skip_misc(s, j) {
                None => None,
                Some(k) => if k == s.len() {
                    Some(root)
                } else {
                    None
                },
            },
        },
    }
}

/// Whether `c` may start a name.
fn name_start_char(c: char) -> (r: bool)
    ensures
        r == is_name_start(c),
{
    ('a' <= c && c <= 'z') || ('A' <= c && c <= 'Z') || c == '_' || c == ':'
}

/// Whether `c` may continue a name.
fn name_char(c: char) -> (r: bool)
    ensures
        r == is_name_char(c),
{
    name_start_char(c) || ('0' <= c && c <= '9') || c == '-' || c == '.'
}

/// Scans to the end of a name.
fn scan_name_exec(v: &Vec<char>, i: usize) -> (j: usize)
    requires
        i <= v@.len(),
    ensures
        j as int == scan_name(v@, i as int),
        i <= j <= v@.len(),
{
    let mut j = i;
    while j < v.len() && name_char(v[j])
        invariant
            i <= j <= v@.len(),
            scan_name(v@, i as int) == scan_name(v@, j as int),
        decreases v@.len() - j,
    {
        j += 1;
    }
    j
}

/// Scans past the first occurrence of the two characters `ab`.
fn scan_past2_exec(v: &Vec<char>, i: usize, a: char, b: char) -> (r: Option<usize>)
    requires
        i <= v@.len(),
    ensures
        r matches Some(j) ==> scan_past2(v@, i as int, a, b) == Some(j as int) && i < j <= v@.len(),
        r is None ==> scan_past2(v@, i as int, a, b) is None,
{
    let mut j = i;
    while j < v.len() && v.len() - j >= 2
        invariant
            i <= j <= v@.len(),
            scan_past2(v@, i as int, a, b) == scan_past2(v@, j as int, a, b),
        decreases v@.len() - j,
    {
        if v[j] == a && v[j + 1] == b {
            return Some(j + 2);
        }
        j += 1;
    }
    None
}

/// Scans past the first occurrence of the three characters `abc`.
fn scan_past3_exec(v: &Vec<char>, i: usize, a: char, b: char, c: char) -> (r: Option<usize>)
    requires
        i <= v@.len(),
    ensures
        r matches Some(j) ==> scan_past3(v@, i as int, a, b, c) == Some(j as int) && i < j
            <= v@.len(),
        r is None ==> scan_past3(v@, i as int, a, b, c) is None,
{
    let mut j = i;
    while j < v.len() && v.len() - j >= 3
        invariant
            i <= j <= v@.len(),
            scan_past3(v@, i as int, a, b, c) == scan_past3(v@, j as int, a, b, c),
        decreases v@.len() - j,
    {
        if v[j] == a && v[j + 1] == b && v[j + 2] == c {
            return Some(j + 3);
        }
        j += 1;
    }
    None
}

/// Reads an attribute value up to the closing quote `q`, decoding the
/// five named entities.
fn parse_value_exec(v: &Vec<char>, i: usize, q: char) -> (r: Option<(Vec<char>, usize)>)
    requires
        i <= v@.len(),
    ensures
        r matches Some((w, e)) ==> spec_parse_value(v@, i as int, q, Seq::empty()) == Some(
            (w@, e as int),
        ) && i < e <= v@.len(),
        r is None ==> spec_parse_value(v@, i as int, q, Seq::empty()) is None,
{
    let mut out: Vec<char> = Vec::new();
    let mut j = i;
    while j < v.len()
        invariant
            i <= j <= v@.len(),
            spec_parse_value(v@, i as int, q, Seq::empty()) == spec_parse_value(
                v@,
                j as int,
                q,
                out@,
            ),
        decreases v@.len() - j,
    {
        let c = v[j];
        if c == q {
            return Some((out, j + 1));
        } else if c == '&' {
            let ne = scan_name_exec(v, j + 1);
            if ne < v.len() && v[ne] == ';' {
                let ghost ename = v@.subrange(j + 1, ne as int);
                proof {
                    reveal_strlit("lt");
                    reveal_strlit("gt");
                    reveal_strlit("amp");
                    reveal_strlit("apos");
                    reveal_strlit("quot");
                    assert("lt"@ =~= seq!['l', 't']);
                    assert("gt"@ =~= seq!['g', 't']);
                    assert("amp"@ =~= seq!['a', 'm', 'p']);
                    assert("apos"@ =~= seq!['a', 'p', 'o', 's']);
                    assert("quot"@ =~= seq!['q', 'u', 'o', 't']);
                }
                let ec: char;
                if crate::text::chars_eq_str(v, j + 1, ne, "lt") {
                    ec = '<';
                } else if crate::text::chars_eq_str(v, j + 1, ne, "gt") {
                    ec = '>';
                } else if crate::text::chars_eq_str(v, j + 1, ne, "amp") {
                    ec = '&';
                } else if crate::text::chars_eq_str(v, j + 1, ne, "apos") {
                    ec = '\'';
                } else if crate::text::chars_eq_str(v, j + 1, ne, "quot") {
                    ec = '"';
                } else {
                    proof {
                        assert(entity_char(ename) is None);
                    }
                    return None;
                }
                proof {
                    assert(entity_char(ename) == Some(ec));
                }
                out.push(ec);
                j = ne + 1;
            } else {
                return None;
            }
        } else {
            out.push(c);
            j += 1;
        }
    }
    None
}

/// Reads the attribute list.
fn parse_attrs_exec(v: &Vec<char>, i: usize) -> (r: Option<(Vec<XmlAttr>, usize)>)
    requires
        i <= v@.len(),
    ensures
        r matches Some((attrs, j)) ==> spec_parse_attrs(v@, i as int, Seq::empty()) == Some(
            (attrs_view(attrs@), j as int),
        ) && i <= j <= v@.len(),
        r is None ==> spec_parse_attrs(v@, i as int, Seq::empty()) is None,
{
    let mut out: Vec<XmlAttr> = Vec::new();
    let mut j = i;
    proof {
        assert(attrs_view(out@) =~= Seq::<XmlAttrV>::empty());
    }
    loop
        invariant
            i <= j <= v@.len(),
            spec_parse_attrs(v@, i as int, Seq::empty()) == spec_parse_attrs(
                v@,
                j as int,
                attrs_view(out@),
            ),
        decreases v@.len() - j,
    {
        let w = skip_ws_exec(v, j);
        if !(w < v.len() && name_start_char(v[w])) {
            return Some((out, w));
        }
        let ne = scan_name_exec(v, w);
        let k = skip_ws_exec(v, ne);
        if !(k < v.len() && v[k] == '=') {
            return None;
        }
        let m = skip_ws_exec(v, k + 1);
        if !(m < v.len() && (v[m] == '"' || v[m] == '\'')) {
            return None;
        }
        let q = v[m];
        match parse_value_exec(v, m + 1, q) {
            None => {
                return None;
            },
            Some((value, e)) => {
                let name = crate::text::chars_subrange(v, w, ne);
                let ghost prev = attrs_view(out@);
                out.push(XmlAttr { name, value });
                proof {
                    assert(attrs_view(out@) =~= prev.push(
                        XmlAttrV {
                            name: v@.subrange(w as int, ne as int),
                            value: (spec_parse_value(v@, m + 1 as int, q, Seq::empty())->0).0,
                        },
                    ));
                }
                j = e;
            },
        }
    }
}

/// Parses the element starting at `i`.
fn parse_element_exec(v: &Vec<char>, i: usize) -> (r: Option<(XmlElement, usize)>)
    requires
        i <= v@.len(),
    ensures
        r matches Some((e, j)) ==> spec_parse_element(v@, i as int) == Some((e@, j as int)) && i
            < j <= v@.len(),
        r is None ==> spec_parse_element(v@, i as int) is None,
    decreases v@.len() - i, 0int,
{
    if !(i < v.len() && v.len() - i > 1 && v[i] == '<' && name_start_char(v[i + 1])) {
        return None;
    }
    let ne = scan_name_exec(v, i + 1);
    let name = crate::text::chars_subrange(v, i + 1, ne);
    match parse_attrs_exec(v, ne) {
        None => None,
        Some((attrs, j)) => {
            if j < v.len() && v.len() - j > 1 && v[j] == '/' && v[j + 1] == '>' {
                let e = XmlElement { name, attrs, children: Vec::new() };
                proof {
                    assert(children_view(e.children@) =~= Seq::<XmlNodeV>::empty());
                }
                Some((e, j + 2))
            } else if j < v.len() && v[j] == '>' {
                match parse_content_exec(v, j + 1) {
                    None => None,
                    Some((children, k)) => {
                        if !(k < v.len() && v.len() - k > 1 && v[k] == '<' && v[k + 1] == '/') {
                            return None;
                        }
                        let ce = scan_name_exec(v, k + 2);
                        if !crate::text::chars_eq_chars(v, k + 2, ce, &name) {
                            return None;
                        }
                        let k2 = skip_ws_exec(v, ce);
                        if !(k2 < v.len() && v[k2] == '>') {
                            return None;
                        }
                        Some((XmlElement { name, attrs, children }, k2 + 1))
                    },
                }
            } else {
                None
            }
        },
    }
}

/// Parses element content up to the next closing tag.
fn parse_content_exec(v: &Vec<char>, i: usize) -> (r: Option<(Vec<XmlElement>, usize)>)
    requires
        i <= v@.len(),
    ensures
        r matches Some((c, j)) ==> spec_parse_content(v@, i as int, Seq::empty()) == Some(
            (children_view(c@), j as int),
        ) && i <= j <= v@.len(),
        r is None ==> spec_parse_content(v@, i as int, Seq::empty()) is None,
    decreases v@.len() - i, 1int,
{
    let mut out: Vec<XmlElement> = Vec::new();
    let mut j = i;
    proof {
        assert(children_view(out@) =~= Seq::<XmlNodeV>::empty());
    }
    loop
        invariant
            i <= j <= v@.len(),
            spec_parse_content(v@, i as int, Seq::empty()) == spec_parse_content(
                v@,
                j as int,
                children_view(out@),
            ),
        decreases v@.len() - j,
    {
        if j >= v.len() {
            return None;
        }
        if v[j] == '<' {
            if v.len() - j > 1 && v[j + 1] == '/' {
                return Some((out, j));
            } else if v.len() - j > 3 && v[j + 1] == '!' && v[j + 2] == '-' && v[j + 3] == '-' {
                match scan_past3_exec(v, j + 4, '-', '-', '>') {
                    Some(k) => {
                        j = k;
                    },
                    None => {
                        return None;
                    },
                }
            } else if v.len() - j > 1 && v[j + 1] == '?' {
                match scan_past2_exec(v, j + 2, '?', '>') {
                    Some(k) => {
                        j = k;
                    },
                    None => {
                        return None;
                    },
                }
            } else {
                match parse_element_exec(v, j) {
                    None => {
                        return None;
                    },
                    Some((child, k)) => {
                        let ghost prev = children_view(out@);
                        let ghost childv = child@;
                        out.push(child);
                        proof {
                            assert(children_view(out@) =~= prev.push(childv));
                        }
                        j = k;
                    },
                }
            }
        } else {
            j += 1;
        }
    }
}

/// Skips whitespace, comments and processing instructions.
fn skip_misc_exec(v: &Vec<char>, i: usize) -> (r: Option<usize>)
    requires
        i <= v@.len(),
    ensures
        r matches Some(j) ==> skip_misc(v@, i as int) == Some(j as int) && i <= j <= v@.len(),
        r is None ==> skip_misc(v@, i as int) is None,
{
    let mut j = i;
    loop
        invariant
            i <= j <= v@.len(),
            skip_misc(v@, i as int) == skip_misc(v@, j as int),
        decreases v@.len() - j,
    {
        let w = skip_ws_exec(v, j);
        if w < v.len() && v.len() - w > 3 && v[w] == '<' && v[w + 1] == '!' && v[w + 2] == '-' && v[w
            + 3] == '-' {
            match scan_past3_exec(v, w + 4, '-', '-', '>') {
                Some(k) => {
                    j = k;
                },
                None => {
                    return None;
                },
            }
        } else if w < v.len() && v.len() - w > 1 && v[w] == '<' && v[w + 1] == '?' {
            match scan_past2_exec(v, w + 2, '?', '>') {
                Some(k) => {
                    j = k;
                },
                None => {
                    return None;
                },
            }
        } else {
            return Some(w);
        }
    }
}

/// Parses a whole document: one root element amid optional declaration,
/// comments, instructions and whitespace.
pub fn parse_xml(v: &Vec<char>) -> (r: Option<XmlElement>)
    ensures
        r matches Some(e) ==> spec_parse_xml(v@) == Some(e@),
        r is None ==> spec_parse_xml(v@) is None,
{
    match skip_misc_exec(v, 0) {
        None => None,
        Some(i) => match parse_element_exec(v, i) {
            None => None,
            Some((root, j)) => match skip_misc_exec(v, j) {
                None => None,
                Some(k) => if k == v.len() {
                    Some(root)
                } else {
                    None
                },
            },
        },
    }
}

/// The value of the first attribute of `e` named `name`, if any.
pub open spec fn spec_attr(attrs: Seq<XmlAttrV>, name: Seq<char>) -> Option<Seq<char>>
    decreases attrs.len(),
{
    if attrs.len() == 0 {
        None
    } else if attrs[0].name == name {
        Some(attrs[0].value)
    } else {
        spec_attr(attrs.subrange(1, attrs.len() as int), name)
    }
}

/// The first child of `e` named `name`, if any.
pub open spec fn spec_child(children: Seq<XmlNodeV>, name: Seq<char>) -> Option<XmlNodeV>
    decreases children.len(),
{
    if children.len() == 0 {
        None
    } else if children[0].name == name {
        Some(children[0])
    } else {
        spec_child(children.subrange(1, children.len() as int), name)
    }
}

/// Looks up the first attribute of `e` named `name`.
pub fn find_attr<'a>(e: &'a XmlElement, name: &str) -> (r: Option<&'a Vec<char>>)
    ensures
        r matches Some(w) ==> spec_attr(e@.attrs, name@) == Some(w@),
        r is None ==> spec_attr(e@.attrs, name@) is None,
{
    let mut k: usize = 0;
    proof {
        assert(e@.attrs.subrange(0, e@.attrs.len() as int) =~= e@.attrs);
    }
    while k < e.attrs.len()
        invariant
            k <= e.attrs@.len(),
            e@.attrs.len() == e.attrs@.len(),
            spec_attr(e@.attrs, name@) == spec_attr(
                e@.attrs.subrange(k as int, e@.attrs.len() as int),
                name@,
            ),
        decreases e.attrs@.len() - k,
    {
        if crate::text::chars_eq_str_all(&e.attrs[k].name, name) {
            proof {
                let rest = e@.attrs.subrange(k as int, e@.attrs.len() as int);
                assert(rest[0] == e@.attrs[k as int]);
            }
            return Some(&e.attrs[k].value);
        }
        proof {
            let rest = e@.attrs.subrange(k as int, e@.attrs.len() as int);
            assert(rest[0] == e@.attrs[k as int]);
            assert(rest.subrange(1, rest.len() as int) =~= e@.attrs.subrange(
                k + 1 as int,
                e@.attrs.len() as int,
            ));
        }
        k += 1;
    }
    proof {
        assert(e@.attrs.subrange(k as int, e@.attrs.len() as int).len() == 0);
    }
    None
}

/// Looks up the first child element of `e` named `name`.
pub fn find_child<'a>(e: &'a XmlElement, name: &str) -> (r: Option<&'a XmlElement>)
    ensures
        r matches Some(c) ==> spec_child(e@.children, name@) == Some(c@),
        r is None ==> spec_child(e@.children, name@) is None,
{
    let mut k: usize = 0;
    proof {
        assert(e@.children.subrange(0, e@.children.len() as int) =~= e@.children);
    }
    while k < e.children.len()
        invariant
            k <= e.children@.len(),
            e@.children.len() == e.children@.len(),
            spec_child(e@.children, name@) == spec_child(
                e@.children.subrange(k as int, e@.children.len() as int),
                name@,
            ),
        decreases e.children@.len() - k,
    {
        if crate::text::chars_eq_str_all(&e.children[k].name, name) {
            proof {
                let rest = e@.children.subrange(k as int, e@.children.len() as int);
                assert(rest[0] == e@.children[k as int]);
            }
            return Some(&e.children[k]);
        }
        proof {
            let rest = e@.children.subrange(k as int, e@.children.len() as int);
            assert(rest[0] == e@.children[k as int]);
            assert(e@.children[k as int] == e.children@[k as int]@);
            assert(e.children@[k as int]@.name == e.children@[k as int].name@);
            assert(rest.subrange(1, rest.len() as int) =~= e@.children.subrange(
                k + 1 as int,
                e@.children.len() as int,
            ));
        }
        k += 1;
    }
    proof {
        assert(e@.children.subrange(k as int, e@.children.len() as int).len() == 0);
    }
    None
}

} // verus!
