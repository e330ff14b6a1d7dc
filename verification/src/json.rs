//! A small JSON parser, sufficient for `info.json` descriptors: objects,
//! arrays, strings with the single-character escapes, numbers, booleans
//! and null. A number is retained as a `u32` when it is a plain
//! non-negative integer in range; any other number is kept only as
//! "some number". `\u` escapes are not supported and fail the parse.
//!
//! Beside the document parser there is a scavenger that collects every
//! syntactically valid JSON object found anywhere in a payload, for
//! descriptors embedded in larger documents.

use vstd::prelude::*;

verus! {

broadcast use vstd::seq::axiom_seq_index_decreases, vstd::std_specs::vec::axiom_vec_decreases_to_view;

use crate::text::{
    all_dec_digits,
    dec_val,
    is_dec_digit,
    skip_ws,
    skip_ws_exec,
};

/// One `"key": value` member of an object.
pub struct JsonMember {
    pub key: Vec<char>,
    pub value: JsonValue,
}

/// A JSON value.
pub enum JsonValue {
    Null,
    Bool(bool),
    /// A number; `Some` exactly when it is a plain integer that fits a
    /// `u32` (no sign, fraction or exponent).
    Num(Option<u32>),
    Str(Vec<char>),
    Arr(Vec<JsonValue>),
    Obj(Vec<JsonMember>),
}

/// The mathematical shape of a member.
pub struct JsonMemberV {
    pub key: Seq<char>,
    pub value: JsonV,
}

/// The mathematical shape of a value.
pub enum JsonV {
    Null,
    Bool(bool),
    Num(Option<u32>),
    Str(Seq<char>),
    Arr(Seq<JsonV>),
    Obj(Seq<JsonMemberV>),
}

/// The views of a sequence of values.
pub open spec fn values_view(a: Seq<JsonValue>) -> Seq<JsonV>
    decreases a,
{
    Seq::new(
        a.len(),
        |i: int|
            if 0 <= i < a.len() {
                a[i]@
            } else {
                JsonV::Null
            },
    )
}

/// The views of a sequence of members.
pub open spec fn members_view(m: Seq<JsonMember>) -> Seq<JsonMemberV>
    decreases m,
{
    Seq::new(
        m.len(),
        |i: int|
            if 0 <= i < m.len() {
                JsonMemberV { key: m[i].key@, value: m[i].value@ }
            } else {
                JsonMemberV { key: Seq::empty(), value: JsonV::Null }
            },
    )
}

impl View for JsonValue {
    type V = JsonV;

    open spec fn view(&self) -> JsonV
        decreases self,
    {
        match self {
            JsonValue::Null => JsonV::Null,
            JsonValue::Bool(b) => JsonV::Bool(*b),
            JsonValue::Num(n) => JsonV::Num(*n),
            JsonValue::Str(s) => JsonV::Str(s@),
            JsonValue::Arr(a) => JsonV::Arr(values_view(a@)),
            JsonValue::Obj(m) => JsonV::Obj(members_view(m@)),
        }
    }
}

/// The character denoted by a single-character escape, if any.
pub open spec fn esc_char(c: char) -> Option<char> {
    if c == '"' {
        Some('"')
    } else if c == '\\' {
        Some('\\')
    } else if c == '/' {
        Some('/')
    } else if c == 'b' {
        Some('\x08')
    } else if c == 'f' {
        Some('\x0C')
    } else if c == 'n' {
        Some('\n')
    } else if c == 'r' {
        Some('\r')
    } else if c == 't' {
        Some('\t')
    } else {
        None
    }
}

/// The body of a string read from `i` (just inside the opening quote)
/// up to the closing quote, with escapes decoded, accumulated onto
/// `acc`; the position returned is just after the quote.
pub open spec fn spec_parse_string(s: Seq<char>, i: int, acc: Seq<char>) -> Option<
    (Seq<char>, int),
>
    decreases s.len() - i,
{
    if i < 0 || i >= s.len() {
        None
    } else if s[i] == '"' {
        Some((acc, i + 1))
    } else if s[i] == '\\' {
        if i + 1 < s.len() {
            match esc_char(s[i + 1]) {
                Some(e) => spec_parse_string(s, i + 2, acc.push(e)),
                None => None,
            }
        } else {
            None
        }
    } else if (s[i] as u32) < 0x20 {
        None
    } else {
        spec_parse_string(s, i + 1, acc.push(s[i]))
    }
}

/// The first position at or after `i` holding a non-digit.
pub open spec fn scan_digits(s: Seq<char>, i: int) -> int
    decreases s.len() - i,
{
    if 0 <= i < s.len() && is_dec_digit(s[i]) {
        scan_digits(s, i + 1)
    } else {
        i
    }
}

/// Everything scanned by `scan_digits` is a digit, and the scan stays
/// within bounds.
pub proof fn lemma_scan_digits(s: Seq<char>, i: int)
    requires
        0 <= i <= s.len(),
    ensures
        i <= scan_digits(s, i) <= s.len(),
        forall|k: int| i <= k < scan_digits(s, i) ==> is_dec_digit(#[trigger] s[k]),
    decreases s.len() - i,
{
    if i < s.len() && is_dec_digit(s[i]) {
        lemma_scan_digits(s, i + 1);
    }
}

/// The end of the optional fraction part starting at `de`, or `None`
/// when a `.` is not followed by a digit.
pub open spec fn spec_frac_end(s: Seq<char>, de: int) -> Option<int> {
    if 0 <= de < s.len() && s[de] == '.' {
        if de + 1 < s.len() && is_dec_digit(s[de + 1]) {
            Some(scan_digits(s, de + 1))
        } else {
            None
        }
    } else {
        Some(de)
    }
}

/// The end of the optional exponent part starting at `f`, or `None`
/// when an `e` is not followed by digits.
pub open spec fn spec_exp_end(s: Seq<char>, f: int) -> Option<int> {
    if 0 <= f < s.len() && (s[f] == 'e' || s[f] == 'E') {
        let g = if f + 1 < s.len() && (s[f + 1] == '+' || s[f + 1] == '-') {
            f + 2
        } else {
            f + 1
        };
        if g < s.len() && is_dec_digit(s[g]) {
            Some(scan_digits(s, g))
        } else {
            None
        }
    } else {
        Some(f)
    }
}

/// A number read from position `i`: its `u32` value when it is a plain
/// in-range integer (else `None` inside the `Some`), and the position
/// after it. Leading zeros are rejected, as JSON demands.
pub open spec fn spec_parse_number(s: Seq<char>, i: int) -> Option<(Option<u32>, int)> {
    let neg = 0 <= i < s.len() && s[i] == '-';
    let d0 = if neg {
        i + 1
    } else {
        i
    };
    if 0 <= d0 < s.len() && is_dec_digit(s[d0]) {
        let de = scan_digits(s, d0);
        if s[d0] == '0' && de != d0 + 1 {
            None
        } else {
            match spec_frac_end(s, de) {
                None => None,
                Some(f) => match spec_exp_end(s, f) {
                    None => None,
                    Some(e) => {
                        let plain = !neg && f == de && e == f;
                        let val = if plain && dec_val(s.subrange(d0, de)) <= u32::MAX {
                            Some(dec_val(s.subrange(d0, de)) as u32)
                        } else {
                            None
                        };
                        Some((val, e))
                    },
                },
            }
        }
    } else {
        None
    }
}

/// A value read from position `i`, leading whitespace skipped; the
/// position returned is just after the value.
pub open spec fn spec_parse_value(s: Seq<char>, i: int) -> Option<(JsonV, int)>
    decreases s.len() - i, 1int,
{
    let j = skip_ws(s, i);
    if j < i || j >= s.len() {
        None
    } else if s[j] == '{' {
        let k = skip_ws(s, j + 1);
        if k < s.len() && s[k] == '}' && k >= j {
            Some((JsonV::Obj(Seq::empty()), k + 1))
        } else if j + 1 > i && j + 1 <= s.len() {
            match spec_parse_members(s, j + 1, Seq::empty()) {
                None => None,
                Some((members, e)) => Some((JsonV::Obj(members), e)),
            }
        } else {
            None
        }
    } else if s[j] == '[' {
        let k = skip_ws(s, j + 1);
        if k < s.len() && s[k] == ']' && k >= j {
            Some((JsonV::Arr(Seq::empty()), k + 1))
        } else if j + 1 > i && j + 1 <= s.len() {
            match spec_parse_elements(s, j + 1, Seq::empty()) {
                None => None,
                Some((elems, e)) => Some((JsonV::Arr(elems), e)),
            }
        } else {
            None
        }
    } else if s[j] == '"' {
        match spec_parse_string(s, j + 1, Seq::empty()) {
            None => None,
            Some((str, e)) => Some((JsonV::Str(str), e)),
        }
    } else if s[j] == 't' {
        if j + 4 <= s.len() && s[j + 1] == 'r' && s[j + 2] == 'u' && s[j + 3] == 'e' {
            Some((JsonV::Bool(true), j + 4))
        } else {
            None
        }
    } else if s[j] == 'f' {
        if j + 5 <= s.len() && s[j + 1] == 'a' && s[j + 2] == 'l' && s[j + 3] == 's' && s[j + 4]
            == 'e' {
            Some((JsonV::Bool(false), j + 5))
        } else {
            None
        }
    } else if s[j] == 'n' {
        if j + 4 <= s.len() && s[j + 1] == 'u' && s[j + 2] == 'l' && s[j + 3] == 'l' {
            Some((JsonV::Null, j + 4))
        } else {
            None
        }
    } else if s[j] == '-' || is_dec_digit(s[j]) {
        match spec_parse_number(s, j) {
            None => None,
            Some((n, e)) => Some((JsonV::Num(n), e)),
        }
    } else {
        None
    }
}

/// The members of an object read from position `i` (just after `{` or a
/// `,`), accumulated onto `acc`; the position returned is just after
/// the closing `}`.
pub open spec fn spec_parse_members(s: Seq<char>, i: int, acc: Seq<JsonMemberV>) -> Option<
    (Seq<JsonMemberV>, int),
>
    decreases s.len() - i, 2int,
{
    let j = skip_ws(s, i);
    if j < i || j >= s.len() || s[j] != '"' {
        None
    } else {
        match spec_parse_string(s, j + 1, Seq::empty()) {
            None => None,
            Some((key, ke)) => {
                let j2 = skip_ws(s, ke);
                if ke < 0 || j2 >= s.len() || s[j2] != ':' || j2 + 1 <= i || j2 + 1 > s.len() {
                    None
                } else {
                    match spec_parse_value(s, j2 + 1) {
                        None => None,
                        Some((value, ve)) => {
                            let acc2 = acc.push(JsonMemberV { key, value });
                            let j3 = skip_ws(s, ve);
                            if ve < 0 || j3 >= s.len() {
                                None
                            } else if s[j3] == ',' && j3 + 1 > i && j3 + 1 <= s.len() {
                                spec_parse_members(s, j3 + 1, acc2)
                            } else if s[j3] == '}' {
                                Some((acc2, j3 + 1))
                            } else {
                                None
                            }
                        },
                    }
                }
            },
        }
    }
}

/// The elements of an array read from position `i` (just after `[` or a
/// `,`), accumulated onto `acc`; the position returned is just after
/// the closing `]`.
pub open spec fn spec_parse_elements(s: Seq<char>, i: int, acc: Seq<JsonV>) -> Option<
    (Seq<JsonV>, int),
>
    decreases s.len() - i, 2int,
{
    if i < 0 {
        None
    } else {
        match spec_parse_value(s, i) {
            None => None,
            Some((value, ve)) => {
                let acc2 = acc.push(value);
                let j = skip_ws(s, ve);
                if ve < 0 || j >= s.len() {
                    None
                } else if s[j] == ',' && j + 1 > i && j + 1 <= s.len() {
                    spec_parse_elements(s, j + 1, acc2)
                } else if s[j] == ']' {
                    Some((acc2, j + 1))
                } else {
                    None
                }
            },
        }
    }
}

/// A whole document: one value, with only whitespace after it.
pub open spec fn spec_parse_json(s: Seq<char>) -> Option<JsonV> {
    match spec_parse_value(s, 0) {
        None => None,
        Some((v, j)) => if 0 <= j <= s.len() && skip_ws(s, j) == s.len() {
            Some(v)
        } else {
            None
        },
    }
}

/// Every syntactically valid JSON object found in `s` at or after `i`,
/// leftmost first, skipping over the inside of each object found,
/// accumulated onto `acc`.
pub open spec fn spec_all_json(s: Seq<char>, i: int, acc: Seq<JsonV>) -> Seq<JsonV>
    decreases s.len() - i,
{
    if i < 0 || i >= s.len() {
        acc
    } else if s[i] == '{' {
        match spec_parse_value(s, i) {
            Some((v, j)) => if j > i && j <= s.len() {
                spec_all_json(s, j, acc.push(v))
            } else {
                spec_all_json(s, i + 1, acc)
            },
            None => spec_all_json(s, i + 1, acc),
        }
    } else {
        spec_all_json(s, i + 1, acc)
    }
}

/// Reads a string body (after the opening quote).
fn parse_string_exec(v: &Vec<char>, i: usize) -> (r: Option<(Vec<char>, usize)>)
    requires
        i <= v@.len(),
    ensures
        r matches Some((w, e)) ==> spec_parse_string(v@, i as int, Seq::empty()) == Some(
            (w@, e as int),
        ) && i < e <= v@.len(),
        r is None ==> spec_parse_string(v@, i as int, Seq::empty()) is None,
{
    let mut out: Vec<char> = Vec::new();
    let mut j = i;
    while j < v.len()
        invariant
            i <= j <= v@.len(),
            spec_parse_string(v@, i as int, Seq::empty()) == spec_parse_string(
                v@,
                j as int,
                out@,
            ),
        decreases v@.len() - j,
    {
        let c = v[j];
        if c == '"' {
            return Some((out, j + 1));
        } else if c == '\\' {
            if v.len() - j > 1 {
                let e = v[j + 1];
                let dec: char;
                if e == '"' {
                    dec = '"';
                } else if e == '\\' {
                    dec = '\\';
                } else if e == '/' {
                    dec = '/';
                } else if e == 'b' {
                    dec = '\x08';
                } else if e == 'f' {
                    dec = '\x0C';
                } else if e == 'n' {
                    dec = '\n';
                } else if e == 'r' {
                    dec = '\r';
                } else if e == 't' {
                    dec = '\t';
                } else {
                    return None;
                }
                out.push(dec);
                j += 2;
            } else {
                return None;
            }
        } else if (c as u32) < 0x20 {
            return None;
        } else {
            out.push(c);
            j += 1;
        }
    }
    None
}

/// Scans to the end of a digit run.
fn scan_digits_exec(v: &Vec<char>, i: usize) -> (j: usize)
    requires
        i <= v@.len(),
    ensures
        j as int == scan_digits(v@, i as int),
        i <= j <= v@.len(),
{
    let mut j = i;
    while j < v.len() && '0' <= v[j] && v[j] <= '9'
        invariant
            i <= j <= v@.len(),
            scan_digits(v@, i as int) == scan_digits(v@, j as int),
        decreases v@.len() - j,
    {
        j += 1;
    }
    j
}

/// Reads a number.
fn parse_number_exec(v: &Vec<char>, i: usize) -> (r: Option<(Option<u32>, usize)>)
    requires
        i <= v@.len(),
    ensures
        r matches Some((n, e)) ==> spec_parse_number(v@, i as int) == Some((n, e as int)) && i < e
            <= v@.len(),
        r is None ==> spec_parse_number(v@, i as int) is None,
{
    let neg = i < v.len() && v[i] == '-';
    let d0 = if neg {
        i + 1
    } else {
        i
    };
    if !(d0 < v.len() && '0' <= v[d0] && v[d0] <= '9') {
        return None;
    }
    let de = scan_digits_exec(v, d0);
    proof {
        lemma_scan_digits(v@, d0 as int);
        lemma_scan_digits(v@, d0 + 1 as int);
        assert(scan_digits(v@, d0 as int) == scan_digits(v@, d0 + 1 as int));
        assert(de > d0);
    }
    if v[d0] == '0' && de != d0 + 1 {
        return None;
    }
    // fraction
    let f: usize;
    if de < v.len() && v[de] == '.' {
        if v.len() - de > 1 && '0' <= v[de + 1] && v[de + 1] <= '9' {
            f = scan_digits_exec(v, de + 1);
        } else {
            return None;
        }
    } else {
        f = de;
    }
    // exponent
    let e: usize;
    if f < v.len() && (v[f] == 'e' || v[f] == 'E') {
        let g = if v.len() - f > 1 && (v[f + 1] == '+' || v[f + 1] == '-') {
            f + 2
        } else {
            f + 1
        };
        if g < v.len() && '0' <= v[g] && v[g] <= '9' {
            e = scan_digits_exec(v, g);
        } else {
            return None;
        }
    } else {
        e = f;
    }
    let val: Option<u32> = if !neg && f == de && e == f {
        proof {
            assert(all_dec_digits(v@.subrange(d0 as int, de as int)));
        }
        crate::text::parse_u32_chars(v, d0, de)
    } else {
        None
    };
    Some((val, e))
}

/// Reads a value (leading whitespace skipped).
fn parse_value_exec(v: &Vec<char>, i: usize) -> (r: Option<(JsonValue, usize)>)
    requires
        i <= v@.len(),
    ensures
        r matches Some((value, e)) ==> spec_parse_value(v@, i as int) == Some((value@, e as int))
            && i < e <= v@.len(),
        r is None ==> spec_parse_value(v@, i as int) is None,
    decreases v@.len() - i, 1int,
{
    let j = skip_ws_exec(v, i);
    if j >= v.len() {
        return None;
    }
    let c = v[j];
    if c == '{' {
        let k = skip_ws_exec(v, j + 1);
        if k < v.len() && v[k] == '}' {
            let m: Vec<JsonMember> = Vec::new();
            proof {
                assert(members_view(m@) =~= Seq::<JsonMemberV>::empty());
            }
            Some((JsonValue::Obj(m), k + 1))
        } else {
            match parse_members_exec(v, j + 1) {
                None => None,
                Some((members, e)) => Some((JsonValue::Obj(members), e)),
            }
        }
    } else if c == '[' {
        let k = skip_ws_exec(v, j + 1);
        if k < v.len() && v[k] == ']' {
            let a: Vec<JsonValue> = Vec::new();
            proof {
                assert(values_view(a@) =~= Seq::<JsonV>::empty());
            }
            Some((JsonValue::Arr(a), k + 1))
        } else {
            match parse_elements_exec(v, j + 1) {
                None => None,
                Some((elems, e)) => Some((JsonValue::Arr(elems), e)),
            }
        }
    } else if c == '"' {
        match parse_string_exec(v, j + 1) {
            None => None,
            Some((w, e)) => Some((JsonValue::Str(w), e)),
        }
    } else if c == 't' {
        if v.len() - j >= 4 && v[j + 1] == 'r' && v[j + 2] == 'u' && v[j + 3] == 'e' {
            Some((JsonValue::Bool(true), j + 4))
        } else {
            None
        }
    } else if c == 'f' {
        if v.len() - j >= 5 && v[j + 1] == 'a' && v[j + 2] == 'l' && v[j + 3] == 's' && v[j + 4]
            == 'e' {
            Some((JsonValue::Bool(false), j + 5))
        } else {
            None
        }
    } else if c == 'n' {
        if v.len() - j >= 4 && v[j + 1] == 'u' && v[j + 2] == 'l' && v[j + 3] == 'l' {
            Some((JsonValue::Null, j + 4))
        } else {
            None
        }
    } else if c == '-' || ('0' <= c && c <= '9') {
        match parse_number_exec(v, j) {
            None => None,
            Some((n, e)) => Some((JsonValue::Num(n), e)),
        }
    } else {
        None
    }
}

/// Reads object members up to the closing brace.
fn parse_members_exec(v: &Vec<char>, i: usize) -> (r: Option<(Vec<JsonMember>, usize)>)
    requires
        i <= v@.len(),
    ensures
        r matches Some((m, e)) ==> spec_parse_members(v@, i as int, Seq::empty()) == Some(
            (members_view(m@), e as int),
        ) && i < e <= v@.len(),
        r is None ==> spec_parse_members(v@, i as int, Seq::empty()) is None,
    decreases v@.len() - i, 2int,
{
    let mut out: Vec<JsonMember> = Vec::new();
    let mut cur = i;
    proof {
        assert(members_view(out@) =~= Seq::<JsonMemberV>::empty());
    }
    loop
        invariant
            i <= cur <= v@.len(),
            spec_parse_members(v@, i as int, Seq::empty()) == spec_parse_members(
                v@,
                cur as int,
                members_view(out@),
            ),
        decreases v@.len() - cur,
    {
        let j = skip_ws_exec(v, cur);
        if !(j < v.len() && v[j] == '"') {
            return None;
        }
        match parse_string_exec(v, j + 1) {
            None => {
                return None;
            },
            Some((key, ke)) => {
                let j2 = skip_ws_exec(v, ke);
                if !(j2 < v.len() && v[j2] == ':') {
                    return None;
                }
                match parse_value_exec(v, j2 + 1) {
                    None => {
                        return None;
                    },
                    Some((value, ve)) => {
                        let ghost prev = members_view(out@);
                        let ghost keyv = key@;
                        let ghost valuev = value@;
                        out.push(JsonMember { key, value });
                        proof {
                            assert(members_view(out@) =~= prev.push(
                                JsonMemberV { key: keyv, value: valuev },
                            ));
                        }
                        let j3 = skip_ws_exec(v, ve);
                        if j3 >= v.len() {
                            return None;
                        }
                        if v[j3] == ',' {
                            cur = j3 + 1;
                        } else if v[j3] == '}' {
                            return Some((out, j3 + 1));
                        } else {
                            return None;
                        }
                    },
                }
            },
        }
    }
}

/// Reads array elements up to the closing bracket.
fn parse_elements_exec(v: &Vec<char>, i: usize) -> (r: Option<(Vec<JsonValue>, usize)>)
    requires
        i <= v@.len(),
    ensures
        r matches Some((a, e)) ==> spec_parse_elements(v@, i as int, Seq::empty()) == Some(
            (values_view(a@), e as int),
        ) && i < e <= v@.len(),
        r is None ==> spec_parse_elements(v@, i as int, Seq::empty()) is None,
    decreases v@.len() - i, 2int,
{
    let mut out: Vec<JsonValue> = Vec::new();
    let mut cur = i;
    proof {
        assert(values_view(out@) =~= Seq::<JsonV>::empty());
    }
    loop
        invariant
            i <= cur <= v@.len(),
            spec_parse_elements(v@, i as int, Seq::empty()) == spec_parse_elements(
                v@,
                cur as int,
                values_view(out@),
            ),
        decreases v@.len() - cur,
    {
        match parse_value_exec(v, cur) {
            None => {
                return None;
            },
            Some((value, ve)) => {
                let ghost prev = values_view(out@);
                let ghost valuev = value@;
                out.push(value);
                proof {
                    assert(values_view(out@) =~= prev.push(valuev));
                }
                let j = skip_ws_exec(v, ve);
                if j >= v.len() {
                    return None;
                }
                if v[j] == ',' {
                    cur = j + 1;
                } else if v[j] == ']' {
                    return Some((out, j + 1));
                } else {
                    return None;
                }
            },
        }
    }
}

/// Parses a whole document: one value with only trailing whitespace.
pub fn parse_json(v: &Vec<char>) -> (r: Option<JsonValue>)
    ensures
        r matches Some(value) ==> spec_parse_json(v@) == Some(value@),
        r is None ==> spec_parse_json(v@) is None,
{
    match parse_value_exec(v, 0) {
        None => None,
        Some((value, j)) => {
            let k = skip_ws_exec(v, j);
            if k == v.len() {
                Some(value)
            } else {
                None
            }
        },
    }
}

/// Collects every syntactically valid JSON object found in the payload,
/// leftmost first.
pub fn all_json(v: &Vec<char>) -> (r: Vec<JsonValue>)
    ensures
        values_view(r@) == spec_all_json(v@, 0, Seq::empty()),
{
    let mut out: Vec<JsonValue> = Vec::new();
    let mut i: usize = 0;
    proof {
        assert(values_view(out@) =~= Seq::<JsonV>::empty());
    }
    while i < v.len()
        invariant
            i <= v@.len(),
            spec_all_json(v@, 0, Seq::empty()) == spec_all_json(v@, i as int, values_view(out@)),
        decreases v@.len() - i,
    {
        if v[i] == '{' {
            match parse_value_exec(v, i) {
                Some((value, j)) => {
                    let ghost prev = values_view(out@);
                    let ghost valuev = value@;
                    out.push(value);
                    proof {
                        assert(values_view(out@) =~= prev.push(valuev));
                    }
                    i = j;
                },
                None => {
                    i += 1;
                },
            }
        } else {
            i += 1;
        }
    }
    out
}

/// The value of the first member with the given key, if any.
pub open spec fn spec_member(members: Seq<JsonMemberV>, key: Seq<char>) -> Option<JsonV>
    decreases members.len(),
{
    if members.len() == 0 {
        None
    } else if members[0].key == key {
        Some(members[0].value)
    } else {
        spec_member(members.subrange(1, members.len() as int), key)
    }
}

/// Looks up the first member of an object with the given key.
pub fn find_member<'a>(members: &'a Vec<JsonMember>, key: &str) -> (r: Option<&'a JsonValue>)
    ensures
        r matches Some(value) ==> spec_member(members_view(members@), key@) == Some(value@),
        r is None ==> spec_member(members_view(members@), key@) is None,
{
    let mut k: usize = 0;
    proof {
        assert(members_view(members@).subrange(0, members_view(members@).len() as int)
            =~= members_view(members@));
    }
    while k < members.len()
        invariant
            k <= members@.len(),
            spec_member(members_view(members@), key@) == spec_member(
                members_view(members@).subrange(k as int, members_view(members@).len() as int),
                key@,
            ),
        decreases members@.len() - k,
    {
        if crate::text::chars_eq_str_all(&members[k].key, key) {
            proof {
                let mv = members_view(members@);
                let rest = mv.subrange(k as int, mv.len() as int);
                assert(rest[0] == mv[k as int]);
            }
            return Some(&members[k].value);
        }
        proof {
            let mv = members_view(members@);
            let rest = mv.subrange(k as int, mv.len() as int);
            assert(rest[0] == mv[k as int]);
            assert(rest.subrange(1, rest.len() as int) =~= mv.subrange(
                k + 1 as int,
                mv.len() as int,
            ));
        }
        k += 1;
    }
    proof {
        let mv = members_view(members@);
        assert(mv.subrange(k as int, mv.len() as int).len() == 0);
    }
    None
}

} // verus!
