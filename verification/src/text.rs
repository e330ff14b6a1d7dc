//! Character-level utilities shared by the descriptor parsers and the
//! URL builders: UTF-8 decoding, decimal rendering and parsing, and
//! small helpers on character vectors.

use vstd::prelude::*;

verus! {

use vstd::utf8::{decode_utf8, valid_utf8};

/// Relies on `core::str::from_utf8` (via `str::to_owned`): it succeeds
/// exactly on valid UTF-8 input and returns its decoding.
#[verifier::external_body]
pub fn decode_utf8_bytes(b: &[u8]) -> (r: Option<String>)
    ensures
        r is Some <==> valid_utf8(b@),
        r matches Some(s) ==> s@ == decode_utf8(b@),
{
    core::str::from_utf8(b).ok().map(|s| s.to_owned())
}

/// Relies on `String::from_iter` over `char`: it builds the string of
/// exactly the characters yielded, in order.
#[verifier::external_body]
pub fn chars_to_string(v: &Vec<char>) -> (r: String)
    ensures
        r@ == v@,
{
    v.iter().collect()
}

/// The characters of a string slice, as an indexable vector.
pub fn str_to_chars(s: &str) -> (v: Vec<char>)
    ensures
        v@ == s@,
{
    let n = s.unicode_len();
    let mut v: Vec<char> = Vec::new();
    let mut i: usize = 0;
    while i < n
        invariant
            i <= n,
            n == s@.len(),
            v@ == s@.subrange(0, i as int),
        decreases n - i,
    {
        v.push(s.get_char(i));
        proof {
            assert(v@ =~= s@.subrange(0, i + 1 as int));
        }
        i += 1;
    }
    proof {
        assert(v@ =~= s@);
    }
    v
}

/// A copy of the characters of `v` between `from` (inclusive) and `to`
/// (exclusive).
pub fn chars_subrange(v: &Vec<char>, from: usize, to: usize) -> (r: Vec<char>)
    requires
        from <= to <= v@.len(),
    ensures
        r@ == v@.subrange(from as int, to as int),
{
    let mut r: Vec<char> = Vec::new();
    let mut i: usize = from;
    while i < to
        invariant
            from <= i <= to <= v@.len(),
            r@ == v@.subrange(from as int, i as int),
        decreases to - i,
    {
        r.push(v[i]);
        proof {
            assert(r@ =~= v@.subrange(from as int, i + 1 as int));
        }
        i += 1;
    }
    r
}

/// Whether the characters of `v` between `from` and `to` are exactly the
/// characters of `pat`.
pub fn chars_eq_str(v: &Vec<char>, from: usize, to: usize, pat: &str) -> (r: bool)
    requires
        from <= to <= v@.len(),
    ensures
        r == (v@.subrange(from as int, to as int) == pat@),
{
    let n = pat.unicode_len();
    if n != to - from {
        proof {
            assert(v@.subrange(from as int, to as int).len() == to - from);
        }
        return false;
    }
    let mut i: usize = 0;
    while i < n
        invariant
            i <= n,
            n == pat@.len(),
            n == to - from,
            from <= to <= v@.len(),
            forall|k: int| 0 <= k < i ==> v@[from + k] == pat@[k],
        decreases n - i,
    {
        if v[from + i] != pat.get_char(i) {
            proof {
                assert(v@.subrange(from as int, to as int)[i as int] != pat@[i as int]);
            }
            return false;
        }
        i += 1;
    }
    proof {
        assert(v@.subrange(from as int, to as int) =~= pat@);
    }
    true
}

/// Whether the characters of `v` between `from` and `to` are exactly the
/// characters of `w`.
pub fn chars_eq_chars(v: &Vec<char>, from: usize, to: usize, w: &Vec<char>) -> (r: bool)
    requires
        from <= to <= v@.len(),
    ensures
        r == (v@.subrange(from as int, to as int) == w@),
{
    let n = w.len();
    if n != to - from {
        proof {
            assert(v@.subrange(from as int, to as int).len() == to - from);
        }
        return false;
    }
    let mut i: usize = 0;
    while i < n
        invariant
            i <= n,
            n == w@.len(),
            n == to - from,
            from <= to <= v@.len(),
            forall|k: int| 0 <= k < i ==> v@[from + k] == w@[k],
        decreases n - i,
    {
        if v[from + i] != w[i] {
            proof {
                assert(v@.subrange(from as int, to as int)[i as int] != w@[i as int]);
            }
            return false;
        }
        i += 1;
    }
    proof {
        assert(v@.subrange(from as int, to as int) =~= w@);
    }
    true
}

/// Whether an entire character sequence equals the view of a pattern.
pub fn chars_eq_str_all(v: &Vec<char>, pat: &str) -> (r: bool)
    ensures
        r == (v@ == pat@),
{
    let n = v.len();
    proof {
        assert(v@.subrange(0, n as int) =~= v@);
    }
    chars_eq_str(v, 0, n, pat)
}

/// Appends the characters of `s` to `out`.
pub fn push_str_chars(out: &mut Vec<char>, s: &str)
    ensures
        final(out)@ == old(out)@ + s@,
{
    let n = s.unicode_len();
    let mut i: usize = 0;
    while i < n
        invariant
            i <= n,
            n == s@.len(),
            out@ == old(out)@ + s@.subrange(0, i as int),
        decreases n - i,
    {
        out.push(s.get_char(i));
        proof {
            assert(out@ =~= old(out)@ + s@.subrange(0, i + 1 as int));
        }
        i += 1;
    }
    proof {
        assert(out@ =~= old(out)@ + s@);
    }
}

/// Appends the characters of `w` to `out`.
pub fn extend_chars(out: &mut Vec<char>, w: &Vec<char>)
    ensures
        final(out)@ == old(out)@ + w@,
{
    let n = w.len();
    let mut i: usize = 0;
    while i < n
        invariant
            i <= n,
            n == w@.len(),
            out@ == old(out)@ + w@.subrange(0, i as int),
        decreases n - i,
    {
        out.push(w[i]);
        proof {
            assert(out@ =~= old(out)@ + w@.subrange(0, i + 1 as int));
        }
        i += 1;
    }
    proof {
        assert(out@ =~= old(out)@ + w@);
    }
}

/// The index of the last occurrence of `c` in `s`, or `-1` when there
/// is none.
pub open spec fn last_index_of(s: Seq<char>, c: char) -> int
    decreases s.len(),
{
    if s.len() == 0 {
        -1
    } else if s.last() == c {
        s.len() - 1
    } else {
        last_index_of(s.drop_last(), c)
    }
}

/// Finds the last occurrence of `c` in `v`.
pub fn find_last(v: &Vec<char>, c: char) -> (r: Option<usize>)
    ensures
        r matches Some(i) ==> last_index_of(v@, c) == i as int && i < v@.len(),
        r is None ==> last_index_of(v@, c) == -1,
{
    let mut i: usize = v.len();
    proof {
        assert(v@.subrange(0, v@.len() as int) =~= v@);
    }
    while i > 0
        invariant
            i <= v@.len(),
            last_index_of(v@, c) == last_index_of(v@.subrange(0, i as int), c),
        decreases i,
    {
        proof {
            let p = v@.subrange(0, i as int);
            assert(p.last() == v@[i - 1]);
            assert(p.drop_last() =~= v@.subrange(0, i - 1));
        }
        if v[i - 1] == c {
            return Some(i - 1);
        }
        i -= 1;
    }
    proof {
        assert(v@.subrange(0, 0) =~= Seq::<char>::empty());
    }
    None
}

/// Whitespace, as XML and JSON know it.
pub open spec fn is_ws(c: char) -> bool {
    c == ' ' || c == '\t' || c == '\r' || c == '\n'
}

/// Whether `c` is whitespace.
pub fn ws_char(c: char) -> (r: bool)
    ensures
        r == is_ws(c),
{
    c == ' ' || c == '\t' || c == '\r' || c == '\n'
}

/// The first position at or after `i` holding a non-whitespace character
/// (or the end of input).
pub open spec fn skip_ws(s: Seq<char>, i: int) -> int
    decreases s.len() - i,
{
    if 0 <= i < s.len() && is_ws(s[i]) {
        skip_ws(s, i + 1)
    } else {
        i
    }
}

/// Skips whitespace.
pub fn skip_ws_exec(v: &Vec<char>, i: usize) -> (j: usize)
    requires
        i <= v@.len(),
    ensures
        j as int == skip_ws(v@, i as int),
        i <= j <= v@.len(),
{
    let mut j = i;
    while j < v.len() && ws_char(v[j])
        invariant
            i <= j <= v@.len(),
            skip_ws(v@, i as int) == skip_ws(v@, j as int),
        decreases v@.len() - j,
    {
        j += 1;
    }
    j
}

/// The decimal digit character for `d` (0 through 9).
pub open spec fn dec_digit(d: int) -> char {
    if d == 0 {
        '0'
    } else if d == 1 {
        '1'
    } else if d == 2 {
        '2'
    } else if d == 3 {
        '3'
    } else if d == 4 {
        '4'
    } else if d == 5 {
        '5'
    } else if d == 6 {
        '6'
    } else if d == 7 {
        '7'
    } else if d == 8 {
        '8'
    } else {
        '9'
    }
}

/// The decimal rendering of a non-negative integer, without padding or
/// sign: the usual base-ten numeral.
pub open spec fn dec_of(n: int) -> Seq<char>
    decreases n,
{
    if n < 10 {
        seq![dec_digit(n)]
    } else {
        dec_of(n / 10).push(dec_digit(n % 10))
    }
}

/// The decimal rendering of `n`, left-padded with zeros to at least
/// `width` characters.
pub open spec fn dec_padded(n: int, width: int) -> Seq<char> {
    if dec_of(n).len() >= width {
        dec_of(n)
    } else {
        Seq::new((width - dec_of(n).len()) as nat, |i: int| '0') + dec_of(n)
    }
}

/// The one-character string for a decimal digit.
fn digit_str(d: u64) -> (r: &'static str)
    requires
        d < 10,
    ensures
        r@ == seq![dec_digit(d as int)],
{
    proof {
        reveal_strlit("0");
        reveal_strlit("1");
        reveal_strlit("2");
        reveal_strlit("3");
        reveal_strlit("4");
        reveal_strlit("5");
        reveal_strlit("6");
        reveal_strlit("7");
        reveal_strlit("8");
        reveal_strlit("9");
    }
    match d {
        0 => "0",
        1 => "1",
        2 => "2",
        3 => "3",
        4 => "4",
        5 => "5",
        6 => "6",
        7 => "7",
        8 => "8",
        _ => "9",
    }
}

/// The decimal numeral of `n`, appended to `out`.
pub fn append_dec_u64(out: &mut String, n: u64)
    ensures
        final(out)@ == old(out)@ + dec_of(n as int),
    decreases n,
{
    if n < 10 {
        out.append(digit_str(n));
    } else {
        append_dec_u64(out, n / 10);
        out.append(digit_str(n % 10));
    }
}

/// The decimal numeral of `n` as a string.
pub fn dec_u64_string(n: u64) -> (r: String)
    ensures
        r@ == dec_of(n as int),
{
    let mut s = String::new();
    append_dec_u64(&mut s, n);
    proof {
        assert(s@ =~= dec_of(n as int));
    }
    s
}

/// The decimal numeral of `n`, left-padded with zeros to at least `width`
/// characters, appended to `out`.
pub fn append_dec_padded(out: &mut String, n: u64, width: usize)
    ensures
        final(out)@ == old(out)@ + dec_padded(n as int, width as int),
{
    let digits = dec_u64_string(n);
    let len = digits.as_str().unicode_len();
    if len >= width {
        out.append(digits.as_str());
        proof {
            assert(final(out)@ =~= old(out)@ + dec_padded(n as int, width as int));
        }
    } else {
        let pad = width - len;
        let mut i: usize = 0;
        proof {
            reveal_strlit("0");
        }
        while i < pad
            invariant
                i <= pad,
                out@ == old(out)@ + Seq::new(i as nat, |k: int| '0'),
                "0"@ == seq!['0'],
            decreases pad - i,
        {
            out.append("0");
            proof {
                assert(out@ =~= old(out)@ + Seq::new((i + 1) as nat, |k: int| '0'));
            }
            i += 1;
        }
        out.append(digits.as_str());
        proof {
            assert(final(out)@ =~= old(out)@ + dec_padded(n as int, width as int));
        }
    }
}

/// Whether `c` is a decimal digit character.
pub open spec fn is_dec_digit(c: char) -> bool {
    '0' <= c <= '9'
}

/// The numeric value of a decimal digit character.
pub open spec fn digit_val(c: char) -> int {
    c as int - '0' as int
}

/// The value of a sequence of decimal digit characters, read in base ten.
pub open spec fn dec_val(s: Seq<char>) -> int
    decreases s.len(),
{
    if s.len() == 0 {
        0
    } else {
        dec_val(s.drop_last()) * 10 + digit_val(s.last())
    }
}

/// Whether every character of `s` is a decimal digit.
pub open spec fn all_dec_digits(s: Seq<char>) -> bool {
    forall|i: int| 0 <= i < s.len() ==> is_dec_digit(#[trigger] s[i])
}

/// What a sequence of characters denotes as a `u32`: its base-ten value,
/// if it is non-empty, all digits, and within range.
pub open spec fn spec_parse_u32(s: Seq<char>) -> Option<u32> {
    if s.len() > 0 && all_dec_digits(s) && dec_val(s) <= u32::MAX {
        Some(dec_val(s) as u32)
    } else {
        None
    }
}

/// The value of a digit sequence never decreases as the sequence grows
/// to the right.
proof fn lemma_dec_val_nonneg(s: Seq<char>)
    requires
        all_dec_digits(s),
    ensures
        dec_val(s) >= 0,
    decreases s.len(),
{
    if s.len() > 0 {
        assert(all_dec_digits(s.drop_last()));
        lemma_dec_val_nonneg(s.drop_last());
    }
}

/// Once a prefix of a digit string exceeds a bound, the whole string does.
proof fn lemma_dec_val_prefix(s: Seq<char>, i: int)
    requires
        all_dec_digits(s),
        0 <= i <= s.len(),
    ensures
        dec_val(s.subrange(0, i)) <= dec_val(s),
    decreases s.len() - i,
{
    if i < s.len() {
        lemma_dec_val_prefix(s, i + 1);
        let p = s.subrange(0, i);
        let q = s.subrange(0, i + 1);
        assert(q.drop_last() =~= p);
        assert(all_dec_digits(p));
        lemma_dec_val_nonneg(p);
    } else {
        assert(s.subrange(0, i) =~= s);
    }
}

/// Reads the digits of `v` between `from` and `to` as a `u32`.
/// Returns `None` when the range is empty, contains a non-digit, or
/// denotes a value above `u32::MAX`.
pub fn parse_u32_chars(v: &Vec<char>, from: usize, to: usize) -> (r: Option<u32>)
    requires
        from <= to <= v@.len(),
    ensures
        r == spec_parse_u32(v@.subrange(from as int, to as int)),
{
    let ghost s = v@.subrange(from as int, to as int);
    if from == to {
        return None;
    }
    let mut acc: u32 = 0;
    let mut i: usize = from;
    while i < to
        invariant
            from <= i <= to <= v@.len(),
            s == v@.subrange(from as int, to as int),
            all_dec_digits(s.subrange(0, i - from)),
            acc == dec_val(s.subrange(0, i - from)),
        decreases to - i,
    {
        let c = v[i];
        if !('0' <= c && c <= '9') {
            proof {
                assert(s[i - from] == c);
            }
            return None;
        }
        let d: u32 = (c as u32) - ('0' as u32);
        proof {
            assert(s.subrange(0, i + 1 - from).drop_last() =~= s.subrange(0, i - from));
            assert(s.subrange(0, i + 1 - from).last() == c);
        }
        if acc > (u32::MAX - d) / 10 {
            proof {
                lemma_ten_acc_overflows(acc as int, d as int);
                assert(all_dec_digits(s.subrange(0, i + 1 - from)));
                if all_dec_digits(s) {
                    lemma_dec_val_prefix(s, i + 1 - from);
                }
            }
            return None;
        }
        proof {
            lemma_ten_acc_fits(acc as int, d as int);
        }
        acc = acc * 10 + d;
        i += 1;
    }
    proof {
        assert(s.subrange(0, to - from) =~= s);
    }
    Some(acc)
}

/// If `acc > (MAX - d) / 10` then `acc * 10 + d` exceeds `u32::MAX`.
proof fn lemma_ten_acc_overflows(acc: int, d: int)
    requires
        0 <= acc,
        0 <= d <= 9,
        acc > (u32::MAX - d) / 10,
    ensures
        acc * 10 + d > u32::MAX,
{
    let m = (u32::MAX - d) as int;
    vstd::arithmetic::div_mod::lemma_fundamental_div_mod(m, 10);
    vstd::arithmetic::div_mod::lemma_mod_division_less_than_divisor(m, 10);
    assert(acc >= m / 10 + 1);
    assert(acc * 10 >= (m / 10 + 1) * 10) by (nonlinear_arith)
        requires
            acc >= m / 10 + 1,
    ;
    assert((m / 10 + 1) * 10 == (m / 10) * 10 + 10) by (nonlinear_arith);
    assert((m / 10) * 10 == 10 * (m / 10)) by (nonlinear_arith);
}

/// If `acc <= (MAX - d) / 10` then `acc * 10 + d` fits in a `u32`.
proof fn lemma_ten_acc_fits(acc: int, d: int)
    requires
        0 <= acc,
        0 <= d <= 9,
        acc <= (u32::MAX - d) / 10,
    ensures
        acc * 10 + d <= u32::MAX,
{
    let m = (u32::MAX - d) as int;
    vstd::arithmetic::div_mod::lemma_fundamental_div_mod(m, 10);
    vstd::arithmetic::div_mod::lemma_mod_division_less_than_divisor(m, 10);
    assert(acc * 10 <= (m / 10) * 10) by (nonlinear_arith)
        requires
            0 <= acc,
            acc <= m / 10,
    ;
    assert((m / 10) * 10 == 10 * (m / 10)) by (nonlinear_arith);
}

} // verus!
