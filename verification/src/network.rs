//! Byte-order-mark stripping and base-relative URL resolution.
//!
//! Resolution prefers an absolute `path`; otherwise it joins `path`
//! against `base` as a URL; when neither parses, both are treated as
//! filesystem paths and joined on the path separator.

use vstd::prelude::*;

verus! {

use crate::text::{chars_to_string, find_last, last_index_of, str_to_chars};

/// What `remove_bom` returns: the input without a leading UTF-8
/// byte-order mark, or unchanged when it has none.
pub open spec fn spec_remove_bom(b: Seq<u8>) -> Seq<u8> {
    if b.len() >= 3 && b[0] == 0xEF && b[1] == 0xBB && b[2] == 0xBF {
        b.subrange(3, b.len() as int)
    } else {
        b
    }
}

/// Strips a leading UTF-8 byte-order mark (`EF BB BF`), if present.
/// Applied to XML payloads before parsing; never applied to JSON.
pub fn remove_bom(contents: &[u8]) -> (r: &[u8])
    ensures
        r@ == spec_remove_bom(contents@),
{
    if contents.len() >= 3 {
        let b0 = *vstd::slice::slice_index_get(contents, 0);
        let b1 = *vstd::slice::slice_index_get(contents, 1);
        let b2 = *vstd::slice::slice_index_get(contents, 2);
        if b0 == 0xEF && b1 == 0xBB && b2 == 0xBF {
            return vstd::slice::slice_subrange(contents, 3, contents.len());
        }
    }
    contents
}

/// Stripping the byte-order mark is idempotent, as long as the payload
/// does not begin with two byte-order marks in a row (then each call
/// strips one of them).
pub proof fn lemma_remove_bom_idempotent(b: Seq<u8>)
    requires
        !(b.len() >= 6 && b[0] == 0xEF && b[1] == 0xBB && b[2] == 0xBF && b[3] == 0xEF && b[4]
            == 0xBB && b[5] == 0xBF),
    ensures
        spec_remove_bom(spec_remove_bom(b)) == spec_remove_bom(b),
{
    if b.len() >= 3 && b[0] == 0xEF && b[1] == 0xBB && b[2] == 0xBF {
        let s = b.subrange(3, b.len() as int);
        if s.len() >= 3 && s[0] == 0xEF && s[1] == 0xBB && s[2] == 0xBF {
            assert(b[3] == 0xEF && b[4] == 0xBB && b[5] == 0xBF);
        }
    }
}

/// Whether a string parses as an absolute URL.
/// Names the outcome of `url::Url::parse`, which depends on the string
/// alone.
pub uninterp spec fn spec_is_url(s: Seq<char>) -> bool;

/// The URL obtained by parsing `base` and resolving `path` against it
/// (RFC 3986), or `None` when `base` does not parse or the join fails.
/// Names the outcome of `url::Url::parse` followed by `url::Url::join`,
/// which depends on the two strings alone.
pub uninterp spec fn spec_url_join(base: Seq<char>, path: Seq<char>) -> Option<Seq<char>>;

/// Relies on `url::Url::parse`: whether it succeeds is a function of the
/// string alone.
#[verifier::external_body]
fn url_parses(s: &str) -> (r: bool)
    ensures
        r == spec_is_url(s@),
{
    url::Url::parse(s).is_ok()
}

/// Relies on `url::Url::parse` and `url::Url::join`: standard relative
/// URL resolution of `path` against `base`, a function of the two
/// strings alone; `None` exactly when parsing or joining fails.
#[verifier::external_body]
fn url_join(base: &str, path: &str) -> (r: Option<String>)
    ensures
        r is Some <==> spec_url_join(base@, path@) is Some,
        r matches Some(u) ==> spec_url_join(base@, path@) == Some(u@),
{
    match url::Url::parse(base) {
        Ok(b) => match b.join(path) {
            Ok(u) => Some(u.as_str().to_owned()),
            Err(_) => None,
        },
        Err(_) => None,
    }
}

/// Joining `base` and `path` as filesystem paths: the directory portion
/// of `base` (everything before its last `/`), then a separator, then
/// `path`. An absolute `path` replaces the base; an empty directory
/// portion disappears.
pub open spec fn spec_path_join(base: Seq<char>, path: Seq<char>) -> Seq<char> {
    let dir = if last_index_of(base, '/') >= 0 {
        base.subrange(0, last_index_of(base, '/'))
    } else {
        base
    };
    if path.len() > 0 && path[0] == '/' {
        path
    } else if dir.len() == 0 {
        path
    } else if dir.last() == '/' {
        dir + path
    } else {
        dir + seq!['/'] + path
    }
}

/// What `resolve_relative` returns.
pub open spec fn spec_resolve_relative(base: Seq<char>, path: Seq<char>) -> Seq<char> {
    if spec_is_url(path) {
        path
    } else {
        match spec_url_join(base, path) {
            Some(u) => u,
            None => spec_path_join(base, path),
        }
    }
}

/// Resolution leaves an absolute URL untouched, whatever the base:
/// resolving is idempotent on its own output whenever that output is
/// an absolute URL.
pub proof fn lemma_resolve_absolute(base: Seq<char>, u: Seq<char>)
    requires
        spec_is_url(u),
    ensures
        spec_resolve_relative(base, u) == u,
{
}

/// Joins `base` and `path` as filesystem paths, on the `/` separator.
fn path_join(base: &str, path: &str) -> (r: String)
    ensures
        r@ == spec_path_join(base@, path@),
{
    let b = str_to_chars(base);
    let p = str_to_chars(path);
    let mut out = match find_last(&b, '/') {
        Some(i) => crate::text::chars_subrange(&b, 0, i),
        None => b,
    };
    if p.len() > 0 && p[0] == '/' {
        return chars_to_string(&p);
    }
    if out.len() == 0 {
        return chars_to_string(&p);
    }
    if out[out.len() - 1] != '/' {
        out.push('/');
    }
    let ghost pre = out@;
    let mut j: usize = 0;
    while j < p.len()
        invariant
            j <= p@.len(),
            out@ == pre + p@.subrange(0, j as int),
        decreases p@.len() - j,
    {
        out.push(p[j]);
        proof {
            assert(out@ =~= pre + p@.subrange(0, j + 1 as int));
        }
        j += 1;
    }
    proof {
        assert(out@ =~= pre + p@);
        assert(out@ =~= spec_path_join(base@, path@));
    }
    chars_to_string(&out)
}

/// Resolves `path` against `base`: an absolute URL is returned verbatim;
/// otherwise `path` is joined to `base` by URL resolution; when neither
/// parses as a URL, the two are joined as filesystem paths.
pub fn resolve_relative(base: &str, path: &str) -> (r: String)
    ensures
        r@ == spec_resolve_relative(base@, path@),
{
    if url_parses(path) {
        return String::from_str(path);
    }
    match url_join(base, path) {
        Some(u) => u,
        None => path_join(base, path),
    }
}

} // verus!
