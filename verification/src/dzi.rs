//! The Deep Zoom Image (DZI) frontend: parses the `Image` descriptor
//! XML and produces one zoom level per halving of the image size, down
//! to one pixel.

use vstd::prelude::*;

verus! {

use vstd::arithmetic::power2::{lemma2_to64, lemma_pow2_pos, lemma_pow2_unfold, pow2};
use vstd::utf8::{decode_utf8, valid_utf8};

use crate::network::spec_remove_bom;
use crate::text::{
    chars_to_string,
    dec_of,
    last_index_of,
    spec_parse_u32,
};
use crate::vec2d::{ceil_div_int, Vec2d};
use crate::xml::{spec_attr, spec_child, spec_parse_xml, XmlElement, XmlNodeV};
use crate::dezoomer::TilesRect;

/// Why a DZI descriptor was rejected.
#[derive(Debug, Clone, Copy, PartialEq, Eq, Structural)]
pub enum DziError {
    /// The payload is not the XML this frontend understands.
    XmlError,
    /// The descriptor lacks a `Size` element.
    NoSize,
    /// The declared tile size is zero.
    InvalidTileSize,
}

/// The smallest `k` with `2^k >= n`: the number of halvings that bring
/// `n` down to one.
pub open spec fn spec_ceil_log2(n: int) -> int
    decreases n,
{
    if n <= 1 {
        0
    } else {
        1 + spec_ceil_log2((n + 1) / 2)
    }
}

/// `spec_ceil_log2` of anything not above `2^k` is at most `k`.
proof fn lemma_ceil_log2_le(n: int, k: nat)
    requires
        n <= pow2(k),
    ensures
        spec_ceil_log2(n) <= k,
    decreases k,
{
    if n > 1 {
        lemma_pow2_pos(k);
        if k == 0 {
            lemma2_to64();
            assert(false);
        } else {
            lemma_pow2_unfold(k);
            lemma_ceil_log2_le((n + 1) / 2, (k - 1) as nat);
        }
    }
}

/// `spec_ceil_log2` of a `u32` fits comfortably in a `u32`.
pub proof fn lemma_ceil_log2_u32(n: u32)
    ensures
        0 <= spec_ceil_log2(n as int) <= 32,
{
    lemma2_to64();
    lemma_ceil_log2_le(n as int, 32);
    lemma_ceil_log2_nonneg(n as int);
}

/// `spec_ceil_log2` is never negative.
proof fn lemma_ceil_log2_nonneg(n: int)
    ensures
        spec_ceil_log2(n) >= 0,
    decreases n,
{
    if n > 1 {
        lemma_ceil_log2_nonneg((n + 1) / 2);
    }
}

/// The number of halvings that bring `n` to one, computed.
pub fn ceil_log2(n: u32) -> (r: u32)
    ensures
        r as int == spec_ceil_log2(n as int),
{
    let mut m = n;
    let mut c: u32 = 0;
    proof {
        lemma_ceil_log2_u32(n);
    }
    while m > 1
        invariant
            c as int + spec_ceil_log2(m as int) == spec_ceil_log2(n as int),
            spec_ceil_log2(n as int) <= 32,
            spec_ceil_log2(m as int) >= 0,
        decreases m,
    {
        let next = m / 2 + m % 2;
        proof {
            assert(next as int == (m as int + 1) / 2);
            assert(next < m);
            lemma_ceil_log2_nonneg(next as int);
        }
        m = next;
        c = c + 1;
    }
    c
}

/// The plan a well-formed DZI descriptor yields: everything the level
/// list is generated from.
pub struct DziPlan {
    pub base: Seq<char>,
    pub tile_size: u32,
    pub overlap: u32,
    pub format: Seq<char>,
    pub size: Vec2d,
    pub max_level: int,
}

/// The attributes read from the root element: tile size, overlap
/// (default zero), format, and the optional explicit base URL.
pub open spec fn spec_dzi_props(root: XmlNodeV) -> Result<(u32, u32, Seq<char>, Option<Seq<char>>), DziError> {
    match spec_attr(root.attrs, "TileSize"@) {
        None => Err(DziError::XmlError),
        Some(ts_s) => match spec_parse_u32(ts_s) {
            None => Err(DziError::XmlError),
            Some(ts) => {
                let ov = match spec_attr(root.attrs, "Overlap"@) {
                    None => Some(0u32),
                    Some(s) => spec_parse_u32(s),
                };
                match ov {
                    None => Err(DziError::XmlError),
                    Some(ov) => match spec_attr(root.attrs, "Format"@) {
                        None => Err(DziError::XmlError),
                        Some(format) => Ok((ts, ov, format, spec_attr(root.attrs, "Url"@))),
                    },
                }
            },
        },
    }
}

/// The `Size` child, when it is present and carries well-formed
/// `Width` and `Height`.
pub open spec fn spec_dzi_size(root: XmlNodeV) -> Result<Option<Vec2d>, DziError> {
    match spec_child(root.children, "Size"@) {
        None => Ok(None),
        Some(sz) => match (spec_attr(sz.attrs, "Width"@), spec_attr(sz.attrs, "Height"@)) {
            (Some(w), Some(h)) => match (spec_parse_u32(w), spec_parse_u32(h)) {
                (Some(w), Some(h)) => Ok(Some(Vec2d { x: w, y: h })),
                _ => Err(DziError::XmlError),
            },
            _ => Err(DziError::XmlError),
        },
    }
}

/// The base URL derived from the descriptor URI: the URI up to its
/// last dot (without one: up to its last character), with `_files`
/// appended.
pub open spec fn spec_dzi_derived_base(uri: Seq<char>) -> Seq<char> {
    let dot = if last_index_of(uri, '.') >= 0 {
        last_index_of(uri, '.')
    } else if uri.len() >= 1 {
        uri.len() - 1
    } else {
        0
    };
    uri.subrange(0, dot) + "_files"@
}

/// The level base URL: the explicit `Url` attribute when one is given
/// (the sentinel `no url` counts as absent), else derived from the
/// descriptor URI; a single trailing slash is stripped.
pub open spec fn spec_dzi_base(uri: Seq<char>, url_attr: Option<Seq<char>>) -> Seq<char> {
    let raw = match url_attr {
        Some(u) => if u == "no url"@ {
            spec_dzi_derived_base(uri)
        } else {
            u
        },
        None => spec_dzi_derived_base(uri),
    };
    if raw.len() > 0 && raw.last() == '/' {
        raw.drop_last()
    } else {
        raw
    }
}

/// The size of the level `k` halvings below full resolution.
pub open spec fn spec_dzi_level_size(size0: Vec2d, k: int) -> Vec2d
    decreases k,
{
    if k <= 0 {
        size0
    } else {
        let p = spec_dzi_level_size(size0, k - 1);
        Vec2d {
            x: ceil_div_int(p.x as int, 2) as u32,
            y: ceil_div_int(p.y as int, 2) as u32,
        }
    }
}

/// What a DZI descriptor means: the plan its levels are generated
/// from, or the error it is rejected with.
pub open spec fn spec_dzi_plan(uri: Seq<char>, contents: Seq<u8>) -> Result<DziPlan, DziError> {
    let stripped = spec_remove_bom(contents);
    if !valid_utf8(stripped) {
        Err(DziError::XmlError)
    } else {
        match spec_parse_xml(decode_utf8(stripped)) {
            None => Err(DziError::XmlError),
            Some(root) => match spec_dzi_props(root) {
                Err(e) => Err(e),
                Ok((tile_size, overlap, format, url_attr)) => match spec_dzi_size(root) {
                    Err(e) => Err(e),
                    Ok(szopt) => if tile_size == 0 {
                        Err(DziError::InvalidTileSize)
                    } else {
                        match szopt {
                            None => Err(DziError::NoSize),
                            Some(size) => Ok(
                                DziPlan {
                                    base: spec_dzi_base(uri, url_attr),
                                    tile_size,
                                    overlap,
                                    format,
                                    size,
                                    max_level: spec_ceil_log2(
                                        if size.x >= size.y {
                                            size.x as int
                                        } else {
                                            size.y as int
                                        },
                                    ),
                                },
                            ),
                        }
                    },
                },
            },
        }
    }
}

/// One zoom level of a Deep Zoom Image.
#[derive(Debug)]
pub struct DziLevel {
    pub base_url: String,
    pub size: Vec2d,
    pub tile_size: Vec2d,
    pub format: String,
    pub overlap: u32,
    pub level: u32,
}

impl DziLevel {
    /// The level's descriptive name.
    pub fn plain_name(&self) -> (r: String)
        ensures
            r@ == "Deep Zoom Image"@,
    {
        String::from_str("Deep Zoom Image")
    }
}

impl TilesRect for DziLevel {
    open spec fn wf(&self) -> bool {
        self.tile_size.x >= 1 && self.tile_size.y >= 1
    }

    open spec fn spec_size(&self) -> Vec2d {
        self.size
    }

    open spec fn spec_tile_size(&self) -> Vec2d {
        self.tile_size
    }

    open spec fn spec_overlap(&self) -> u32 {
        self.overlap
    }

    open spec fn spec_tile_url(&self, pos: Vec2d) -> Seq<char> {
        self.base_url@ + seq!['/'] + dec_of(self.level as int) + seq!['/'] + dec_of(pos.x as int)
            + seq!['_'] + dec_of(pos.y as int) + seq!['.'] + self.format@
    }

    fn size(&self) -> (r: Vec2d) {
        self.size
    }

    fn tile_size(&self) -> (r: Vec2d) {
        self.tile_size
    }

    fn overlap(&self) -> (r: u32) {
        self.overlap
    }

    /// `{base}/{level}/{col}_{row}.{format}`.
    fn tile_url(&self, pos: Vec2d) -> (r: String) {
        let mut url = self.base_url.clone();
        url.append("/");
        crate::text::append_dec_u64(&mut url, self.level as u64);
        url.append("/");
        crate::text::append_dec_u64(&mut url, pos.x as u64);
        url.append("_");
        crate::text::append_dec_u64(&mut url, pos.y as u64);
        url.append(".");
        url.append(self.format.as_str());
        proof {
            reveal_strlit("/");
            reveal_strlit("_");
            reveal_strlit(".");
            assert("/"@ =~= seq!['/']);
            assert("_"@ =~= seq!['_']);
            assert("."@ =~= seq!['.']);
            assert(url@ =~= self.spec_tile_url(pos));
        }
        url
    }
}

/// Whether one produced level is the `k`-th level of the plan.
pub open spec fn dzi_level_ok(plan: DziPlan, k: int, l: DziLevel) -> bool {
    &&& l.base_url@ == plan.base
    &&& l.size == spec_dzi_level_size(plan.size, k)
    &&& l.tile_size == (Vec2d { x: plan.tile_size, y: plan.tile_size })
    &&& l.format@ == plan.format
    &&& l.overlap == plan.overlap
    &&& l.level as int == plan.max_level - k
}

/// Whether `levels` is exactly the level list the plan calls for:
/// one level per halving, full resolution first, the level index
/// descending from `max_level` to zero.
pub open spec fn dzi_levels_ok(plan: DziPlan, levels: Seq<DziLevel>) -> bool {
    &&& levels.len() == plan.max_level + 1
    &&& forall|k: int| 0 <= k < levels.len() ==> dzi_level_ok(plan, k, #[trigger] levels[k])
}

/// Parses a DZI descriptor and produces its zoom levels, full
/// resolution first.
pub fn load_from_properties(url: &str, contents: &[u8]) -> (r: Result<Vec<DziLevel>, DziError>)
    ensures
        (r is Ok) == (spec_dzi_plan(url@, contents@) is Ok),
        r matches Err(e) ==> spec_dzi_plan(url@, contents@) == Err::<DziPlan, DziError>(e),
        r matches Ok(levels) ==> (spec_dzi_plan(url@, contents@) matches Ok(plan)
            && dzi_levels_ok(plan, levels@)),
{
    let stripped = crate::network::remove_bom(contents);
    let text = match crate::text::decode_utf8_bytes(stripped) {
        None => {
            return Err(DziError::XmlError);
        },
        Some(t) => t,
    };
    let chars = crate::text::str_to_chars(text.as_str());
    let root = match crate::xml::parse_xml(&chars) {
        None => {
            return Err(DziError::XmlError);
        },
        Some(root) => root,
    };
    let ghost rootv = root@;

    // root attributes
    let tile_size: u32 = match crate::xml::find_attr(&root, "TileSize") {
        None => {
            return Err(DziError::XmlError);
        },
        Some(v) => match parse_attr_u32(v) {
            None => {
                return Err(DziError::XmlError);
            },
            Some(n) => n,
        },
    };
    let overlap: u32 = match crate::xml::find_attr(&root, "Overlap") {
        None => 0,
        Some(v) => match parse_attr_u32(v) {
            None => {
                return Err(DziError::XmlError);
            },
            Some(n) => n,
        },
    };
    let format: String = match crate::xml::find_attr(&root, "Format") {
        None => {
            return Err(DziError::XmlError);
        },
        Some(v) => chars_to_string(v),
    };

    // the Size child, when present and well-formed
    let size: Option<Vec2d> = match crate::xml::find_child(&root, "Size") {
        None => None,
        Some(sz) => {
            let w = match crate::xml::find_attr(sz, "Width") {
                None => {
                    return Err(DziError::XmlError);
                },
                Some(v) => match parse_attr_u32(v) {
                    None => {
                        return Err(DziError::XmlError);
                    },
                    Some(n) => n,
                },
            };
            let h = match crate::xml::find_attr(sz, "Height") {
                None => {
                    return Err(DziError::XmlError);
                },
                Some(v) => match parse_attr_u32(v) {
                    None => {
                        return Err(DziError::XmlError);
                    },
                    Some(n) => n,
                },
            };
            Some(Vec2d { x: w, y: h })
        },
    };

    if tile_size == 0 {
        return Err(DziError::InvalidTileSize);
    }
    let size = match size {
        None => {
            return Err(DziError::NoSize);
        },
        Some(s) => s,
    };

    // base URL: explicit attribute, or derived from the descriptor URI
    let url_chars = crate::text::str_to_chars(url);
    let mut base: Vec<char> = Vec::new();
    let explicit = match crate::xml::find_attr(&root, "Url") {
        None => None,
        Some(v) => if crate::text::chars_eq_str_all(v, "no url") {
            None
        } else {
            Some(v)
        },
    };
    match explicit {
        Some(v) => {
            crate::text::extend_chars(&mut base, v);
            proof {
                assert(base@ =~= v@);
            }
        },
        None => {
            let dot: usize = match crate::text::find_last(&url_chars, '.') {
                Some(i) => i,
                None => if url_chars.len() >= 1 {
                    url_chars.len() - 1
                } else {
                    0
                },
            };
            let stem = crate::text::chars_subrange(&url_chars, 0, dot);
            crate::text::extend_chars(&mut base, &stem);
            crate::text::push_str_chars(&mut base, "_files");
            proof {
                assert(Seq::<char>::empty() + stem@ + "_files"@ =~= spec_dzi_derived_base(url@));
            }
        },
    }
    proof {
        let url_attr = spec_attr(rootv.attrs, "Url"@);
        let raw = match url_attr {
            Some(u) => if u == "no url"@ {
                spec_dzi_derived_base(url@)
            } else {
                u
            },
            None => spec_dzi_derived_base(url@),
        };
        assert(base@ =~= raw);
    }
    if base.len() > 0 && base[base.len() - 1] == '/' {
        base.pop();
    }
    let ghost planr = spec_dzi_plan(url@, contents@);
    proof {
        assert(base@ == spec_dzi_base(url@, spec_attr(rootv.attrs, "Url"@)));
    }
    let base_url = chars_to_string(&base);

    // one level per halving, down to a single pixel
    let max_level = ceil_log2(if size.x >= size.y {
        size.x
    } else {
        size.y
    });
    proof {
        lemma_ceil_log2_u32(
            if size.x >= size.y {
                size.x
            } else {
                size.y
            },
        );
    }
    let ghost plan = DziPlan {
        base: base_url@,
        tile_size,
        overlap,
        format: format@,
        size,
        max_level: max_level as int,
    };
    proof {
        assert(planr == Ok::<DziPlan, DziError>(plan));
    }
    let mut levels: Vec<DziLevel> = Vec::new();
    let mut cur = size;
    let mut ord: u32 = 0;
    while ord <= max_level
        invariant
            ord <= max_level + 1,
            max_level <= 32,
            cur == spec_dzi_level_size(plan.size, ord as int),
            levels@.len() == ord as int,
            plan.tile_size == tile_size,
            plan.overlap == overlap,
            plan.base == base_url@,
            plan.format == format@,
            plan.size == size,
            plan.max_level == max_level as int,
            forall|k: int|
                0 <= k < levels@.len() ==> {
                    &&& (#[trigger] levels@[k]).base_url@ == plan.base
                    &&& levels@[k].size == spec_dzi_level_size(plan.size, k)
                    &&& levels@[k].tile_size == (Vec2d { x: plan.tile_size, y: plan.tile_size })
                    &&& levels@[k].format@ == plan.format
                    &&& levels@[k].overlap == plan.overlap
                    &&& levels@[k].level as int == plan.max_level - k
                },
        decreases max_level + 1 - ord,
    {
        levels.push(
            DziLevel {
                base_url: base_url.clone(),
                size: cur,
                tile_size: Vec2d { x: tile_size, y: tile_size },
                format: format.clone(),
                overlap,
                level: max_level - ord,
            },
        );
        cur = cur.ceil_div(Vec2d::square(2));
        ord = ord + 1;
    }
    Ok(levels)
}

/// Reads a whole attribute value as a `u32`.
pub(crate) fn parse_attr_u32(v: &Vec<char>) -> (r: Option<u32>)
    ensures
        r == spec_parse_u32(v@),
{
    proof {
        assert(v@.subrange(0, v@.len() as int) =~= v@);
    }
    crate::text::parse_u32_chars(v, 0, v.len())
}

} // verus!
