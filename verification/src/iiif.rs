//! The IIIF Image API frontend: reads an `info.json` (or scavenges
//! JSON objects embedded in a larger payload) and produces one zoom
//! level per declared scale factor of each tiles entry.

use vstd::prelude::*;

verus! {

use vstd::utf8::{decode_utf8, valid_utf8};

use crate::dezoomer::TilesRect;
use crate::json::{spec_all_json, spec_parse_json, JsonV};
use crate::text::{chars_to_string, dec_of, str_to_chars};
use crate::tile_info::{
    spec_best_format,
    spec_best_quality,
    spec_image_info,
    spec_size_format,
    spec_tiles,
    ImageInfo,
    ImageInfoV,
    TileInfoV,
    TileSizeFormat,
};
use crate::vec2d::{ceil_div_int, Vec2d};

/// Why an IIIF descriptor was rejected.
#[derive(Debug, Clone, Copy, PartialEq, Eq, Structural)]
pub enum IIIFError {
    /// The payload holds no usable `info.json` object.
    JsonError,
}

/// One zoom level of an IIIF image.
#[derive(Debug)]
pub struct IIIFZoomLevel {
    pub scale_factor: u32,
    pub tile_size: Vec2d,
    pub img_size: Vec2d,
    pub base_url: String,
    pub quality: String,
    pub format: String,
    pub size_format: TileSizeFormat,
}

/// The descriptor URI with every `/info.json` occurrence removed,
/// scanned left to right.
pub open spec fn spec_strip_infojson(s: Seq<char>, i: int, acc: Seq<char>) -> Seq<char>
    decreases s.len() - i,
{
    if i < 0 || i >= s.len() {
        acc
    } else if i + 10 <= s.len() && s.subrange(i, i + 10) == "/info.json"@ {
        spec_strip_infojson(s, i + 10, acc)
    } else {
        spec_strip_infojson(s, i + 1, acc.push(s[i]))
    }
}

/// Removes every `/info.json` from the URI.
fn strip_infojson(v: &Vec<char>) -> (r: Vec<char>)
    ensures
        r@ == spec_strip_infojson(v@, 0, Seq::empty()),
{
    let mut out: Vec<char> = Vec::new();
    let mut i: usize = 0;
    proof {
        reveal_strlit("/info.json");
    }
    while i < v.len()
        invariant
            i <= v@.len(),
            "/info.json"@.len() == 10,
            spec_strip_infojson(v@, 0, Seq::empty()) == spec_strip_infojson(v@, i as int, out@),
        decreases v@.len() - i,
    {
        if v.len() - i >= 10 && crate::text::chars_eq_str(v, i, i + 10, "/info.json") {
            i += 10;
        } else {
            out.push(v[i]);
            i += 1;
        }
    }
    out
}

/// The geometry of one level: its nominal tile size and scale factor.
pub open spec fn params_of(t: TileInfoV) -> Seq<(Vec2d, u32)> {
    Seq::new(
        t.scale_factors.len(),
        |i: int|
            (
                Vec2d {
                    x: t.width,
                    y: match t.height {
                        Some(h) => h,
                        None => t.width,
                    },
                },
                if 0 <= i < t.scale_factors.len() {
                    t.scale_factors[i]
                } else {
                    0
                },
            ),
    )
}

/// The geometry of every level a tiles list yields, in declared order.
pub open spec fn spec_level_params(tiles: Seq<TileInfoV>) -> Seq<(Vec2d, u32)>
    decreases tiles.len(),
{
    if tiles.len() == 0 {
        Seq::empty()
    } else {
        spec_level_params(tiles.drop_last()) + params_of(tiles.last())
    }
}

/// Whether one produced level matches the image description and the
/// level geometry `p`.
pub open spec fn iiif_level_ok(
    info: ImageInfoV,
    base: Seq<char>,
    p: (Vec2d, u32),
    l: IIIFZoomLevel,
) -> bool {
    &&& l.tile_size == p.0
    &&& l.scale_factor == p.1
    &&& l.img_size == (Vec2d { x: info.width, y: info.height })
    &&& l.base_url@ == (match info.id {
        Some(id) => id,
        None => base,
    })
    &&& l.quality@ == spec_best_quality(info)
    &&& l.format@ == spec_best_format(info)
    &&& l.size_format == spec_size_format(info)
}

/// Whether `levels` is exactly the level list an image description
/// yields: one level per scale factor of each (normalized) tiles
/// entry, in declared order.
pub open spec fn iiif_levels_ok(
    info: ImageInfoV,
    base: Seq<char>,
    levels: Seq<IIIFZoomLevel>,
) -> bool {
    &&& levels.len() == spec_level_params(spec_tiles(info)).len()
    &&& forall|k: int|
        0 <= k < levels.len() ==> iiif_level_ok(
            info,
            base,
            spec_level_params(spec_tiles(info))[k],
            #[trigger] levels[k],
        )
}

impl IIIFZoomLevel {
    /// The level's descriptive name: the last path segment of its base
    /// URL, trimmed; a nameless one is called `IIIF Image`.
    pub fn plain_name(&self) -> (r: String)
        ensures
            r@ == spec_iiif_name(self.base_url@),
    {
        let chars = str_to_chars(self.base_url.as_str());
        let n = chars.len();
        let start: usize = match crate::text::find_last(&chars, '/') {
            Some(i) => i + 1,
            None => 0,
        };
        let seg = crate::text::chars_subrange(&chars, start, n);
        let trimmed = trim_ws(&seg);
        if trimmed.len() == 0 {
            String::from_str("IIIF Image")
        } else {
            chars_to_string(&trimmed)
        }
    }
}

/// The characters of `s` with leading and trailing whitespace removed.
pub open spec fn spec_trim(s: Seq<char>) -> Seq<char>
    decreases s.len(),
{
    if s.len() == 0 {
        s
    } else if crate::text::is_ws(s[0]) {
        spec_trim(s.subrange(1, s.len() as int))
    } else if crate::text::is_ws(s.last()) {
        spec_trim(s.drop_last())
    } else {
        s
    }
}

/// The name a level displays: the last `/`-separated segment of the
/// base URL, whitespace-trimmed; `IIIF Image` when that is empty.
pub open spec fn spec_iiif_name(base: Seq<char>) -> Seq<char> {
    let seg = base.subrange(crate::text::last_index_of(base, '/') + 1, base.len() as int);
    if spec_trim(seg).len() == 0 {
        "IIIF Image"@
    } else {
        spec_trim(seg)
    }
}

/// Trims whitespace from both ends.
fn trim_ws(v: &Vec<char>) -> (r: Vec<char>)
    ensures
        r@ == spec_trim(v@),
{
    let mut from: usize = 0;
    let mut to: usize = v.len();
    proof {
        assert(v@.subrange(0, v@.len() as int) =~= v@);
    }
    while from < to && crate::text::ws_char(v[from])
        invariant
            from <= to <= v@.len(),
            spec_trim(v@) == spec_trim(v@.subrange(from as int, to as int)),
        decreases to - from,
    {
        proof {
            let cur = v@.subrange(from as int, to as int);
            assert(cur.subrange(1, cur.len() as int) =~= v@.subrange(from + 1, to as int));
        }
        from += 1;
    }
    while from < to && crate::text::ws_char(v[to - 1])
        invariant
            from <= to <= v@.len(),
            spec_trim(v@) == spec_trim(v@.subrange(from as int, to as int)),
            from < to ==> !crate::text::is_ws(v@[from as int]),
        decreases to - from,
    {
        proof {
            let cur = v@.subrange(from as int, to as int);
            assert(cur.last() == v@[to - 1]);
            assert(cur.drop_last() =~= v@.subrange(from as int, to - 1));
        }
        to -= 1;
    }
    proof {
        let cur = v@.subrange(from as int, to as int);
        assert(spec_trim(cur) == cur);
    }
    crate::text::chars_subrange(v, from, to)
}

/// A tile starting inside the grid of a level starts inside the image,
/// with room for a whole scale step.
proof fn lemma_iiif_xy_bound(img: u32, sc: u32, ts: u32, pos: u32)
    requires
        sc >= 1,
        ts >= 1,
        (pos as int) < ceil_div_int(img as int / sc as int, ts as int),
    ensures
        0 <= (pos as int) * ((ts as int) * (sc as int)) <= img as int - sc as int,
{
    let lw = img as int / sc as int;
    crate::dezoomer::lemma_tile_start_bound((lw) as u32, ts, pos);
    assert(ts as int * pos as int <= lw - 1);
    assert((pos as int) * ((ts as int) * (sc as int)) == (ts as int * pos as int) * (sc as int))
        by (nonlinear_arith);
    assert((ts as int * pos as int) * (sc as int) <= (lw - 1) * (sc as int)) by (nonlinear_arith)
        requires
            ts as int * pos as int <= lw - 1,
            sc as int >= 1,
            ts as int * pos as int >= 0,
    ;
    assert(ts as int * pos as int >= 0) by (nonlinear_arith);
    assert((lw - 1) * (sc as int) == lw * (sc as int) - sc as int) by (nonlinear_arith);
    vstd::arithmetic::div_mod::lemma_fundamental_div_mod(img as int, sc as int);
    vstd::arithmetic::div_mod::lemma_mod_division_less_than_divisor(img as int, sc as int);
    assert((sc as int) * lw == lw * (sc as int)) by (nonlinear_arith);
    assert((pos as int) * ((ts as int) * (sc as int)) >= 0) by (nonlinear_arith);
}

impl TilesRect for IIIFZoomLevel {
    open spec fn wf(&self) -> bool {
        &&& self.scale_factor >= 1
        &&& self.tile_size.x >= 1
        &&& self.tile_size.y >= 1
        &&& self.tile_size.x * self.scale_factor <= u32::MAX
        &&& self.tile_size.y * self.scale_factor <= u32::MAX
    }

    open spec fn spec_size(&self) -> Vec2d {
        Vec2d {
            x: (self.img_size.x as int / self.scale_factor as int) as u32,
            y: (self.img_size.y as int / self.scale_factor as int) as u32,
        }
    }

    open spec fn spec_tile_size(&self) -> Vec2d {
        self.tile_size
    }

    open spec fn spec_overlap(&self) -> u32 {
        0
    }

    open spec fn spec_tile_url(&self, pos: Vec2d) -> Seq<char> {
        let sc = self.scale_factor as int;
        let sx = self.tile_size.x as int * sc;
        let sy = self.tile_size.y as int * sc;
        let xx = pos.x as int * sx;
        let yy = pos.y as int * sy;
        let rx = if self.img_size.x as int >= xx {
            self.img_size.x as int - xx
        } else {
            0
        };
        let ry = if self.img_size.y as int >= yy {
            self.img_size.y as int - yy
        } else {
            0
        };
        let cw = if sx <= rx {
            sx
        } else {
            rx
        };
        let ch = if sy <= ry {
            sy
        } else {
            ry
        };
        let ox = cw / sc;
        let oy = ch / sc;
        let size_seg = if self.size_format == TileSizeFormat::WidthHeight {
            dec_of(ox) + seq![','] + dec_of(oy)
        } else {
            dec_of(ox) + seq![',']
        };
        self.base_url@ + seq!['/'] + dec_of(xx) + seq![','] + dec_of(yy) + seq![','] + dec_of(cw)
            + seq![','] + dec_of(ch) + seq!['/'] + size_seg + seq!['/', '0', '/'] + self.quality@
            + seq!['.'] + self.format@
    }

    fn size(&self) -> (r: Vec2d) {
        self.img_size.div_scalar(self.scale_factor)
    }

    fn tile_size(&self) -> (r: Vec2d) {
        self.tile_size
    }

    fn overlap(&self) -> (r: u32) {
        0
    }

    /// `{base}/{x},{y},{w},{h}/{size}/0/{quality}.{format}`, the region
    /// clipped to the image bounds.
    fn tile_url(&self, pos: Vec2d) -> (r: String) {
        proof {
            lemma_iiif_xy_bound(self.img_size.x, self.scale_factor, self.tile_size.x, pos.x);
            lemma_iiif_xy_bound(self.img_size.y, self.scale_factor, self.tile_size.y, pos.y);
        }
        let scaled = self.tile_size.times_scalar(self.scale_factor);
        let xy = pos.times(scaled);
        let rem = self.img_size.minus(xy);
        let clipped = scaled.min(rem);
        let out_tile = clipped.div_scalar(self.scale_factor);
        let mut url = self.base_url.clone();
        url.append("/");
        crate::text::append_dec_u64(&mut url, xy.x as u64);
        url.append(",");
        crate::text::append_dec_u64(&mut url, xy.y as u64);
        url.append(",");
        crate::text::append_dec_u64(&mut url, clipped.x as u64);
        url.append(",");
        crate::text::append_dec_u64(&mut url, clipped.y as u64);
        url.append("/");
        crate::text::append_dec_u64(&mut url, out_tile.x as u64);
        url.append(",");
        match self.size_format {
            TileSizeFormat::WidthHeight => {
                crate::text::append_dec_u64(&mut url, out_tile.y as u64);
            },
            TileSizeFormat::Width => {},
        }
        url.append("/0/");
        url.append(self.quality.as_str());
        url.append(".");
        url.append(self.format.as_str());
        proof {
            reveal_strlit("/");
            reveal_strlit(",");
            reveal_strlit("/0/");
            reveal_strlit(".");
            assert("/"@ =~= seq!['/']);
            assert(","@ =~= seq![',']);
            assert("/0/"@ =~= seq!['/', '0', '/']);
            assert("."@ =~= seq!['.']);
            assert(url@ =~= self.spec_tile_url(pos));
        }
        url
    }
}

/// Produces the zoom levels an image description yields: one per scale
/// factor of each tiles entry, sharing the chosen base URL, quality
/// and format. Never fails.
pub fn zoom_levels_from_info(url: &str, image_info: ImageInfo) -> (r: Result<
    Vec<IIIFZoomLevel>,
    IIIFError,
>)
    ensures
        r is Ok,
        r matches Ok(levels) ==> iiif_levels_ok(
            image_info@,
            spec_strip_infojson(url@, 0, Seq::empty()),
            levels@,
        ),
{
    let url_chars = str_to_chars(url);
    let base_chars = strip_infojson(&url_chars);
    let base_url: String = match &image_info.id {
        Some(id) => id.clone(),
        None => chars_to_string(&base_chars),
    };
    let quality = image_info.best_quality();
    let format = image_info.best_format();
    let size_format = image_info.preferred_size_format();
    let img_size = image_info.size();
    let tiles = image_info.tiles();
    let ghost info = image_info@;
    let ghost base = spec_strip_infojson(url@, 0, Seq::empty());
    let ghost tv = crate::tile_info::tiles_view(tiles@);
    proof {
        assert(tv == spec_tiles(info));
    }
    let mut levels: Vec<IIIFZoomLevel> = Vec::new();
    let mut j: usize = 0;
    proof {
        assert(tv.subrange(0, 0) =~= Seq::<TileInfoV>::empty());
    }
    while j < tiles.len()
        invariant
            j <= tiles@.len(),
            tv == crate::tile_info::tiles_view(tiles@),
            tv == spec_tiles(info),
            img_size == (Vec2d { x: info.width, y: info.height }),
            base_url@ == (match info.id {
                Some(id) => id,
                None => base,
            }),
            quality@ == spec_best_quality(info),
            format@ == spec_best_format(info),
            size_format == spec_size_format(info),
            levels@.len() == spec_level_params(tv.subrange(0, j as int)).len(),
            forall|k: int|
                0 <= k < levels@.len() ==> iiif_level_ok(
                    info,
                    base,
                    spec_level_params(tv.subrange(0, j as int))[k],
                    #[trigger] levels@[k],
                ),
        decreases tiles@.len() - j,
    {
        let t = &tiles[j];
        let ghost tj = tv[j as int];
        proof {
            assert(tj == tiles@[j as int]@);
        }
        let tsize = Vec2d {
            x: t.width,
            y: match t.height {
                Some(h) => h,
                None => t.width,
            },
        };
        let ghost pj = spec_level_params(tv.subrange(0, j as int));
        let mut i: usize = 0;
        while i < t.scale_factors.len()
            invariant
                i <= tj.scale_factors.len(),
                t@ == tj,
                tj == tiles@[j as int]@,
                j < tiles@.len(),
                tv == crate::tile_info::tiles_view(tiles@),
                tv == spec_tiles(info),
                img_size == (Vec2d { x: info.width, y: info.height }),
                base_url@ == (match info.id {
                    Some(id) => id,
                    None => base,
                }),
                quality@ == spec_best_quality(info),
                format@ == spec_best_format(info),
                size_format == spec_size_format(info),
                pj == spec_level_params(tv.subrange(0, j as int)),
                tsize == (Vec2d {
                    x: tj.width,
                    y: match tj.height {
                        Some(h) => h,
                        None => tj.width,
                    },
                }),
                levels@.len() == pj.len() + i,
                forall|k: int|
                    0 <= k < pj.len() ==> iiif_level_ok(info, base, pj[k], #[trigger] levels@[k]),
                forall|k: int|
                    pj.len() <= k < levels@.len() ==> iiif_level_ok(
                        info,
                        base,
                        params_of(tj)[k - pj.len()],
                        #[trigger] levels@[k],
                    ),
            decreases tj.scale_factors.len() - i,
        {
            levels.push(
                IIIFZoomLevel {
                    scale_factor: t.scale_factors[i],
                    tile_size: tsize,
                    img_size,
                    base_url: base_url.clone(),
                    quality: quality.clone(),
                    format: format.clone(),
                    size_format,
                },
            );
            proof {
                assert(params_of(tj)[i as int] == (tsize, tj.scale_factors[i as int]));
            }
            i += 1;
        }
        proof {
            let sub1 = tv.subrange(0, j + 1 as int);
            assert(sub1.drop_last() =~= tv.subrange(0, j as int));
            assert(sub1.last() == tj);
            assert(spec_level_params(sub1) == pj + params_of(tj));
        }
        j += 1;
    }
    proof {
        assert(tv.subrange(0, tiles@.len() as int) =~= tv);
    }
    Ok(levels)
}

/// The image descriptions scavenged from a list of JSON values: those
/// that are well-typed `info.json` objects, in order.
pub open spec fn spec_scavenged(vals: Seq<JsonV>) -> Seq<ImageInfoV>
    decreases vals.len(),
{
    if vals.len() == 0 {
        Seq::empty()
    } else {
        spec_scavenged(vals.drop_last()) + (match spec_image_info(vals.last()) {
            Ok(i) => seq![i],
            Err(_) => Seq::empty(),
        })
    }
}

/// How many levels a list of image descriptions yields in all.
pub open spec fn spec_total_levels(infos: Seq<ImageInfoV>) -> int
    decreases infos.len(),
{
    if infos.len() == 0 {
        0
    } else {
        spec_total_levels(infos.drop_last()) + spec_level_params(
            spec_tiles(infos.last()),
        ).len()
    }
}

/// Whether `levels` is the concatenation of the level lists of
/// `infos`, in order.
pub open spec fn iiif_multi_ok(
    infos: Seq<ImageInfoV>,
    base: Seq<char>,
    levels: Seq<IIIFZoomLevel>,
) -> bool
    decreases infos.len(),
{
    if infos.len() == 0 {
        levels.len() == 0
    } else {
        exists|split: int|
            0 <= split <= levels.len() && iiif_multi_ok(
                infos.drop_last(),
                base,
                levels.subrange(0, split),
            ) && iiif_levels_ok(
                infos.last(),
                base,
                #[trigger] levels.subrange(split, levels.len() as int),
            )
    }
}

/// The image description the payload parses to as a whole, if any.
pub open spec fn iiif_primary(contents: Seq<u8>) -> Option<ImageInfoV> {
    if !valid_utf8(contents) {
        None
    } else {
        match spec_parse_json(decode_utf8(contents)) {
            None => None,
            Some(v) => match spec_image_info(v) {
                Ok(i) => Some(i),
                Err(_) => None,
            },
        }
    }
}

/// The image descriptions scavenged from the payload.
pub open spec fn iiif_candidates(contents: Seq<u8>) -> Seq<ImageInfoV> {
    if !valid_utf8(contents) {
        Seq::empty()
    } else {
        spec_scavenged(spec_all_json(decode_utf8(contents), 0, Seq::empty()))
    }
}

/// Parses an `info.json` payload into zoom levels. When the payload as
/// a whole is not a usable description, every JSON object found inside
/// it is tried, and their levels concatenated; with nothing usable the
/// parse error surfaces.
pub fn zoom_levels(url: &str, raw_info: &[u8]) -> (r: Result<Vec<IIIFZoomLevel>, IIIFError>)
    ensures
        (r is Ok) == (iiif_primary(raw_info@) is Some || spec_total_levels(
            iiif_candidates(raw_info@),
        ) > 0),
        r matches Err(e) ==> e == IIIFError::JsonError,
        iiif_primary(raw_info@) matches Some(info) ==> (r matches Ok(levels) && iiif_levels_ok(
            info,
            spec_strip_infojson(url@, 0, Seq::empty()),
            levels@,
        )),
        (iiif_primary(raw_info@) is None && r is Ok) ==> (r matches Ok(levels) && iiif_multi_ok(
            iiif_candidates(raw_info@),
            spec_strip_infojson(url@, 0, Seq::empty()),
            levels@,
        )),
{
    let ghost base = spec_strip_infojson(url@, 0, Seq::empty());
    let text = match crate::text::decode_utf8_bytes(raw_info) {
        None => {
            return Err(IIIFError::JsonError);
        },
        Some(t) => t,
    };
    let chars = str_to_chars(text.as_str());
    match crate::json::parse_json(&chars) {
        Some(v) => {
            match crate::tile_info::image_info_from_json(&v) {
                Some(info) => {
                    return zoom_levels_from_info(url, info);
                },
                None => {},
            }
        },
        None => {},
    }
    // scavenge every JSON object embedded in the payload
    let vals = crate::json::all_json(&chars);
    let ghost vv = crate::json::values_view(vals@);
    proof {
        assert(vv == spec_all_json(decode_utf8(raw_info@), 0, Seq::empty()));
        assert(vv.subrange(0, 0) =~= Seq::<JsonV>::empty());
    }
    let mut acc: Vec<IIIFZoomLevel> = Vec::new();
    let mut j: usize = 0;
    while j < vals.len()
        invariant
            j <= vals@.len(),
            vv == crate::json::values_view(vals@),
            iiif_candidates(raw_info@) == spec_scavenged(vv),
            base == spec_strip_infojson(url@, 0, Seq::empty()),
            iiif_multi_ok(spec_scavenged(vv.subrange(0, j as int)), base, acc@),
            acc@.len() == spec_total_levels(spec_scavenged(vv.subrange(0, j as int))),
        decreases vals@.len() - j,
    {
        let ghost pre = spec_scavenged(vv.subrange(0, j as int));
        proof {
            let sub1 = vv.subrange(0, j + 1 as int);
            assert(sub1.drop_last() =~= vv.subrange(0, j as int));
            assert(sub1.last() == vv[j as int]);
            assert(vv[j as int] == vals@[j as int]@);
        }
        match crate::tile_info::image_info_from_json(&vals[j]) {
            Some(info) => {
                let ghost infov = info@;
                let mut lv = match zoom_levels_from_info(url, info) {
                    Ok(lv) => lv,
                    Err(_) => {
                        return Err(IIIFError::JsonError);
                    },
                };
                let ghost lvv = lv@;
                let ghost accv = acc@;
                acc.append(&mut lv);
                proof {
                    let now = spec_scavenged(vv.subrange(0, j + 1 as int));
                    assert(now =~= pre.push(infov));
                    assert(now.drop_last() =~= pre);
                    assert(now.last() == infov);
                    assert(acc@.subrange(0, accv.len() as int) =~= accv);
                    assert(acc@.subrange(accv.len() as int, acc@.len() as int) =~= lvv);
                    assert(iiif_multi_ok(now, base, acc@));
                }
            },
            None => {
                proof {
                    assert(spec_scavenged(vv.subrange(0, j + 1 as int)) =~= pre);
                }
            },
        }
        j += 1;
    }
    proof {
        assert(vv.subrange(0, vals@.len() as int) =~= vv);
    }
    if acc.len() == 0 {
        Err(IIIFError::JsonError)
    } else {
        Ok(acc)
    }
}

} // verus!
