//! The IIIF `info.json` data model: the fields the tile planner reads,
//! their extraction from parsed JSON, and the quality, format and
//! size-format selection rules.

use vstd::prelude::*;

verus! {

use crate::json::{JsonMemberV, JsonV, JsonValue, spec_member};

/// One entry of the `tiles` array: a tile width, an optional height,
/// and the scale factors it serves.
pub struct TileInfo {
    pub width: u32,
    pub height: Option<u32>,
    pub scale_factors: Vec<u32>,
}

/// The fields of an `info.json` that matter to tiling.
pub struct ImageInfo {
    pub id: Option<String>,
    pub width: u32,
    pub height: u32,
    pub tiles: Option<Vec<TileInfo>>,
    pub tile_width: Option<u32>,
    pub tile_height: Option<u32>,
    pub scale_factors: Option<Vec<u32>>,
    pub qualities: Option<Vec<String>>,
    pub formats: Option<Vec<String>>,
    pub supports: Vec<String>,
}

/// The mathematical shape of a tiles entry.
pub struct TileInfoV {
    pub width: u32,
    pub height: Option<u32>,
    pub scale_factors: Seq<u32>,
}

/// The mathematical shape of an image description.
pub struct ImageInfoV {
    pub id: Option<Seq<char>>,
    pub width: u32,
    pub height: u32,
    pub tiles: Option<Seq<TileInfoV>>,
    pub tile_width: Option<u32>,
    pub tile_height: Option<u32>,
    pub scale_factors: Option<Seq<u32>>,
    pub qualities: Option<Seq<Seq<char>>>,
    pub formats: Option<Seq<Seq<char>>>,
    pub supports: Seq<Seq<char>>,
}

/// The views of a string list.
pub open spec fn strings_view(v: Seq<String>) -> Seq<Seq<char>> {
    Seq::new(v.len(), |i: int| v[i]@)
}

impl View for TileInfo {
    type V = TileInfoV;

    open spec fn view(&self) -> TileInfoV {
        TileInfoV { width: self.width, height: self.height, scale_factors: self.scale_factors@ }
    }
}

/// The views of a tiles list.
pub open spec fn tiles_view(v: Seq<TileInfo>) -> Seq<TileInfoV> {
    Seq::new(v.len(), |i: int| v[i]@)
}

impl View for ImageInfo {
    type V = ImageInfoV;

    open spec fn view(&self) -> ImageInfoV {
        ImageInfoV {
            id: match self.id {
                None => None,
                Some(ref s) => Some(s@),
            },
            width: self.width,
            height: self.height,
            tiles: match self.tiles {
                None => None,
                Some(ref t) => Some(tiles_view(t@)),
            },
            tile_width: self.tile_width,
            tile_height: self.tile_height,
            scale_factors: match self.scale_factors {
                None => None,
                Some(ref s) => Some(s@),
            },
            qualities: match self.qualities {
                None => None,
                Some(ref q) => Some(strings_view(q@)),
            },
            formats: match self.formats {
                None => None,
                Some(ref f) => Some(strings_view(f@)),
            },
            supports: strings_view(self.supports@),
        }
    }
}

/// An optional `u32` field: absent is fine, present means a plain
/// in-range integer.
pub open spec fn spec_field_u32(m: Seq<JsonMemberV>, key: Seq<char>) -> Result<Option<u32>, ()> {
    match spec_member(m, key) {
        None => Ok(None),
        Some(JsonV::Num(Some(n))) => Ok(Some(n)),
        Some(_) => Err(()),
    }
}

/// An optional string field.
pub open spec fn spec_field_str(m: Seq<JsonMemberV>, key: Seq<char>) -> Result<
    Option<Seq<char>>,
    (),
> {
    match spec_member(m, key) {
        None => Ok(None),
        Some(JsonV::Str(s)) => Ok(Some(s)),
        Some(_) => Err(()),
    }
}

/// What a JSON array means as a list of `u32`: every element a plain
/// in-range integer.
pub open spec fn spec_u32_list(a: Seq<JsonV>) -> Result<Seq<u32>, ()>
    decreases a.len(),
{
    if a.len() == 0 {
        Ok(Seq::empty())
    } else {
        match a[0] {
            JsonV::Num(Some(n)) => match spec_u32_list(a.subrange(1, a.len() as int)) {
                Ok(rest) => Ok(seq![n] + rest),
                Err(e) => Err(e),
            },
            _ => Err(()),
        }
    }
}

/// What a JSON array means as a list of strings.
pub open spec fn spec_str_list(a: Seq<JsonV>) -> Result<Seq<Seq<char>>, ()>
    decreases a.len(),
{
    if a.len() == 0 {
        Ok(Seq::empty())
    } else {
        match a[0] {
            JsonV::Str(s) => match spec_str_list(a.subrange(1, a.len() as int)) {
                Ok(rest) => Ok(seq![s] + rest),
                Err(e) => Err(e),
            },
            _ => Err(()),
        }
    }
}

/// An optional `u32`-list field.
pub open spec fn spec_field_u32_list(m: Seq<JsonMemberV>, key: Seq<char>) -> Result<
    Option<Seq<u32>>,
    (),
> {
    match spec_member(m, key) {
        None => Ok(None),
        Some(JsonV::Arr(a)) => match spec_u32_list(a) {
            Ok(l) => Ok(Some(l)),
            Err(e) => Err(e),
        },
        Some(_) => Err(()),
    }
}

/// An optional string-list field.
pub open spec fn spec_field_str_list(m: Seq<JsonMemberV>, key: Seq<char>) -> Result<
    Option<Seq<Seq<char>>>,
    (),
> {
    match spec_member(m, key) {
        None => Ok(None),
        Some(JsonV::Arr(a)) => match spec_str_list(a) {
            Ok(l) => Ok(Some(l)),
            Err(e) => Err(e),
        },
        Some(_) => Err(()),
    }
}

/// One tiles entry: `width` required, `height` optional, and
/// `scaleFactors` (or the older `scale_factors`) required.
pub open spec fn spec_tile_info(v: JsonV) -> Result<TileInfoV, ()> {
    match v {
        JsonV::Obj(m) => {
            match (spec_field_u32(m, "width"@), spec_field_u32(m, "height"@)) {
                (Ok(Some(w)), Ok(h)) => {
                    let sf = if spec_member(m, "scaleFactors"@) is Some {
                        spec_field_u32_list(m, "scaleFactors"@)
                    } else {
                        spec_field_u32_list(m, "scale_factors"@)
                    };
                    match sf {
                        Ok(Some(s)) => Ok(TileInfoV { width: w, height: h, scale_factors: s }),
                        _ => Err(()),
                    }
                },
                _ => Err(()),
            }
        },
        _ => Err(()),
    }
}

/// What a JSON array means as a tiles list.
pub open spec fn spec_tile_list(a: Seq<JsonV>) -> Result<Seq<TileInfoV>, ()>
    decreases a.len(),
{
    if a.len() == 0 {
        Ok(Seq::empty())
    } else {
        match spec_tile_info(a[0]) {
            Ok(t) => match spec_tile_list(a.subrange(1, a.len() as int)) {
                Ok(rest) => Ok(seq![t] + rest),
                Err(e) => Err(e),
            },
            Err(e) => Err(e),
        }
    }
}

/// Every `supports` string found in the `profile` array's objects.
pub open spec fn spec_profile_supports(a: Seq<JsonV>) -> Seq<Seq<char>>
    decreases a.len(),
{
    if a.len() == 0 {
        Seq::empty()
    } else {
        let rest = spec_profile_supports(a.subrange(1, a.len() as int));
        match a[0] {
            JsonV::Obj(m) => match spec_member(m, "supports"@) {
                Some(JsonV::Arr(sup)) => match spec_str_list(sup) {
                    Ok(l) => l + rest,
                    Err(_) => rest,
                },
                _ => rest,
            },
            _ => rest,
        }
    }
}

/// What a parsed JSON value means as an image description: an object
/// with integral `width` and `height`; everything else optional, but
/// well-typed where present. The `profile` entry is scanned for
/// `supports` lists and never fails.
pub open spec fn spec_image_info(v: JsonV) -> Result<ImageInfoV, ()> {
    match v {
        JsonV::Obj(m) => {
            let id = if spec_member(m, "@id"@) is Some {
                spec_field_str(m, "@id"@)
            } else {
                spec_field_str(m, "id"@)
            };
            let tiles = match spec_member(m, "tiles"@) {
                None => Ok(None),
                Some(JsonV::Arr(a)) => match spec_tile_list(a) {
                    Ok(l) => Ok(Some(l)),
                    Err(e) => Err(e),
                },
                Some(_) => Err(()),
            };
            let supports = match spec_member(m, "profile"@) {
                Some(JsonV::Arr(a)) => spec_profile_supports(a),
                _ => Seq::empty(),
            };
            match (spec_field_u32(m, "width"@), spec_field_u32(m, "height"@)) {
                (Ok(Some(width)), Ok(Some(height))) => match (id, tiles) {
                    (Ok(id), Ok(tiles)) => match (
                        spec_field_u32(m, "tile_width"@),
                        spec_field_u32(m, "tile_height"@),
                        spec_field_u32_list(m, "scale_factors"@),
                    ) {
                        (Ok(tile_width), Ok(tile_height), Ok(scale_factors)) => match (
                            spec_field_str_list(m, "qualities"@),
                            spec_field_str_list(m, "formats"@),
                        ) {
                            (Ok(qualities), Ok(formats)) => Ok(
                                ImageInfoV {
                                    id,
                                    width,
                                    height,
                                    tiles,
                                    tile_width,
                                    tile_height,
                                    scale_factors,
                                    qualities,
                                    formats,
                                    supports,
                                },
                            ),
                            _ => Err(()),
                        },
                        _ => Err(()),
                    },
                    _ => Err(()),
                },
                _ => Err(()),
            }
        },
        _ => Err(()),
    }
}

/// Whether some string of `ss` is exactly `t`.
pub open spec fn contains_str(ss: Seq<Seq<char>>, t: Seq<char>) -> bool {
    exists|i: int| 0 <= i < ss.len() && ss[i] == t
}

/// The chosen quality: `default` when offered, else `native` when
/// offered, else the first offered, else `default`.
pub open spec fn spec_best_quality(info: ImageInfoV) -> Seq<char> {
    match info.qualities {
        None => "default"@,
        Some(qs) => if contains_str(qs, "default"@) {
            "default"@
        } else if contains_str(qs, "native"@) {
            "native"@
        } else if qs.len() > 0 {
            qs[0]
        } else {
            "default"@
        },
    }
}

/// The chosen format: `jpg` when offered, else the first offered,
/// else `jpg`.
pub open spec fn spec_best_format(info: ImageInfoV) -> Seq<char> {
    match info.formats {
        None => "jpg"@,
        Some(fs) => if contains_str(fs, "jpg"@) {
            "jpg"@
        } else if fs.len() > 0 {
            fs[0]
        } else {
            "jpg"@
        },
    }
}

/// How a tile URL spells its size segment.
#[derive(Debug, Clone, Copy, PartialEq, Eq, Structural)]
pub enum TileSizeFormat {
    /// `w,h`
    WidthHeight,
    /// `w,`
    Width,
}

/// The chosen size segment format: width-only exactly when the server
/// declares `sizeByW` without `sizeByWh`.
pub open spec fn spec_size_format(info: ImageInfoV) -> TileSizeFormat {
    if contains_str(info.supports, "sizeByW"@) && !contains_str(info.supports, "sizeByWh"@) {
        TileSizeFormat::Width
    } else {
        TileSizeFormat::WidthHeight
    }
}

/// The normalized tiles list: the declared one; else one synthesized
/// from the legacy tile fields; else a single tile of at most 512
/// pixels a side at scale factor one.
pub open spec fn spec_tiles(info: ImageInfoV) -> Seq<TileInfoV> {
    match info.tiles {
        Some(t) => t,
        None => if info.tile_width is Some || info.tile_height is Some || info.scale_factors
            is Some {
            seq![
                TileInfoV {
                    width: match info.tile_width {
                        Some(w) => w,
                        None => match info.tile_height {
                            Some(h) => h,
                            None => 512,
                        },
                    },
                    height: match info.tile_height {
                        Some(h) => Some(h),
                        None => info.tile_width,
                    },
                    scale_factors: match info.scale_factors {
                        Some(s) => s,
                        None => seq![1u32],
                    },
                },
            ]
        } else {
            seq![
                TileInfoV {
                    width: if info.width <= 512 {
                        info.width
                    } else {
                        512
                    },
                    height: Some(
                        if info.height <= 512 {
                            info.height
                        } else {
                            512
                        },
                    ),
                    scale_factors: seq![1u32],
                },
            ]
        },
    }
}

/// A fresh copy of a list of numbers.
fn copy_u32s(v: &Vec<u32>) -> (r: Vec<u32>)
    ensures
        r@ == v@,
{
    let mut r: Vec<u32> = Vec::new();
    let mut i: usize = 0;
    while i < v.len()
        invariant
            i <= v@.len(),
            r@ == v@.subrange(0, i as int),
        decreases v@.len() - i,
    {
        r.push(v[i]);
        proof {
            assert(r@ =~= v@.subrange(0, i + 1 as int));
        }
        i += 1;
    }
    proof {
        assert(r@ =~= v@);
    }
    r
}

/// Looks a string up in a string list.
pub fn contains_string(ss: &Vec<String>, t: &str) -> (r: bool)
    ensures
        r == contains_str(strings_view(ss@), t@),
{
    let mut i: usize = 0;
    while i < ss.len()
        invariant
            i <= ss@.len(),
            forall|k: int| 0 <= k < i ==> strings_view(ss@)[k] != t@,
        decreases ss@.len() - i,
    {
        let c = crate::text::str_to_chars(ss[i].as_str());
        if crate::text::chars_eq_str_all(&c, t) {
            proof {
                assert(strings_view(ss@)[i as int] == t@);
            }
            return true;
        }
        i += 1;
    }
    false
}

impl ImageInfo {
    /// The full image dimensions.
    pub fn size(&self) -> (r: crate::vec2d::Vec2d)
        ensures
            r.x == self@.width,
            r.y == self@.height,
    {
        crate::vec2d::Vec2d { x: self.width, y: self.height }
    }

    /// The chosen quality, per `spec_best_quality`.
    pub fn best_quality(&self) -> (r: String)
        ensures
            r@ == spec_best_quality(self@),
    {
        match &self.qualities {
            None => String::from_str("default"),
            Some(qs) => {
                if contains_string(qs, "default") {
                    String::from_str("default")
                } else if contains_string(qs, "native") {
                    String::from_str("native")
                } else if qs.len() > 0 {
                    let r = qs[0].clone();
                    proof {
                        assert(strings_view(qs@)[0] == r@);
                    }
                    r
                } else {
                    String::from_str("default")
                }
            },
        }
    }

    /// The chosen format, per `spec_best_format`.
    pub fn best_format(&self) -> (r: String)
        ensures
            r@ == spec_best_format(self@),
    {
        match &self.formats {
            None => String::from_str("jpg"),
            Some(fs) => {
                if contains_string(fs, "jpg") {
                    String::from_str("jpg")
                } else if fs.len() > 0 {
                    let r = fs[0].clone();
                    proof {
                        assert(strings_view(fs@)[0] == r@);
                    }
                    r
                } else {
                    String::from_str("jpg")
                }
            },
        }
    }

    /// The chosen size segment format, per `spec_size_format`.
    pub fn preferred_size_format(&self) -> (r: TileSizeFormat)
        ensures
            r == spec_size_format(self@),
    {
        if contains_string(&self.supports, "sizeByW") && !contains_string(
            &self.supports,
            "sizeByWh",
        ) {
            TileSizeFormat::Width
        } else {
            TileSizeFormat::WidthHeight
        }
    }

    /// The normalized tiles list, per `spec_tiles`.
    pub fn tiles(&self) -> (r: Vec<TileInfo>)
        ensures
            tiles_view(r@) == spec_tiles(self@),
    {
        match &self.tiles {
            Some(t) => {
                let mut out: Vec<TileInfo> = Vec::new();
                let mut i: usize = 0;
                while i < t.len()
                    invariant
                        i <= t@.len(),
                        tiles_view(out@) == tiles_view(t@).subrange(0, i as int),
                    decreases t@.len() - i,
                {
                    let ti = TileInfo {
                        width: t[i].width,
                        height: t[i].height,
                        scale_factors: copy_u32s(&t[i].scale_factors),
                    };
                    let ghost tiv = ti@;
                    let ghost prev = out@;
                    proof {
                        assert(tiv == t@[i as int]@);
                        assert(tiles_view(prev).len() == i);
                        assert(prev.len() == i);
                    }
                    out.push(ti);
                    proof {
                        assert(out@.len() == i + 1);
                        assert forall|k: int| 0 <= k < i + 1 implies tiles_view(out@)[k]
                            == tiles_view(t@)[k] by {
                            if k < i {
                                assert(out@[k] == prev[k]);
                                assert(tiles_view(prev)[k] == tiles_view(t@).subrange(
                                    0,
                                    i as int,
                                )[k]);
                            } else {
                                assert(out@[k]@ == tiv);
                            }
                        }
                        assert(tiles_view(out@) =~= tiles_view(t@).subrange(0, i + 1 as int));
                    }
                    i += 1;
                }
                proof {
                    assert(tiles_view(t@).subrange(0, t@.len() as int) =~= tiles_view(t@));
                    assert(tiles_view(out@) =~= spec_tiles(self@));
                }
                out
            },
            None => {
                let mut out: Vec<TileInfo> = Vec::new();
                if self.tile_width.is_some() || self.tile_height.is_some()
                    || self.scale_factors.is_some() {
                    let width = match self.tile_width {
                        Some(w) => w,
                        None => match self.tile_height {
                            Some(h) => h,
                            None => 512,
                        },
                    };
                    let height = match self.tile_height {
                        Some(h) => Some(h),
                        None => self.tile_width,
                    };
                    let scale_factors = match &self.scale_factors {
                        Some(s) => copy_u32s(s),
                        None => {
                            let mut v: Vec<u32> = Vec::new();
                            v.push(1);
                            proof {
                                assert(v@ =~= seq![1u32]);
                            }
                            v
                        },
                    };
                    out.push(TileInfo { width, height, scale_factors });
                } else {
                    let mut v: Vec<u32> = Vec::new();
                    v.push(1);
                    proof {
                        assert(v@ =~= seq![1u32]);
                    }
                    out.push(
                        TileInfo {
                            width: if self.width <= 512 {
                                self.width
                            } else {
                                512
                            },
                            height: Some(
                                if self.height <= 512 {
                                    self.height
                                } else {
                                    512
                                },
                            ),
                            scale_factors: v,
                        },
                    );
                }
                proof {
                    assert(tiles_view(out@) =~= spec_tiles(self@));
                }
                out
            },
        }
    }
}

/// Extracts the image description from a parsed JSON value, when it is
/// one.
pub fn image_info_from_json(v: &JsonValue) -> (r: Option<ImageInfo>)
    ensures
        r matches Some(info) ==> spec_image_info(v@) == Ok::<ImageInfoV, ()>(info@),
        r is None ==> spec_image_info(v@) is Err,
{
    let m = match v {
        JsonValue::Obj(m) => m,
        _ => {
            return None;
        },
    };
    let width = match field_u32(m, "width") {
        Ok(Some(w)) => w,
        _ => {
            return None;
        },
    };
    let height = match field_u32(m, "height") {
        Ok(Some(h)) => h,
        _ => {
            return None;
        },
    };
    let id: Option<String> = {
        let primary = crate::json::find_member(m, "@id");
        match primary {
            Some(idv) => match idv {
                JsonValue::Str(s) => Some(crate::text::chars_to_string(s)),
                _ => {
                    return None;
                },
            },
            None => match crate::json::find_member(m, "id") {
                Some(idv) => match idv {
                    JsonValue::Str(s) => Some(crate::text::chars_to_string(s)),
                    _ => {
                        return None;
                    },
                },
                None => None,
            },
        }
    };
    let tiles: Option<Vec<TileInfo>> = match crate::json::find_member(m, "tiles") {
        None => None,
        Some(tv) => match tv {
            JsonValue::Arr(a) => match tile_list(a) {
                Some(l) => Some(l),
                None => {
                    return None;
                },
            },
            _ => {
                return None;
            },
        },
    };
    let supports: Vec<String> = match crate::json::find_member(m, "profile") {
        Some(pv) => match pv {
            JsonValue::Arr(a) => profile_supports(a),
            _ => {
                let none: Vec<String> = Vec::new();
                proof {
                    assert(strings_view(none@) =~= Seq::<Seq<char>>::empty());
                }
                none
            },
        },
        None => {
            let none: Vec<String> = Vec::new();
            proof {
                assert(strings_view(none@) =~= Seq::<Seq<char>>::empty());
            }
            none
        },
    };
    let tile_width = match field_u32(m, "tile_width") {
        Ok(w) => w,
        Err(()) => {
            return None;
        },
    };
    let tile_height = match field_u32(m, "tile_height") {
        Ok(h) => h,
        Err(()) => {
            return None;
        },
    };
    let scale_factors: Option<Vec<u32>> = match crate::json::find_member(m, "scale_factors") {
        None => None,
        Some(sv) => match sv {
            JsonValue::Arr(a) => match u32_list(a) {
                Some(l) => Some(l),
                None => {
                    return None;
                },
            },
            _ => {
                return None;
            },
        },
    };
    let qualities: Option<Vec<String>> = match str_list_field(m, "qualities") {
        Ok(q) => q,
        Err(()) => {
            return None;
        },
    };
    let formats: Option<Vec<String>> = match str_list_field(m, "formats") {
        Ok(f) => f,
        Err(()) => {
            return None;
        },
    };
    Some(
        ImageInfo {
            id,
            width,
            height,
            tiles,
            tile_width,
            tile_height,
            scale_factors,
            qualities,
            formats,
            supports,
        },
    )
}

/// Reads an optional `u32` member.
fn field_u32(m: &Vec<crate::json::JsonMember>, key: &str) -> (r: Result<Option<u32>, ()>)
    ensures
        r == spec_field_u32(crate::json::members_view(m@), key@),
{
    match crate::json::find_member(m, key) {
        None => Ok(None),
        Some(v) => match v {
            JsonValue::Num(Some(n)) => Ok(Some(*n)),
            _ => Err(()),
        },
    }
}

/// Reads a JSON array as a `u32` list.
fn u32_list(a: &Vec<JsonValue>) -> (r: Option<Vec<u32>>)
    ensures
        r matches Some(l) ==> spec_u32_list(crate::json::values_view(a@)) == Ok::<Seq<u32>, ()>(
            l@,
        ),
        r is None ==> spec_u32_list(crate::json::values_view(a@)) is Err,
{
    let ghost av = crate::json::values_view(a@);
    let mut out: Vec<u32> = Vec::new();
    let mut i: usize = 0;
    proof {
        assert(av.subrange(0, av.len() as int) =~= av);
        match spec_u32_list(av) {
            Ok(w) => {
                assert(out@ + w =~= w);
            },
            Err(_) => {},
        }
    }
    while i < a.len()
        invariant
            i <= a@.len(),
            av == crate::json::values_view(a@),
            (spec_u32_list(av) is Ok) == (spec_u32_list(
                av.subrange(i as int, av.len() as int),
            ) is Ok),
            spec_u32_list(av.subrange(i as int, av.len() as int)) matches Ok(rest)
                ==> spec_u32_list(av) == Ok::<Seq<u32>, ()>(out@ + rest),
        decreases a@.len() - i,
    {
        proof {
            let rest = av.subrange(i as int, av.len() as int);
            assert(rest[0] == av[i as int]);
            assert(rest.subrange(1, rest.len() as int) =~= av.subrange(
                i + 1 as int,
                av.len() as int,
            ));
        }
        match &a[i] {
            JsonValue::Num(Some(n)) => {
                let ghost prev = out@;
                let ghost nn = *n;
                out.push(*n);
                proof {
                    match spec_u32_list(av.subrange(i + 1 as int, av.len() as int)) {
                        Ok(rest2) => {
                            assert(prev + (seq![nn] + rest2) =~= out@ + rest2);
                        },
                        Err(_) => {},
                    }
                }
            },
            _ => {
                return None;
            },
        }
        i += 1;
    }
    proof {
        assert(av.subrange(a@.len() as int, av.len() as int) =~= Seq::<JsonV>::empty());
        assert(out@ + Seq::<u32>::empty() =~= out@);
    }
    Some(out)
}

/// Reads a JSON array as a string list.
fn str_list(a: &Vec<JsonValue>) -> (r: Option<Vec<String>>)
    ensures
        r matches Some(l) ==> spec_str_list(crate::json::values_view(a@)) == Ok::<
            Seq<Seq<char>>,
            (),
        >(strings_view(l@)),
        r is None ==> spec_str_list(crate::json::values_view(a@)) is Err,
{
    let ghost av = crate::json::values_view(a@);
    let mut out: Vec<String> = Vec::new();
    let mut i: usize = 0;
    proof {
        assert(av.subrange(0, av.len() as int) =~= av);
        assert(strings_view(out@) =~= Seq::<Seq<char>>::empty());
        match spec_str_list(av) {
            Ok(w) => {
                assert(strings_view(out@) + w =~= w);
            },
            Err(_) => {},
        }
    }
    while i < a.len()
        invariant
            i <= a@.len(),
            av == crate::json::values_view(a@),
            (spec_str_list(av) is Ok) == (spec_str_list(
                av.subrange(i as int, av.len() as int),
            ) is Ok),
            spec_str_list(av.subrange(i as int, av.len() as int)) matches Ok(rest)
                ==> spec_str_list(av) == Ok::<Seq<Seq<char>>, ()>(strings_view(out@) + rest),
        decreases a@.len() - i,
    {
        proof {
            let rest = av.subrange(i as int, av.len() as int);
            assert(rest[0] == av[i as int]);
            assert(rest.subrange(1, rest.len() as int) =~= av.subrange(
                i + 1 as int,
                av.len() as int,
            ));
        }
        match &a[i] {
            JsonValue::Str(s) => {
                let ghost prev = strings_view(out@);
                let owned = crate::text::chars_to_string(s);
                let ghost ownedv = owned@;
                out.push(owned);
                proof {
                    assert(strings_view(out@) =~= prev.push(ownedv));
                    match spec_str_list(av.subrange(i + 1 as int, av.len() as int)) {
                        Ok(rest2) => {
                            assert(prev + (seq![ownedv] + rest2) =~= strings_view(out@) + rest2);
                        },
                        Err(_) => {},
                    }
                }
            },
            _ => {
                return None;
            },
        }
        i += 1;
    }
    proof {
        assert(av.subrange(a@.len() as int, av.len() as int) =~= Seq::<JsonV>::empty());
        assert(strings_view(out@) + Seq::<Seq<char>>::empty() =~= strings_view(out@));
    }
    Some(out)
}

/// Reads an optional string-list member.
fn str_list_field(m: &Vec<crate::json::JsonMember>, key: &str) -> (r: Result<
    Option<Vec<String>>,
    (),
>)
    ensures
        r matches Ok(Some(l)) ==> spec_field_str_list(crate::json::members_view(m@), key@)
            == Ok::<Option<Seq<Seq<char>>>, ()>(Some(strings_view(l@))),
        r matches Ok(None::<Vec<String>>) ==> spec_field_str_list(
            crate::json::members_view(m@),
            key@,
        ) == Ok::<Option<Seq<Seq<char>>>, ()>(None),
        r is Err ==> spec_field_str_list(crate::json::members_view(m@), key@) is Err,
{
    match crate::json::find_member(m, key) {
        None => Ok(None),
        Some(v) => match v {
            JsonValue::Arr(a) => match str_list(a) {
                Some(l) => Ok(Some(l)),
                None => Err(()),
            },
            _ => Err(()),
        },
    }
}

/// Reads a JSON array as a tiles list.
fn tile_list(a: &Vec<JsonValue>) -> (r: Option<Vec<TileInfo>>)
    ensures
        r matches Some(l) ==> spec_tile_list(crate::json::values_view(a@)) == Ok::<
            Seq<TileInfoV>,
            (),
        >(tiles_view(l@)),
        r is None ==> spec_tile_list(crate::json::values_view(a@)) is Err,
{
    let ghost av = crate::json::values_view(a@);
    let mut out: Vec<TileInfo> = Vec::new();
    let mut i: usize = 0;
    proof {
        assert(av.subrange(0, av.len() as int) =~= av);
        assert(tiles_view(out@) =~= Seq::<TileInfoV>::empty());
        match spec_tile_list(av) {
            Ok(w) => {
                assert(tiles_view(out@) + w =~= w);
            },
            Err(_) => {},
        }
    }
    while i < a.len()
        invariant
            i <= a@.len(),
            av == crate::json::values_view(a@),
            (spec_tile_list(av) is Ok) == (spec_tile_list(
                av.subrange(i as int, av.len() as int),
            ) is Ok),
            spec_tile_list(av.subrange(i as int, av.len() as int)) matches Ok(rest)
                ==> spec_tile_list(av) == Ok::<Seq<TileInfoV>, ()>(tiles_view(out@) + rest),
        decreases a@.len() - i,
    {
        proof {
            let rest = av.subrange(i as int, av.len() as int);
            assert(rest[0] == av[i as int]);
            assert(rest.subrange(1, rest.len() as int) =~= av.subrange(
                i + 1 as int,
                av.len() as int,
            ));
        }
        match tile_info_from_json(&a[i]) {
            Some(t) => {
                let ghost prev = tiles_view(out@);
                let ghost tv = t@;
                out.push(t);
                proof {
                    assert(tiles_view(out@) =~= prev.push(tv));
                    match spec_tile_list(av.subrange(i + 1 as int, av.len() as int)) {
                        Ok(rest2) => {
                            assert(prev + (seq![tv] + rest2) =~= tiles_view(out@) + rest2);
                        },
                        Err(_) => {},
                    }
                }
            },
            None => {
                return None;
            },
        }
        i += 1;
    }
    proof {
        assert(av.subrange(a@.len() as int, av.len() as int) =~= Seq::<JsonV>::empty());
        assert(tiles_view(out@) + Seq::<TileInfoV>::empty() =~= tiles_view(out@));
    }
    Some(out)
}

/// Extracts one tiles entry.
fn tile_info_from_json(v: &JsonValue) -> (r: Option<TileInfo>)
    ensures
        r matches Some(t) ==> spec_tile_info(v@) == Ok::<TileInfoV, ()>(t@),
        r is None ==> spec_tile_info(v@) is Err,
{
    let m = match v {
        JsonValue::Obj(m) => m,
        _ => {
            return None;
        },
    };
    let width = match field_u32(m, "width") {
        Ok(Some(w)) => w,
        _ => {
            return None;
        },
    };
    let height = match field_u32(m, "height") {
        Ok(h) => h,
        Err(()) => {
            return None;
        },
    };
    let has_new = match crate::json::find_member(m, "scaleFactors") {
        Some(_) => true,
        None => false,
    };
    let key = if has_new {
        "scaleFactors"
    } else {
        "scale_factors"
    };
    let scale_factors = match crate::json::find_member(m, key) {
        None => {
            return None;
        },
        Some(sv) => match sv {
            JsonValue::Arr(a) => match u32_list(a) {
                Some(l) => l,
                None => {
                    return None;
                },
            },
            _ => {
                return None;
            },
        },
    };
    Some(TileInfo { width, height, scale_factors })
}

/// Collects the `supports` strings from a `profile` array.
fn profile_supports(a: &Vec<JsonValue>) -> (r: Vec<String>)
    ensures
        strings_view(r@) == spec_profile_supports(crate::json::values_view(a@)),
{
    let ghost av = crate::json::values_view(a@);
    let mut out: Vec<String> = Vec::new();
    let mut i: usize = 0;
    proof {
        assert(av.subrange(0, av.len() as int) =~= av);
        assert(strings_view(out@) =~= Seq::<Seq<char>>::empty());
        assert(spec_profile_supports(av) =~= strings_view(out@) + spec_profile_supports(av));
    }
    while i < a.len()
        invariant
            i <= a@.len(),
            av == crate::json::values_view(a@),
            spec_profile_supports(av) =~= strings_view(out@) + spec_profile_supports(
                av.subrange(i as int, av.len() as int),
            ),
        decreases a@.len() - i,
    {
        proof {
            let rest = av.subrange(i as int, av.len() as int);
            assert(rest[0] == av[i as int]);
            assert(rest.subrange(1, rest.len() as int) =~= av.subrange(
                i + 1 as int,
                av.len() as int,
            ));
        }
        match &a[i] {
            JsonValue::Obj(m) => {
                match crate::json::find_member(m, "supports") {
                    Some(sv) => match sv {
                        JsonValue::Arr(sup) => match str_list(sup) {
                            Some(l) => {
                                let ghost prev = strings_view(out@);
                                let ghost lv = strings_view(l@);
                                extend_strings(&mut out, l);
                                proof {
                                    assert(prev + (lv + spec_profile_supports(
                                        av.subrange(i + 1 as int, av.len() as int),
                                    )) =~= (prev + lv) + spec_profile_supports(
                                        av.subrange(i + 1 as int, av.len() as int),
                                    ));
                                }
                            },
                            None => {},
                        },
                        _ => {},
                    },
                    None => {},
                }
            },
            _ => {},
        }
        i += 1;
    }
    proof {
        assert(av.subrange(a@.len() as int, av.len() as int) =~= Seq::<JsonV>::empty());
        assert(strings_view(out@) =~= strings_view(out@) + Seq::<Seq<char>>::empty());
    }
    out
}

/// Moves every string of `l` onto the end of `out`.
fn extend_strings(out: &mut Vec<String>, l: Vec<String>)
    ensures
        strings_view(final(out)@) == strings_view(old(out)@) + strings_view(l@),
{
    let mut k: usize = 0;
    while k < l.len()
        invariant
            k <= l@.len(),
            strings_view(out@) =~= strings_view(old(out)@) + strings_view(l@).subrange(
                0,
                k as int,
            ),
        decreases l@.len() - k,
    {
        let ghost prev = strings_view(out@);
        let s = l[k].clone();
        let ghost sv = s@;
        out.push(s);
        proof {
            assert(strings_view(out@) =~= prev.push(sv));
            assert(strings_view(l@)[k as int] == sv);
            assert(strings_view(out@) =~= strings_view(old(out)@) + strings_view(l@).subrange(
                0,
                k + 1 as int,
            ));
        }
        k += 1;
    }
    proof {
        assert(strings_view(l@).subrange(0, l@.len() as int) =~= strings_view(l@));
        assert(strings_view(out@) =~= strings_view(old(out)@) + strings_view(l@));
    }
}

} // verus!
