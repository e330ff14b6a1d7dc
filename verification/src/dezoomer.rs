//! The shared tile-geometry contract: every format's zoom level exposes
//! its pixel size, its nominal tile size and a URL per grid cell, and
//! from these the full row-major tile enumeration is derived once, here.

use vstd::prelude::*;

verus! {

use crate::vec2d::{ceil_div_int, lemma_ceil_div, lemma_ceil_div_bounds, Vec2d};

/// One tile: its URL and the pixel coordinate of its top-left corner in
/// the reconstructed level image.
#[derive(Debug, Clone, PartialEq, Eq)]
pub struct TileReference {
    pub url: String,
    pub position: Vec2d,
}

/// The number of tile columns of a level: its width divided by the tile
/// width, rounded up.
pub open spec fn grid_cols(size: Vec2d, tile_size: Vec2d) -> int {
    ceil_div_int(size.x as int, tile_size.x as int)
}

/// The number of tile rows of a level.
pub open spec fn grid_rows(size: Vec2d, tile_size: Vec2d) -> int {
    ceil_div_int(size.y as int, tile_size.y as int)
}

/// Whether `(col, row)` addresses a cell of the level's tile grid.
pub open spec fn in_grid(size: Vec2d, tile_size: Vec2d, pos: Vec2d) -> bool {
    &&& tile_size.x > 0
    &&& tile_size.y > 0
    &&& (pos.x as int) < grid_cols(size, tile_size)
    &&& (pos.y as int) < grid_rows(size, tile_size)
}

/// The pixel position of the tile at `pos`: `tile_size * pos`, pulled
/// back by the overlap on each axis whose coordinate is not zero
/// (never below zero).
pub open spec fn spec_tile_position_x(tile_size: Vec2d, overlap: u32, pos: Vec2d) -> int {
    let start = tile_size.x as int * pos.x as int;
    let delta: int = if pos.x == 0 {
        0
    } else {
        overlap as int
    };
    if start >= delta {
        start - delta
    } else {
        0
    }
}

/// The vertical companion of `spec_tile_position_x`.
pub open spec fn spec_tile_position_y(tile_size: Vec2d, overlap: u32, pos: Vec2d) -> int {
    let start = tile_size.y as int * pos.y as int;
    let delta: int = if pos.y == 0 {
        0
    } else {
        overlap as int
    };
    if start >= delta {
        start - delta
    } else {
        0
    }
}

/// A tile starting inside the grid starts strictly inside the image:
/// `tile_size * pos < size` component-wise.
pub proof fn lemma_tile_start_bound(size: u32, tile_size: u32, pos: u32)
    requires
        tile_size >= 1,
        (pos as int) < ceil_div_int(size as int, tile_size as int),
    ensures
        (tile_size as int) * (pos as int) < (size as int),
{
    let c = ceil_div_int(size as int, tile_size as int);
    lemma_ceil_div_bounds(size as int, tile_size as int);
    assert(tile_size as int * pos as int <= tile_size as int * (c - 1)) by (nonlinear_arith)
        requires
            pos as int <= c - 1,
            tile_size as int > 0,
    ;
    assert(tile_size as int * (c - 1) == c * tile_size as int - tile_size as int)
        by (nonlinear_arith);
}

/// Tile positions are component-wise monotone: a cell further right or
/// further down never has a smaller pixel coordinate on that axis.
pub proof fn lemma_tile_position_monotone(tile_size: Vec2d, overlap: u32, p1: Vec2d, p2: Vec2d)
    requires
        p1.x <= p2.x,
        p1.y <= p2.y,
    ensures
        spec_tile_position_x(tile_size, overlap, p1) <= spec_tile_position_x(
            tile_size,
            overlap,
            p2,
        ),
        spec_tile_position_y(tile_size, overlap, p1) <= spec_tile_position_y(
            tile_size,
            overlap,
            p2,
        ),
{
    assert(tile_size.x as int * p1.x as int <= tile_size.x as int * p2.x as int)
        by (nonlinear_arith)
        requires
            p1.x <= p2.x,
            tile_size.x >= 0,
    ;
    assert(tile_size.y as int * p1.y as int <= tile_size.y as int * p2.y as int)
        by (nonlinear_arith)
        requires
            p1.y <= p2.y,
            tile_size.y >= 0,
    ;
    assert(tile_size.x as int * p1.x as int >= 0) by (nonlinear_arith);
    assert(tile_size.y as int * p1.y as int >= 0) by (nonlinear_arith);
    if p1.x == 0 {
        assert(tile_size.x as int * p1.x as int == 0) by (nonlinear_arith)
            requires
                p1.x == 0,
        ;
    }
    if p1.y == 0 {
        assert(tile_size.y as int * p1.y as int == 0) by (nonlinear_arith)
            requires
                p1.y == 0,
        ;
    }
}

/// What every format's zoom level offers: dimensions, tile dimensions,
/// overlap, and a URL for each grid cell. The tile enumeration is
/// derived from these, once for all formats.
pub trait TilesRect: Sized {
    /// The level's internal consistency: what the derived methods need.
    spec fn wf(&self) -> bool;

    /// The level's pixel dimensions.
    spec fn spec_size(&self) -> Vec2d;

    /// The nominal tile dimensions (edge tiles may be smaller).
    spec fn spec_tile_size(&self) -> Vec2d;

    /// Pixels shared between neighbouring tiles on inner edges.
    spec fn spec_overlap(&self) -> u32;

    /// The URL of the tile at grid cell `pos`.
    spec fn spec_tile_url(&self, pos: Vec2d) -> Seq<char>;

    fn size(&self) -> (r: Vec2d)
        requires
            self.wf(),
        ensures
            r == self.spec_size(),
    ;

    fn tile_size(&self) -> (r: Vec2d)
        requires
            self.wf(),
        ensures
            r == self.spec_tile_size(),
            r.x >= 1,
            r.y >= 1,
    ;

    fn overlap(&self) -> (r: u32)
        requires
            self.wf(),
        ensures
            r == self.spec_overlap(),
    ;

    fn tile_url(&self, pos: Vec2d) -> (r: String)
        requires
            self.wf(),
            in_grid(self.spec_size(), self.spec_tile_size(), pos),
        ensures
            r@ == self.spec_tile_url(pos),
    ;

    /// The tile at grid cell `pos`: its URL, and its position
    /// `tile_size * pos` minus the overlap offset on inner edges.
    fn tile_ref(&self, pos: Vec2d) -> (r: TileReference)
        requires
            self.wf(),
            in_grid(self.spec_size(), self.spec_tile_size(), pos),
        ensures
            r.url@ == self.spec_tile_url(pos),
            r.position.x as int == spec_tile_position_x(
                self.spec_tile_size(),
                self.spec_overlap(),
                pos,
            ),
            r.position.y as int == spec_tile_position_y(
                self.spec_tile_size(),
                self.spec_overlap(),
                pos,
            ),
    {
        let ts = self.tile_size();
        let ov = self.overlap();
        proof {
            lemma_tile_start_bound(self.spec_size().x, ts.x, pos.x);
            lemma_tile_start_bound(self.spec_size().y, ts.y, pos.y);
        }
        let delta = Vec2d {
            x: if pos.x == 0 {
                0
            } else {
                ov
            },
            y: if pos.y == 0 {
                0
            } else {
                ov
            },
        };
        TileReference { url: self.tile_url(pos), position: ts.times(pos).minus(delta) }
    }

    /// Every tile of the level, exactly once, in row-major order: the
    /// tile for `(col, row)` stands at index `row * cols + col`, and
    /// there are exactly `cols * rows` of them.
    fn next_tiles(&self) -> (r: Vec<TileReference>)
        requires
            self.wf(),
        ensures
            r@.len() == grid_cols(self.spec_size(), self.spec_tile_size()) * grid_rows(
                self.spec_size(),
                self.spec_tile_size(),
            ),
            forall|k: int|
                0 <= k < r@.len() ==> {
                    let cols = grid_cols(self.spec_size(), self.spec_tile_size());
                    let pos = Vec2d { x: (k % cols) as u32, y: (k / cols) as u32 };
                    #[trigger] r@[k].url@ == self.spec_tile_url(pos) && r@[k].position.x as int
                        == spec_tile_position_x(self.spec_tile_size(), self.spec_overlap(), pos)
                        && r@[k].position.y as int == spec_tile_position_y(
                        self.spec_tile_size(),
                        self.spec_overlap(),
                        pos,
                    )
                },
    {
        let size = self.size();
        let ts = self.tile_size();
        let grid = size.ceil_div(ts);
        let ghost cols = grid_cols(self.spec_size(), self.spec_tile_size());
        let ghost rows = grid_rows(self.spec_size(), self.spec_tile_size());
        proof {
            lemma_ceil_div(size.x as int, ts.x as int);
            lemma_ceil_div(size.y as int, ts.y as int);
        }
        let mut out: Vec<TileReference> = Vec::new();
        let mut row: u32 = 0;
        while row < grid.y
            invariant
                self.wf(),
                cols == grid_cols(self.spec_size(), self.spec_tile_size()),
                rows == grid_rows(self.spec_size(), self.spec_tile_size()),
                grid.x == cols,
                grid.y == rows,
                ts == self.spec_tile_size(),
                ts.x >= 1,
                ts.y >= 1,
                row <= grid.y,
                out@.len() == row as int * cols,
                forall|k: int|
                    0 <= k < out@.len() ==> {
                        let pos = Vec2d { x: (k % cols) as u32, y: (k / cols) as u32 };
                        #[trigger] out@[k].url@ == self.spec_tile_url(pos) && out@[k].position.x
                            as int == spec_tile_position_x(
                            self.spec_tile_size(),
                            self.spec_overlap(),
                            pos,
                        ) && out@[k].position.y as int == spec_tile_position_y(
                            self.spec_tile_size(),
                            self.spec_overlap(),
                            pos,
                        )
                    },
            decreases grid.y - row,
        {
            let mut col: u32 = 0;
            proof {
                assert(row as int * cols + 0 == out@.len());
            }
            while col < grid.x
                invariant
                    self.wf(),
                    cols == grid_cols(self.spec_size(), self.spec_tile_size()),
                    rows == grid_rows(self.spec_size(), self.spec_tile_size()),
                    grid.x == cols,
                    grid.y == rows,
                    ts == self.spec_tile_size(),
                    ts.x >= 1,
                    ts.y >= 1,
                    row < grid.y,
                    col <= grid.x,
                    out@.len() == row as int * cols + col as int,
                    forall|k: int|
                        0 <= k < out@.len() ==> {
                            let pos = Vec2d { x: (k % cols) as u32, y: (k / cols) as u32 };
                            #[trigger] out@[k].url@ == self.spec_tile_url(pos)
                                && out@[k].position.x as int == spec_tile_position_x(
                                self.spec_tile_size(),
                                self.spec_overlap(),
                                pos,
                            ) && out@[k].position.y as int == spec_tile_position_y(
                                self.spec_tile_size(),
                                self.spec_overlap(),
                                pos,
                            )
                        },
                decreases grid.x - col,
            {
                let pos = Vec2d { x: col, y: row };
                let tile = self.tile_ref(pos);
                proof {
                    let k = out@.len() as int;
                    vstd::arithmetic::div_mod::lemma_fundamental_div_mod_converse(
                        k,
                        cols,
                        row as int,
                        col as int,
                    );
                    assert(k % cols == col as int && k / cols == row as int);
                }
                out.push(tile);
                col = col + 1;
            }
            proof {
                assert(row as int * cols + cols == (row + 1) as int * cols) by (nonlinear_arith);
            }
            row = row + 1;
        }
        proof {
            assert(out@.len() == rows * cols);
            assert(rows * cols == cols * rows) by (nonlinear_arith);
        }
        out
    }
}

use crate::dzi::{dzi_level_ok, spec_dzi_plan, DziError, DziLevel, DziPlan};
use crate::iiif::{
    iiif_candidates,
    iiif_level_ok,
    iiif_multi_ok,
    iiif_primary,
    spec_level_params,
    spec_strip_infojson,
    spec_total_levels,
    IIIFError,
    IIIFZoomLevel,
};
use crate::krpano::{spec_krpano_root, KrpanoError, Level, LevelV};
use crate::tile_info::spec_tiles;

/// The error a frontend rejected a descriptor with.
#[derive(Debug, Clone, Copy, PartialEq, Eq, Structural)]
pub enum DezoomerSource {
    Dzi(DziError),
    Iiif(IIIFError),
    Krpano(KrpanoError),
}

/// A frontend's answer when it cannot produce levels.
#[derive(Debug, Clone, Copy, PartialEq, Eq, Structural)]
pub enum DezoomerError {
    /// The frontend's own parse error.
    Other { source: DezoomerSource },
}

impl From<DziError> for DezoomerError {
    fn from(e: DziError) -> (r: Self) {
        DezoomerError::Other { source: DezoomerSource::Dzi(e) }
    }
}

impl vstd::std_specs::convert::FromSpecImpl<DziError> for DezoomerError {
    open spec fn obeys_from_spec() -> bool {
        true
    }

    open spec fn from_spec(e: DziError) -> Self {
        DezoomerError::Other { source: DezoomerSource::Dzi(e) }
    }
}

impl From<IIIFError> for DezoomerError {
    fn from(e: IIIFError) -> (r: Self) {
        DezoomerError::Other { source: DezoomerSource::Iiif(e) }
    }
}

impl vstd::std_specs::convert::FromSpecImpl<IIIFError> for DezoomerError {
    open spec fn obeys_from_spec() -> bool {
        true
    }

    open spec fn from_spec(e: IIIFError) -> Self {
        DezoomerError::Other { source: DezoomerSource::Iiif(e) }
    }
}

impl From<KrpanoError> for DezoomerError {
    fn from(e: KrpanoError) -> (r: Self) {
        DezoomerError::Other { source: DezoomerSource::Krpano(e) }
    }
}

impl vstd::std_specs::convert::FromSpecImpl<KrpanoError> for DezoomerError {
    open spec fn obeys_from_spec() -> bool {
        true
    }

    open spec fn from_spec(e: KrpanoError) -> Self {
        DezoomerError::Other { source: DezoomerSource::Krpano(e) }
    }
}

/// What a frontend is handed: the descriptor URI and its raw bytes.
pub struct DezoomerInput {
    pub uri: String,
    pub contents: Vec<u8>,
}

/// A zoom level of any of the supported formats.
pub enum ZoomLevel {
    Dzi(DziLevel),
    Iiif(IIIFZoomLevel),
    Krpano(Level),
}

impl ZoomLevel {
    /// The level's internal consistency.
    pub open spec fn wf(&self) -> bool {
        match self {
            ZoomLevel::Dzi(l) => l.wf(),
            ZoomLevel::Iiif(l) => l.wf(),
            ZoomLevel::Krpano(l) => l.wf(),
        }
    }

    /// The level's pixel dimensions.
    pub open spec fn spec_size(&self) -> Vec2d {
        match self {
            ZoomLevel::Dzi(l) => l.spec_size(),
            ZoomLevel::Iiif(l) => l.spec_size(),
            ZoomLevel::Krpano(l) => l.spec_size(),
        }
    }

    /// The nominal tile dimensions.
    pub open spec fn spec_tile_size(&self) -> Vec2d {
        match self {
            ZoomLevel::Dzi(l) => l.spec_tile_size(),
            ZoomLevel::Iiif(l) => l.spec_tile_size(),
            ZoomLevel::Krpano(l) => l.spec_tile_size(),
        }
    }

    /// Pixels shared between neighbouring tiles on inner edges.
    pub open spec fn spec_overlap(&self) -> u32 {
        match self {
            ZoomLevel::Dzi(l) => l.spec_overlap(),
            ZoomLevel::Iiif(l) => l.spec_overlap(),
            ZoomLevel::Krpano(l) => l.spec_overlap(),
        }
    }

    /// The URL of the tile at grid cell `pos`.
    pub open spec fn spec_tile_url(&self, pos: Vec2d) -> Seq<char> {
        match self {
            ZoomLevel::Dzi(l) => l.spec_tile_url(pos),
            ZoomLevel::Iiif(l) => l.spec_tile_url(pos),
            ZoomLevel::Krpano(l) => l.spec_tile_url(pos),
        }
    }

    pub fn size(&self) -> (r: Vec2d)
        requires
            self.wf(),
        ensures
            r == self.spec_size(),
    {
        match self {
            ZoomLevel::Dzi(l) => l.size(),
            ZoomLevel::Iiif(l) => l.size(),
            ZoomLevel::Krpano(l) => l.size(),
        }
    }

    pub fn tile_size(&self) -> (r: Vec2d)
        requires
            self.wf(),
        ensures
            r == self.spec_tile_size(),
            r.x >= 1,
            r.y >= 1,
    {
        match self {
            ZoomLevel::Dzi(l) => l.tile_size(),
            ZoomLevel::Iiif(l) => l.tile_size(),
            ZoomLevel::Krpano(l) => l.tile_size(),
        }
    }

    /// The tile at grid cell `pos`.
    pub fn tile_ref(&self, pos: Vec2d) -> (r: TileReference)
        requires
            self.wf(),
            in_grid(self.spec_size(), self.spec_tile_size(), pos),
        ensures
            r.url@ == self.spec_tile_url(pos),
            r.position.x as int == spec_tile_position_x(
                self.spec_tile_size(),
                self.spec_overlap(),
                pos,
            ),
            r.position.y as int == spec_tile_position_y(
                self.spec_tile_size(),
                self.spec_overlap(),
                pos,
            ),
    {
        match self {
            ZoomLevel::Dzi(l) => l.tile_ref(pos),
            ZoomLevel::Iiif(l) => l.tile_ref(pos),
            ZoomLevel::Krpano(l) => l.tile_ref(pos),
        }
    }

    /// Every tile of the level, in row-major order.
    pub fn next_tiles(&self) -> (r: Vec<TileReference>)
        requires
            self.wf(),
        ensures
            r@.len() == grid_cols(self.spec_size(), self.spec_tile_size()) * grid_rows(
                self.spec_size(),
                self.spec_tile_size(),
            ),
            forall|k: int|
                0 <= k < r@.len() ==> {
                    let cols = grid_cols(self.spec_size(), self.spec_tile_size());
                    let pos = Vec2d { x: (k % cols) as u32, y: (k / cols) as u32 };
                    #[trigger] r@[k].url@ == self.spec_tile_url(pos) && r@[k].position.x as int
                        == spec_tile_position_x(self.spec_tile_size(), self.spec_overlap(), pos)
                        && r@[k].position.y as int == spec_tile_position_y(
                        self.spec_tile_size(),
                        self.spec_overlap(),
                        pos,
                    )
                },
    {
        match self {
            ZoomLevel::Dzi(l) => l.next_tiles(),
            ZoomLevel::Iiif(l) => l.next_tiles(),
            ZoomLevel::Krpano(l) => l.next_tiles(),
        }
    }

    /// The level's descriptive name.
    pub fn plain_name(&self) -> (r: String)
        ensures
            r@ == match self {
                ZoomLevel::Dzi(_) => "Deep Zoom Image"@,
                ZoomLevel::Iiif(l) => crate::iiif::spec_iiif_name(l.base_url@),
                ZoomLevel::Krpano(l) => crate::krpano::spec_krpano_name(
                    l.shape_name@,
                    l.side_name@,
                ),
            },
    {
        match self {
            ZoomLevel::Dzi(l) => l.plain_name(),
            ZoomLevel::Iiif(l) => l.plain_name(),
            ZoomLevel::Krpano(l) => l.plain_name(),
        }
    }
}

/// The unwrapped IIIF levels of a mixed list (meaningful where every
/// entry is an IIIF level).
pub open spec fn unwrap_iiif(levels: Seq<ZoomLevel>) -> Seq<IIIFZoomLevel> {
    Seq::new(
        levels.len(),
        |k: int|
            match levels[k] {
                ZoomLevel::Iiif(l) => l,
                _ => vstd::pervasive::arbitrary(),
            },
    )
}

/// A format frontend: given a descriptor and the URI it came from, it
/// produces the zoom levels, or a typed error.
pub trait Dezoomer {
    /// The frontend's name.
    spec fn spec_name(&self) -> Seq<char>;

    /// The error the input is rejected with, or `None` when levels are
    /// owed.
    spec fn spec_error(&self, uri: Seq<char>, contents: Seq<u8>) -> Option<DezoomerError>;

    /// Whether `levels` is exactly what the input describes.
    spec fn levels_ok(&self, uri: Seq<char>, contents: Seq<u8>, levels: Seq<ZoomLevel>) -> bool;

    fn name(&self) -> (r: &'static str)
        ensures
            r@ == self.spec_name(),
    ;

    fn zoom_levels(&self, data: &DezoomerInput) -> (r: Result<Vec<ZoomLevel>, DezoomerError>)
        ensures
            (r is Ok) == (self.spec_error(data.uri@, data.contents@) is None),
            r matches Ok(levels) ==> self.levels_ok(data.uri@, data.contents@, levels@),
            r matches Err(e) ==> self.spec_error(data.uri@, data.contents@) == Some(e),
    ;
}

/// The Deep Zoom Image frontend.
#[derive(Default)]
pub struct DziDezoomer;

impl Dezoomer for DziDezoomer {
    open spec fn spec_name(&self) -> Seq<char> {
        "deepzoom"@
    }

    open spec fn spec_error(&self, uri: Seq<char>, contents: Seq<u8>) -> Option<DezoomerError> {
        match spec_dzi_plan(uri, contents) {
            Ok(_) => None,
            Err(e) => Some(DezoomerError::Other { source: DezoomerSource::Dzi(e) }),
        }
    }

    open spec fn levels_ok(&self, uri: Seq<char>, contents: Seq<u8>, levels: Seq<ZoomLevel>) -> bool {
        match spec_dzi_plan(uri, contents) {
            Err(_) => false,
            Ok(plan) => levels.len() == plan.max_level + 1 && forall|k: int|
                0 <= k < levels.len() ==> ((#[trigger] levels[k]) matches ZoomLevel::Dzi(dl)
                    && dzi_level_ok(plan, k, dl)),
        }
    }

    fn name(&self) -> (r: &'static str) {
        "deepzoom"
    }

    fn zoom_levels(&self, data: &DezoomerInput) -> (r: Result<Vec<ZoomLevel>, DezoomerError>) {
        match crate::dzi::load_from_properties(data.uri.as_str(), data.contents.as_slice()) {
            Err(e) => Err(DezoomerError::from(e)),
            Ok(levels) => {
                let ghost orig = levels@;
                let mut inner = levels;
                let mut out: Vec<ZoomLevel> = Vec::new();
                while inner.len() > 0
                    invariant
                        out@.len() + inner@.len() == orig.len(),
                        inner@ == orig.subrange(out@.len() as int, orig.len() as int),
                        forall|k: int|
                            0 <= k < out@.len() ==> (#[trigger] out@[k]) == ZoomLevel::Dzi(
                                orig[k],
                            ),
                    decreases inner@.len(),
                {
                    let l = inner.remove(0);
                    proof {
                        assert(l == orig[out@.len() as int]);
                        assert(inner@ =~= orig.subrange(out@.len() as int + 1, orig.len() as int));
                    }
                    out.push(ZoomLevel::Dzi(l));
                }
                Ok(out)
            },
        }
    }
}

/// The IIIF Image API frontend.
#[derive(Default)]
pub struct IIIF;

impl Dezoomer for IIIF {
    open spec fn spec_name(&self) -> Seq<char> {
        "iiif"@
    }

    open spec fn spec_error(&self, uri: Seq<char>, contents: Seq<u8>) -> Option<DezoomerError> {
        if iiif_primary(contents) is Some || spec_total_levels(iiif_candidates(contents)) > 0 {
            None
        } else {
            Some(
                DezoomerError::Other { source: DezoomerSource::Iiif(IIIFError::JsonError) },
            )
        }
    }

    open spec fn levels_ok(&self, uri: Seq<char>, contents: Seq<u8>, levels: Seq<ZoomLevel>) -> bool {
        let base = spec_strip_infojson(uri, 0, Seq::empty());
        &&& forall|k: int| 0 <= k < levels.len() ==> (#[trigger] levels[k]) is Iiif
        &&& match iiif_primary(contents) {
            Some(info) => {
                &&& levels.len() == spec_level_params(spec_tiles(info)).len()
                &&& forall|k: int|
                    0 <= k < levels.len() ==> iiif_level_ok(
                        info,
                        base,
                        spec_level_params(spec_tiles(info))[k],
                        unwrap_iiif(levels)[k],
                    )
            },
            None => iiif_multi_ok(iiif_candidates(contents), base, unwrap_iiif(levels)),
        }
    }

    fn name(&self) -> (r: &'static str) {
        "iiif"
    }

    fn zoom_levels(&self, data: &DezoomerInput) -> (r: Result<Vec<ZoomLevel>, DezoomerError>) {
        match crate::iiif::zoom_levels(data.uri.as_str(), data.contents.as_slice()) {
            Err(e) => Err(DezoomerError::from(e)),
            Ok(levels) => {
                let ghost orig = levels@;
                let mut inner = levels;
                let mut out: Vec<ZoomLevel> = Vec::new();
                while inner.len() > 0
                    invariant
                        out@.len() + inner@.len() == orig.len(),
                        inner@ == orig.subrange(out@.len() as int, orig.len() as int),
                        forall|k: int|
                            0 <= k < out@.len() ==> (#[trigger] out@[k]) == ZoomLevel::Iiif(
                                orig[k],
                            ),
                    decreases inner@.len(),
                {
                    let l = inner.remove(0);
                    proof {
                        assert(l == orig[out@.len() as int]);
                        assert(inner@ =~= orig.subrange(out@.len() as int + 1, orig.len() as int));
                    }
                    out.push(ZoomLevel::Iiif(l));
                }
                proof {
                    assert(unwrap_iiif(out@) =~= orig);
                }
                Ok(out)
            },
        }
    }
}

/// The krpano panorama frontend.
#[derive(Default)]
pub struct KrpanoDezoomer;

impl Dezoomer for KrpanoDezoomer {
    open spec fn spec_name(&self) -> Seq<char> {
        "krpano"@
    }

    open spec fn spec_error(&self, uri: Seq<char>, contents: Seq<u8>) -> Option<DezoomerError> {
        let stripped = crate::network::spec_remove_bom(contents);
        if vstd::utf8::valid_utf8(stripped) && crate::xml::spec_parse_xml(
            vstd::utf8::decode_utf8(stripped),
        ) is Some {
            None
        } else {
            Some(
                DezoomerError::Other { source: DezoomerSource::Krpano(KrpanoError::XmlError) },
            )
        }
    }

    open spec fn levels_ok(&self, uri: Seq<char>, contents: Seq<u8>, levels: Seq<ZoomLevel>) -> bool {
        let stripped = crate::network::spec_remove_bom(contents);
        match crate::xml::spec_parse_xml(vstd::utf8::decode_utf8(stripped)) {
            None => false,
            Some(root) => {
                let want = spec_krpano_root(uri, root);
                &&& levels.len() == want.len()
                &&& forall|k: int|
                    0 <= k < levels.len() ==> ((#[trigger] levels[k]) matches ZoomLevel::Krpano(
                        l,
                    ) && l@ == want[k])
            },
        }
    }

    fn name(&self) -> (r: &'static str) {
        "krpano"
    }

    fn zoom_levels(&self, data: &DezoomerInput) -> (r: Result<Vec<ZoomLevel>, DezoomerError>) {
        match crate::krpano::load_from_properties(data.uri.as_str(), data.contents.as_slice()) {
            Err(e) => Err(DezoomerError::from(e)),
            Ok(levels) => {
                let ghost orig = levels@;
                let mut inner = levels;
                let mut out: Vec<ZoomLevel> = Vec::new();
                while inner.len() > 0
                    invariant
                        out@.len() + inner@.len() == orig.len(),
                        inner@ == orig.subrange(out@.len() as int, orig.len() as int),
                        forall|k: int|
                            0 <= k < out@.len() ==> (#[trigger] out@[k]) == ZoomLevel::Krpano(
                                orig[k],
                            ),
                    decreases inner@.len(),
                {
                    let l = inner.remove(0);
                    proof {
                        assert(l == orig[out@.len() as int]);
                        assert(inner@ =~= orig.subrange(out@.len() as int + 1, orig.len() as int));
                    }
                    out.push(ZoomLevel::Krpano(l));
                }
                Ok(out)
            },
        }
    }
}

} // verus!
