//! Core of a tile-source dezoomer: parses deep-zoom image descriptors
//! (DZI, IIIF `info.json`, krpano panorama XML) and, for every resolution
//! level a server exposes, enumerates the URL and pixel position of every
//! tile needed to reconstruct that level.

pub mod dezoomer;
pub mod dzi;
pub mod iiif;
pub mod json;
pub mod krpano;
pub mod network;
pub mod xml;
pub mod text;
pub mod tile_info;
pub mod vec2d;

use vstd::prelude::*;

verus! {

} // verus!
