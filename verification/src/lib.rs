//! Decoding and tessellation core for compact tile-geometry command streams.
//!
//! The crate turns flat arrays of unsigned words (delta- and zigzag-encoded
//! command streams) into renderable triangle meshes: filled polygons with
//! holes and optional wall extrusion, and thick-ribbon meshes for line
//! strings.  All geometry is kept in the tile's own integer coordinate
//! space; scaling to normalized floating-point coordinates is left to the
//! render layer, as is the floating-point ear-clipping triangulation, whose
//! result is handed back in and checked here.
//!
//! - [`codec`]: command words, zigzag deltas, the stream cursor.
//! - [`polygons`]: ring assembly, signed-area classification, wall
//!   extrusion, cap assembly around the external triangulation pass.
//! - [`line_strings`]: open polylines and their thick-ribbon meshes.
//! - [`normals`]: area-weighted per-vertex normal accumulation.
//! - [`mesh`]: the append-only mesh accumulator and its index-offset law.
//! - [`tile_address`]: slippy-map tile coordinates and neighborhoods.
//! - [`tags`]: feature tag filters over a layer's key/value tables.
//! - [`util`]: integer square roots and byte-size helpers.

pub mod codec;
pub mod line_strings;
pub mod mesh;
pub mod normals;
pub mod polygons;
pub mod tags;
pub mod tile_address;
pub mod util;

pub use codec::GeometryCommand;
