//! Glyph outlines to triangle meshes, and triangle meshes to laid-out text.
//!
//! The way from a font to a picture has four steps, each in a module of its
//! own:
//!
//! - `mesh::GlyphMeshBuilder` collects the outline of a glyph as it is drawn
//!   (`move_to`, `line_to`, `quad_to`, `curve_to`), groups its rings into
//!   shapes with holes, and, once each shape has been filled with triangles,
//!   builds the `mesh::GlyphMesh`: a flat fill plus one triangle per curve
//!   segment, which the rasterizer turns into a smooth edge.
//! - `mesh::TextMeshBuilder` lays out the glyphs of a shaped run one after
//!   the other into a `mesh::TextMesh`.
//! - `text::Span` measures a run, aligns it in its box and lays it out from
//!   there.
//! - `renderer::TextureRenderer` combines the meshes of several spans into
//!   one `renderer::RenderBatch` with a palette of their colors.
//!
//! Everything is computed in whole numbers. Outlines and glyph meshes are in
//! font design units; laid-out meshes are in sixty-fourths of a pixel; the
//! origins and boxes of spans are in pixels. Parsing fonts for their
//! outlines, shaping text, filling shapes with triangles and rasterizing a
//! batch are left to the caller; what the library takes from them it takes
//! as plain values and checks.
//!
//! What each function computes is stated over the mathematical models in
//! `outline`, `fill`, `layout`, `placement` and `batch`, and proved.

use vstd::prelude::*;

pub mod batch;
pub mod error;
pub mod face;
pub mod fill;
pub mod geometry;
pub mod layout;
pub mod mesh;
pub mod outline;
pub mod placement;
pub mod renderer;
pub mod text;

verus! {

/// One shaped glyph: which glyph to draw and how far the pen moves after it.
/// Advances and offsets are in font design units.
#[derive(Clone, Copy, Debug, PartialEq, Eq, Structural)]
pub struct GlyphData {
    pub glyph_id: u32,
    pub x_advance: i32,
    pub y_advance: i32,
    pub x_offset: i32,
    pub y_offset: i32,
}

} // verus!
