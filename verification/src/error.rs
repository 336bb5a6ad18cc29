//! The ways in which building or laying out a mesh can fail.

use vstd::prelude::*;

verus! {

/// Why a mesh could not be produced.
///
/// A failure to build the mesh of a single glyph does not end the layout of
/// the text around it: the glyph is left out and leaves a gap of its advance
/// (see `mesh_or_gap`). A failure to load a face, to shape a span or to lay
/// out a span ends the work on it.
#[derive(Clone, Copy, Debug, PartialEq, Eq, Structural)]
pub enum TextError {
    /// The face's metrics are not those of a usable font.
    InvalidFontData,
    /// A span came without its shaped glyph run.
    ShapingFailure,
    /// An outline draws a segment before it has moved to a starting point.
    MalformedOutline,
    /// A shape of the glyph's outline could not be filled with triangles:
    /// it has no outer ring, one of its rings encloses no area, or no valid
    /// triangulation was found for it.
    DegenerateGeometry { glyph_id: u16 },
    /// The mesh needs more vertices than sixteen-bit indices can address.
    TooManyVertices,
    /// A position does not fit the coordinate range of a vertex.
    OutOfRange,
}

} // verus!
