//! The mathematical model of a glyph mesh: which vertices and indices the
//! shapes and curve triangles of an outline come to, once each shape has been
//! filled with triangles.

use vstd::prelude::*;
use crate::error::TextError;
use crate::geometry::Point;
use crate::outline::{
    lemma_grouping_keeps_points, point_count, ring_point_count, CurveTriangle, Outline, Shape,
};
use crate::renderer::{GlyphVertex, TexCoord, CONCAVE_BIT, CURVE_BIT, FLAT_FILL};

verus! {

/// The largest number of vertices that sixteen-bit indices can address.
pub const MAX_VERTICES: usize = 65536;

/// The vertices and indices of a mesh.
#[verifier::ext_equal]
pub struct MeshView {
    pub vertices: Seq<GlyphVertex>,
    pub indices: Seq<u16>,
}

impl MeshView {
    /// Every index names a vertex of the mesh.
    pub open spec fn indices_in_range(self) -> bool {
        forall|k: int|
            0 <= k < self.indices.len() ==> (#[trigger] self.indices[k]) < self.vertices.len()
    }
}

/// The vertex of the flat fill at the outline point `p`.
pub open spec fn flat_vertex(p: Point) -> GlyphVertex {
    GlyphVertex { position: p, uv: TexCoord { u: 0, v: 0 }, metadata: FLAT_FILL, color_index: 0 }
}

/// The vertex at corner `corner` (0, 1 or 2) of a curve triangle. The three
/// corners carry the texture coordinates (0, 0), (1/2, 0) and (1, 1).
pub open spec fn curve_vertex(triangle: CurveTriangle, corner: int) -> GlyphVertex {
    GlyphVertex {
        position: if corner == 0 {
            triangle.start
        } else if corner == 1 {
            triangle.control
        } else {
            triangle.end
        },
        uv: if corner == 0 {
            TexCoord { u: 0, v: 0 }
        } else if corner == 1 {
            TexCoord { u: 1, v: 0 }
        } else {
            TexCoord { u: 2, v: 2 }
        },
        metadata: if triangle.is_concave {
            (CURVE_BIT + CONCAVE_BIT) as i32
        } else {
            CURVE_BIT
        },
        color_index: 0,
    }
}

/// The flat-fill vertices of the first `n` shapes: one per point, shape after
/// shape.
pub open spec fn flat_vertices(shapes: Seq<Shape>, n: nat) -> Seq<GlyphVertex>
    decreases n,
{
    if n == 0 {
        Seq::empty()
    } else {
        flat_vertices(shapes, (n - 1) as nat) + shapes[n - 1].points.map_values(
            |p: Point| flat_vertex(p),
        )
    }
}

/// The vertices of the curve triangles: three per triangle, in order.
pub open spec fn curve_vertices(curves: Seq<CurveTriangle>) -> Seq<GlyphVertex> {
    Seq::new(3 * curves.len(), |k: int| curve_vertex(curves[k / 3], k % 3))
}

/// Whether `fill` is a triangle list over the points of `shape`: present, a
/// multiple of three long, and every entry the index of a point.
pub open spec fn fill_ok(shape: Shape, fill: Option<Vec<usize>>) -> bool {
    &&& fill is Some
    &&& fill->Some_0@.len() % 3 == 0
    &&& forall|k: int|
        0 <= k < fill->Some_0@.len() ==> (#[trigger] fill->Some_0@[k]) < shape.points.len()
}

/// Whether `fills` holds one valid triangle list for each of `shapes`.
pub open spec fn fills_ok(shapes: Seq<Shape>, fills: Seq<Option<Vec<usize>>>) -> bool {
    &&& fills.len() == shapes.len()
    &&& forall|g: int| 0 <= g < shapes.len() ==> fill_ok(shapes[g], #[trigger] fills[g])
}

/// The indices of the flat fill of the first `n` shapes: each shape's
/// triangle list, shifted by the number of points of the shapes before it.
pub open spec fn fill_indices(shapes: Seq<Shape>, fills: Seq<Option<Vec<usize>>>, n: nat) -> Seq<
    u16,
>
    decreases n,
{
    if n == 0 {
        Seq::empty()
    } else {
        fill_indices(shapes, fills, (n - 1) as nat) + fills[n - 1]->Some_0@.map_values(
            |t: usize| (point_count(shapes, (n - 1) as nat) + t) as u16,
        )
    }
}

/// The indices of `count` curve triangles whose vertices start at `base`.
pub open spec fn curve_indices(base: nat, count: nat) -> Seq<u16> {
    Seq::new(3 * count, |k: int| (base + k) as u16)
}

/// The number of vertices in the mesh of an outline: one per point of its
/// shapes and three per curve triangle.
pub open spec fn vertex_total(outline: Outline) -> nat {
    point_count(outline.shapes(), outline.shapes().len()) + 3 * outline.curves.len()
}

/// The mesh of an outline whose shapes are filled as `fills` says: the flat
/// fill of every shape, then one triangle per curve segment.
pub open spec fn triangulation(outline: Outline, fills: Seq<Option<Vec<usize>>>) -> MeshView {
    let shapes = outline.shapes();
    MeshView {
        vertices: flat_vertices(shapes, shapes.len()) + curve_vertices(outline.curves),
        indices: fill_indices(shapes, fills, shapes.len()) + curve_indices(
            point_count(shapes, shapes.len()),
            outline.curves.len(),
        ),
    }
}

/// What triangulating the outline of glyph `glyph_id` with the given fills
/// comes to: `DegenerateGeometry` where the outline cannot be filled or a
/// fill is missing or invalid, `TooManyVertices` where the mesh would have
/// more than `MAX_VERTICES` vertices, and the mesh otherwise.
pub open spec fn triangulate_outcome(
    outline: Outline,
    glyph_id: u16,
    fills: Seq<Option<Vec<usize>>>,
) -> Result<MeshView, TextError> {
    if !outline.fillable() || !fills_ok(outline.shapes(), fills) {
        Err(TextError::DegenerateGeometry { glyph_id })
    } else if vertex_total(outline) > MAX_VERTICES {
        Err(TextError::TooManyVertices)
    } else {
        Ok(triangulation(outline, fills))
    }
}

/// The running number of points never shrinks as more shapes are counted.
pub proof fn lemma_point_count_monotone(shapes: Seq<Shape>, a: nat, b: nat)
    requires
        a <= b,
    ensures
        point_count(shapes, a) <= point_count(shapes, b),
    decreases b,
{
    if a < b {
        lemma_point_count_monotone(shapes, a, (b - 1) as nat);
    }
}

/// The number of indices in the triangle lists of the first `n` shapes.
pub open spec fn fill_len(fills: Seq<Option<Vec<usize>>>, n: nat) -> nat
    decreases n,
{
    if n == 0 {
        0
    } else {
        fill_len(fills, (n - 1) as nat) + fills[n - 1]->Some_0@.len()
    }
}

/// The flat fill has one vertex for each point and one index for each entry
/// of the triangle lists.
pub proof fn lemma_flat_fill_size(shapes: Seq<Shape>, fills: Seq<Option<Vec<usize>>>, n: nat)
    ensures
        flat_vertices(shapes, n).len() == point_count(shapes, n),
        fill_indices(shapes, fills, n).len() == fill_len(fills, n),
    decreases n,
{
    if n > 0 {
        lemma_flat_fill_size(shapes, fills, (n - 1) as nat);
    }
}

/// The mesh of an outline has one vertex for each point of each ring and
/// three for each curve segment, and one index for each entry of the triangle
/// lists and three for each curve segment. So every curve segment adds
/// exactly three vertices and three indices to the flat fill.
pub proof fn lemma_mesh_size(outline: Outline, fills: Seq<Option<Vec<usize>>>)
    requires
        outline.fillable(),
    ensures
        triangulation(outline, fills).vertices.len() == ring_point_count(
            outline.rings,
            outline.rings.len(),
        ) + 3 * outline.curves.len(),
        triangulation(outline, fills).indices.len() == fill_len(fills, outline.shapes().len()) + 3
            * outline.curves.len(),
        vertex_total(outline) == triangulation(outline, fills).vertices.len(),
{
    let shapes = outline.shapes();
    lemma_flat_fill_size(shapes, fills, shapes.len());
    lemma_grouping_keeps_points(outline.rings, outline.reverse_wind, outline.rings.len());
}

} // verus!
