//! The mathematical model of laying out a run of glyphs: where the pen
//! stands before each glyph, where each vertex lands on the page, and what
//! the mesh of the whole run is.

use vstd::prelude::*;
use crate::error::TextError;
use crate::fill::{MeshView, MAX_VERTICES};
use crate::geometry::Point;
use crate::mesh::{GlyphMesh, GlyphMeshView};
use crate::placement::{fits_i32, placed, Placement};
use crate::renderer::GlyphVertex;
use crate::GlyphData;

verus! {

/// The shaping data of a run, without the meshes.
pub open spec fn run_data(run: Seq<(Option<GlyphMesh>, GlyphData)>) -> Seq<GlyphData> {
    Seq::new(run.len(), |i: int| run[i].1)
}

/// The horizontal pen position after the first `n` glyphs: the sum of their
/// horizontal advances.
pub open spec fn pen_x(data: Seq<GlyphData>, n: nat) -> int
    decreases n,
{
    if n == 0 {
        0
    } else {
        pen_x(data, (n - 1) as nat) + data[n - 1].x_advance
    }
}

/// The vertical pen position after the first `n` glyphs: the sum of their
/// vertical advances.
pub open spec fn pen_y(data: Seq<GlyphData>, n: nat) -> int
    decreases n,
{
    if n == 0 {
        0
    } else {
        pen_y(data, (n - 1) as nat) + data[n - 1].y_advance
    }
}

/// The vertex `v` of a glyph mesh, put on the page with the pen at
/// `(pen_x, pen_y)` and stamped with `color_index`; `None` where its position
/// does not fit a coordinate.
pub open spec fn place_vertex(
    v: GlyphVertex,
    pen_x: int,
    pen_y: int,
    p: Placement,
    color_index: u32,
) -> Option<GlyphVertex> {
    let x = placed(v.position.x as int, pen_x, p.origin.x as int, p.size, p.units_per_em);
    let y = placed(v.position.y as int, pen_y, p.origin.y as int, p.size, p.units_per_em);
    if fits_i32(x) && fits_i32(y) {
        Some(
            GlyphVertex {
                position: Point { x: x as i32, y: y as i32 },
                uv: v.uv,
                metadata: v.metadata,
                color_index,
            },
        )
    } else {
        None
    }
}

/// All of `vertices` put on the page; `None` where one of them does not fit.
pub open spec fn place_vertices(
    vertices: Seq<GlyphVertex>,
    pen_x: int,
    pen_y: int,
    p: Placement,
    color_index: u32,
) -> Option<Seq<GlyphVertex>> {
    if forall|i: int|
        0 <= i < vertices.len() ==> (#[trigger] place_vertex(
            vertices[i],
            pen_x,
            pen_y,
            p,
            color_index,
        )) is Some {
        Some(
            Seq::new(
                vertices.len(),
                |i: int| place_vertex(vertices[i], pen_x, pen_y, p, color_index)->Some_0,
            ),
        )
    } else {
        None
    }
}

/// The mesh `so_far` with the mesh of one more glyph appended: the glyph's
/// vertices put on the page, and its indices shifted by the number of
/// vertices that were there before.
pub open spec fn append_glyph(
    so_far: MeshView,
    glyph: GlyphMeshView,
    pen_x: int,
    pen_y: int,
    p: Placement,
    color_index: u32,
) -> Result<MeshView, TextError> {
    if so_far.vertices.len() + glyph.vertices.len() > MAX_VERTICES {
        Err(TextError::TooManyVertices)
    } else {
        match place_vertices(glyph.vertices, pen_x, pen_y, p, color_index) {
            None => Err(TextError::OutOfRange),
            Some(vertices) => Ok(
                MeshView {
                    vertices: so_far.vertices + vertices,
                    indices: so_far.indices + glyph.indices.map_values(
                        |i: u16| (i + so_far.vertices.len()) as u16,
                    ),
                },
            ),
        }
    }
}

/// The mesh of the first `n` glyphs of a run. Each glyph that has a mesh is
/// appended with the pen where the advances of the glyphs before it have
/// moved it; a glyph without a mesh only moves the pen. The first glyph that
/// cannot be appended decides the error.
pub open spec fn layout(
    run: Seq<(Option<GlyphMesh>, GlyphData)>,
    n: nat,
    p: Placement,
    color_index: u32,
) -> Result<MeshView, TextError>
    decreases n,
{
    if n == 0 {
        Ok(MeshView { vertices: Seq::empty(), indices: Seq::empty() })
    } else {
        match layout(run, (n - 1) as nat, p, color_index) {
            Err(e) => Err(e),
            Ok(so_far) => match run[n - 1].0 {
                None => Ok(so_far),
                Some(mesh) => append_glyph(
                    so_far,
                    mesh@,
                    pen_x(run_data(run), (n - 1) as nat),
                    pen_y(run_data(run), (n - 1) as nat),
                    p,
                    color_index,
                ),
            },
        }
    }
}

/// The pen position depends on the advances alone: two runs with the same
/// shaping data move the pen alike, whichever of their glyphs have meshes.
pub proof fn lemma_pen_ignores_meshes(
    first: Seq<(Option<GlyphMesh>, GlyphData)>,
    second: Seq<(Option<GlyphMesh>, GlyphData)>,
    n: nat,
)
    requires
        n <= first.len(),
        n <= second.len(),
        forall|i: int| 0 <= i < n ==> first[i].1 == second[i].1,
    ensures
        pen_x(run_data(first), n) == pen_x(run_data(second), n),
        pen_y(run_data(first), n) == pen_y(run_data(second), n),
    decreases n,
{
    if n > 0 {
        lemma_pen_ignores_meshes(first, second, (n - 1) as nat);
    }
}

/// Laying out never reorders: the mesh of a longer prefix of a run starts
/// with the mesh of a shorter one.
pub proof fn lemma_layout_grows(
    run: Seq<(Option<GlyphMesh>, GlyphData)>,
    n: nat,
    m: nat,
    p: Placement,
    color_index: u32,
)
    requires
        n <= m,
        layout(run, m, p, color_index) is Ok,
    ensures
        layout(run, n, p, color_index) is Ok,
        layout(run, n, p, color_index)->Ok_0.vertices.is_prefix_of(
            layout(run, m, p, color_index)->Ok_0.vertices,
        ),
        layout(run, n, p, color_index)->Ok_0.indices.is_prefix_of(
            layout(run, m, p, color_index)->Ok_0.indices,
        ),
    decreases m,
{
    if n < m {
        lemma_layout_grows(run, n, (m - 1) as nat, p, color_index);
    }
}

/// Every vertex of a laid-out run carries the color index it was laid out
/// with, and the run has no more than `MAX_VERTICES` vertices.
pub proof fn lemma_layout_stamps_color(
    run: Seq<(Option<GlyphMesh>, GlyphData)>,
    n: nat,
    p: Placement,
    color_index: u32,
)
    requires
        layout(run, n, p, color_index) is Ok,
    ensures
        layout(run, n, p, color_index)->Ok_0.vertices.len() <= MAX_VERTICES,
        forall|k: int|
            0 <= k < layout(run, n, p, color_index)->Ok_0.vertices.len() ==> (
            #[trigger] layout(run, n, p, color_index)->Ok_0.vertices[k]).color_index
                == color_index,
    decreases n,
{
    if n > 0 {
        lemma_layout_stamps_color(run, (n - 1) as nat, p, color_index);
    }
}

/// Once a glyph cannot be appended, the error stays whatever follows.
pub proof fn lemma_layout_error_sticks(
    run: Seq<(Option<GlyphMesh>, GlyphData)>,
    n: nat,
    m: nat,
    p: Placement,
    color_index: u32,
)
    requires
        n <= m,
        layout(run, n, p, color_index) is Err,
    ensures
        layout(run, m, p, color_index) == layout(run, n, p, color_index),
    decreases m,
{
    if n < m {
        lemma_layout_error_sticks(run, n, (m - 1) as nat, p, color_index);
    }
}

/// Where the vertices of glyph `i` start in the mesh of a run: the number of
/// vertices of the glyphs before it.
pub open spec fn glyph_start(
    run: Seq<(Option<GlyphMesh>, GlyphData)>,
    i: nat,
    p: Placement,
    color_index: u32,
) -> nat {
    layout(run, i, p, color_index)->Ok_0.vertices.len()
}

/// Whether index `k` of the mesh of a run belongs to glyph `i`.
pub open spec fn index_of_glyph(
    run: Seq<(Option<GlyphMesh>, GlyphData)>,
    p: Placement,
    color_index: u32,
    i: int,
    k: int,
) -> bool {
    &&& 0 <= i < run.len()
    &&& layout(run, i as nat, p, color_index)->Ok_0.indices.len() <= k < layout(
        run,
        (i + 1) as nat,
        p,
        color_index,
    )->Ok_0.indices.len()
}

/// In the mesh of a run, every glyph keeps to its own vertices: the indices
/// that a glyph brings name vertices of that glyph and of no other.
pub proof fn lemma_glyphs_keep_to_their_vertices(
    run: Seq<(Option<GlyphMesh>, GlyphData)>,
    p: Placement,
    color_index: u32,
)
    requires
        layout(run, run.len(), p, color_index) is Ok,
        forall|i: int|
            0 <= i < run.len() && (#[trigger] run[i]).0 is Some ==> run[i].0->Some_0@.wf(),
    ensures
        forall|i: int, k: int| #[trigger]
            index_of_glyph(run, p, color_index, i, k) ==> {
                let mesh = layout(run, run.len(), p, color_index)->Ok_0;
                &&& k < mesh.indices.len()
                &&& glyph_start(run, i as nat, p, color_index) <= mesh.indices[k] < glyph_start(
                    run,
                    (i + 1) as nat,
                    p,
                    color_index,
                )
            },
{
    let whole = layout(run, run.len(), p, color_index)->Ok_0;
    assert forall|i: int, k: int| #[trigger]
        index_of_glyph(run, p, color_index, i, k) implies {
        &&& k < whole.indices.len()
        &&& glyph_start(run, i as nat, p, color_index) <= whole.indices[k] < glyph_start(
            run,
            (i + 1) as nat,
            p,
            color_index,
        )
    } by {
        lemma_layout_grows(run, (i + 1) as nat, run.len(), p, color_index);
        lemma_layout_grows(run, i as nat, (i + 1) as nat, p, color_index);
        lemma_layout_stamps_color(run, (i + 1) as nat, p, color_index);
        let before = layout(run, i as nat, p, color_index)->Ok_0;
        let after = layout(run, (i + 1) as nat, p, color_index)->Ok_0;
        assert(whole.indices[k] == after.indices[k]);
        assert(run[i].0 is Some);
        let glyph = run[i].0->Some_0@;
        let base = before.vertices.len();
        let j = k - before.indices.len();
        assert(after.indices[k] == (glyph.indices[j] + base) as u16);
        assert(glyph.indices[j] < glyph.vertices.len());
        assert(after.vertices.len() == base + glyph.vertices.len());
    }
}

} // verus!
