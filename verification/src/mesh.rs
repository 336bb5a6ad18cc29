//! Building the triangle mesh of one glyph from its outline, and the mesh of
//! a run of text from the meshes of its glyphs.

use vstd::prelude::*;
use crate::error::TextError;
use crate::face::{FontFace, MAX_UNITS_PER_EM};
use crate::fill::{
    curve_vertex, fill_indices, fill_ok, fills_ok, flat_vertex, flat_vertices,
    lemma_point_count_monotone, triangulate_outcome, triangulation, MeshView, MAX_VERTICES,
};
use crate::geometry::{is_ccw_wind, midpoint_of, shoelace, shoelace_sum, Point, Rect};
use crate::layout::{
    append_glyph, layout, lemma_layout_error_sticks, pen_x, pen_y, place_vertex, place_vertices,
    run_data,
};
use crate::outline::{
    group_rings, lemma_apply_all_stays_none, point_count, ring_is_hole, CurveTriangle, Outline,
    OutlineEvent, Shape,
};
use crate::placement::{place, Placement, PEN_LIMIT};
use crate::renderer::{GlyphVertex, TexCoord, CONCAVE_BIT, CURVE_BIT, FLAT_FILL};
use crate::text::FontSize;
use crate::GlyphData;

verus! {

/// A solid ring with its holes, ready to be filled with triangles: `points`
/// holds the points of the outer ring followed by those of each hole, and
/// `holes` holds the index in `points` at which each hole starts.
#[derive(Debug)]
pub struct ShapeGroup {
    pub points: Vec<Point>,
    pub holes: Vec<usize>,
}

impl View for ShapeGroup {
    type V = Shape;

    open spec fn view(&self) -> Shape {
        Shape {
            points: self.points@,
            holes: Seq::new(self.holes@.len(), |i: int| self.holes@[i] as nat),
        }
    }
}

/// The shapes that a sequence of shape groups stands for.
pub open spec fn shape_views(groups: Seq<ShapeGroup>) -> Seq<Shape> {
    Seq::new(groups.len(), |i: int| groups[i]@)
}

/// Appends the elements of `source` to `target`.
pub(crate) fn append_all<T: Copy>(target: &mut Vec<T>, source: &Vec<T>)
    ensures
        final(target)@ == old(target)@ + source@,
{
    let mut i: usize = 0;
    while i < source.len()
        invariant
            i <= source@.len(),
            target@ == old(target)@ + source@.take(i as int),
        decreases source@.len() - i,
    {
        target.push(source[i]);
        i = i + 1;
        assert(source@.take(i as int) =~= source@.take(i - 1).push(source@[i - 1]));
    }
    assert(source@.take(source@.len() as int) =~= source@);
}

/// The mesh of one glyph, in font design units, with the bounding box that
/// the font advertises for the glyph. Every index names a vertex of the mesh.
#[derive(Debug)]
pub struct GlyphMesh {
    glyph_id: u16,
    vertices: Vec<GlyphVertex>,
    indices: Vec<u16>,
    bounds: Rect,
}

/// What a `GlyphMesh` holds.
#[verifier::ext_equal]
pub struct GlyphMeshView {
    pub glyph_id: u16,
    pub vertices: Seq<GlyphVertex>,
    pub indices: Seq<u16>,
    pub bounds: Rect,
}

impl GlyphMeshView {
    /// Every index names a vertex of the mesh.
    pub open spec fn wf(self) -> bool {
        forall|k: int|
            0 <= k < self.indices.len() ==> (#[trigger] self.indices[k]) < self.vertices.len()
    }
}

impl View for GlyphMesh {
    type V = GlyphMeshView;

    closed spec fn view(&self) -> GlyphMeshView {
        GlyphMeshView {
            glyph_id: self.glyph_id,
            vertices: self.vertices@,
            indices: self.indices@,
            bounds: self.bounds,
        }
    }
}

impl Clone for GlyphMesh {
    fn clone(&self) -> (copy: Self)
        ensures
            copy@ == self@,
    {
        proof {
            use_type_invariant(self);
        }
        let mut vertices: Vec<GlyphVertex> = Vec::new();
        append_all(&mut vertices, &self.vertices);
        let mut indices: Vec<u16> = Vec::new();
        append_all(&mut indices, &self.indices);
        assert(vertices@ =~= self.vertices@);
        assert(indices@ =~= self.indices@);
        GlyphMesh { glyph_id: self.glyph_id, vertices, indices, bounds: self.bounds }
    }
}

impl GlyphMesh {
    #[verifier::type_invariant]
    spec fn inv(&self) -> bool {
        self@.wf()
    }

    /// Makes a mesh of the given parts, or `None` where an index names no
    /// vertex.
    pub fn new(glyph_id: u16, vertices: Vec<GlyphVertex>, indices: Vec<u16>, bounds: Rect) -> (r:
        Option<GlyphMesh>)
        ensures
            match r {
                Some(mesh) => mesh@ == (GlyphMeshView {
                    glyph_id,
                    vertices: vertices@,
                    indices: indices@,
                    bounds,
                }) && mesh@.wf(),
                None => !(GlyphMeshView {
                    glyph_id,
                    vertices: vertices@,
                    indices: indices@,
                    bounds,
                }).wf(),
            },
    {
        let count: usize = vertices.len();
        let mut k: usize = 0;
        while k < indices.len()
            invariant
                k <= indices@.len(),
                count == vertices@.len(),
                forall|j: int| 0 <= j < k ==> (#[trigger] indices@[j]) < count,
            decreases indices@.len() - k,
        {
            if indices[k] as usize >= count {
                proof {
                    let view = GlyphMeshView {
                        glyph_id,
                        vertices: vertices@,
                        indices: indices@,
                        bounds,
                    };
                    assert(view.indices[k as int] >= view.vertices.len());
                    assert(!view.wf());
                }
                return None;
            }
            k = k + 1;
        }
        Some(GlyphMesh { glyph_id, vertices, indices, bounds })
    }

    /// The glyph this is the mesh of.
    pub fn glyph_id(&self) -> (id: u16)
        ensures
            id == self@.glyph_id,
    {
        self.glyph_id
    }

    /// The vertices, in font design units.
    pub fn vertices(&self) -> (vertices: &Vec<GlyphVertex>)
        ensures
            vertices@ == self@.vertices,
    {
        &self.vertices
    }

    /// The indices; each is less than the number of vertices.
    pub fn indices(&self) -> (indices: &Vec<u16>)
        ensures
            indices@ == self@.indices,
            self@.wf(),
    {
        proof {
            use_type_invariant(self);
        }
        &self.indices
    }

    /// The bounding box that the font advertises for the glyph.
    pub fn bounds(&self) -> (bounds: Rect)
        ensures
            bounds == self@.bounds,
    {
        self.bounds
    }
}

/// Checks one triangle list against the shape it is meant to fill.
fn fill_is_valid(group: &ShapeGroup, fill: &Option<Vec<usize>>) -> (ok: bool)
    ensures
        ok == fill_ok(group@, *fill),
{
    match fill {
        None => false,
        Some(list) => {
            if list.len() % 3 != 0 {
                return false;
            }
            let count: usize = group.points.len();
            let mut k: usize = 0;
            while k < list.len()
                invariant
                    k <= list@.len(),
                    *fill == Some(*list),
                    count == group.points@.len(),
                    forall|j: int| 0 <= j < k ==> (#[trigger] list@[j]) < count,
                decreases list@.len() - k,
            {
                if list[k] >= count {
                    assert(fill->Some_0@[k as int] >= group@.points.len());
                    return false;
                }
                k = k + 1;
            }
            true
        },
    }
}

/// Checks that there is one valid triangle list for each shape.
fn fills_are_valid(groups: &Vec<ShapeGroup>, fills: &Vec<Option<Vec<usize>>>) -> (ok: bool)
    ensures
        ok == fills_ok(shape_views(groups@), fills@),
{
    if fills.len() != groups.len() {
        return false;
    }
    let mut g: usize = 0;
    while g < groups.len()
        invariant
            g <= groups@.len(),
            fills@.len() == groups@.len(),
            forall|j: int|
                0 <= j < g ==> fill_ok(shape_views(groups@)[j], #[trigger] fills@[j]),
        decreases groups@.len() - g,
    {
        if !fill_is_valid(&groups[g], &fills[g]) {
            assert(!fill_ok(shape_views(groups@)[g as int], fills@[g as int]));
            return false;
        }
        g = g + 1;
    }
    true
}

/// Counts the vertices of a mesh with the given shapes and `curves` curve
/// triangles; `None` where there are more than `MAX_VERTICES`.
fn count_vertices(groups: &Vec<ShapeGroup>, curves: usize) -> (total: Option<usize>)
    ensures
        match total {
            Some(n) => n == point_count(shape_views(groups@), groups@.len()) + 3 * curves && n
                <= MAX_VERTICES,
            None => point_count(shape_views(groups@), groups@.len()) + 3 * curves > MAX_VERTICES,
        },
{
    let ghost shapes = shape_views(groups@);
    let mut count: usize = 0;
    let mut g: usize = 0;
    while g < groups.len()
        invariant
            g <= groups@.len(),
            shapes == shape_views(groups@),
            count == point_count(shapes, g as nat),
            count <= MAX_VERTICES,
        decreases groups@.len() - g,
    {
        let more: usize = groups[g].points.len();
        assert(shapes[g as int].points.len() == more);
        if more > MAX_VERTICES - count {
            proof {
                lemma_point_count_monotone(shapes, (g + 1) as nat, groups@.len());
            }
            return None;
        }
        count = count + more;
        g = g + 1;
    }
    if curves > (MAX_VERTICES - count) / 3 {
        None
    } else {
        Some(count + 3 * curves)
    }
}

/// Appends one flat-fill vertex for each of `points`.
fn push_flat_vertices(vertices: &mut Vec<GlyphVertex>, points: &Vec<Point>)
    ensures
        final(vertices)@ == old(vertices)@ + points@.map_values(|p: Point| flat_vertex(p)),
{
    let mut i: usize = 0;
    while i < points.len()
        invariant
            i <= points@.len(),
            vertices@ == old(vertices)@ + points@.take(i as int).map_values(
                |p: Point| flat_vertex(p),
            ),
        decreases points@.len() - i,
    {
        vertices.push(
            GlyphVertex {
                position: points[i],
                uv: TexCoord { u: 0, v: 0 },
                metadata: FLAT_FILL,
                color_index: 0,
            },
        );
        i = i + 1;
        assert(points@.take(i as int) =~= points@.take(i - 1).push(points@[i - 1]));
        assert(points@.take(i as int).map_values(|p: Point| flat_vertex(p)) =~= points@.take(
            i - 1,
        ).map_values(|p: Point| flat_vertex(p)).push(flat_vertex(points@[i - 1])));
    }
    assert(points@.take(points@.len() as int) =~= points@);
}

/// Appends the entries of `fill`, each shifted by `base`.
fn push_shifted_indices(indices: &mut Vec<u16>, fill: &Vec<usize>, base: usize)
    requires
        forall|k: int| 0 <= k < fill@.len() ==> base + (#[trigger] fill@[k]) < MAX_VERTICES,
    ensures
        final(indices)@ == old(indices)@ + fill@.map_values(|t: usize| (base + t) as u16),
{
    let mut i: usize = 0;
    while i < fill.len()
        invariant
            i <= fill@.len(),
            forall|k: int| 0 <= k < fill@.len() ==> base + (#[trigger] fill@[k]) < MAX_VERTICES,
            indices@ == old(indices)@ + fill@.take(i as int).map_values(
                |t: usize| (base + t) as u16,
            ),
        decreases fill@.len() - i,
    {
        indices.push((base + fill[i]) as u16);
        i = i + 1;
        assert(fill@.take(i as int) =~= fill@.take(i - 1).push(fill@[i - 1]));
        assert(fill@.take(i as int).map_values(|t: usize| (base + t) as u16) =~= fill@.take(
            i - 1,
        ).map_values(|t: usize| (base + t) as u16).push((base + fill@[i - 1]) as u16));
    }
    assert(fill@.take(fill@.len() as int) =~= fill@);
}

/// Collects the outline of one glyph and turns it into a mesh.
///
/// The outline arrives as drawing commands: `move_to` starts a ring, `line_to`,
/// `quad_to` and `curve_to` extend it. What has been collected is the view of
/// the builder, an `Outline`.
pub struct GlyphMeshBuilder {
    glyph_id: u16,
    reverse_wind: bool,
    polygons: Vec<Vec<Point>>,
    bezier_polygons: Vec<CurveTriangle>,
}

impl View for GlyphMeshBuilder {
    type V = Outline;

    closed spec fn view(&self) -> Outline {
        Outline {
            reverse_wind: self.reverse_wind,
            rings: Seq::new(self.polygons@.len(), |i: int| self.polygons@[i]@),
            curves: self.bezier_polygons@,
        }
    }
}

impl GlyphMeshBuilder {
    #[verifier::type_invariant]
    spec fn inv(&self) -> bool {
        forall|i: int| 0 <= i < self.polygons@.len() ==> (#[trigger] self.polygons@[i])@.len() > 0
    }

    /// The glyph this builder works on.
    pub closed spec fn spec_glyph_id(&self) -> u16 {
        self.glyph_id
    }

    /// A builder for glyph 0 of a face with native contours, with nothing
    /// drawn yet.
    pub fn new() -> (builder: Self)
        ensures
            builder@ == Outline::empty(false),
            builder.spec_glyph_id() == 0,
    {
        let builder = GlyphMeshBuilder {
            glyph_id: 0,
            reverse_wind: false,
            polygons: Vec::new(),
            bezier_polygons: Vec::new(),
        };
        assert(builder@.rings =~= Seq::<Seq<Point>>::empty());
        builder
    }

    /// A builder for the glyph `glyph_id` of `face`, with nothing drawn yet.
    /// The winding convention is that of the face.
    pub fn for_glyph(face: &FontFace, glyph_id: u16) -> (builder: Self)
        ensures
            builder@ == Outline::empty(face.spec_reverse_wind()),
            builder.spec_glyph_id() == glyph_id,
    {
        let builder = GlyphMeshBuilder {
            glyph_id,
            reverse_wind: face.reverse_wind(),
            polygons: Vec::new(),
            bezier_polygons: Vec::new(),
        };
        assert(builder@.rings =~= Seq::<Seq<Point>>::empty());
        builder
    }

    /// The glyph this builder works on.
    #[verifier::when_used_as_spec(spec_glyph_id)]
    pub fn glyph_id(&self) -> (id: u16)
        ensures
            id == self.spec_glyph_id(),
    {
        self.glyph_id
    }

    /// The rings drawn so far, in the order they were started. None of them
    /// is empty.
    pub fn rings(&self) -> (rings: &Vec<Vec<Point>>)
        ensures
            rings@.len() == self@.rings.len(),
            forall|i: int| 0 <= i < rings@.len() ==> (#[trigger] rings@[i])@ == self@.rings[i],
            self@.wf(),
    {
        proof {
            use_type_invariant(self);
        }
        &self.polygons
    }

    /// The curve triangles recorded so far, one per quadratic segment.
    pub fn curves(&self) -> (curves: &Vec<CurveTriangle>)
        ensures
            curves@ == self@.curves,
    {
        &self.bezier_polygons
    }

    /// Whether rings of the face wind the other way round.
    pub fn reverse_wind(&self) -> (reverse: bool)
        ensures
            reverse == self@.reverse_wind,
    {
        self.reverse_wind
    }

    /// Whether a ring has been started.
    pub fn has_pen(&self) -> (r: bool)
        ensures
            r == self@.has_pen(),
    {
        self.polygons.len() > 0
    }

    /// Starts a new ring at `(x, y)`.
    pub fn move_to(&mut self, x: i32, y: i32)
        ensures
            final(self)@ == old(self)@.move_to(Point { x, y }),
            final(self).spec_glyph_id() == old(self).spec_glyph_id(),
    {
        proof {
            use_type_invariant(&*self);
        }
        let mut ring: Vec<Point> = Vec::new();
        ring.push(Point { x, y });
        let mut polygons: Vec<Vec<Point>> = Vec::new();
        core::mem::swap(&mut self.polygons, &mut polygons);
        polygons.push(ring);
        core::mem::swap(&mut self.polygons, &mut polygons);
        assert(self@.rings =~= old(self)@.move_to(Point { x, y }).rings);
    }

    /// Appends `points` to the ring being drawn.
    fn extend_ring(&mut self, points: &Vec<Point>)
        requires
            old(self)@.has_pen(),
            points@.len() > 0,
        ensures
            final(self)@ == old(self)@.extend(points@),
            final(self).glyph_id == old(self).glyph_id,
            final(self).bezier_polygons == old(self).bezier_polygons,
    {
        proof {
            use_type_invariant(&*self);
        }
        let mut polygons: Vec<Vec<Point>> = Vec::new();
        core::mem::swap(&mut self.polygons, &mut polygons);
        let n: usize = polygons.len();
        let ring = &mut polygons[n - 1];
        append_all(ring, points);
        core::mem::swap(&mut self.polygons, &mut polygons);
        assert(self@.rings =~= old(self)@.extend(points@).rings);
    }

    /// Draws a straight edge from the pen to `(x, y)`.
    pub fn line_to(&mut self, x: i32, y: i32)
        requires
            old(self)@.has_pen(),
        ensures
            final(self)@ == old(self)@.line_to(Point { x, y }),
            final(self).spec_glyph_id() == old(self).spec_glyph_id(),
    {
        let mut points: Vec<Point> = Vec::new();
        points.push(Point { x, y });
        assert(points@ =~= seq![Point { x, y }]);
        self.extend_ring(&points);
    }

    /// The point the next segment starts from.
    fn pen(&self) -> (p: Point)
        requires
            self@.has_pen(),
        ensures
            p == self@.pen(),
    {
        proof {
            use_type_invariant(self);
        }
        let n: usize = self.polygons.len();
        let ring = &self.polygons[n - 1];
        assert(ring@ == self@.rings[n - 1]);
        ring[ring.len() - 1]
    }

    /// Records one quadratic segment from the pen over `c` to `p`.
    fn curve_segment(&mut self, c: Point, p: Point)
        requires
            old(self)@.has_pen(),
        ensures
            final(self)@ == old(self)@.quad_to(c, p),
            final(self)@.has_pen(),
            final(self).glyph_id == old(self).glyph_id,
    {
        proof {
            use_type_invariant(&*self);
        }
        let start = self.pen();
        let corners = [start, c, p];
        assert(corners@ =~= seq![start, c, p]);
        let is_inverse = is_ccw_wind(corners.as_slice()) != self.reverse_wind;
        let triangle = CurveTriangle { start, control: c, end: p, is_concave: is_inverse };
        let mut curves: Vec<CurveTriangle> = Vec::new();
        core::mem::swap(&mut self.bezier_polygons, &mut curves);
        curves.push(triangle);
        core::mem::swap(&mut self.bezier_polygons, &mut curves);
        assert(self@.rings =~= old(self)@.rings);
        let mut points: Vec<Point> = Vec::new();
        if is_inverse {
            points.push(c);
        }
        points.push(p);
        assert(points@ =~= if is_inverse {
            seq![c, p]
        } else {
            seq![p]
        });
        self.extend_ring(&points);
    }

    /// Draws a quadratic curve from the pen over the control point
    /// `(x1, y1)` to `(x, y)`.
    pub fn quad_to(&mut self, x1: i32, y1: i32, x: i32, y: i32)
        requires
            old(self)@.has_pen(),
        ensures
            final(self)@ == old(self)@.quad_to(Point { x: x1, y: y1 }, Point { x, y }),
            final(self).spec_glyph_id() == old(self).spec_glyph_id(),
    {
        self.curve_segment(Point { x: x1, y: y1 }, Point { x, y });
    }

    /// Draws a cubic curve from the pen over the control points `(x1, y1)`
    /// and `(x2, y2)` to `(x, y)`.
    pub fn curve_to(&mut self, x1: i32, y1: i32, x2: i32, y2: i32, x: i32, y: i32)
        requires
            old(self)@.has_pen(),
        ensures
            final(self)@ == old(self)@.curve_to(
                Point { x: x1, y: y1 },
                Point { x: x2, y: y2 },
                Point { x, y },
            ),
            final(self).spec_glyph_id() == old(self).spec_glyph_id(),
    {
        let c1 = Point { x: x1, y: y1 };
        let c2 = Point { x: x2, y: y2 };
        let implied = midpoint_of(c1, c2);
        self.curve_segment(c1, implied);
        self.curve_segment(c2, Point { x, y });
    }

    /// Ends the ring being drawn. Rings are closed implicitly, so nothing
    /// changes.
    pub fn close(&mut self)
        ensures
            *final(self) == *old(self),
    {
    }

    /// Applies one drawing command. Fails with `MalformedOutline`, and
    /// changes nothing, exactly when the command draws a segment and no ring
    /// has been started.
    pub fn apply(&mut self, event: OutlineEvent) -> (r: Result<(), TextError>)
        ensures
            final(self).spec_glyph_id() == old(self).spec_glyph_id(),
            match old(self)@.apply(event) {
                Some(after) => r is Ok && final(self)@ == after,
                None => r == Err::<(), TextError>(TextError::MalformedOutline) && final(self)@
                    == old(self)@,
            },
    {
        match event {
            OutlineEvent::MoveTo { x, y } => {
                self.move_to(x, y);
                Ok(())
            },
            OutlineEvent::Close => {
                self.close();
                Ok(())
            },
            OutlineEvent::LineTo { x, y } => {
                if self.has_pen() {
                    self.line_to(x, y);
                    Ok(())
                } else {
                    Err(TextError::MalformedOutline)
                }
            },
            OutlineEvent::QuadTo { x1, y1, x, y } => {
                if self.has_pen() {
                    self.quad_to(x1, y1, x, y);
                    Ok(())
                } else {
                    Err(TextError::MalformedOutline)
                }
            },
            OutlineEvent::CurveTo { x1, y1, x2, y2, x, y } => {
                if self.has_pen() {
                    self.curve_to(x1, y1, x2, y2, x, y);
                    Ok(())
                } else {
                    Err(TextError::MalformedOutline)
                }
            },
        }
    }

    /// Applies the commands of `events` in order. Fails with
    /// `MalformedOutline` exactly when one of them draws a segment before any
    /// ring has been started; the builder then holds what the commands before
    /// that one have drawn.
    pub fn trace(&mut self, events: &Vec<OutlineEvent>) -> (r: Result<(), TextError>)
        ensures
            final(self).spec_glyph_id() == old(self).spec_glyph_id(),
            match old(self)@.apply_all(events@, events@.len()) {
                Some(after) => r is Ok && final(self)@ == after,
                None => r == Err::<(), TextError>(TextError::MalformedOutline),
            },
            r is Err ==> exists|k: nat|
                k < events@.len() && old(self)@.apply_all(events@, k) == Some(final(self)@)
                    && (#[trigger] old(self)@.apply_all(events@, k + 1)) is None,
    {
        let mut i: usize = 0;
        while i < events.len()
            invariant
                i <= events@.len(),
                self.spec_glyph_id() == old(self).spec_glyph_id(),
                old(self)@.apply_all(events@, i as nat) == Some(self@),
            decreases events@.len() - i,
        {
            match self.apply(events[i]) {
                Ok(()) => {},
                Err(e) => {
                    proof {
                        lemma_apply_all_stays_none(
                            old(self)@,
                            events@,
                            (i + 1) as nat,
                            events@.len(),
                        );
                        assert(old(self)@.apply_all(events@, (i as nat) + 1) is None);
                    }
                    return Err(e);
                },
            }
            i = i + 1;
        }
        Ok(())
    }

    /// Groups the rings into shapes with holes, in the order they were
    /// drawn. Fails with `DegenerateGeometry` exactly when the outline is not
    /// fillable: its first ring is a hole, or a ring encloses no area.
    pub fn shape_groups(&self) -> (r: Result<Vec<ShapeGroup>, TextError>)
        ensures
            self@.fillable() ==> r is Ok && shape_views(r->Ok_0@) == self@.shapes(),
            !self@.fillable() ==> r == Err::<Vec<ShapeGroup>, TextError>(
                TextError::DegenerateGeometry { glyph_id: self.spec_glyph_id() },
            ),
    {
        let mut groups: Vec<ShapeGroup> = Vec::new();
        let n: usize = self.polygons.len();
        let ghost rings = self@.rings;
        let ghost rw = self@.reverse_wind;
        let mut i: usize = 0;
        while i < n
            invariant
                n == self.polygons@.len(),
                rings == self@.rings,
                rw == self.reverse_wind,
                i <= n,
                i > 0 ==> !ring_is_hole(rings[0], rw),
                forall|j: int| 0 <= j < i ==> shoelace(#[trigger] rings[j]) != 0,
                shape_views(groups@) == group_rings(rings, rw, i as nat),
                i > 0 ==> groups@.len() > 0,
            decreases n - i,
        {
            let ring = &self.polygons[i];
            assert(ring@ == rings[i as int]);
            let area: i128 = shoelace_sum(ring.as_slice());
            if area == 0 {
                return Err(TextError::DegenerateGeometry { glyph_id: self.glyph_id });
            }
            let hole = (area >= 0) != self.reverse_wind;
            let ghost before = shape_views(groups@);
            if !hole {
                let mut points: Vec<Point> = Vec::new();
                append_all(&mut points, ring);
                groups.push(ShapeGroup { points, holes: Vec::new() });
                assert(shape_views(groups@) =~~= before.push(
                    Shape { points: ring@, holes: Seq::empty() },
                ));
            } else {
                if groups.len() == 0 {
                    return Err(TextError::DegenerateGeometry { glyph_id: self.glyph_id });
                }
                let last: usize = groups.len() - 1;
                let group = &mut groups[last];
                let start: usize = group.points.len();
                group.holes.push(start);
                append_all(&mut group.points, ring);
                assert(shape_views(groups@) =~~= before.update(
                    last as int,
                    Shape {
                        points: before[last as int].points + ring@,
                        holes: before[last as int].holes.push(before[last as int].points.len()),
                    },
                ));
            }
            i = i + 1;
        }
        Ok(groups)
    }

    /// Turns the outline into vertices and indices. `fills` holds, for each
    /// shape of `shape_groups` in order, the triangle list that fills it, or
    /// `None` where no triangulation was found.
    ///
    /// The flat fill comes first: one vertex per point of each shape, and
    /// each shape's triangle list shifted to where its points start. Then
    /// comes one triangle of three new vertices per curve segment. Every
    /// index of the result names one of its vertices.
    pub fn triangulate(&self, fills: &Vec<Option<Vec<usize>>>) -> (r: Result<
        (Vec<GlyphVertex>, Vec<u16>),
        TextError,
    >)
        ensures
            match triangulate_outcome(self@, self.spec_glyph_id(), fills@) {
                Ok(mesh) => r is Ok && r->Ok_0.0@ == mesh.vertices && r->Ok_0.1@ == mesh.indices
                    && mesh.indices_in_range() && mesh.indices.len() % 3 == 0,
                Err(e) => r == Err::<(Vec<GlyphVertex>, Vec<u16>), TextError>(e),
            },
    {
        let groups = match self.shape_groups() {
            Ok(groups) => groups,
            Err(e) => {
                return Err(e);
            },
        };
        if !fills_are_valid(&groups, fills) {
            return Err(TextError::DegenerateGeometry { glyph_id: self.glyph_id });
        }
        let curve_count: usize = self.bezier_polygons.len();
        let total: usize = match count_vertices(&groups, curve_count) {
            Some(total) => total,
            None => {
                return Err(TextError::TooManyVertices);
            },
        };
        let ghost shapes = self@.shapes();
        let ghost curves = self@.curves;
        let mut vertices: Vec<GlyphVertex> = Vec::new();
        let mut indices: Vec<u16> = Vec::new();
        let mut g: usize = 0;
        while g < groups.len()
            invariant
                g <= groups@.len(),
                shapes == shape_views(groups@),
                fills_ok(shapes, fills@),
                point_count(shapes, shapes.len()) <= total <= MAX_VERTICES,
                vertices@ == flat_vertices(shapes, g as nat),
                vertices@.len() == point_count(shapes, g as nat),
                indices@ == fill_indices(shapes, fills@, g as nat),
                indices@.len() % 3 == 0,
                forall|k: int|
                    0 <= k < indices@.len() ==> (#[trigger] indices@[k]) < point_count(
                        shapes,
                        g as nat,
                    ),
            decreases groups@.len() - g,
        {
            let base: usize = vertices.len();
            let ghost before = indices@;
            proof {
                lemma_point_count_monotone(shapes, (g + 1) as nat, shapes.len());
                assert(fill_ok(shapes[g as int], fills@[g as int]));
                assert(shapes[g as int].points == groups@[g as int].points@);
            }
            match &fills[g] {
                Some(fill) => {
                    push_shifted_indices(&mut indices, fill, base);
                    assert(indices@ =~= fill_indices(shapes, fills@, (g + 1) as nat));
                    assert forall|k: int| 0 <= k < indices@.len() implies (#[trigger] indices@[k])
                        < point_count(shapes, (g + 1) as nat) by {
                        if k >= before.len() {
                            assert(indices@[k] == (base + fill@[k - before.len()]) as u16);
                        }
                    }
                },
                None => {},
            }
            push_flat_vertices(&mut vertices, &groups[g].points);
            g = g + 1;
        }
        let flat: usize = vertices.len();
        let ghost flat_part = vertices@;
        let ghost fill_part = indices@;
        let mut c: usize = 0;
        while c < curve_count
            invariant
                c <= curve_count,
                curve_count == self.bezier_polygons@.len(),
                curves == self.bezier_polygons@,
                flat + 3 * curve_count == total,
                total <= MAX_VERTICES,
                flat == flat_part.len(),
                vertices@ == flat_part + Seq::new(
                    3 * (c as nat),
                    |k: int| curve_vertex(curves[k / 3], k % 3),
                ),
                indices@ == fill_part + Seq::new(3 * (c as nat), |k: int| (flat + k) as u16),
            decreases curve_count - c,
        {
            let triangle = self.bezier_polygons[c];
            let first: usize = vertices.len();
            let metadata: i32 = if triangle.is_concave {
                CURVE_BIT + CONCAVE_BIT
            } else {
                CURVE_BIT
            };
            indices.push(first as u16);
            indices.push((first + 1) as u16);
            indices.push((first + 2) as u16);
            vertices.push(
                GlyphVertex {
                    position: triangle.start,
                    uv: TexCoord { u: 0, v: 0 },
                    metadata,
                    color_index: 0,
                },
            );
            vertices.push(
                GlyphVertex {
                    position: triangle.control,
                    uv: TexCoord { u: 1, v: 0 },
                    metadata,
                    color_index: 0,
                },
            );
            vertices.push(
                GlyphVertex {
                    position: triangle.end,
                    uv: TexCoord { u: 2, v: 2 },
                    metadata,
                    color_index: 0,
                },
            );
            c = c + 1;
            assert(vertices@ =~= flat_part + Seq::new(
                3 * (c as nat),
                |k: int| curve_vertex(curves[k / 3], k % 3),
            ));
            assert(indices@ =~= fill_part + Seq::new(3 * (c as nat), |k: int| (flat + k) as u16));
        }
        proof {
            let mesh = triangulation(self@, fills@);
            assert(vertices@ =~= mesh.vertices);
            assert(indices@ =~= mesh.indices);
            assert forall|k: int| 0 <= k < mesh.indices.len() implies (#[trigger] mesh.indices[k])
                < mesh.vertices.len() by {
                if k >= fill_part.len() {
                    assert(mesh.indices[k] == (flat + (k - fill_part.len())) as u16);
                } else {
                    assert(mesh.indices[k] == fill_part[k]);
                }
            }
        }
        Ok((vertices, indices))
    }

    /// Finishes the glyph: triangulates the outline as `triangulate` does and
    /// packs the result with the glyph's id and its bounding box `bounds`,
    /// which is taken as given and not computed from the vertices.
    pub fn build(self, bounds: Rect, fills: &Vec<Option<Vec<usize>>>) -> (r: Result<
        GlyphMesh,
        TextError,
    >)
        ensures
            match triangulate_outcome(self@, self.spec_glyph_id(), fills@) {
                Ok(mesh) => r is Ok && r->Ok_0@ == (GlyphMeshView {
                    glyph_id: self.spec_glyph_id(),
                    vertices: mesh.vertices,
                    indices: mesh.indices,
                    bounds,
                }) && r->Ok_0@.wf(),
                Err(e) => r is Err && r->Err_0 == e,
            },
    {
        match self.triangulate(fills) {
            Ok((vertices, indices)) => Ok(
                GlyphMesh { glyph_id: self.glyph_id, vertices, indices, bounds },
            ),
            Err(e) => Err(e),
        }
    }
}

/// A shaped run of glyphs, each with its mesh; `None` stands for a glyph
/// that draws nothing, such as a space.
pub type GlyphRun = Vec<(Option<GlyphMesh>, GlyphData)>;

/// Whether a failure to build the mesh of a glyph concerns that glyph alone:
/// its outline is malformed or degenerate, or its mesh would have too many
/// vertices.
pub open spec fn leaves_gap(error: TextError) -> bool {
    error is MalformedOutline || error is DegenerateGeometry || error is TooManyVertices
}

/// Decides what becomes of a glyph once its mesh has been attempted. A glyph
/// whose mesh was built is drawn. One whose mesh failed for a reason that
/// concerns the glyph alone is left out, so that it leaves a gap of its
/// advance and the text around it is still laid out. Any other failure is
/// passed on.
pub fn mesh_or_gap(built: Result<GlyphMesh, TextError>) -> (r: Result<Option<GlyphMesh>, TextError>)
    ensures
        match built {
            Ok(mesh) => r == Ok::<Option<GlyphMesh>, TextError>(Some(mesh)),
            Err(error) => if leaves_gap(error) {
                r == Ok::<Option<GlyphMesh>, TextError>(None)
            } else {
                r == Err::<Option<GlyphMesh>, TextError>(error)
            },
        },
{
    match built {
        Ok(mesh) => Ok(Some(mesh)),
        Err(TextError::MalformedOutline) => Ok(None),
        Err(TextError::DegenerateGeometry { glyph_id: _ }) => Ok(None),
        Err(TextError::TooManyVertices) => Ok(None),
        Err(error) => Err(error),
    }
}

/// The mesh of a run of text, on the page: positions are in sixty-fourths of
/// a pixel.
#[derive(Debug)]
pub struct TextMesh {
    pub vertices: Vec<GlyphVertex>,
    pub indices: Vec<u16>,
}

impl View for TextMesh {
    type V = MeshView;

    open spec fn view(&self) -> MeshView {
        MeshView { vertices: self.vertices@, indices: self.indices@ }
    }
}

/// Puts the vertices of one glyph on the page and appends them to `target`.
/// Returns whether all of them fit; where one does not, `target` is left
/// with those before it appended.
fn push_placed_vertices(
    target: &mut Vec<GlyphVertex>,
    source: &Vec<GlyphVertex>,
    pen_x: i128,
    pen_y: i128,
    p: &Placement,
    color_index: u32,
) -> (ok: bool)
    requires
        0 < p.units_per_em <= MAX_UNITS_PER_EM,
        -PEN_LIMIT <= pen_x <= PEN_LIMIT,
        -PEN_LIMIT <= pen_y <= PEN_LIMIT,
    ensures
        match place_vertices(source@, pen_x as int, pen_y as int, *p, color_index) {
            Some(vertices) => ok && final(target)@ == old(target)@ + vertices,
            None => !ok,
        },
{
    let mut k: usize = 0;
    while k < source.len()
        invariant
            k <= source@.len(),
            0 < p.units_per_em <= MAX_UNITS_PER_EM,
            -PEN_LIMIT <= pen_x <= PEN_LIMIT,
            -PEN_LIMIT <= pen_y <= PEN_LIMIT,
            forall|j: int|
                0 <= j < k ==> (#[trigger] place_vertex(
                    source@[j],
                    pen_x as int,
                    pen_y as int,
                    *p,
                    color_index,
                )) is Some,
            target@ == old(target)@ + Seq::new(
                k as nat,
                |j: int|
                    place_vertex(source@[j], pen_x as int, pen_y as int, *p, color_index)->Some_0,
            ),
        decreases source@.len() - k,
    {
        let v = source[k];
        let x = place(v.position.x, pen_x, p.origin.x, p.size, p.units_per_em);
        let y = place(v.position.y, pen_y, p.origin.y, p.size, p.units_per_em);
        match (x, y) {
            (Some(x), Some(y)) => {
                target.push(
                    GlyphVertex {
                        position: Point { x, y },
                        uv: v.uv,
                        metadata: v.metadata,
                        color_index,
                    },
                );
            },
            _ => {
                assert(place_vertex(source@[k as int], pen_x as int, pen_y as int, *p, color_index)
                    is None);
                return false;
            },
        }
        k = k + 1;
        assert(target@ =~= old(target)@ + Seq::new(
            k as nat,
            |j: int| place_vertex(source@[j], pen_x as int, pen_y as int, *p, color_index)->Some_0,
        ));
    }
    true
}

/// Appends the entries of `source`, each shifted by `base`.
pub(crate) fn push_offset_indices(indices: &mut Vec<u16>, source: &Vec<u16>, base: usize)
    requires
        forall|k: int| 0 <= k < source@.len() ==> base + (#[trigger] source@[k]) < MAX_VERTICES,
    ensures
        final(indices)@ == old(indices)@ + source@.map_values(|i: u16| (i + base) as u16),
{
    let mut k: usize = 0;
    while k < source.len()
        invariant
            k <= source@.len(),
            forall|j: int| 0 <= j < source@.len() ==> base + (#[trigger] source@[j]) < MAX_VERTICES,
            indices@ == old(indices)@ + source@.take(k as int).map_values(
                |i: u16| (i + base) as u16,
            ),
        decreases source@.len() - k,
    {
        indices.push((source[k] as usize + base) as u16);
        k = k + 1;
        assert(source@.take(k as int) =~= source@.take(k - 1).push(source@[k - 1]));
        assert(source@.take(k as int).map_values(|i: u16| (i + base) as u16) =~= source@.take(
            k - 1,
        ).map_values(|i: u16| (i + base) as u16).push((source@[k - 1] + base) as u16));
    }
    assert(source@.take(source@.len() as int) =~= source@);
}

/// Lays out the glyphs of a run, one after the other.
pub struct TextMeshBuilder {
    mesh_data: Vec<(Option<GlyphMesh>, GlyphData)>,
    font_size: FontSize,
    position: (i32, i32),
}

impl TextMeshBuilder {
    /// The glyphs added so far, in order.
    pub closed spec fn run(&self) -> Seq<(Option<GlyphMesh>, GlyphData)> {
        self.mesh_data@
    }

    /// The font size the text is set in.
    pub closed spec fn font_size(&self) -> FontSize {
        self.font_size
    }

    /// Where the text starts, in whole pixels.
    pub closed spec fn position(&self) -> Point {
        Point { x: self.position.0, y: self.position.1 }
    }

    /// How the text is scaled and placed when it is set in `face`.
    pub open spec fn placement(&self, face: &FontFace) -> Placement {
        Placement {
            size: self.font_size(),
            units_per_em: face.spec_units_per_em(),
            origin: self.position(),
        }
    }

    /// A builder with no glyphs, for text of 500 pixels at (100, 100).
    pub fn new() -> (builder: Self)
        ensures
            builder.run() == Seq::<(Option<GlyphMesh>, GlyphData)>::empty(),
            builder.font_size() == FontSize::Px(500),
            builder.position() == (Point { x: 100, y: 100 }),
    {
        TextMeshBuilder {
            mesh_data: Vec::new(),
            font_size: FontSize::Px(500),
            position: (100, 100),
        }
    }

    /// Sets the font size.
    pub fn with_font_size(&mut self, font_size: FontSize) -> (builder: &mut Self)
        ensures
            builder.font_size() == font_size,
            builder.run() == old(self).run(),
            builder.position() == old(self).position(),
            *final(self) == *final(builder),
    {
        self.font_size = font_size;
        self
    }

    /// Sets where the text starts, in whole pixels.
    pub fn with_position(&mut self, x: i32, y: i32) -> (builder: &mut Self)
        ensures
            builder.position() == (Point { x, y }),
            builder.run() == old(self).run(),
            builder.font_size() == old(self).font_size(),
            *final(self) == *final(builder),
    {
        self.position = (x, y);
        self
    }

    /// Adds the next glyph of the run: its mesh, if it draws anything, and
    /// its shaping data.
    pub fn add(&mut self, mesh: Option<GlyphMesh>, data: GlyphData) -> (builder: &mut Self)
        ensures
            builder.run() == old(self).run().push((mesh, data)),
            builder.font_size() == old(self).font_size(),
            builder.position() == old(self).position(),
            *final(self) == *final(builder),
    {
        self.mesh_data.push((mesh, data));
        self
    }

    /// Where the pen stands after all the glyphs added so far: the sums of
    /// their horizontal and of their vertical advances, whether or not a
    /// glyph has a mesh.
    pub fn advance(&self) -> (pen: (i128, i128))
        ensures
            pen.0 == pen_x(run_data(self.run()), self.run().len()),
            pen.1 == pen_y(run_data(self.run()), self.run().len()),
            -PEN_LIMIT <= pen.0 <= PEN_LIMIT,
            -PEN_LIMIT <= pen.1 <= PEN_LIMIT,
    {
        total_advance(&self.mesh_data)
    }

    /// Lays out the run in `face` and stamps every vertex with
    /// `color_index`. The result is `layout` of the whole run: the meshes of
    /// the glyphs one after the other, each moved by the advances of the
    /// glyphs before it, scaled to the font size and moved to the position.
    /// Every index of the result names one of its vertices.
    pub fn build(self, face: &FontFace, color_index: u32) -> (r: Result<TextMesh, TextError>)
        ensures
            match layout(self.run(), self.run().len(), self.placement(face), color_index) {
                Ok(mesh) => r is Ok && r->Ok_0@ == mesh && mesh.indices_in_range(),
                Err(e) => r is Err && r->Err_0 == e,
            },
    {
        let p = Placement {
            size: self.font_size,
            units_per_em: face.units_per_em(),
            origin: Point { x: self.position.0, y: self.position.1 },
        };
        lay_out(&self.mesh_data, &p, color_index)
    }
}

/// Adds up the advances of a run.
pub fn total_advance(run: &GlyphRun) -> (pen: (i128, i128))
    ensures
        pen.0 == pen_x(run_data(run@), run@.len()),
        pen.1 == pen_y(run_data(run@), run@.len()),
        -PEN_LIMIT <= pen.0 <= PEN_LIMIT,
        -PEN_LIMIT <= pen.1 <= PEN_LIMIT,
{
    let mut x: i128 = 0;
    let mut y: i128 = 0;
    let mut i: usize = 0;
    while i < run.len()
        invariant
            i <= run@.len(),
            x == pen_x(run_data(run@), i as nat),
            y == pen_y(run_data(run@), i as nat),
            -(i * 0x8000_0000) <= x <= i * 0x8000_0000,
            -(i * 0x8000_0000) <= y <= i * 0x8000_0000,
        decreases run@.len() - i,
    {
        let data = &run[i].1;
        x = x + data.x_advance as i128;
        y = y + data.y_advance as i128;
        i = i + 1;
    }
    (x, y)
}

/// Lays out a run with the given placement; see `layout`.
pub(crate) fn lay_out(run: &GlyphRun, p: &Placement, color_index: u32) -> (r: Result<
    TextMesh,
    TextError,
>)
    requires
        0 < p.units_per_em <= MAX_UNITS_PER_EM,
    ensures
        match layout(run@, run@.len(), *p, color_index) {
            Ok(mesh) => r is Ok && r->Ok_0@ == mesh && mesh.indices_in_range(),
            Err(e) => r is Err && r->Err_0 == e,
        },
{
    let mut vertices: Vec<GlyphVertex> = Vec::new();
    let mut indices: Vec<u16> = Vec::new();
    let mut x: i128 = 0;
    let mut y: i128 = 0;
    let mut i: usize = 0;
    while i < run.len()
        invariant
            i <= run@.len(),
            0 < p.units_per_em <= MAX_UNITS_PER_EM,
            x == pen_x(run_data(run@), i as nat),
            y == pen_y(run_data(run@), i as nat),
            -(i * 0x8000_0000) <= x <= i * 0x8000_0000,
            -(i * 0x8000_0000) <= y <= i * 0x8000_0000,
            layout(run@, i as nat, *p, color_index) == Ok::<MeshView, TextError>(
                MeshView { vertices: vertices@, indices: indices@ },
            ),
            vertices@.len() <= MAX_VERTICES,
            forall|k: int| 0 <= k < indices@.len() ==> (#[trigger] indices@[k]) < vertices@.len(),
        decreases run@.len() - i,
    {
        let entry = &run[i];
        let ghost so_far = MeshView { vertices: vertices@, indices: indices@ };
        match &entry.0 {
            Some(mesh) => {
                let base: usize = vertices.len();
                let source = mesh.vertices();
                let source_indices = mesh.indices();
                if source.len() > MAX_VERTICES - base {
                    proof {
                        lemma_layout_error_sticks(
                            run@,
                            (i + 1) as nat,
                            run@.len(),
                            *p,
                            color_index,
                        );
                    }
                    return Err(TextError::TooManyVertices);
                }
                if !push_placed_vertices(&mut vertices, source, x, y, p, color_index) {
                    proof {
                        lemma_layout_error_sticks(
                            run@,
                            (i + 1) as nat,
                            run@.len(),
                            *p,
                            color_index,
                        );
                    }
                    return Err(TextError::OutOfRange);
                }
                push_offset_indices(&mut indices, source_indices, base);
                proof {
                    let after = layout(run@, (i + 1) as nat, *p, color_index);
                    assert(after == append_glyph(
                        so_far,
                        mesh@,
                        x as int,
                        y as int,
                        *p,
                        color_index,
                    ));
                    assert(after->Ok_0 =~= (MeshView { vertices: vertices@, indices: indices@ }));
                    assert forall|k: int| 0 <= k < indices@.len() implies (#[trigger] indices@[k])
                        < vertices@.len() by {
                        if k >= so_far.indices.len() {
                            let j = k - so_far.indices.len();
                            assert(indices@[k] == (source_indices@[j] + base) as u16);
                        }
                    }
                }
            },
            None => {},
        }
        x = x + entry.1.x_advance as i128;
        y = y + entry.1.y_advance as i128;
        i = i + 1;
    }
    Ok(TextMesh { vertices, indices })
}

} // verus!
