//! The mathematical model of a traced glyph outline: rings of points, the
//! curve triangles along their curved edges, and the grouping of rings into
//! shapes with holes.

use vstd::prelude::*;
use crate::geometry::{midpoint, shoelace, winds_ccw, Point};

verus! {

/// One quadratic curve segment of an outline, from `start` over the control
/// point `control` to `end`. `is_concave` tells the renderer which side of
/// the curve is inside the glyph.
#[derive(Clone, Copy, Debug, PartialEq, Eq, Structural)]
pub struct CurveTriangle {
    pub start: Point,
    pub control: Point,
    pub end: Point,
    pub is_concave: bool,
}

/// One drawing command of a glyph outline. Coordinates are in font design
/// units; `x1, y1` and `x2, y2` are control points, `x, y` is where the
/// segment ends.
#[derive(Clone, Copy, Debug, PartialEq, Eq, Structural)]
pub enum OutlineEvent {
    MoveTo { x: i32, y: i32 },
    LineTo { x: i32, y: i32 },
    QuadTo { x1: i32, y1: i32, x: i32, y: i32 },
    CurveTo { x1: i32, y1: i32, x2: i32, y2: i32, x: i32, y: i32 },
    Close,
}

/// Whether the curve triangle `start, control, end` is concave in a face with
/// the given winding convention: its own winding is counter-clockwise in a
/// face that does not reverse, or clockwise in one that does.
pub open spec fn curve_is_concave(
    start: Point,
    control: Point,
    end: Point,
    reverse_wind: bool,
) -> bool {
    winds_ccw(seq![start, control, end]) != reverse_wind
}

/// Whether `ring` is a hole rather than a solid shape, by the same rule as
/// for curve triangles.
pub open spec fn ring_is_hole(ring: Seq<Point>, reverse_wind: bool) -> bool {
    winds_ccw(ring) != reverse_wind
}

/// A traced outline: the rings in the order they were started, each a
/// sequence of points that is closed implicitly, and one curve triangle per
/// quadratic segment.
#[verifier::ext_equal]
pub struct Outline {
    pub reverse_wind: bool,
    pub rings: Seq<Seq<Point>>,
    pub curves: Seq<CurveTriangle>,
}

impl Outline {
    /// The outline before any command.
    pub open spec fn empty(reverse_wind: bool) -> Outline {
        Outline { reverse_wind, rings: Seq::empty(), curves: Seq::empty() }
    }

    /// Every ring holds at least the point it was started at.
    pub open spec fn wf(self) -> bool {
        forall|i: int| 0 <= i < self.rings.len() ==> (#[trigger] self.rings[i]).len() > 0
    }

    /// Whether a ring has been started, so that segments can be drawn.
    pub open spec fn has_pen(self) -> bool {
        self.rings.len() > 0
    }

    /// The point the next segment starts from.
    pub open spec fn pen(self) -> Point {
        self.rings.last().last()
    }

    /// The outline with `points` appended to the ring being drawn.
    pub open spec fn extend(self, points: Seq<Point>) -> Outline {
        Outline {
            reverse_wind: self.reverse_wind,
            rings: self.rings.update(self.rings.len() - 1, self.rings.last() + points),
            curves: self.curves,
        }
    }

    /// Starts a new ring at `p`.
    pub open spec fn move_to(self, p: Point) -> Outline {
        Outline {
            reverse_wind: self.reverse_wind,
            rings: self.rings.push(seq![p]),
            curves: self.curves,
        }
    }

    /// Draws a straight edge to `p`.
    pub open spec fn line_to(self, p: Point) -> Outline {
        self.extend(seq![p])
    }

    /// Draws a quadratic curve over the control point `c` to `p`. The curve
    /// triangle is recorded; the ring gets `p`, and before it `c` where the
    /// triangle is concave, so that the flat fill covers the triangle.
    pub open spec fn quad_to(self, c: Point, p: Point) -> Outline {
        let concave = curve_is_concave(self.pen(), c, p, self.reverse_wind);
        let triangle = CurveTriangle {
            start: self.pen(),
            control: c,
            end: p,
            is_concave: concave,
        };
        Outline {
            reverse_wind: self.reverse_wind,
            rings: self.extend(
                if concave {
                    seq![c, p]
                } else {
                    seq![p]
                },
            ).rings,
            curves: self.curves.push(triangle),
        }
    }

    /// Draws a cubic curve over the control points `c1` and `c2` to `p`, as
    /// two quadratic curves that meet halfway between the control points.
    pub open spec fn curve_to(self, c1: Point, c2: Point, p: Point) -> Outline {
        self.quad_to(c1, midpoint(c1, c2)).quad_to(c2, p)
    }

    /// The outline after one command, or `None` where the command draws a
    /// segment and no ring has been started.
    pub open spec fn apply(self, event: OutlineEvent) -> Option<Outline> {
        match event {
            OutlineEvent::MoveTo { x, y } => Some(self.move_to(Point { x, y })),
            OutlineEvent::Close => Some(self),
            OutlineEvent::LineTo { x, y } => if self.has_pen() {
                Some(self.line_to(Point { x, y }))
            } else {
                None
            },
            OutlineEvent::QuadTo { x1, y1, x, y } => if self.has_pen() {
                Some(self.quad_to(Point { x: x1, y: y1 }, Point { x, y }))
            } else {
                None
            },
            OutlineEvent::CurveTo { x1, y1, x2, y2, x, y } => if self.has_pen() {
                Some(
                    self.curve_to(Point { x: x1, y: y1 }, Point { x: x2, y: y2 }, Point { x, y }),
                )
            } else {
                None
            },
        }
    }

    /// The outline after the first `n` of `events`, or `None` where one of
    /// them cannot be applied.
    pub open spec fn apply_all(self, events: Seq<OutlineEvent>, n: nat) -> Option<Outline>
        decreases n,
    {
        if n == 0 {
            Some(self)
        } else {
            match self.apply_all(events, (n - 1) as nat) {
                Some(before) => before.apply(events[n - 1]),
                None => None,
            }
        }
    }

    /// Whether the outline can be filled: its first ring is solid, so that
    /// every hole has a shape to lie in, and no ring is degenerate, that is,
    /// every ring encloses some area.
    pub open spec fn fillable(self) -> bool {
        &&& self.rings.len() > 0 ==> !ring_is_hole(self.rings[0], self.reverse_wind)
        &&& forall|i: int| 0 <= i < self.rings.len() ==> shoelace(#[trigger] self.rings[i]) != 0
    }

    /// The shapes of the outline, each a solid ring with the holes that
    /// follow it.
    pub open spec fn shapes(self) -> Seq<Shape> {
        group_rings(self.rings, self.reverse_wind, self.rings.len())
    }
}

/// A solid ring together with its holes, flattened: `points` holds the outer
/// ring's points followed by those of each hole, and `holes` holds, for each
/// hole, the index in `points` at which it starts.
#[verifier::ext_equal]
pub struct Shape {
    pub points: Seq<Point>,
    pub holes: Seq<nat>,
}

impl Shape {
    /// The number of rings of the shape: the outer ring and the holes.
    pub open spec fn ring_count(self) -> nat {
        self.holes.len() + 1
    }

    /// Where ring `k` starts in `points`. Ring 0 is the outer ring, ring `k`
    /// the `k`-th hole.
    pub open spec fn ring_start(self, k: int) -> int {
        if k == 0 {
            0
        } else {
            self.holes[k - 1] as int
        }
    }

    /// Where ring `k` ends in `points`.
    pub open spec fn ring_end(self, k: int) -> int {
        if k == self.holes.len() {
            self.points.len() as int
        } else {
            self.holes[k] as int
        }
    }

    /// The points of ring `k`.
    pub open spec fn ring(self, k: int) -> Seq<Point> {
        self.points.subrange(self.ring_start(k), self.ring_end(k))
    }

    /// The rings lie one after the other in `points`; the outer ring is
    /// solid and every other ring is a hole, so that the holes wind against
    /// the ring they lie in.
    pub open spec fn winds_properly(self, reverse_wind: bool) -> bool {
        &&& forall|k: int|
            0 <= k < self.ring_count() ==> 0 <= #[trigger] self.ring_start(k) <= self.ring_end(k)
                <= self.points.len()
        &&& !ring_is_hole(self.ring(0), reverse_wind)
        &&& forall|k: int|
            1 <= k < self.ring_count() ==> ring_is_hole(#[trigger] self.ring(k), reverse_wind)
    }
}

/// Groups the first `n` rings into shapes, in the order they come: a solid
/// ring starts a shape, a hole joins the shape started last. A hole that comes
/// before any solid ring is left out.
pub open spec fn group_rings(rings: Seq<Seq<Point>>, reverse_wind: bool, n: nat) -> Seq<Shape>
    decreases n,
{
    if n == 0 {
        Seq::empty()
    } else {
        let before = group_rings(rings, reverse_wind, (n - 1) as nat);
        let ring = rings[n - 1];
        if !ring_is_hole(ring, reverse_wind) {
            before.push(Shape { points: ring, holes: Seq::empty() })
        } else if before.len() == 0 {
            before
        } else {
            let shape = before.last();
            before.update(
                before.len() - 1,
                Shape {
                    points: shape.points + ring,
                    holes: shape.holes.push(shape.points.len()),
                },
            )
        }
    }
}

/// The number of points in the shapes made of the first `n` rings.
pub open spec fn point_count(shapes: Seq<Shape>, n: nat) -> nat
    decreases n,
{
    if n == 0 {
        0
    } else {
        point_count(shapes, (n - 1) as nat) + shapes[n - 1].points.len()
    }
}

/// An outline of one ring that winds the way the face has its outer rings
/// wind (clockwise in a face with native contours, counter-clockwise in one
/// without) is one solid shape without holes: the ring is never taken for a
/// hole. If the ring encloses any area, the outline can be filled.
pub proof fn lemma_single_ring_is_solid(
    ring: Seq<Point>,
    reverse_wind: bool,
    curves: Seq<CurveTriangle>,
)
    requires
        winds_ccw(ring) == reverse_wind,
    ensures
        !ring_is_hole(ring, reverse_wind),
        (Outline { reverse_wind, rings: seq![ring], curves }).shapes() == seq![
            Shape { points: ring, holes: Seq::empty() },
        ],
        shoelace(ring) != 0 ==> (Outline { reverse_wind, rings: seq![ring], curves }).fillable(),
{
    let outline = Outline { reverse_wind, rings: seq![ring], curves };
    reveal_with_fuel(group_rings, 2);
    assert(outline.rings[0] == ring);
    assert(outline.shapes() =~= seq![Shape { points: ring, holes: Seq::empty() }]);
}

/// Every ring of an outline that can be filled has at least three points.
pub proof fn lemma_fillable_rings_have_three_points(outline: Outline)
    requires
        outline.fillable(),
    ensures
        forall|i: int| 0 <= i < outline.rings.len() ==> (#[trigger] outline.rings[i]).len() >= 3,
{
    assert forall|i: int| 0 <= i < outline.rings.len() implies (#[trigger] outline.rings[i]).len()
        >= 3 by {
        if outline.rings[i].len() < 3 {
            crate::geometry::lemma_area_needs_three_points(outline.rings[i]);
        }
    }
}

/// The shapes of a fillable outline hold every point of every ring, in
/// order: grouping rings neither drops nor adds a point.
pub proof fn lemma_grouping_keeps_points(rings: Seq<Seq<Point>>, reverse_wind: bool, n: nat)
    requires
        n <= rings.len(),
        n > 0 ==> !ring_is_hole(rings[0], reverse_wind),
    ensures
        point_count(
            group_rings(rings, reverse_wind, n),
            group_rings(rings, reverse_wind, n).len(),
        ) == ring_point_count(rings, n),
        n > 0 ==> group_rings(rings, reverse_wind, n).len() > 0,
    decreases n,
{
    if n > 0 {
        let before = group_rings(rings, reverse_wind, (n - 1) as nat);
        let after = group_rings(rings, reverse_wind, n);
        lemma_grouping_keeps_points(rings, reverse_wind, (n - 1) as nat);
        let ring = rings[n - 1];
        if !ring_is_hole(ring, reverse_wind) {
            assert(after.len() == before.len() + 1);
            assert(after.last().points == ring);
            lemma_point_count_same_prefix(before, after, before.len());
            assert(point_count(after, after.len()) == point_count(after, before.len())
                + ring.len());
        } else {
            let rest = (before.len() - 1) as nat;
            assert(after.len() == before.len());
            assert(after.last().points.len() == before.last().points.len() + ring.len());
            lemma_point_count_same_prefix(before, after, rest);
            assert(point_count(after, after.len()) == point_count(after, rest)
                + after.last().points.len());
            assert(point_count(before, before.len()) == point_count(before, rest)
                + before.last().points.len());
        }
    }
}

/// The number of points in the first `n` rings.
pub open spec fn ring_point_count(rings: Seq<Seq<Point>>, n: nat) -> nat
    decreases n,
{
    if n == 0 {
        0
    } else {
        ring_point_count(rings, (n - 1) as nat) + rings[n - 1].len()
    }
}

/// Shape sequences that agree on their first `n` shapes have the same
/// number of points there.
proof fn lemma_point_count_same_prefix(first: Seq<Shape>, second: Seq<Shape>, n: nat)
    requires
        n <= first.len(),
        n <= second.len(),
        forall|i: int| 0 <= i < n ==> first[i] == second[i],
    ensures
        point_count(first, n) == point_count(second, n),
    decreases n,
{
    if n > 0 {
        lemma_point_count_same_prefix(first, second, (n - 1) as nat);
    }
}

/// Once a command of an outline cannot be applied, no longer prefix of the
/// commands can be either.
pub proof fn lemma_apply_all_stays_none(start: Outline, events: Seq<OutlineEvent>, n: nat, m: nat)
    requires
        n <= m,
        start.apply_all(events, n) is None,
    ensures
        start.apply_all(events, m) is None,
    decreases m,
{
    if n < m {
        lemma_apply_all_stays_none(start, events, n, (m - 1) as nat);
    }
}

/// In every shape that grouping makes, the outer ring is solid and all the
/// other rings are holes: the holes of a shape wind against its outer ring.
pub proof fn lemma_holes_wind_against_their_shape(
    rings: Seq<Seq<Point>>,
    reverse_wind: bool,
    n: nat,
)
    requires
        n <= rings.len(),
        n > 0 ==> !ring_is_hole(rings[0], reverse_wind),
    ensures
        forall|g: int|
            0 <= g < group_rings(rings, reverse_wind, n).len() ==> (#[trigger] group_rings(
                rings,
                reverse_wind,
                n,
            )[g]).winds_properly(reverse_wind),
    decreases n,
{
    if n > 0 {
        let before = group_rings(rings, reverse_wind, (n - 1) as nat);
        let after = group_rings(rings, reverse_wind, n);
        let ring = rings[n - 1];
        lemma_holes_wind_against_their_shape(rings, reverse_wind, (n - 1) as nat);
        lemma_grouping_keeps_points(rings, reverse_wind, (n - 1) as nat);
        if !ring_is_hole(ring, reverse_wind) {
            let shape = Shape { points: ring, holes: Seq::empty() };
            assert(shape.ring(0) =~= ring);
            assert(shape.winds_properly(reverse_wind));
            assert forall|g: int| 0 <= g < after.len() implies (#[trigger] after[g]).winds_properly(
                reverse_wind,
            ) by {
                if g < before.len() {
                    assert(after[g] == before[g]);
                }
            }
        } else {
            let old_shape = before.last();
            let new_shape = after.last();
            assert(old_shape.winds_properly(reverse_wind));
            let last = old_shape.ring_count() as int;
            assert forall|k: int| 0 <= k < new_shape.ring_count() implies 0
                <= #[trigger] new_shape.ring_start(k) <= new_shape.ring_end(k)
                <= new_shape.points.len() by {
                if k < last {
                    assert(new_shape.ring_start(k) == old_shape.ring_start(k));
                    assert(new_shape.ring_end(k) == old_shape.ring_end(k));
                }
            }
            assert forall|k: int| 0 <= k < last implies #[trigger] new_shape.ring(k)
                == old_shape.ring(k) by {
                assert(new_shape.ring_start(k) == old_shape.ring_start(k));
                assert(new_shape.ring_end(k) == old_shape.ring_end(k));
                assert(0 <= old_shape.ring_start(k) <= old_shape.ring_end(k)
                    <= old_shape.points.len());
                assert(new_shape.ring(k) =~= old_shape.ring(k));
            }
            assert(new_shape.ring(last) =~= ring);
            assert(new_shape.ring(0) == old_shape.ring(0));
            assert forall|k: int| 1 <= k < new_shape.ring_count() implies ring_is_hole(
                #[trigger] new_shape.ring(k),
                reverse_wind,
            ) by {
                if k < last {
                    assert(new_shape.ring(k) == old_shape.ring(k));
                }
            }
            assert(new_shape.winds_properly(reverse_wind));
            assert forall|g: int| 0 <= g < after.len() implies (#[trigger] after[g]).winds_properly(
                reverse_wind,
            ) by {
                if g < after.len() - 1 {
                    assert(after[g] == before[g]);
                }
            }
        }
    }
}

} // verus!
