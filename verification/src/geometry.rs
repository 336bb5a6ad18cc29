//! Plane geometry in whole numbers: points, bounding boxes and the winding
//! direction of closed rings.

use vstd::prelude::*;

verus! {

/// A point with whole coordinates: font design units in the outline and the
/// mesh of a glyph, pixels or parts of pixels on the page.
#[derive(Clone, Copy, Debug, PartialEq, Eq, Structural)]
pub struct Point {
    pub x: i32,
    pub y: i32,
}

/// An axis-aligned bounding box in font design units, as a font advertises it
/// for one glyph.
#[derive(Clone, Copy, Debug, PartialEq, Eq, Structural)]
pub struct Rect {
    pub x_min: i16,
    pub y_min: i16,
    pub x_max: i16,
    pub y_max: i16,
}

/// The cross product `a × b` of two position vectors: twice the signed area of
/// the triangle spanned by the origin, `a` and `b`.
pub open spec fn cross(a: Point, b: Point) -> int {
    a.x * b.y - b.x * a.y
}

/// The shoelace sum over the first `n` edges of the closed ring `ring`, where
/// edge `k` runs from `ring[k]` to `ring[(k + 1) % ring.len()]`.
pub open spec fn shoelace_prefix(ring: Seq<Point>, n: nat) -> int
    decreases n,
{
    if n == 0 {
        0
    } else {
        shoelace_prefix(ring, (n - 1) as nat) + cross(
            ring[n - 1],
            ring[(n as int) % (ring.len() as int)],
        )
    }
}

/// Twice the signed area enclosed by the closed ring: positive when the ring
/// runs counter-clockwise (with the y axis pointing up), negative when it runs
/// clockwise.
pub open spec fn shoelace(ring: Seq<Point>) -> int {
    shoelace_prefix(ring, ring.len())
}

/// Whether the ring counts as counter-clockwise: its shoelace sum is not
/// negative. A ring of zero area counts as counter-clockwise.
pub open spec fn winds_ccw(ring: Seq<Point>) -> bool {
    shoelace(ring) >= 0
}

/// The point halfway from `a` to `b`; each coordinate is rounded down.
pub open spec fn midpoint(a: Point, b: Point) -> Point {
    Point { x: (a.x + (b.x - a.x) / 2) as i32, y: (a.y + (b.y - a.y) / 2) as i32 }
}

/// A bound on one cross product of points with `i32` coordinates.
spec fn cross_limit() -> int {
    0x8000_0000_0000_0000
}

/// The product of two `i32` values is at most 2^62 in magnitude.
proof fn lemma_product_bounded(x: int, y: int)
    requires
        -0x8000_0000 <= x <= 0x7fff_ffff,
        -0x8000_0000 <= y <= 0x7fff_ffff,
    ensures
        -0x4000_0000_0000_0000 <= x * y <= 0x4000_0000_0000_0000,
{
    assert(-0x4000_0000_0000_0000 <= x * y <= 0x4000_0000_0000_0000) by (nonlinear_arith)
        requires
            -0x8000_0000 <= x <= 0x7fff_ffff,
            -0x8000_0000 <= y <= 0x7fff_ffff,
    ;
}

proof fn lemma_cross_bounded(a: Point, b: Point)
    ensures
        -cross_limit() <= cross(a, b) <= cross_limit(),
{
    lemma_product_bounded(a.x as int, b.y as int);
    lemma_product_bounded(b.x as int, a.y as int);
}

proof fn lemma_shoelace_prefix_bounded(ring: Seq<Point>, n: nat)
    ensures
        -(n * cross_limit()) <= shoelace_prefix(ring, n) <= n * cross_limit(),
    decreases n,
{
    if n > 0 {
        lemma_shoelace_prefix_bounded(ring, (n - 1) as nat);
        lemma_cross_bounded(ring[n - 1], ring[(n as int) % (ring.len() as int)]);
        assert(n * cross_limit() == (n - 1) * cross_limit() + cross_limit()) by (nonlinear_arith);
    }
}

/// Computes `a × b` exactly.
pub fn cross_product(a: Point, b: Point) -> (r: i128)
    ensures
        r == cross(a, b),
        -0x8000_0000_0000_0000 <= r <= 0x8000_0000_0000_0000,
{
    proof {
        lemma_product_bounded(a.x as int, b.y as int);
        lemma_product_bounded(b.x as int, a.y as int);
    }
    (a.x as i128) * (b.y as i128) - (b.x as i128) * (a.y as i128)
}

/// Computes the shoelace sum of a closed ring: twice its signed area. The
/// sum is exact, whatever the size of the coordinates and the number of
/// points.
pub fn shoelace_sum(vertices: &[Point]) -> (sum: i128)
    ensures
        sum == shoelace(vertices@),
{
    let n: usize = vertices.len();
    let mut sum: i128 = 0;
    let mut index: usize = 0;
    while index < n
        invariant
            n == vertices@.len(),
            index <= n,
            sum == shoelace_prefix(vertices@, index as nat),
        decreases n - index,
    {
        let current = vertices[index];
        let next = vertices[(index + 1) % n];
        let term = cross_product(current, next);
        proof {
            lemma_shoelace_prefix_bounded(vertices@, index as nat);
            lemma_shoelace_prefix_bounded(vertices@, (index + 1) as nat);
            assert((index + 1) * cross_limit() <= 0xffff_ffff_ffff_ffff * cross_limit())
                by (nonlinear_arith)
                requires
                    index + 1 <= 0xffff_ffff_ffff_ffff,
            ;
        }
        sum = sum + term;
        index = index + 1;
    }
    sum
}

/// Decides the winding direction of a closed ring by the sign of its
/// shoelace sum.
pub fn is_ccw_wind(vertices: &[Point]) -> (ccw: bool)
    ensures
        ccw == winds_ccw(vertices@),
{
    shoelace_sum(vertices) >= 0
}

/// A ring of fewer than three points encloses no area.
pub proof fn lemma_area_needs_three_points(ring: Seq<Point>)
    requires
        ring.len() < 3,
    ensures
        shoelace(ring) == 0,
{
    reveal_with_fuel(shoelace_prefix, 3);
    if ring.len() == 2 {
        let a = ring[0];
        let b = ring[1];
        assert(cross(a, b) + cross(b, a) == 0) by (nonlinear_arith)
            requires
                cross(a, b) == a.x * b.y - b.x * a.y,
                cross(b, a) == b.x * a.y - a.x * b.y,
        ;
    } else if ring.len() == 1 {
        let a = ring[0];
        assert(cross(a, a) == 0) by (nonlinear_arith)
            requires
                cross(a, a) == a.x * a.y - a.x * a.y,
        ;
    }
}

/// Computes the point halfway from `a` to `b`, each coordinate rounded down.
pub fn midpoint_of(a: Point, b: Point) -> (m: Point)
    ensures
        m == midpoint(a, b),
{
    Point { x: halfway(a.x, b.x), y: halfway(a.y, b.y) }
}

/// Computes the whole number halfway from `a` to `b`, rounded down.
fn halfway(a: i32, b: i32) -> (m: i32)
    ensures
        m == a + (b - a) / 2,
{
    let d: i64 = b as i64 - a as i64;
    let half: i64 = if d >= 0 {
        d / 2
    } else {
        -((-(d + 1)) / 2) - 1
    };
    (a as i64 + half) as i32
}

} // verus!
