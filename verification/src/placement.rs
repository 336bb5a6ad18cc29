//! From font design units to the pixel grid: the scale of a font size, where
//! a coordinate of a glyph lands on the page, and where a position on the
//! page lies in the normalized coordinates of a device.
//!
//! Positions on the page are counted in sixty-fourths of a pixel. All
//! arithmetic is exact: a coordinate is multiplied by the whole scale before
//! it is divided, and rounded down once; normalized coordinates are handed out
//! as fractions.

use vstd::prelude::*;
use vstd::arithmetic::div_mod::{lemma_fundamental_div_mod, lemma_mod_bound};
use crate::face::MAX_UNITS_PER_EM;
use crate::geometry::Point;
use crate::text::{FontSize, POINTS_PER_INCH, POINT_DPI};

verus! {

/// The numerator of the correction from em height to cap height by which
/// every glyph is scaled. It is a chosen layout constant, not a property of
/// any font.
pub const EM_CORRECTION_NUM: i128 = 1254;

/// The denominator of the em correction.
pub const EM_CORRECTION_DEN: i128 = 1000;

/// The number of position units per pixel.
pub const SUBPIXELS: i128 = 64;

/// The largest pen position, in design units, that the layout deals with.
/// The advances of any glyph run add up to no more.
pub const PEN_LIMIT: i128 = 0x8000_0000_0000_0000_0000_0000;

/// The largest length in pixels that is measured exactly; a longer one is
/// only known to be longer.
pub(crate) const MEASURE_LIMIT: i128 = 0x1_0000_0000_0000_0000_0000;

/// How glyphs are scaled and where they are put: the font size, the design
/// units per em of the face, and the origin of the text in whole pixels.
pub struct Placement {
    pub size: FontSize,
    pub units_per_em: u16,
    pub origin: Point,
}

/// Whether `v` can be stored as a coordinate.
pub open spec fn fits_i32(v: int) -> bool {
    i32::MIN <= v <= i32::MAX
}

/// The quotient of `n` by `d`, rounded toward zero.
pub open spec fn trunc_div(n: int, d: int) -> int {
    if n >= 0 {
        n / d
    } else {
        -((-n) / d)
    }
}

/// The denominator of the scale from design units to pixels.
pub open spec fn scale_den(size: FontSize, units_per_em: u16) -> int {
    size.px_den() * EM_CORRECTION_DEN * units_per_em
}

/// The numerator of the scale from design units to pixels: a length of `u`
/// design units is `u * pixel_scale_num / scale_den` pixels long.
pub open spec fn pixel_scale_num(size: FontSize) -> int {
    size.px_num() * EM_CORRECTION_NUM
}

/// A length of `units` design units in position units, rounded down.
pub open spec fn to_subpixels(units: int, size: FontSize, units_per_em: u16) -> int {
    (units * (pixel_scale_num(size) * SUBPIXELS)) / scale_den(size, units_per_em)
}

/// A length of `units` design units in whole pixels, rounded toward zero.
pub open spec fn to_pixels(units: int, size: FontSize, units_per_em: u16) -> int {
    trunc_div(units * pixel_scale_num(size), scale_den(size, units_per_em))
}

/// Where the coordinate `coord` of a glyph lands, in position units, when
/// the pen stands at `pen` and the text starts at `origin` pixels: the
/// coordinate is moved by the pen, scaled, and moved by the origin.
pub open spec fn placed(
    coord: int,
    pen: int,
    origin: int,
    size: FontSize,
    units_per_em: u16,
) -> int {
    to_subpixels(coord + pen, size, units_per_em) + origin * SUBPIXELS
}

/// Computes the two parts of the scale: `pixel_scale_num` and `scale_den`.
pub(crate) fn scale_factors(size: FontSize, units_per_em: u16) -> (r: (i128, i128))
    requires
        0 < units_per_em <= MAX_UNITS_PER_EM,
    ensures
        r.0 == pixel_scale_num(size),
        r.1 == scale_den(size, units_per_em),
        0 <= r.0 <= 0x10_0000_0000_0000_0000_0000,
        0 < r.1 <= 0x8000_0000,
{
    let per_em: i128 = units_per_em as i128;
    match size {
        FontSize::Px(x) => {
            let px: i128 = x as i128;
            assert(0 <= px * EM_CORRECTION_NUM <= 0x10_0000_0000_0000_0000_0000)
                by (nonlinear_arith)
                requires
                    EM_CORRECTION_NUM == 1254,
                    0 <= px <= 0xffff_ffff_ffff_ffff,
            ;
            assert(0 < EM_CORRECTION_DEN * per_em <= 0x8000_0000) by (nonlinear_arith)
                requires
                    EM_CORRECTION_DEN == 1000,
                    0 < per_em <= 16384,
            ;
            assert(1 * EM_CORRECTION_DEN * per_em == EM_CORRECTION_DEN * per_em)
                by (nonlinear_arith);
            (px * EM_CORRECTION_NUM, EM_CORRECTION_DEN * per_em)
        },
        FontSize::Pt(x) => {
            let px_num: i128 = x as i128 * (POINT_DPI as i128);
            let px_den: i128 = POINTS_PER_INCH as i128;
            assert(0 <= px_num * EM_CORRECTION_NUM <= 0x10_0000_0000_0000_0000_0000)
                by (nonlinear_arith)
                requires
                    EM_CORRECTION_NUM == 1254,
                    0 <= px_num <= 0xffff_ffff_ffff_ffff * 150,
            ;
            assert(px_den * EM_CORRECTION_DEN == 72000) by (nonlinear_arith)
                requires
                    EM_CORRECTION_DEN == 1000,
                    px_den == 72,
            ;
            let den_base: i128 = px_den * EM_CORRECTION_DEN;
            assert(0 < den_base * per_em <= 0x8000_0000) by (nonlinear_arith)
                requires
                    den_base == 72000,
                    0 < per_em <= 16384,
            ;
            (px_num * EM_CORRECTION_NUM, den_base * per_em)
        },
    }
}

/// A quotient by a positive divisor is no larger in magnitude than the
/// dividend.
proof fn lemma_quotient_bounded(n: int, d: int)
    requires
        d > 0,
    ensures
        n >= 0 ==> 0 <= n / d <= n,
        n < 0 ==> n <= n / d < 0,
{
    lemma_fundamental_div_mod(n, d);
    lemma_mod_bound(n, d);
    let q = n / d;
    let r = n % d;
    assert(n == d * q + r);
    if n >= 0 {
        assert(q >= 0) by (nonlinear_arith)
            requires
                n == d * q + r,
                0 <= r < d,
                n >= 0,
                d > 0,
        ;
        assert(q <= n) by (nonlinear_arith)
            requires
                n == d * q + r,
                0 <= r < d,
                q >= 0,
                d > 0,
        ;
    } else {
        assert(q < 0) by (nonlinear_arith)
            requires
                n == d * q + r,
                0 <= r < d,
                n < 0,
                d > 0,
        ;
        assert(q >= n) by (nonlinear_arith)
            requires
                n == d * q + r,
                0 <= r < d,
                q < 0,
                d > 0,
        ;
    }
}

/// A dividend far from zero has a quotient far from zero.
proof fn lemma_quotient_large(n: int, d: int, bound: int)
    requires
        0 < d,
        0 <= bound,
    ensures
        n >= d * (bound + 1) ==> n / d > bound,
        n <= -(d * (bound + 1)) ==> n / d < -bound,
{
    lemma_fundamental_div_mod(n, d);
    lemma_mod_bound(n, d);
    let q = n / d;
    let r = n % d;
    if n >= d * (bound + 1) {
        assert(q > bound) by (nonlinear_arith)
            requires
                n == d * q + r,
                0 <= r < d,
                n >= d * (bound + 1),
                d > 0,
        ;
    }
    if n <= -(d * (bound + 1)) {
        assert(q < -bound) by (nonlinear_arith)
            requires
                n == d * q + r,
                0 <= r < d,
                n <= -(d * (bound + 1)),
                d > 0,
        ;
    }
}

/// Divides by a positive divisor, rounding down.
fn floor_div(n: i128, d: i128) -> (q: i128)
    requires
        d > 0,
    ensures
        q == n / d,
{
    proof {
        lemma_quotient_bounded(n as int, d as int);
    }
    match n.checked_div_euclid(d) {
        Some(q) => q,
        None => 0,
    }
}

/// Computes where a coordinate lands; `None` where the position does not fit
/// a coordinate.
pub(crate) fn place(coord: i32, pen: i128, origin: i32, size: FontSize, units_per_em: u16) -> (r:
    Option<i32>)
    requires
        0 < units_per_em <= MAX_UNITS_PER_EM,
        -PEN_LIMIT <= pen <= PEN_LIMIT,
    ensures
        fits_i32(placed(coord as int, pen as int, origin as int, size, units_per_em)) ==> r == Some(
            placed(coord as int, pen as int, origin as int, size, units_per_em) as i32,
        ),
        !fits_i32(placed(coord as int, pen as int, origin as int, size, units_per_em)) ==> r
            is None,
{
    let (pixel_num, den) = scale_factors(size, units_per_em);
    let num: i128 = pixel_num * SUBPIXELS;
    let units: i128 = coord as i128 + pen;
    let shift: i128 = origin as i128 * SUBPIXELS;
    let ghost exact = units * num;
    match units.checked_mul(num) {
        None => {
            proof {
                let bound: int = 0x1_0000_0000_0000;
                assert(den * (bound + 1) <= 0x8000_0000 * (bound + 1)) by (nonlinear_arith)
                    requires
                        0 < den <= 0x8000_0000,
                        bound + 1 > 0,
                ;
                lemma_quotient_large(exact, den as int, bound);
            }
            None
        },
        Some(product) => {
            let quotient: i128 = floor_div(product, den);
            match quotient.checked_add(shift) {
                None => None,
                Some(position) => {
                    if position < i32::MIN as i128 || position > i32::MAX as i128 {
                        None
                    } else {
                        Some(position as i32)
                    }
                },
            }
        },
    }
}

/// Computes a length in whole pixels, rounded toward zero; `None` where the
/// length is beyond `MEASURE_LIMIT` pixels either way.
pub(crate) fn measure(units: i128, size: FontSize, units_per_em: u16) -> (r: Option<i128>)
    requires
        0 < units_per_em <= MAX_UNITS_PER_EM,
        -PEN_LIMIT <= units <= PEN_LIMIT,
    ensures
        match r {
            Some(pixels) => pixels == to_pixels(units as int, size, units_per_em)
                && -MEASURE_LIMIT <= pixels <= MEASURE_LIMIT,
            None => to_pixels(units as int, size, units_per_em) > MEASURE_LIMIT || to_pixels(
                units as int,
                size,
                units_per_em,
            ) < -MEASURE_LIMIT,
        },
{
    let (num, den) = scale_factors(size, units_per_em);
    let ghost exact = units * num;
    proof {
        let magnitude = if exact >= 0 {
            exact
        } else {
            -exact
        };
        lemma_quotient_bounded(magnitude, den as int);
        let bound: int = MEASURE_LIMIT as int;
        assert(den * (bound + 1) <= 0x8000_0000 * (bound + 1)) by (nonlinear_arith)
            requires
                0 < den <= 0x8000_0000,
                bound + 1 > 0,
        ;
        lemma_quotient_large(magnitude, den as int, bound);
    }
    match units.checked_mul(num) {
        None => None,
        Some(product) => {
            let pixels: i128 = product / den;
            if pixels > MEASURE_LIMIT || pixels < -MEASURE_LIMIT {
                None
            } else {
                Some(pixels)
            }
        },
    }
}

/// An exact fraction `num / den`.
#[derive(Clone, Copy, Debug, PartialEq, Eq, Structural)]
pub struct Fraction {
    pub num: i64,
    pub den: i64,
}

/// The numerator of a position in normalized device coordinates, over
/// `normalized_den`. A position of `position` sixty-fourths of a pixel along
/// an axis of `extent` pixels is `position / 64 / extent * 2 - 1`: minus one
/// where the axis starts and one where it ends.
pub open spec fn normalized_num(position: int, extent: int) -> int {
    2 * position - SUBPIXELS * extent
}

/// The denominator of a position in normalized device coordinates.
pub open spec fn normalized_den(extent: int) -> int {
    SUBPIXELS * extent
}

/// Converts a position along an axis of `extent` pixels to normalized device
/// coordinates, as an exact fraction. The start of the axis becomes -1, its
/// middle 0 and its end 1.
pub fn normalized(position: i32, extent: u32) -> (r: Fraction)
    ensures
        r.num == normalized_num(position as int, extent as int),
        r.den == normalized_den(extent as int),
        position == 0 ==> r.num == -r.den,
        2 * position == SUBPIXELS * extent ==> r.num == 0,
        position == SUBPIXELS * extent ==> r.num == r.den,
{
    let span: i64 = 64 * (extent as i64);
    assert(span == SUBPIXELS * extent) by (nonlinear_arith)
        requires
            span == 64 * extent,
            SUBPIXELS == 64,
    ;
    Fraction { num: 2 * (position as i64) - span, den: span }
}

/// Converts a shift of `thirds` thirds of a pixel along an axis of `extent`
/// pixels to normalized device coordinates, where the whole axis is two
/// long: the exact fraction `2 * thirds / (3 * extent)`.
pub fn normalized_shift(thirds: i8, extent: u32) -> (r: Fraction)
    ensures
        r.num == 2 * thirds,
        r.den == 3 * extent,
{
    Fraction { num: 2 * (thirds as i64), den: 3 * (extent as i64) }
}

} // verus!
