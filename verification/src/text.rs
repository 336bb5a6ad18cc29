//! Styled runs of text: font sizes, alignment, and the span that ties a
//! shaped glyph run to a place on the page.

use vstd::prelude::*;
use crate::error::TextError;
use crate::face::FontFace;
use crate::fill::MeshView;
use crate::geometry::Point;
use crate::layout::{layout, pen_x, run_data};
use crate::mesh::{lay_out, total_advance, GlyphMesh, GlyphRun, TextMesh};
use crate::placement::{fits_i32, measure, to_pixels, trunc_div, Placement, MEASURE_LIMIT};
use crate::GlyphData;

verus! {

/// A color with eight bits for each of red, green, blue and opacity.
#[derive(Copy, Clone, Debug, PartialEq, Eq, Structural)]
pub struct Color {
    pub r: u8,
    pub g: u8,
    pub b: u8,
    pub a: u8,
}

impl Color {
    /// Opaque black.
    pub open spec fn spec_black() -> Color {
        Color { r: 0, g: 0, b: 0, a: 255 }
    }

    /// Opaque black.
    #[verifier::when_used_as_spec(spec_black)]
    pub fn black() -> (color: Color)
        ensures
            color == Color::spec_black(),
    {
        Color { r: 0, g: 0, b: 0, a: 255 }
    }
}

/// Where content sits in its box along one axis.
#[derive(Copy, Clone, Debug, PartialEq, Eq, Structural)]
pub enum Alignment {
    Start,
    Middle,
    End,
}

impl Default for Alignment {
    fn default() -> (alignment: Alignment)
        ensures
            alignment == Alignment::Start,
    {
        Alignment::Start
    }
}

/// Pixels per inch at which point sizes are converted to pixels.
pub const POINT_DPI: u128 = 150;

/// Points per inch.
pub const POINTS_PER_INCH: u128 = 72;

/// A font size, in pixels or in points. A point is `POINT_DPI /
/// POINTS_PER_INCH` pixels.
#[derive(Copy, Clone, Debug, PartialEq, Eq, Structural)]
pub enum FontSize {
    Px(usize),
    Pt(usize),
}

impl FontSize {
    /// The numerator of the size in pixels, over `px_den`.
    pub open spec fn px_num(self) -> int {
        match self {
            FontSize::Px(x) => x as int,
            FontSize::Pt(x) => x * POINT_DPI,
        }
    }

    /// The denominator of the size in pixels.
    pub open spec fn px_den(self) -> int {
        match self {
            FontSize::Px(_) => 1,
            FontSize::Pt(_) => POINTS_PER_INCH as int,
        }
    }

    /// The size in whole pixels, rounded to the nearest; halves round up.
    pub open spec fn whole_px(self) -> int {
        (2 * self.px_num() + self.px_den()) / (2 * self.px_den())
    }

    /// The size as a fraction of pixels: numerator and denominator.
    pub fn to_px_fraction(&self) -> (r: (u128, u128))
        ensures
            r.0 == self.px_num(),
            r.1 == self.px_den(),
    {
        match self {
            FontSize::Px(x) => (*x as u128, 1),
            FontSize::Pt(x) => (*x as u128 * POINT_DPI, POINTS_PER_INCH),
        }
    }

    /// The size in whole pixels, rounded to the nearest with halves rounding
    /// up.
    pub fn to_whole_px(&self) -> (r: u128)
        ensures
            r == self.whole_px(),
            r <= 0x4_0000_0000_0000_0000,
    {
        match self {
            FontSize::Px(x) => {
                let px: u128 = *x as u128;
                assert(self.px_den() == 1 && self.px_num() == px);
                assert((2 * px + 1) / 2 == px);
                px
            },
            FontSize::Pt(x) => {
                let px_num: u128 = *x as u128 * 150;
                assert(px_num == *x * POINT_DPI) by (nonlinear_arith)
                    requires
                        px_num == *x * 150,
                        POINT_DPI == 150,
                ;
                assert(self.px_den() == 72 && self.px_num() == px_num);
                (2 * px_num + 72) / 144
            },
        }
    }

    /// The size in whole pixels as an `i32`; `None` where it does not fit.
    pub fn to_px(&self) -> (r: Option<i32>)
        ensures
            self.whole_px() <= i32::MAX ==> r == Some(self.whole_px() as i32),
            self.whole_px() > i32::MAX ==> r is None,
    {
        let rounded: u128 = self.to_whole_px();
        if rounded > i32::MAX as u128 {
            None
        } else {
            Some(rounded as i32)
        }
    }
}

/// How far content moves from the start of its box: not at all at the
/// start, by half the box less half the content in the middle, and by the box
/// less the content at the end. Halves are rounded toward zero.
pub open spec fn align_offset(alignment: Alignment, box_extent: int, content_extent: int) -> int {
    match alignment {
        Alignment::Start => 0,
        Alignment::Middle => trunc_div(box_extent, 2) - trunc_div(content_extent, 2),
        Alignment::End => box_extent - content_extent,
    }
}

/// A run of text in one style: what it says, in which face and size, where
/// it starts, the box it is aligned in (if any), and its color.
#[derive(Debug)]
pub struct Span {
    text: String,
    font_face: FontFace,
    position: Point,
    font_size: FontSize,
    size: Option<(usize, usize)>,
    v_align: Alignment,
    h_align: Alignment,
    color: Color,
}

/// What a `Span` holds. `position` is in whole pixels, as are the width and
/// the height of the box `size`.
pub struct SpanView {
    pub text: Seq<char>,
    pub font_face: FontFace,
    pub position: Point,
    pub font_size: FontSize,
    pub size: Option<(usize, usize)>,
    pub v_align: Alignment,
    pub h_align: Alignment,
    pub color: Color,
}

impl SpanView {
    /// The width of a shaped run in whole pixels: the sum of its horizontal
    /// advances, scaled to the font size and rounded toward zero.
    pub open spec fn content_width(self, run: Seq<(Option<GlyphMesh>, GlyphData)>) -> int {
        to_pixels(
            pen_x(run_data(run), run.len()),
            self.font_size,
            self.font_face.spec_units_per_em(),
        )
    }

    /// Where the text starts horizontally, in pixels: at the position,
    /// moved within the box as the horizontal alignment says.
    pub open spec fn origin_x(self, run: Seq<(Option<GlyphMesh>, GlyphData)>) -> int {
        match self.size {
            None => self.position.x as int,
            Some(size) => self.position.x + align_offset(
                self.h_align,
                size.0 as int,
                self.content_width(run),
            ),
        }
    }

    /// Where the text starts vertically, in pixels: at the position, moved
    /// within the box as the vertical alignment says. The height of the
    /// content is the font size in whole pixels.
    pub open spec fn origin_y(self) -> int {
        match self.size {
            None => self.position.y as int,
            Some(size) => self.position.y + align_offset(
                self.v_align,
                size.1 as int,
                self.font_size.whole_px(),
            ),
        }
    }

    /// The mesh of the span for a shaped run: the run laid out from the
    /// aligned origin, or `OutOfRange` where the origin does not fit a
    /// coordinate.
    pub open spec fn mesh(
        self,
        run: Seq<(Option<GlyphMesh>, GlyphData)>,
        color_index: u32,
    ) -> Result<MeshView, TextError> {
        if !fits_i32(self.origin_x(run)) || !fits_i32(self.origin_y()) {
            Err(TextError::OutOfRange)
        } else {
            layout(
                run,
                run.len(),
                Placement {
                    size: self.font_size,
                    units_per_em: self.font_face.spec_units_per_em(),
                    origin: Point { x: self.origin_x(run) as i32, y: self.origin_y() as i32 },
                },
                color_index,
            )
        }
    }
}

impl View for Span {
    type V = SpanView;

    closed spec fn view(&self) -> SpanView {
        SpanView {
            text: self.text@,
            font_face: self.font_face,
            position: self.position,
            font_size: self.font_size,
            size: self.size,
            v_align: self.v_align,
            h_align: self.h_align,
            color: self.color,
        }
    }
}

impl Clone for Span {
    fn clone(&self) -> (copy: Self)
        ensures
            copy@ == self@,
    {
        Span {
            text: self.text.clone(),
            font_face: self.font_face,
            position: self.position,
            font_size: self.font_size,
            size: self.size,
            v_align: self.v_align,
            h_align: self.h_align,
            color: self.color,
        }
    }
}

/// Halves `v`, rounding toward zero.
fn half(v: i128) -> (h: i128)
    ensures
        h == trunc_div(v as int, 2),
{
    v / 2
}

/// Computes `align_offset`.
fn offset_in_box(alignment: Alignment, box_extent: usize, content_extent: i128) -> (offset: i128)
    requires
        -MEASURE_LIMIT <= content_extent <= MEASURE_LIMIT,
    ensures
        offset == align_offset(alignment, box_extent as int, content_extent as int),
{
    match alignment {
        Alignment::Start => 0,
        Alignment::Middle => half(box_extent as i128) - half(content_extent),
        Alignment::End => box_extent as i128 - content_extent,
    }
}

impl Span {
    /// A span of `text` in `font_face` that starts at `(x, y)` pixels: twelve
    /// points, opaque black, in no box.
    pub fn new(font_face: FontFace, text: &str, x: i32, y: i32) -> (span: Self)
        ensures
            span@ == (SpanView {
                text: text@,
                font_face,
                position: Point { x, y },
                font_size: FontSize::Pt(12),
                size: None,
                v_align: Alignment::Start,
                h_align: Alignment::Start,
                color: Color::black(),
            }),
    {
        Span {
            text: text.to_owned(),
            font_face,
            position: Point { x, y },
            font_size: FontSize::Pt(12),
            size: None,
            v_align: Alignment::Start,
            h_align: Alignment::Start,
            color: Color::black(),
        }
    }

    /// Puts the span in a box of `width` by `height` pixels, whose corner is
    /// the span's position.
    pub fn with_size(self, width: usize, height: usize) -> (span: Self)
        ensures
            span@ == (SpanView { size: Some((width, height)), ..self@ }),
    {
        let mut span = self;
        span.size = Some((width, height));
        span
    }

    /// Sets the font size.
    pub fn with_font_size(self, font_size: FontSize) -> (span: Self)
        ensures
            span@ == (SpanView { font_size, ..self@ }),
    {
        let mut span = self;
        span.font_size = font_size;
        span
    }

    /// Sets the vertical alignment in the box.
    pub fn with_v_align(self, v_align: Alignment) -> (span: Self)
        ensures
            span@ == (SpanView { v_align, ..self@ }),
    {
        let mut span = self;
        span.v_align = v_align;
        span
    }

    /// Sets the horizontal alignment in the box.
    pub fn with_h_align(self, h_align: Alignment) -> (span: Self)
        ensures
            span@ == (SpanView { h_align, ..self@ }),
    {
        let mut span = self;
        span.h_align = h_align;
        span
    }

    /// Sets the color.
    pub fn with_color(self, color: Color) -> (span: Self)
        ensures
            span@ == (SpanView { color, ..self@ }),
    {
        let mut span = self;
        span.color = color;
        span
    }

    /// The color of the span.
    pub fn get_color(&self) -> (color: Color)
        ensures
            color == self@.color,
    {
        self.color
    }

    /// The text of the span.
    pub fn text(&self) -> (text: &str)
        ensures
            text@ == self@.text,
    {
        self.text.as_str()
    }

    /// The face the span is set in.
    pub fn font_face(&self) -> (face: FontFace)
        ensures
            face == self@.font_face,
    {
        self.font_face
    }

    /// Where the span starts before it is aligned, in whole pixels.
    pub fn position(&self) -> (position: Point)
        ensures
            position == self@.position,
    {
        self.position
    }

    /// The font size.
    pub fn font_size(&self) -> (font_size: FontSize)
        ensures
            font_size == self@.font_size,
    {
        self.font_size
    }

    /// The width and height of the box the span is aligned in, if any.
    pub fn size(&self) -> (size: Option<(usize, usize)>)
        ensures
            size == self@.size,
    {
        self.size
    }

    /// The horizontal alignment in the box.
    pub fn h_align(&self) -> (alignment: Alignment)
        ensures
            alignment == self@.h_align,
    {
        self.h_align
    }

    /// The vertical alignment in the box.
    pub fn v_align(&self) -> (alignment: Alignment)
        ensures
            alignment == self@.v_align,
    {
        self.v_align
    }

    /// Where the text of the span starts once it is aligned in its box, in
    /// whole pixels; `None` where that does not fit a coordinate.
    ///
    /// Without a box the origin is the position. In a box of width `W`, with
    /// content `w` pixels wide, horizontal alignment moves it by nothing at
    /// the start, by `W / 2 - w / 2` in the middle, and by `W - w` at the
    /// end; vertical alignment does the same with the height of the box and
    /// the font size in whole pixels.
    pub fn aligned_origin(&self, run: &GlyphRun) -> (origin: Option<Point>)
        ensures
            match origin {
                Some(p) => p.x == self@.origin_x(run@) && p.y == self@.origin_y(),
                None => !fits_i32(self@.origin_x(run@)) || !fits_i32(self@.origin_y()),
            },
    {
        let mut x: i128 = self.position.x as i128;
        let mut y: i128 = self.position.y as i128;
        if let Some(size) = self.size {
            match self.h_align {
                Alignment::Start => {},
                _ => {
                    let advance = total_advance(run);
                    match measure(advance.0, self.font_size, self.font_face.units_per_em()) {
                        Some(width) => {
                            x = x + offset_in_box(self.h_align, size.0, width);
                        },
                        None => {
                            return None;
                        },
                    }
                },
            }
            match self.v_align {
                Alignment::Start => {},
                _ => {
                    let height: u128 = self.font_size.to_whole_px();
                    y = y + offset_in_box(self.v_align, size.1, height as i128);
                },
            }
        }
        if x < i32::MIN as i128 || x > i32::MAX as i128 || y < i32::MIN as i128 || y
            > i32::MAX as i128 {
            None
        } else {
            Some(Point { x: x as i32, y: y as i32 })
        }
    }

    /// Makes the mesh of the span from its shaped glyph run `run`, stamping
    /// every vertex with `color_index`: the run is measured, the origin is
    /// aligned in the box, and the glyphs are laid out from there. Fails with
    /// `OutOfRange` where the aligned origin or a vertex does not fit a
    /// coordinate, and with `TooManyVertices` where the mesh needs more than
    /// `MAX_VERTICES` vertices.
    pub fn generate_text_mesh(&self, run: &GlyphRun, color_index: u32) -> (r: Result<
        TextMesh,
        TextError,
    >)
        ensures
            match self@.mesh(run@, color_index) {
                Ok(mesh) => r is Ok && r->Ok_0@ == mesh && mesh.indices_in_range(),
                Err(e) => r is Err && r->Err_0 == e,
            },
    {
        match self.aligned_origin(run) {
            None => Err(TextError::OutOfRange),
            Some(origin) => {
                let p = Placement {
                    size: self.font_size,
                    units_per_em: self.font_face.units_per_em(),
                    origin,
                };
                lay_out(run, &p, color_index)
            },
        }
    }
}

/// A span centered horizontally in a box of width `W` starts at its
/// position plus `W / 2` less half the measured width of its content, with
/// both halves rounded toward zero. That is no more than one pixel away
/// from centering the content exactly.
pub proof fn lemma_middle_alignment(span: SpanView, run: Seq<(Option<GlyphMesh>, GlyphData)>)
    requires
        span.size is Some,
        span.h_align == Alignment::Middle,
    ensures
        span.origin_x(run) == span.position.x + trunc_div(span.size->Some_0.0 as int, 2)
            - trunc_div(span.content_width(run), 2),
        -2 <= 2 * (span.origin_x(run) - span.position.x) - (span.size->Some_0.0
            - span.content_width(run)) <= 1,
{
}

/// A span aligned at the start of its box, or in no box, starts at its
/// position; one aligned at the end starts where its content ends with the
/// box.
pub proof fn lemma_start_and_end_alignment(
    span: SpanView,
    run: Seq<(Option<GlyphMesh>, GlyphData)>,
)
    ensures
        span.size is None || span.h_align == Alignment::Start ==> span.origin_x(run)
            == span.position.x,
        span.size is None || span.v_align == Alignment::Start ==> span.origin_y()
            == span.position.y,
        span.size is Some && span.h_align == Alignment::End ==> span.origin_x(run)
            + span.content_width(run) == span.position.x + span.size->Some_0.0,
        span.size is Some && span.v_align == Alignment::End ==> span.origin_y()
            + span.font_size.whole_px() == span.position.y + span.size->Some_0.1,
{
}

} // verus!
