//! What is handed to the rasterizer: vertices, antialiasing modes, and the
//! batch that combines the meshes of several spans.

use vstd::prelude::*;
use crate::batch::{
    color_slot, compose, join, lemma_compose_error_sticks, lemma_palette_counts_distinct_colors,
    lemma_palette_is_small, lemma_position_after_push, lemma_position_is_first, palette, position,
    render_outcome, span_colors, span_views, BatchView,
};
use crate::error::TextError;
use crate::fill::{MeshView, MAX_VERTICES};
use crate::geometry::Point;
use crate::mesh::{append_all, push_offset_indices, GlyphRun};
use crate::placement::{
    normalized, normalized_den, normalized_num, normalized_shift, Fraction,
};
use crate::text::{Color, Span};

verus! {

/// A texture coordinate, counted in halves: `u = 1` stands for one half,
/// `u = 2` for one.
#[derive(Clone, Copy, Debug, PartialEq, Eq, Structural)]
pub struct TexCoord {
    pub u: u8,
    pub v: u8,
}

/// The metadata of a vertex of the flat fill.
pub const FLAT_FILL: i32 = 0;

/// The metadata bit that marks a vertex of a curve triangle.
pub const CURVE_BIT: i32 = 2;

/// The metadata bit that marks a curve triangle as concave.
pub const CONCAVE_BIT: i32 = 1;

/// One vertex of a mesh.
///
/// `position` is in font design units in the mesh of a single glyph and in
/// sixty-fourths of a pixel in a laid-out text mesh; its depth is always
/// zero and is not stored. `metadata` is `FLAT_FILL` for the flat fill, and
/// `CURVE_BIT`, with `CONCAVE_BIT` added for a concave curve, for a curve
/// triangle. `color_index` names an entry of the palette that comes with the
/// mesh.
#[derive(Clone, Copy, Debug, PartialEq, Eq, Structural)]
pub struct GlyphVertex {
    pub position: Point,
    pub uv: TexCoord,
    pub metadata: i32,
    pub color_index: u32,
}

impl GlyphVertex {
    /// The position of a laid-out vertex in normalized device coordinates,
    /// on a target of `width` by `height` pixels: each coordinate as an
    /// exact fraction, -1 where its axis starts and 1 where it ends.
    pub fn normalized_position(&self, width: u32, height: u32) -> (r: (Fraction, Fraction))
        ensures
            r.0.num == normalized_num(self.position.x as int, width as int),
            r.0.den == normalized_den(width as int),
            r.1.num == normalized_num(self.position.y as int, height as int),
            r.1.den == normalized_den(height as int),
    {
        (normalized(self.position.x, width), normalized(self.position.y, height))
    }
}

/// How many samples per pixel the rasterizer takes.
#[derive(Clone, Copy, Debug, PartialEq, Eq, PartialOrd, Structural)]
pub enum AAMode {
    Disabled,
    MSAAx2,
    MSAAx4,
    MSAAx8,
}

impl Default for AAMode {
    fn default() -> (mode: AAMode)
        ensures
            mode == AAMode::Disabled,
    {
        AAMode::Disabled
    }
}

impl AAMode {
    /// The number of samples per pixel in this mode.
    pub open spec fn sample_count(self) -> u32 {
        match self {
            AAMode::Disabled => 1,
            AAMode::MSAAx2 => 2,
            AAMode::MSAAx4 => 4,
            AAMode::MSAAx8 => 8,
        }
    }

    /// Whether the sample count is one that a device offers only as an
    /// adapter-specific feature: two and eight samples are; one and four are
    /// always available.
    pub open spec fn extra_feature(self) -> bool {
        self == AAMode::MSAAx2 || self == AAMode::MSAAx8
    }

    pub fn to_sample_count(&self) -> (count: u32)
        ensures
            count == self.sample_count(),
    {
        match self {
            AAMode::Disabled => 1,
            AAMode::MSAAx2 => 2,
            AAMode::MSAAx4 => 4,
            AAMode::MSAAx8 => 8,
        }
    }

    pub fn needs_extra_feature(&self) -> (needed: bool)
        ensures
            needed == self.extra_feature(),
    {
        match self {
            AAMode::Disabled => false,
            AAMode::MSAAx2 => true,
            AAMode::MSAAx4 => false,
            AAMode::MSAAx8 => true,
        }
    }
}

/// A horizontal shift of the whole picture, in thirds of a pixel. The
/// rasterizer draws the batch once for each shift.
#[derive(Clone, Copy, Debug, PartialEq, Eq, Structural)]
pub struct SubpixelOffsetInstanceRaw {
    pub thirds: i8,
}

impl SubpixelOffsetInstanceRaw {
    /// The shift in normalized device coordinates on a target `width` pixels
    /// wide, as an exact fraction.
    pub fn normalized(&self, width: u32) -> (r: Fraction)
        ensures
            r.num == 2 * self.thirds,
            r.den == 3 * width,
    {
        normalized_shift(self.thirds, width)
    }
}

/// Everything the rasterizer needs for one draw call.
///
/// `subpixel_offsets` holds the shifts at which the batch is drawn: a third
/// of a pixel to the left, a third to the right, and none. `width` and
/// `height` are those of the target in pixels.
#[derive(Debug)]
pub struct RenderBatch {
    pub vertices: Vec<GlyphVertex>,
    pub indices: Vec<u16>,
    pub palette: Vec<Color>,
    pub subpixel_offsets: Vec<SubpixelOffsetInstanceRaw>,
    pub width: u32,
    pub height: u32,
    pub sample_count: u32,
}

impl View for RenderBatch {
    type V = BatchView;

    open spec fn view(&self) -> BatchView {
        BatchView {
            mesh: MeshView { vertices: self.vertices@, indices: self.indices@ },
            palette: self.palette@,
        }
    }
}

/// The shifts at which a batch is drawn.
pub open spec fn subpixel_shifts() -> Seq<SubpixelOffsetInstanceRaw> {
    seq![
        SubpixelOffsetInstanceRaw { thirds: -1i8 },
        SubpixelOffsetInstanceRaw { thirds: 1i8 },
        SubpixelOffsetInstanceRaw { thirds: 0i8 },
    ]
}

/// Finds the first index of `color` in `colors`, or the length of `colors`.
fn find_color(colors: &Vec<Color>, color: Color) -> (index: usize)
    ensures
        index == position(colors@, color),
        index <= colors@.len(),
{
    let mut k: usize = 0;
    assert(colors@.skip(0) =~= colors@);
    while k < colors.len()
        invariant
            k <= colors@.len(),
            position(colors@, color) == k + position(colors@.skip(k as int), color),
        decreases colors@.len() - k,
    {
        assert(colors@.skip(k as int)[0] == colors@[k as int]);
        if colors[k] == color {
            return k;
        }
        assert(colors@.skip(k as int).drop_first() =~= colors@.skip(k + 1));
        k = k + 1;
    }
    assert(colors@.skip(k as int).len() == 0);
    k
}

/// Collects spans and combines their meshes into one batch.
pub struct TextureRenderer {
    width: u32,
    height: u32,
    aa_mode: AAMode,
    spans: Vec<Span>,
}

impl TextureRenderer {
    /// The spans added so far, in order.
    pub closed spec fn spec_spans(&self) -> Seq<Span> {
        self.spans@
    }

    /// The width of the target in pixels.
    pub closed spec fn spec_width(&self) -> u32 {
        self.width
    }

    /// The height of the target in pixels.
    pub closed spec fn spec_height(&self) -> u32 {
        self.height
    }

    /// The antialiasing mode.
    pub closed spec fn spec_aa_mode(&self) -> AAMode {
        self.aa_mode
    }

    /// A renderer for a target of `width` by `height` pixels, with no spans.
    pub fn new(width: u32, height: u32, mode: AAMode) -> (renderer: Self)
        ensures
            renderer.spec_spans() == Seq::<Span>::empty(),
            renderer.spec_width() == width,
            renderer.spec_height() == height,
            renderer.spec_aa_mode() == mode,
    {
        TextureRenderer { width, height, aa_mode: mode, spans: Vec::new() }
    }

    /// Adds a span. Spans are drawn in the order they are added.
    pub fn add_span(&mut self, span: Span) -> (renderer: &mut Self)
        ensures
            renderer.spec_spans() == old(self).spec_spans().push(span),
            renderer.spec_width() == old(self).spec_width(),
            renderer.spec_height() == old(self).spec_height(),
            renderer.spec_aa_mode() == old(self).spec_aa_mode(),
            *final(self) == *final(renderer),
    {
        self.spans.push(span);
        self
    }

    /// The spans added so far, in order.
    pub fn spans(&self) -> (spans: &Vec<Span>)
        ensures
            spans@ == self.spec_spans(),
    {
        &self.spans
    }

    /// Combines the spans into one batch. `runs` holds the shaped glyph run
    /// of each span, in the order of the spans.
    ///
    /// The palette holds each color of the spans once, in the order of first
    /// use, so it has as many entries as the spans have distinct colors. The
    /// mesh of each span is made with the palette index of the span's color,
    /// and the meshes are joined in the order of the spans, each with its
    /// indices shifted by the number of vertices before it. Every index of
    /// the batch names one of its vertices.
    pub fn render(self, runs: &Vec<GlyphRun>) -> (r: Result<RenderBatch, TextError>)
        ensures
            match render_outcome(span_views(self.spec_spans()), runs@) {
                Ok(batch) => r is Ok && r->Ok_0@ == batch && batch.mesh.indices_in_range()
                    && batch.palette.no_duplicates() && batch.palette.len() == span_colors(
                    span_views(self.spec_spans()),
                ).to_set().len() && r->Ok_0.subpixel_offsets@ == subpixel_shifts()
                    && r->Ok_0.width == self.spec_width() && r->Ok_0.height == self.spec_height()
                    && r->Ok_0.sample_count == self.spec_aa_mode().sample_count(),
                Err(e) => r is Err && r->Err_0 == e,
            },
    {
        if runs.len() != self.spans.len() {
            return Err(TextError::ShapingFailure);
        }
        let ghost spans = span_views(self.spans@);
        let ghost colors = span_colors(spans);
        let mut all_vertices: Vec<GlyphVertex> = Vec::new();
        let mut all_indices: Vec<u16> = Vec::new();
        let mut all_colors: Vec<Color> = Vec::new();
        let mut i: usize = 0;
        while i < self.spans.len()
            invariant
                i <= self.spans@.len(),
                runs@.len() == self.spans@.len(),
                spans == span_views(self.spans@),
                colors == span_colors(spans),
                all_colors@ == palette(colors, i as nat),
                compose(spans, runs@, i as nat) == Ok::<MeshView, TextError>(
                    MeshView { vertices: all_vertices@, indices: all_indices@ },
                ),
                all_vertices@.len() <= MAX_VERTICES,
                forall|k: int|
                    0 <= k < all_indices@.len() ==> (#[trigger] all_indices@[k])
                        < all_vertices@.len(),
            decreases self.spans@.len() - i,
        {
            let span = &self.spans[i];
            let color = span.get_color();
            assert(color == colors[i as int]);
            let slot: usize = find_color(&all_colors, color);
            if slot == all_colors.len() {
                all_colors.push(color);
            }
            proof {
                lemma_position_is_first(palette(colors, i as nat), color);
                lemma_palette_is_small(colors, i as nat);
                lemma_palette_is_small(colors, (i + 1) as nat);
                lemma_position_after_push(palette(colors, i as nat), color);
                assert(all_colors@ == palette(colors, (i + 1) as nat));
                assert(slot == color_slot(colors, i as int));
            }
            let ghost so_far = MeshView { vertices: all_vertices@, indices: all_indices@ };
            let mesh = match span.generate_text_mesh(&runs[i], slot as u32) {
                Ok(mesh) => mesh,
                Err(e) => {
                    proof {
                        lemma_compose_error_sticks(spans, runs@, (i + 1) as nat, spans.len());
                    }
                    return Err(e);
                },
            };
            let base: usize = all_vertices.len();
            if mesh.vertices.len() > MAX_VERTICES - base {
                proof {
                    lemma_compose_error_sticks(spans, runs@, (i + 1) as nat, spans.len());
                }
                return Err(TextError::TooManyVertices);
            }
            push_offset_indices(&mut all_indices, &mesh.indices, base);
            append_all(&mut all_vertices, &mesh.vertices);
            proof {
                let after = compose(spans, runs@, (i + 1) as nat);
                assert(after == join(so_far, mesh@));
                assert(after->Ok_0 =~= (MeshView {
                    vertices: all_vertices@,
                    indices: all_indices@,
                }));
                assert forall|k: int| 0 <= k < all_indices@.len() implies (
                #[trigger] all_indices@[k]) < all_vertices@.len() by {
                    if k >= so_far.indices.len() {
                        let j = k - so_far.indices.len();
                        assert(all_indices@[k] == (mesh.indices@[j] + base) as u16);
                    }
                }
            }
            i = i + 1;
        }
        proof {
            lemma_palette_counts_distinct_colors(colors);
        }
        let mut subpixel_offsets: Vec<SubpixelOffsetInstanceRaw> = Vec::new();
        subpixel_offsets.push(SubpixelOffsetInstanceRaw { thirds: -1 });
        subpixel_offsets.push(SubpixelOffsetInstanceRaw { thirds: 1 });
        subpixel_offsets.push(SubpixelOffsetInstanceRaw { thirds: 0 });
        assert(subpixel_offsets@ =~= subpixel_shifts());
        Ok(
            RenderBatch {
                vertices: all_vertices,
                indices: all_indices,
                palette: all_colors,
                subpixel_offsets,
                width: self.width,
                height: self.height,
                sample_count: self.aa_mode.to_sample_count(),
            },
        )
    }
}

} // verus!
