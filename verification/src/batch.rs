//! The mathematical model of a batch: the palette of the colors of a
//! sequence of spans, and the mesh that the meshes of the spans are joined
//! to.

use vstd::prelude::*;
use crate::error::TextError;
use crate::fill::{MeshView, MAX_VERTICES};
use crate::geometry::Point;
use crate::layout::lemma_layout_stamps_color;
use crate::mesh::GlyphRun;
use crate::placement::Placement;
use crate::text::{Color, Span, SpanView};

verus! {

/// The colors of `colors[..n]` in the order of their first occurrence, each
/// once.
pub open spec fn palette(colors: Seq<Color>, n: nat) -> Seq<Color>
    decreases n,
{
    if n == 0 {
        Seq::empty()
    } else {
        let before = palette(colors, (n - 1) as nat);
        if before.contains(colors[n - 1]) {
            before
        } else {
            before.push(colors[n - 1])
        }
    }
}

/// The first index at which `color` occurs in `colors`, or the length of
/// `colors` where it does not occur.
pub open spec fn position(colors: Seq<Color>, color: Color) -> int
    decreases colors.len(),
{
    if colors.len() == 0 {
        0
    } else if colors[0] == color {
        0
    } else {
        1 + position(colors.drop_first(), color)
    }
}

/// The palette index of `colors[i]`: where it stands among the distinct
/// colors up to and including it.
pub open spec fn color_slot(colors: Seq<Color>, i: int) -> int {
    position(palette(colors, (i + 1) as nat), colors[i])
}

/// What each of `spans` holds.
pub open spec fn span_views(spans: Seq<Span>) -> Seq<SpanView> {
    Seq::new(spans.len(), |i: int| spans[i]@)
}

/// The colors of `spans`, in order.
pub open spec fn span_colors(spans: Seq<SpanView>) -> Seq<Color> {
    Seq::new(spans.len(), |i: int| spans[i].color)
}

/// The mesh `first` followed by the mesh `second`, whose indices are shifted
/// by the number of vertices of `first`.
pub open spec fn join(first: MeshView, second: MeshView) -> Result<MeshView, TextError> {
    if first.vertices.len() + second.vertices.len() > MAX_VERTICES {
        Err(TextError::TooManyVertices)
    } else {
        Ok(
            MeshView {
                vertices: first.vertices + second.vertices,
                indices: first.indices + second.indices.map_values(
                    |i: u16| (i + first.vertices.len()) as u16,
                ),
            },
        )
    }
}

/// The meshes of the first `n` spans, joined in order. Each span's mesh is
/// made from its run and stamped with the palette index of its color. The
/// first span that fails decides the error.
pub open spec fn compose(spans: Seq<SpanView>, runs: Seq<GlyphRun>, n: nat) -> Result<
    MeshView,
    TextError,
>
    decreases n,
{
    if n == 0 {
        Ok(MeshView { vertices: Seq::empty(), indices: Seq::empty() })
    } else {
        match compose(spans, runs, (n - 1) as nat) {
            Err(e) => Err(e),
            Ok(so_far) => match spans[n - 1].mesh(
                runs[n - 1]@,
                color_slot(span_colors(spans), n - 1) as u32,
            ) {
                Err(e) => Err(e),
                Ok(mesh) => join(so_far, mesh),
            },
        }
    }
}

/// One draw call's worth of text: the joined meshes of all spans and the
/// palette that their color indices refer to.
#[verifier::ext_equal]
pub struct BatchView {
    pub mesh: MeshView,
    pub palette: Seq<Color>,
}

/// What rendering `spans` with the shaped runs `runs` comes to:
/// `ShapingFailure` unless there is one run for each span, else the error of
/// the first span that fails, else the batch.
pub open spec fn render_outcome(spans: Seq<SpanView>, runs: Seq<GlyphRun>) -> Result<
    BatchView,
    TextError,
> {
    if runs.len() != spans.len() {
        Err(TextError::ShapingFailure)
    } else {
        match compose(spans, runs, spans.len()) {
            Err(e) => Err(e),
            Ok(mesh) => Ok(BatchView { mesh, palette: palette(span_colors(spans), spans.len()) }),
        }
    }
}

/// `position` is the first index of the color, or the length where the
/// color does not occur.
pub proof fn lemma_position_is_first(colors: Seq<Color>, color: Color)
    ensures
        0 <= position(colors, color) <= colors.len(),
        forall|j: int| 0 <= j < position(colors, color) ==> colors[j] != color,
        position(colors, color) < colors.len() ==> colors[position(colors, color)] == color,
        position(colors, color) < colors.len() <==> colors.contains(color),
    decreases colors.len(),
{
    if colors.len() > 0 && colors[0] != color {
        let rest = colors.drop_first();
        lemma_position_is_first(rest, color);
        assert forall|j: int| 0 <= j < position(colors, color) implies colors[j] != color by {
            if j > 0 {
                assert(colors[j] == rest[j - 1]);
            }
        }
        if position(colors, color) < colors.len() {
            assert(colors[position(colors, color)] == rest[position(rest, color)]);
        }
        if colors.contains(color) {
            let k = choose|k: int| 0 <= k < colors.len() && colors[k] == color;
            assert(rest[k - 1] == color);
        }
    }
}

/// A color that is appended because it does not occur yet sits at the old
/// length; one that occurs keeps its index.
pub proof fn lemma_position_after_push(colors: Seq<Color>, color: Color)
    ensures
        !colors.contains(color) ==> position(colors.push(color), color) == colors.len(),
    decreases colors.len(),
{
    if !colors.contains(color) {
        if colors.len() == 0 {
            assert(colors.push(color)[0] == color);
        } else {
            let rest = colors.drop_first();
            assert(colors[0] != color);
            assert(colors.push(color).drop_first() =~= rest.push(color));
            assert(colors.push(color)[0] == colors[0]);
            assert(!rest.contains(color)) by {
                if rest.contains(color) {
                    let k = choose|k: int| 0 <= k < rest.len() && rest[k] == color;
                    assert(colors[k + 1] == color);
                }
            }
            lemma_position_after_push(rest, color);
        }
    }
}

/// The code of a color as one number.
spec fn color_code(c: Color) -> int {
    c.r + 0x100 * c.g + 0x1_0000 * c.b + 0x100_0000 * c.a
}

/// A palette holds no color twice, holds exactly the colors it was made
/// from, and grows only at its end.
pub proof fn lemma_palette_distinct(colors: Seq<Color>, n: nat)
    requires
        n <= colors.len(),
    ensures
        palette(colors, n).no_duplicates(),
        forall|c: Color|
            palette(colors, n).contains(c) <==> exists|j: int| 0 <= j < n && colors[j] == c,
    decreases n,
{
    if n > 0 {
        lemma_palette_distinct(colors, (n - 1) as nat);
        let before = palette(colors, (n - 1) as nat);
        let now = palette(colors, n);
        let last = colors[n - 1];
        assert forall|c: Color| now.contains(c) <==> exists|j: int|
            0 <= j < n && colors[j] == c by {
            if now.contains(c) {
                let k = choose|k: int| 0 <= k < now.len() && now[k] == c;
                if k < before.len() {
                    assert(before[k] == c);
                    assert(before.contains(c));
                    let j = choose|j: int| 0 <= j < n - 1 && colors[j] == c;
                    assert(0 <= j < n && colors[j] == c);
                } else {
                    assert(colors[n - 1] == c);
                }
            }
            if exists|j: int| 0 <= j < n && colors[j] == c {
                let j = choose|j: int| 0 <= j < n && colors[j] == c;
                if j < n - 1 {
                    assert(before.contains(c));
                    let k = choose|k: int| 0 <= k < before.len() && before[k] == c;
                    assert(now[k] == c);
                } else if before.contains(c) {
                } else {
                    assert(now[before.len() as int] == c);
                }
            }
        }
    }
}

/// A palette has at most as many entries as there are colors at all, so
/// every index into it fits thirty-two bits.
pub proof fn lemma_palette_is_small(colors: Seq<Color>, n: nat)
    requires
        n <= colors.len(),
    ensures
        palette(colors, n).len() <= 0x1_0000_0000,
{
    lemma_palette_distinct(colors, n);
    let p = palette(colors, n);
    let codes = p.map_values(|c: Color| color_code(c));
    assert(codes.no_duplicates()) by {
        assert forall|i: int, j: int|
            0 <= i < codes.len() && 0 <= j < codes.len() && i != j implies codes[i]
            != codes[j] by {
            assert(p[i] != p[j]);
            assert(color_code(p[i]) != color_code(p[j]));
        }
    }
    codes.unique_seq_to_set();
    let all = vstd::set_lib::set_int_range(0, 0x1_0000_0000);
    vstd::set_lib::lemma_int_range(0, 0x1_0000_0000);
    assert(codes.to_set().subset_of(all)) by {
        assert forall|v: int| codes.to_set().contains(v) implies all.contains(v) by {
            let k = choose|k: int| 0 <= k < codes.len() && codes[k] == v;
            assert(v == color_code(p[k]));
        }
    }
    vstd::set_lib::lemma_len_subset(codes.to_set(), all);
}

/// Once a span fails, the error stays whatever follows.
pub proof fn lemma_compose_error_sticks(spans: Seq<SpanView>, runs: Seq<GlyphRun>, n: nat, m: nat)
    requires
        n <= m,
        compose(spans, runs, n) is Err,
    ensures
        compose(spans, runs, m) == compose(spans, runs, n),
    decreases m,
{
    if n < m {
        lemma_compose_error_sticks(spans, runs, n, (m - 1) as nat);
    }
}

/// A palette only grows at its end: the palette of fewer colors is the
/// start of the palette of more.
pub proof fn lemma_palette_grows(colors: Seq<Color>, n: nat, m: nat)
    requires
        n <= m,
    ensures
        palette(colors, n).is_prefix_of(palette(colors, m)),
    decreases m,
{
    if n < m {
        lemma_palette_grows(colors, n, (m - 1) as nat);
    }
}

/// Among spans in which `K` distinct colors occur, the palette has exactly
/// `K` entries.
pub proof fn lemma_palette_counts_distinct_colors(colors: Seq<Color>)
    ensures
        palette(colors, colors.len()).no_duplicates(),
        palette(colors, colors.len()).len() == colors.to_set().len(),
{
    let p = palette(colors, colors.len());
    lemma_palette_distinct(colors, colors.len());
    p.unique_seq_to_set();
    assert(p.to_set() =~= colors.to_set()) by {
        assert forall|c: Color| p.to_set().contains(c) <==> colors.to_set().contains(c) by {
            if p.contains(c) {
                let j = choose|j: int| 0 <= j < colors.len() && colors[j] == c;
                assert(colors.contains(c));
            }
            if colors.contains(c) {
                let j = choose|j: int| 0 <= j < colors.len() && colors[j] == c;
                assert(0 <= j < colors.len() && colors[j] == c);
            }
        }
    }
}

/// The palette index of a span's color names that color, in the palette of
/// the spans up to it and in that of any more spans.
pub proof fn lemma_slot_names_color(colors: Seq<Color>, i: int, n: nat)
    requires
        0 <= i < n <= colors.len(),
    ensures
        0 <= color_slot(colors, i) < palette(colors, n).len(),
        color_slot(colors, i) < 0x1_0000_0000,
        palette(colors, n)[color_slot(colors, i)] == colors[i],
{
    let now = palette(colors, (i + 1) as nat);
    lemma_palette_distinct(colors, (i + 1) as nat);
    assert(now.contains(colors[i]));
    lemma_position_is_first(now, colors[i]);
    lemma_palette_grows(colors, (i + 1) as nat, n);
    lemma_palette_is_small(colors, n);
}

/// The number of vertices of the first `i` spans of a batch: where the
/// vertices of span `i` start.
pub open spec fn span_start(spans: Seq<SpanView>, runs: Seq<GlyphRun>, i: nat) -> nat {
    compose(spans, runs, i)->Ok_0.vertices.len()
}

/// Composing never reorders: the batch of more spans starts with the batch
/// of fewer.
pub proof fn lemma_compose_grows(spans: Seq<SpanView>, runs: Seq<GlyphRun>, n: nat, m: nat)
    requires
        n <= m,
        compose(spans, runs, m) is Ok,
    ensures
        compose(spans, runs, n) is Ok,
        compose(spans, runs, n)->Ok_0.vertices.is_prefix_of(compose(spans, runs, m)->Ok_0.vertices),
        span_start(spans, runs, n) <= span_start(spans, runs, m) <= MAX_VERTICES,
    decreases m,
{
    if n < m {
        lemma_compose_grows(spans, runs, n, (m - 1) as nat);
    } else if m > 0 {
        lemma_compose_grows(spans, runs, (m - 1) as nat, (m - 1) as nat);
    }
}

/// Whether vertex `k` of a batch belongs to span `i`.
pub open spec fn vertex_of_span(spans: Seq<SpanView>, runs: Seq<GlyphRun>, i: int, k: int) -> bool {
    &&& 0 <= i < spans.len()
    &&& span_start(spans, runs, i as nat) <= k < span_start(spans, runs, (i + 1) as nat)
}

/// In a batch, the color index of every vertex names the color of the span
/// that the vertex belongs to: the palette holds the span's color at that
/// index.
pub proof fn lemma_vertices_name_span_color(spans: Seq<SpanView>, runs: Seq<GlyphRun>)
    requires
        runs.len() == spans.len(),
        compose(spans, runs, spans.len()) is Ok,
    ensures
        forall|i: int, k: int| #[trigger]
            vertex_of_span(spans, runs, i, k) ==> {
                let batch = compose(spans, runs, spans.len())->Ok_0;
                let table = palette(span_colors(spans), spans.len());
                &&& k < batch.vertices.len()
                &&& batch.vertices[k].color_index < table.len()
                &&& table[batch.vertices[k].color_index as int] == spans[i].color
            },
{
    let n = spans.len();
    let colors = span_colors(spans);
    let batch = compose(spans, runs, n)->Ok_0;
    let table = palette(colors, n);
    assert forall|i: int, k: int| #[trigger] vertex_of_span(spans, runs, i, k) implies {
        &&& k < batch.vertices.len()
        &&& batch.vertices[k].color_index < table.len()
        &&& table[batch.vertices[k].color_index as int] == spans[i].color
    } by {
        lemma_compose_grows(spans, runs, (i + 1) as nat, n);
        lemma_compose_grows(spans, runs, i as nat, (i + 1) as nat);
        let before = compose(spans, runs, i as nat)->Ok_0;
        let after = compose(spans, runs, (i + 1) as nat)->Ok_0;
        let slot = color_slot(colors, i);
        lemma_slot_names_color(colors, i, n);
        let span = spans[i];
        let run = runs[i]@;
        let mesh = span.mesh(run, slot as u32)->Ok_0;
        assert(after == join(before, mesh)->Ok_0);
        assert(after.vertices[k] == mesh.vertices[k - before.vertices.len()]);
        assert(batch.vertices[k] == after.vertices[k]);
        lemma_layout_stamps_color(
            run,
            run.len(),
            Placement {
                size: span.font_size,
                units_per_em: span.font_face.spec_units_per_em(),
                origin: Point { x: span.origin_x(run) as i32, y: span.origin_y() as i32 },
            },
            slot as u32,
        );
        assert(colors[i] == span.color);
    }
}

} // verus!
