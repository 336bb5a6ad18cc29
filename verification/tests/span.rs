use glyph_mesh::error::TextError;
use glyph_mesh::face::FontFace;
use glyph_mesh::geometry::{Point, Rect};
use glyph_mesh::mesh::{GlyphMesh, GlyphRun};
use glyph_mesh::renderer::{GlyphVertex, TexCoord};
use glyph_mesh::text::{Alignment, Color, FontSize, Span};
use glyph_mesh::GlyphData;

fn pt(x: i32, y: i32) -> Point {
    Point { x, y }
}

fn face() -> FontFace {
    FontFace::new(2, 1000, true).unwrap()
}

fn glyph(advance: i32) -> GlyphData {
    GlyphData { glyph_id: 1, x_advance: advance, y_advance: 0, x_offset: 0, y_offset: 0 }
}

fn dot() -> GlyphMesh {
    let v = GlyphVertex {
        position: pt(0, 0),
        uv: TexCoord { u: 0, v: 0 },
        metadata: 0,
        color_index: 0,
    };
    let bounds = Rect { x_min: 0, y_min: 0, x_max: 0, y_max: 0 };
    GlyphMesh::new(1, vec![v], vec![0, 0, 0], bounds).unwrap()
}

/// A run whose advances add up to `total`.
fn run_of(total: i32) -> GlyphRun {
    vec![(Some(dot()), glyph(total - 100)), (None, glyph(100))]
}

#[test]
fn font_size_in_whole_pixels() {
    assert_eq!(FontSize::Px(0).to_px(), Some(0));
    assert_eq!(FontSize::Px(24).to_px(), Some(24));
    assert_eq!(FontSize::Pt(12).to_px(), Some(25));
    assert_eq!(FontSize::Pt(8).to_px(), Some(17));
    assert_eq!(FontSize::Pt(24).to_px(), Some(50));
    assert_eq!(FontSize::Pt(36).to_px(), Some(75));
    assert_eq!(FontSize::Pt(1).to_px(), Some(2));
    assert_eq!(FontSize::Pt(5).to_px(), Some(10));
    assert_eq!(FontSize::Pt(6).to_px(), Some(13));
    assert_eq!(FontSize::Pt(0).to_px(), Some(0));
}

#[test]
fn font_size_beyond_i32_has_no_whole_pixels() {
    assert_eq!(FontSize::Px(i32::MAX as usize).to_px(), Some(i32::MAX));
    assert_eq!(FontSize::Px(i32::MAX as usize + 1).to_px(), None);
    assert_eq!(FontSize::Pt(usize::MAX).to_px(), None);
    assert_eq!(FontSize::Px(usize::MAX).to_whole_px(), usize::MAX as u128);
    assert_eq!(FontSize::Pt(usize::MAX).to_whole_px(), (usize::MAX as u128 * 300 + 72) / 144);
}

#[test]
fn font_size_as_a_fraction_of_pixels() {
    assert_eq!(FontSize::Px(24).to_px_fraction(), (24, 1));
    assert_eq!(FontSize::Pt(12).to_px_fraction(), (1800, 72));
    assert_eq!(FontSize::Pt(usize::MAX).to_px_fraction(), (usize::MAX as u128 * 150, 72));
}

#[test]
fn alignment_starts_at_start() {
    assert_eq!(Alignment::default(), Alignment::Start);
}

#[test]
fn new_span_is_twelve_points_black_and_unboxed() {
    let span = Span::new(face(), "Hello", 3, 4);
    assert_eq!(span.text(), "Hello");
    assert_eq!(span.font_face().handle(), 2);
    assert_eq!(span.font_face().units_per_em(), 1000);
    assert_eq!(span.position(), pt(3, 4));
    assert_eq!(span.font_size(), FontSize::Pt(12));
    assert_eq!(span.size(), None);
    assert_eq!(span.h_align(), Alignment::Start);
    assert_eq!(span.v_align(), Alignment::Start);
    assert_eq!(span.get_color(), Color { r: 0, g: 0, b: 0, a: 255 });
    assert_eq!(span.get_color(), Color::black());
}

#[test]
fn builders_set_one_thing_each() {
    let red = Color { r: 255, g: 0, b: 0, a: 255 };
    let span = Span::new(face(), "x", 3, 4)
        .with_size(640, 480)
        .with_font_size(FontSize::Px(20))
        .with_h_align(Alignment::Middle)
        .with_v_align(Alignment::End)
        .with_color(red);
    assert_eq!(span.text(), "x");
    assert_eq!(span.position(), pt(3, 4));
    assert_eq!(span.size(), Some((640, 480)));
    assert_eq!(span.font_size(), FontSize::Px(20));
    assert_eq!(span.h_align(), Alignment::Middle);
    assert_eq!(span.v_align(), Alignment::End);
    assert_eq!(span.get_color(), red);
}

#[test]
fn span_without_a_box_starts_at_its_position() {
    let span = Span::new(face(), "x", 10, 20)
        .with_h_align(Alignment::End)
        .with_v_align(Alignment::Middle);
    assert_eq!(span.aligned_origin(&run_of(10_000)), Some(pt(10, 20)));
}

#[test]
fn start_alignment_stays_at_the_position() {
    let span = Span::new(face(), "x", 10, 20).with_size(1000, 100).with_font_size(FontSize::Px(20));
    assert_eq!(span.aligned_origin(&run_of(10_000)), Some(pt(10, 20)));
}

#[test]
fn middle_alignment_centers_the_measured_width() {
    // 10000 units at 20 pixels are 250.8 pixels, measured as 250.
    let span = Span::new(face(), "x", 10, 20)
        .with_size(1000, 100)
        .with_font_size(FontSize::Px(20))
        .with_h_align(Alignment::Middle)
        .with_v_align(Alignment::Middle);
    assert_eq!(span.aligned_origin(&run_of(10_000)), Some(pt(10 + 500 - 125, 20 + 50 - 10)));
    assert_eq!(span.aligned_origin(&run_of(10_000)), Some(pt(385, 60)));
}

#[test]
fn end_alignment_ends_with_the_box() {
    let span = Span::new(face(), "x", 10, 20)
        .with_size(1000, 100)
        .with_font_size(FontSize::Px(20))
        .with_h_align(Alignment::End)
        .with_v_align(Alignment::End);
    assert_eq!(span.aligned_origin(&run_of(10_000)), Some(pt(10 + 1000 - 250, 20 + 100 - 20)));
}

#[test]
fn halves_are_rounded_toward_zero() {
    let span = Span::new(face(), "x", 0, 0)
        .with_size(1001, 101)
        .with_font_size(FontSize::Px(21))
        .with_h_align(Alignment::Middle)
        .with_v_align(Alignment::Middle);
    let run = run_of(9562);
    // 9562 units at 21 pixels are 251.8 pixels, measured as 251.
    assert_eq!(span.aligned_origin(&run), Some(pt(500 - 125, 50 - 10)));
}

#[test]
fn content_wider_than_the_box_moves_the_origin_left() {
    let span = Span::new(face(), "x", 0, 0)
        .with_size(100, 10)
        .with_font_size(FontSize::Px(20))
        .with_h_align(Alignment::End)
        .with_v_align(Alignment::End);
    assert_eq!(span.aligned_origin(&run_of(10_000)), Some(pt(100 - 250, 10 - 20)));
}

#[test]
fn negative_width_is_rounded_toward_zero() {
    // -10000 units at 20 pixels are -250.8 pixels, measured as -250.
    let span = Span::new(face(), "x", 0, 0)
        .with_size(0, 0)
        .with_font_size(FontSize::Px(20))
        .with_h_align(Alignment::End);
    let run: GlyphRun = vec![(None, glyph(-10_000))];
    assert_eq!(span.aligned_origin(&run), Some(pt(250, 0)));
    // -10040 units are -251.8 pixels, measured as -251, whose half is -125.
    let span = span.with_h_align(Alignment::Middle);
    let run: GlyphRun = vec![(None, glyph(-10_040))];
    assert_eq!(span.aligned_origin(&run), Some(pt(125, 0)));
}

#[test]
fn point_sizes_are_measured_at_150_dpi() {
    // 12 points are 25 pixels; 1000 units are 25 * 1.254 = 31.35 pixels.
    let span = Span::new(face(), "x", 0, 0)
        .with_size(100, 100)
        .with_h_align(Alignment::End)
        .with_v_align(Alignment::End);
    assert_eq!(span.aligned_origin(&run_of(1000)), Some(pt(100 - 31, 100 - 25)));
}

#[test]
fn origin_beyond_the_coordinates_is_none() {
    let span = Span::new(face(), "x", i32::MAX, 0).with_size(2, 0).with_h_align(Alignment::End);
    let run: GlyphRun = vec![];
    assert_eq!(span.aligned_origin(&run), None);
    let span = Span::new(face(), "x", i32::MAX - 2, 0).with_size(2, 0).with_h_align(Alignment::End);
    assert_eq!(span.aligned_origin(&run), Some(pt(i32::MAX, 0)));
    let span = Span::new(face(), "x", 0, 0)
        .with_size(usize::MAX, usize::MAX)
        .with_v_align(Alignment::Middle);
    assert_eq!(span.aligned_origin(&run), None);
}

#[test]
fn huge_box_and_huge_font_may_cancel() {
    let span = Span::new(face(), "x", 0, 5)
        .with_size(0, usize::MAX)
        .with_font_size(FontSize::Px(usize::MAX))
        .with_v_align(Alignment::End);
    assert_eq!(span.aligned_origin(&vec![]), Some(pt(0, 5)));
}

#[test]
fn widest_content_is_out_of_range_without_overflow() {
    let span = Span::new(face(), "x", 0, 0)
        .with_size(usize::MAX, 0)
        .with_font_size(FontSize::Pt(usize::MAX))
        .with_h_align(Alignment::Middle);
    let run: GlyphRun = vec![(None, glyph(i32::MAX)), (None, glyph(i32::MAX))];
    assert_eq!(span.aligned_origin(&run), None);
    assert_eq!(span.generate_text_mesh(&run, 0).unwrap_err(), TextError::OutOfRange);
}

#[test]
fn mesh_is_laid_out_from_the_aligned_origin() {
    let span = Span::new(face(), "x", 10, 20)
        .with_size(1000, 100)
        .with_font_size(FontSize::Px(20))
        .with_h_align(Alignment::Middle)
        .with_v_align(Alignment::Middle);
    let run: GlyphRun = vec![(Some(dot()), glyph(5000)), (Some(dot()), glyph(5000))];
    let mesh = span.generate_text_mesh(&run, 4).unwrap();
    assert_eq!(mesh.vertices.len(), 2);
    assert_eq!(mesh.vertices[0].position, pt(385 * 64, 60 * 64));
    // 5000 units at 20 pixels are 125.4 pixels: 8025.6 position units.
    assert_eq!(mesh.vertices[1].position, pt(385 * 64 + 8025, 60 * 64));
    assert_eq!(mesh.vertices[0].color_index, 4);
    assert_eq!(mesh.vertices[1].color_index, 4);
    assert_eq!(mesh.indices, vec![0, 0, 0, 1, 1, 1]);
}

#[test]
fn mesh_with_start_alignment_and_no_box() {
    let span = Span::new(face(), "Hello, World!", 0, 0).with_font_size(FontSize::Px(24));
    let advances: [i32; 13] = [722, 556, 222, 222, 556, 278, 278, 944, 556, 333, 222, 556, 278];
    let run: GlyphRun = advances
        .iter()
        .enumerate()
        .map(|(i, a)| (if i == 6 { None } else { Some(dot()) }, glyph(*a)))
        .collect();
    let mesh = span.generate_text_mesh(&run, 0).unwrap();
    assert!(!mesh.vertices.is_empty());
    assert_eq!(mesh.vertices.len(), 12);
    assert_eq!(mesh.vertices[0].position, pt(0, 0));
    let before_last: i64 = advances[..12].iter().map(|a| *a as i64).sum();
    let pen = (before_last * 24 * 1254 * 64 / 1_000_000) as i32;
    assert_eq!(mesh.vertices[11].position, pt(pen, 0));
}

#[test]
fn empty_text_gives_an_empty_mesh() {
    let span = Span::new(face(), "", 5, 5)
        .with_size(100, 100)
        .with_h_align(Alignment::Middle)
        .with_v_align(Alignment::End);
    let mesh = span.generate_text_mesh(&vec![], 0).unwrap();
    assert!(mesh.vertices.is_empty());
    assert!(mesh.indices.is_empty());
}

#[test]
fn cloned_span_holds_the_same() {
    let span = Span::new(face(), "clone me", 3, 4)
        .with_size(640, 480)
        .with_font_size(FontSize::Px(20))
        .with_h_align(Alignment::Middle)
        .with_color(Color { r: 1, g: 2, b: 3, a: 4 });
    let copy = span.clone();
    assert_eq!(copy.text(), span.text());
    assert_eq!(copy.position(), span.position());
    assert_eq!(copy.size(), span.size());
    assert_eq!(copy.font_size(), span.font_size());
    assert_eq!(copy.h_align(), span.h_align());
    assert_eq!(copy.v_align(), span.v_align());
    assert_eq!(copy.get_color(), span.get_color());
    assert_eq!(copy.font_face().units_per_em(), span.font_face().units_per_em());
}
