use glyph_mesh::error::TextError;
use glyph_mesh::face::FontFace;
use glyph_mesh::geometry::{is_ccw_wind, Point, Rect};
use glyph_mesh::fill::MAX_VERTICES;
use glyph_mesh::mesh::{mesh_or_gap, GlyphMesh, GlyphMeshBuilder, ShapeGroup};
use glyph_mesh::renderer::{GlyphVertex, TexCoord, CONCAVE_BIT, CURVE_BIT, FLAT_FILL};

fn pt(x: i32, y: i32) -> Point {
    Point { x, y }
}

fn native_face() -> FontFace {
    FontFace::new(0, 1000, true).unwrap()
}

fn bounds() -> Rect {
    Rect { x_min: -1, y_min: -2, x_max: 30, y_max: 40 }
}

fn flat(x: i32, y: i32) -> GlyphVertex {
    corner(x, y, 0, 0, FLAT_FILL)
}

fn corner(x: i32, y: i32, u: u8, v: u8, metadata: i32) -> GlyphVertex {
    GlyphVertex { position: pt(x, y), uv: TexCoord { u, v }, metadata, color_index: 0 }
}

/// Fills one shape with the ear-clipping triangulator.
fn earcut(group: &ShapeGroup) -> Option<Vec<usize>> {
    let mut coordinates: Vec<f64> = Vec::new();
    for p in &group.points {
        coordinates.push(p.x as f64);
        coordinates.push(p.y as f64);
    }
    earcutr::earcut(&coordinates, &group.holes, 2).ok()
}

fn earcut_all(builder: &GlyphMeshBuilder) -> Vec<Option<Vec<usize>>> {
    builder.shape_groups().unwrap().iter().map(earcut).collect()
}

fn square(builder: &mut GlyphMeshBuilder, x: i32, y: i32, side: i32) {
    builder.move_to(x, y);
    builder.line_to(x, y + side);
    builder.line_to(x + side, y + side);
    builder.line_to(x + side, y);
}

#[test]
fn square_becomes_two_triangles() {
    let mut builder = GlyphMeshBuilder::for_glyph(&native_face(), 1);
    square(&mut builder, 0, 0, 10);
    let fills = earcut_all(&builder);
    let (vertices, indices) = builder.triangulate(&fills).unwrap();
    assert_eq!(vertices, vec![flat(0, 0), flat(0, 10), flat(10, 10), flat(10, 0)]);
    assert_eq!(indices.len(), 6);
    assert!(indices.iter().all(|i| (*i as usize) < vertices.len()));
    let expected: Vec<u16> = fills[0].as_ref().unwrap().iter().map(|i| *i as u16).collect();
    assert_eq!(indices, expected);
}

#[test]
fn second_shape_is_indexed_after_the_first() {
    let mut builder = GlyphMeshBuilder::for_glyph(&native_face(), 1);
    square(&mut builder, 0, 0, 10);
    builder.move_to(100, 0);
    builder.line_to(100, 10);
    builder.line_to(110, 0);
    let fills = vec![Some(vec![0, 1, 2, 0, 2, 3]), Some(vec![2, 0, 1])];
    let (vertices, indices) = builder.triangulate(&fills).unwrap();
    assert_eq!(vertices.len(), 7);
    assert_eq!(vertices[4], flat(100, 0));
    assert_eq!(indices, vec![0, 1, 2, 0, 2, 3, 6, 4, 5]);
}

#[test]
fn square_with_a_hole_keeps_every_index_in_range() {
    let mut builder = GlyphMeshBuilder::for_glyph(&native_face(), 1);
    square(&mut builder, 0, 0, 100);
    builder.move_to(20, 20);
    builder.line_to(80, 20);
    builder.line_to(80, 80);
    builder.line_to(20, 80);
    let fills = earcut_all(&builder);
    assert_eq!(fills.len(), 1);
    let (vertices, indices) = builder.triangulate(&fills).unwrap();
    assert_eq!(vertices.len(), 8);
    assert_eq!(indices.len(), 24);
    assert!(indices.iter().all(|i| (*i as usize) < vertices.len()));
}

#[test]
fn one_contour_with_one_quadratic_adds_three_vertices_and_indices() {
    let mut builder = GlyphMeshBuilder::for_glyph(&native_face(), 1);
    builder.move_to(0, 0);
    builder.line_to(0, 10);
    builder.quad_to(10, 10, 10, 0);
    builder.close();
    let ring_points = builder.rings()[0].len();
    assert_eq!(ring_points, 3);
    let fills = earcut_all(&builder);
    let fill_len = fills[0].as_ref().unwrap().len();
    assert_eq!(fill_len, 3);
    let (vertices, indices) = builder.triangulate(&fills).unwrap();
    assert_eq!(vertices.len(), ring_points + 3);
    assert_eq!(indices.len(), fill_len + 3);
    assert_eq!(&indices[fill_len..], &[3, 4, 5]);
    assert_eq!(
        &vertices[ring_points..],
        &[
            corner(0, 10, 0, 0, CURVE_BIT),
            corner(10, 10, 1, 0, CURVE_BIT),
            corner(10, 0, 2, 2, CURVE_BIT),
        ]
    );
}

#[test]
fn concave_quadratic_is_marked_and_its_control_point_filled() {
    let mut builder = GlyphMeshBuilder::for_glyph(&native_face(), 1);
    builder.move_to(0, 0);
    builder.line_to(0, 10);
    builder.quad_to(4, 4, 10, 0);
    let fills = earcut_all(&builder);
    let (vertices, indices) = builder.triangulate(&fills).unwrap();
    assert_eq!(&vertices[..4], &[flat(0, 0), flat(0, 10), flat(4, 4), flat(10, 0)]);
    assert_eq!(vertices.len(), 7);
    assert_eq!(indices.len(), 6 + 3);
    assert_eq!(&indices[6..], &[4, 5, 6]);
    for v in &vertices[4..] {
        assert_eq!(v.metadata, CURVE_BIT + CONCAVE_BIT);
        assert_eq!(v.metadata, 3);
    }
    assert_eq!(vertices[4].uv, TexCoord { u: 0, v: 0 });
    assert_eq!(vertices[5].uv, TexCoord { u: 1, v: 0 });
    assert_eq!(vertices[6].uv, TexCoord { u: 2, v: 2 });
}

#[test]
fn empty_outline_gives_an_empty_mesh() {
    let builder = GlyphMeshBuilder::new();
    let (vertices, indices) = builder.triangulate(&vec![]).unwrap();
    assert!(vertices.is_empty());
    assert!(indices.is_empty());
}

#[test]
fn missing_fill_is_degenerate() {
    let mut builder = GlyphMeshBuilder::for_glyph(&native_face(), 12);
    square(&mut builder, 0, 0, 10);
    assert_eq!(
        builder.triangulate(&vec![None]).unwrap_err(),
        TextError::DegenerateGeometry { glyph_id: 12 }
    );
}

#[test]
fn wrong_number_of_fills_is_degenerate() {
    let mut builder = GlyphMeshBuilder::for_glyph(&native_face(), 12);
    square(&mut builder, 0, 0, 10);
    assert_eq!(
        builder.triangulate(&vec![]).unwrap_err(),
        TextError::DegenerateGeometry { glyph_id: 12 }
    );
    assert_eq!(
        builder.triangulate(&vec![Some(vec![0, 1, 2]), Some(vec![0, 1, 2])]).unwrap_err(),
        TextError::DegenerateGeometry { glyph_id: 12 }
    );
}

#[test]
fn fill_that_names_no_point_is_degenerate() {
    let mut builder = GlyphMeshBuilder::for_glyph(&native_face(), 12);
    square(&mut builder, 0, 0, 10);
    assert_eq!(
        builder.triangulate(&vec![Some(vec![0, 1, 4])]).unwrap_err(),
        TextError::DegenerateGeometry { glyph_id: 12 }
    );
    assert!(builder.triangulate(&vec![Some(vec![0, 1, 3])]).is_ok());
}

#[test]
fn fill_that_is_no_triangle_list_is_degenerate() {
    let mut builder = GlyphMeshBuilder::for_glyph(&native_face(), 12);
    square(&mut builder, 0, 0, 10);
    assert_eq!(
        builder.triangulate(&vec![Some(vec![0, 1, 2, 3])]).unwrap_err(),
        TextError::DegenerateGeometry { glyph_id: 12 }
    );
}

#[test]
fn outline_that_cannot_be_filled_is_degenerate_whatever_the_fills() {
    let mut builder = GlyphMeshBuilder::for_glyph(&native_face(), 3);
    builder.move_to(0, 0);
    builder.line_to(10, 0);
    builder.line_to(0, 10);
    assert_eq!(
        builder.triangulate(&vec![Some(vec![0, 1, 2])]).unwrap_err(),
        TextError::DegenerateGeometry { glyph_id: 3 }
    );
}

#[test]
fn empty_fill_leaves_the_points_as_vertices() {
    let mut builder = GlyphMeshBuilder::for_glyph(&native_face(), 1);
    square(&mut builder, 0, 0, 10);
    let (vertices, indices) = builder.triangulate(&vec![Some(vec![])]).unwrap();
    assert_eq!(vertices, vec![flat(0, 0), flat(0, 10), flat(10, 10), flat(10, 0)]);
    assert!(indices.is_empty());
}

#[test]
fn ring_without_area_is_degenerate_in_either_winding() {
    for native in [true, false] {
        let face = FontFace::new(0, 1000, native).unwrap();
        let mut builder = GlyphMeshBuilder::for_glyph(&face, 8);
        builder.move_to(0, 0);
        builder.line_to(0, 5);
        builder.line_to(0, 10);
        assert_eq!(
            builder.triangulate(&vec![Some(vec![])]).unwrap_err(),
            TextError::DegenerateGeometry { glyph_id: 8 }
        );
    }
}

#[test]
fn ring_without_area_after_a_solid_ring_is_degenerate() {
    let mut builder = GlyphMeshBuilder::for_glyph(&native_face(), 8);
    square(&mut builder, 0, 0, 10);
    builder.move_to(2, 2);
    builder.line_to(4, 4);
    builder.line_to(6, 6);
    builder.line_to(4, 4);
    assert_eq!(
        builder.shape_groups().unwrap_err(),
        TextError::DegenerateGeometry { glyph_id: 8 }
    );
}

/// A builder with one solid ring of `points` points and `curves` curve
/// triangles.
fn large_outline(points: usize, curves: usize) -> GlyphMeshBuilder {
    let mut ring: Vec<Point> = Vec::new();
    for i in 0..(points as i64) {
        ring.push(pt(i as i32, ((i * i) / 8) as i32));
    }
    let face = FontFace::new(0, 1000, !is_ccw_wind(&ring)).unwrap();
    let mut builder = GlyphMeshBuilder::for_glyph(&face, 1);
    builder.move_to(ring[0].x, ring[0].y);
    for p in &ring[1..points - curves] {
        builder.line_to(p.x, p.y);
    }
    for p in &ring[points - curves..] {
        builder.quad_to(p.x, p.y - 1, p.x, p.y);
    }
    builder
}

#[test]
fn mesh_may_have_exactly_the_most_vertices() {
    let builder = large_outline(MAX_VERTICES - 6, 2);
    let flat_count = builder.rings()[0].len();
    assert_eq!(builder.curves().len(), 2);
    assert_eq!(flat_count + 6, MAX_VERTICES);
    let (vertices, indices) = builder.triangulate(&vec![Some(vec![0, 1, 2])]).unwrap();
    assert_eq!(vertices.len(), MAX_VERTICES);
    assert_eq!(indices, vec![0, 1, 2, 65530, 65531, 65532, 65533, 65534, 65535]);
}

#[test]
fn one_vertex_more_is_too_many() {
    let builder = large_outline(MAX_VERTICES - 5, 2);
    let flat_count = builder.rings()[0].len();
    assert_eq!(flat_count + 3 * builder.curves().len(), MAX_VERTICES + 1);
    assert_eq!(
        builder.triangulate(&vec![Some(vec![0, 1, 2])]).unwrap_err(),
        TextError::TooManyVertices
    );
}

#[test]
fn invalid_fill_is_reported_before_too_many_vertices() {
    let builder = large_outline(MAX_VERTICES + 10, 0);
    assert_eq!(
        builder.triangulate(&vec![None]).unwrap_err(),
        TextError::DegenerateGeometry { glyph_id: 1 }
    );
    assert_eq!(
        builder.triangulate(&vec![Some(vec![])]).unwrap_err(),
        TextError::TooManyVertices
    );
}

#[test]
fn build_packs_the_mesh_with_id_and_bounds() {
    let mut builder = GlyphMeshBuilder::for_glyph(&native_face(), 77);
    square(&mut builder, 0, 0, 10);
    let fills = earcut_all(&builder);
    let expected = builder.triangulate(&fills).unwrap();
    let mesh = builder.build(bounds(), &fills).unwrap();
    assert_eq!(mesh.glyph_id(), 77);
    assert_eq!(mesh.bounds(), bounds());
    assert_eq!(mesh.vertices(), &expected.0);
    assert_eq!(mesh.indices(), &expected.1);
}

#[test]
fn build_fails_as_triangulate_does() {
    let mut builder = GlyphMeshBuilder::for_glyph(&native_face(), 77);
    square(&mut builder, 0, 0, 10);
    assert_eq!(
        builder.build(bounds(), &vec![None]).unwrap_err(),
        TextError::DegenerateGeometry { glyph_id: 77 }
    );
}

#[test]
fn glyph_mesh_of_valid_parts() {
    let vertices = vec![flat(0, 0), flat(1, 0), flat(0, 1)];
    let mesh = GlyphMesh::new(5, vertices.clone(), vec![0, 1, 2, 2, 1, 0], bounds()).unwrap();
    assert_eq!(mesh.glyph_id(), 5);
    assert_eq!(mesh.vertices(), &vertices);
    assert_eq!(mesh.indices(), &vec![0, 1, 2, 2, 1, 0]);
    assert_eq!(mesh.bounds(), bounds());
}

#[test]
fn glyph_mesh_rejects_an_index_without_vertex() {
    let vertices = vec![flat(0, 0), flat(1, 0), flat(0, 1)];
    assert!(GlyphMesh::new(5, vertices, vec![0, 1, 3], bounds()).is_none());
    assert!(GlyphMesh::new(5, vec![], vec![0], bounds()).is_none());
    assert!(GlyphMesh::new(5, vec![], vec![], bounds()).is_some());
}

#[test]
fn built_glyph_is_drawn() {
    let mesh = GlyphMesh::new(5, vec![flat(0, 0)], vec![0, 0, 0], bounds()).unwrap();
    let kept = mesh_or_gap(Ok(mesh)).unwrap().unwrap();
    assert_eq!(kept.glyph_id(), 5);
    assert_eq!(kept.vertices(), &vec![flat(0, 0)]);
    assert_eq!(kept.indices(), &vec![0, 0, 0]);
}

#[test]
fn glyph_that_fails_alone_leaves_a_gap() {
    assert!(mesh_or_gap(Err(TextError::DegenerateGeometry { glyph_id: 3 })).unwrap().is_none());
    assert!(mesh_or_gap(Err(TextError::MalformedOutline)).unwrap().is_none());
    assert!(mesh_or_gap(Err(TextError::TooManyVertices)).unwrap().is_none());
}

#[test]
fn other_failures_are_passed_on() {
    for error in [TextError::InvalidFontData, TextError::ShapingFailure, TextError::OutOfRange] {
        assert_eq!(mesh_or_gap(Err(error)).unwrap_err(), error);
    }
}

#[test]
fn cloned_glyph_mesh_holds_the_same() {
    let mesh = GlyphMesh::new(5, vec![flat(0, 0), flat(1, 1)], vec![0, 1, 0], bounds()).unwrap();
    let copy = mesh.clone();
    assert_eq!(copy.glyph_id(), mesh.glyph_id());
    assert_eq!(copy.vertices(), mesh.vertices());
    assert_eq!(copy.indices(), mesh.indices());
    assert_eq!(copy.bounds(), mesh.bounds());
}
