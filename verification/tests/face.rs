use glyph_mesh::error::TextError;
use glyph_mesh::face::{FontFace, MAX_UNITS_PER_EM, MIN_UNITS_PER_EM};

fn push_u16(bytes: &mut Vec<u8>, value: u16) {
    bytes.extend_from_slice(&value.to_be_bytes());
}

fn push_u32(bytes: &mut Vec<u8>, value: u32) {
    bytes.extend_from_slice(&value.to_be_bytes());
}

/// The bytes of a font with the three tables every face must have and, if
/// asked for, an index-to-location and a glyph table for its one glyph.
fn tiny_font(units_per_em: u16, with_glyf: bool) -> Vec<u8> {
    let mut head = vec![0u8; 54];
    head[18..20].copy_from_slice(&units_per_em.to_be_bytes());
    let mut hhea = vec![0u8; 36];
    hhea[34..36].copy_from_slice(&1u16.to_be_bytes());
    let mut maxp = Vec::new();
    push_u32(&mut maxp, 0x0000_5000);
    push_u16(&mut maxp, 1);
    let glyf = vec![0u8; 4];
    let mut loca = Vec::new();
    push_u16(&mut loca, 0);
    push_u16(&mut loca, 0);

    let mut tables: Vec<(&[u8; 4], &Vec<u8>)> = Vec::new();
    if with_glyf {
        tables.push((b"glyf", &glyf));
    }
    tables.push((b"head", &head));
    tables.push((b"hhea", &hhea));
    if with_glyf {
        tables.push((b"loca", &loca));
    }
    tables.push((b"maxp", &maxp));

    let mut font = Vec::new();
    push_u32(&mut font, 0x0001_0000);
    push_u16(&mut font, tables.len() as u16);
    push_u16(&mut font, 0);
    push_u16(&mut font, 0);
    push_u16(&mut font, 0);
    let mut offset = 12 + 16 * tables.len();
    for (tag, data) in &tables {
        font.extend_from_slice(&tag[..]);
        push_u32(&mut font, 0);
        push_u32(&mut font, offset as u32);
        push_u32(&mut font, data.len() as u32);
        offset += data.len();
    }
    for (_, data) in &tables {
        font.extend_from_slice(data);
    }
    font
}

#[test]
fn face_of_valid_metrics() {
    let face = FontFace::new(3, 1000, true).unwrap();
    assert_eq!(face.handle(), 3);
    assert_eq!(face.units_per_em(), 1000);
    assert!(face.native_contours());
    assert!(!face.reverse_wind());
}

#[test]
fn face_without_native_contours_reverses_winding() {
    let face = FontFace::new(0, 2048, false).unwrap();
    assert!(!face.native_contours());
    assert!(face.reverse_wind());
}

#[test]
fn units_per_em_at_the_edges_of_the_valid_range() {
    assert!(FontFace::new(0, MIN_UNITS_PER_EM, true).is_ok());
    assert!(FontFace::new(0, MAX_UNITS_PER_EM, true).is_ok());
    for units_per_em in [MIN_UNITS_PER_EM - 1, MAX_UNITS_PER_EM + 1, 0, u16::MAX] {
        let failure = FontFace::new(0, units_per_em, true).unwrap_err();
        assert_eq!(failure, TextError::InvalidFontData);
    }
}

#[test]
fn bytes_that_are_no_font_are_invalid_font_data() {
    assert_eq!(FontFace::load(0, &[], 0).unwrap_err(), TextError::InvalidFontData);
    assert_eq!(FontFace::load(0, b"not a font at all", 0).unwrap_err(), TextError::InvalidFontData);
    assert_eq!(FontFace::load(0, &[0, 1, 0, 0, 0, 0], 0).unwrap_err(), TextError::InvalidFontData);
}

#[test]
fn loads_the_metrics_of_a_font_without_glyf() {
    let font = tiny_font(1000, false);
    let face = FontFace::load(7, &font, 0).unwrap();
    assert_eq!(face.handle(), 7);
    assert_eq!(face.units_per_em(), 1000);
    assert!(!face.native_contours());
    assert!(face.reverse_wind());
}

#[test]
fn loads_the_metrics_of_a_font_with_glyf() {
    let font = tiny_font(2048, true);
    let face = FontFace::load(1, &font, 0).unwrap();
    assert_eq!(face.units_per_em(), 2048);
    assert!(face.native_contours());
    assert!(!face.reverse_wind());
}

#[test]
fn a_second_face_of_a_single_font_is_invalid_font_data() {
    let font = tiny_font(1000, true);
    assert_eq!(FontFace::load(0, &font, 1).unwrap_err(), TextError::InvalidFontData);
}

#[test]
fn a_font_with_too_few_units_per_em_is_invalid_font_data() {
    let font = tiny_font(8, true);
    assert_eq!(FontFace::load(0, &font, 0).unwrap_err(), TextError::InvalidFontData);
}

#[test]
fn a_truncated_font_is_invalid_font_data() {
    let font = tiny_font(1000, false);
    let cut = &font[..font.len() - 20];
    assert_eq!(FontFace::load(0, cut, 0).unwrap_err(), TextError::InvalidFontData);
}
