//! What the mesh and layout code needs to know of a loaded font face, and
//! how to read it from the bytes of a font.

use vstd::prelude::*;
use crate::error::TextError;

verus! {

/// The smallest number of design units per em that a font may declare.
pub const MIN_UNITS_PER_EM: u16 = 16;

/// The largest number of design units per em that a font may declare.
pub const MAX_UNITS_PER_EM: u16 = 16384;

/// What `ttf_parser` reads from face `index` of the font in `data`: the
/// units per em of the face and whether it has a native contour (`glyf`)
/// table, or `None` where the parser rejects the font.
pub uninterp spec fn face_metrics(data: Seq<u8>, index: u32) -> Option<(u16, bool)>;

/// Parses face `index` of the font in `data` with `ttf_parser::Face::parse`
/// and reads from the parsed face its units per em
/// (`ttf_parser::Face::units_per_em`) and whether its `glyf` table is present
/// (`ttf_parser::Face::tables`). The parser reads nothing but `data`, so the
/// result depends on the arguments alone; what it is for given bytes is not
/// stated.
#[verifier::external_body]
fn read_face_metrics(data: &[u8], index: u32) -> (r: Option<(u16, bool)>)
    ensures
        r == face_metrics(data@, index),
{
    match ttf_parser::Face::parse(data, index) {
        Ok(face) => Some((face.units_per_em(), face.tables().glyf.is_some())),
        Err(_) => None,
    }
}

/// The metrics of one loaded font face, detached from the font's bytes.
///
/// `handle` is the caller's own name for the face (an index into its table of
/// loaded fonts); this library carries it along and never interprets it.
#[derive(Clone, Copy, Debug)]
pub struct FontFace {
    handle: usize,
    units_per_em: u16,
    native_contours: bool,
}

impl FontFace {
    /// The units per em are such as a font may declare. This holds of every
    /// face.
    #[verifier::type_invariant]
    pub closed spec fn wf(self) -> bool {
        MIN_UNITS_PER_EM <= self.units_per_em <= MAX_UNITS_PER_EM
    }

    /// The caller's name for this face.
    pub closed spec fn spec_handle(&self) -> usize {
        self.handle
    }

    /// Design units per em: the side of the square in which glyphs are drawn.
    pub closed spec fn spec_units_per_em(&self) -> u16 {
        self.units_per_em
    }

    /// Whether the face stores its outlines in the native contour table.
    pub closed spec fn spec_native_contours(&self) -> bool {
        self.native_contours
    }

    /// Whether rings of this face wind the other way round: true for a face
    /// without a native contour table, whose outlines follow the opposite
    /// convention.
    pub open spec fn spec_reverse_wind(&self) -> bool {
        !self.spec_native_contours()
    }

    /// Whether `units_per_em` is a value that a font may declare.
    pub open spec fn valid_units_per_em(units_per_em: u16) -> bool {
        MIN_UNITS_PER_EM <= units_per_em <= MAX_UNITS_PER_EM
    }

    /// Describes a face. Fails with `InvalidFontData` exactly when
    /// `units_per_em` lies outside `MIN_UNITS_PER_EM..=MAX_UNITS_PER_EM`.
    pub fn new(handle: usize, units_per_em: u16, native_contours: bool) -> (r: Result<
        FontFace,
        TextError,
    >)
        ensures
            Self::valid_units_per_em(units_per_em) ==> r is Ok && r->Ok_0.wf()
                && r->Ok_0.spec_handle() == handle && r->Ok_0.spec_units_per_em() == units_per_em
                && r->Ok_0.spec_native_contours() == native_contours,
            !Self::valid_units_per_em(units_per_em) ==> r == Err::<FontFace, TextError>(
                TextError::InvalidFontData,
            ),
    {
        if units_per_em < MIN_UNITS_PER_EM || units_per_em > MAX_UNITS_PER_EM {
            Err(TextError::InvalidFontData)
        } else {
            Ok(FontFace { handle, units_per_em, native_contours })
        }
    }

    /// Reads the metrics of face `index` of the font in `data`. Fails with
    /// `InvalidFontData` exactly when the parser rejects the font or the
    /// font declares units per em that no font may declare.
    pub fn load(handle: usize, data: &[u8], index: u32) -> (r: Result<FontFace, TextError>)
        ensures
            match face_metrics(data@, index) {
                Some((units_per_em, native_contours)) => if Self::valid_units_per_em(
                    units_per_em,
                ) {
                    r is Ok && r->Ok_0.wf() && r->Ok_0.spec_handle() == handle
                        && r->Ok_0.spec_units_per_em() == units_per_em
                        && r->Ok_0.spec_native_contours() == native_contours
                } else {
                    r is Err && r->Err_0 == TextError::InvalidFontData
                },
                None => r is Err && r->Err_0 == TextError::InvalidFontData,
            },
    {
        match read_face_metrics(data, index) {
            Some((units_per_em, native_contours)) => FontFace::new(
                handle,
                units_per_em,
                native_contours,
            ),
            None => Err(TextError::InvalidFontData),
        }
    }

    /// The caller's name for this face.
    #[verifier::when_used_as_spec(spec_handle)]
    pub fn handle(&self) -> (r: usize)
        ensures
            r == self.spec_handle(),
    {
        self.handle
    }

    /// Design units per em.
    #[verifier::when_used_as_spec(spec_units_per_em)]
    pub fn units_per_em(&self) -> (r: u16)
        ensures
            r == self.spec_units_per_em(),
            MIN_UNITS_PER_EM <= r <= MAX_UNITS_PER_EM,
    {
        proof {
            use_type_invariant(self);
        }
        self.units_per_em
    }

    /// Whether the face stores its outlines in the native contour table.
    #[verifier::when_used_as_spec(spec_native_contours)]
    pub fn native_contours(&self) -> (r: bool)
        ensures
            r == self.spec_native_contours(),
    {
        self.native_contours
    }

    /// Whether rings of this face wind the other way round.
    #[verifier::when_used_as_spec(spec_reverse_wind)]
    pub fn reverse_wind(&self) -> (r: bool)
        ensures
            r == self.spec_reverse_wind(),
    {
        !self.native_contours
    }
}

} // verus!
