//! Glyph metrics: a typeface parsed by `ttf_parser`, the advance of each
//! character in font units, and the width of a text.
//!
//! What `ttf_parser` answers is not proved here. A parsed face is read as
//! two tables, from characters to glyphs and from glyphs to advances, and
//! each call into the parser is stated as a look-up in them.

use vstd::prelude::*;
use crate::units::{scaled_width, width_of, MAX_TEXT_CHARS};

verus! {

/// `ttf_parser::Face`, a parsed font face. Nothing is known of what is
/// inside it.
#[verifier::external_type_specification]
#[verifier::external_body]
pub struct ExFace<'a>(ttf_parser::Face<'a>);

/// `ttf_parser::FaceParsingError`, with its six variants, none of which
/// holds a value.
#[verifier::external_type_specification]
pub struct ExFaceParsingError(ttf_parser::FaceParsingError);

/// The character map of a parsed face: the glyph id of each character that
/// the face maps.
pub uninterp spec fn glyph_ids(face: &ttf_parser::Face) -> Map<char, u16>;

/// The horizontal metrics of a parsed face: the advance, in font units, of
/// each glyph id that has one.
pub uninterp spec fn hor_advances(face: &ttf_parser::Face) -> Map<u16, u16>;

/// The units per em that the `head` table of a parsed face gives.
pub uninterp spec fn units_per_em(face: &ttf_parser::Face) -> u16;

/// Why `ttf_parser::Face::parse` turns down `data` as face number `index`;
/// `None` where it accepts it.
pub uninterp spec fn face_parse_failure(data: Seq<u8>, index: u32) -> Option<
    ttf_parser::FaceParsingError,
>;

/// `ttf_parser::Face::parse`. Whether the data are accepted, and the error
/// if not, depends on the bytes and the index alone.
#[verifier::external_body]
fn parse_face<'a>(data: &'a [u8], index: u32) -> (r: Result<
    ttf_parser::Face<'a>,
    ttf_parser::FaceParsingError,
>)
    ensures
        match face_parse_failure(data@, index) {
            Some(e) => r == Err::<ttf_parser::Face<'a>, ttf_parser::FaceParsingError>(e),
            None => r is Ok,
        },
{
    ttf_parser::Face::parse(data, index)
}

/// `ttf_parser::Face::units_per_em`: the value of the `head` table. The
/// crate accepts a face only with a value from 16 to 16384.
#[verifier::external_body]
fn face_units_per_em(face: &ttf_parser::Face) -> (r: u16)
    ensures
        r == units_per_em(face),
        16 <= r <= 16384,
{
    face.units_per_em()
}

/// `ttf_parser::Face::glyph_index`: the glyph id that the character map
/// gives for `c`, `None` where it maps no glyph.
#[verifier::external_body]
fn face_glyph_index(face: &ttf_parser::Face, c: char) -> (r: Option<u16>)
    ensures
        r == (if glyph_ids(face).contains_key(c) {
            Some(glyph_ids(face)[c])
        } else {
            None
        }),
{
    face.glyph_index(c).map(|g| g.0)
}

/// `ttf_parser::Face::glyph_hor_advance`: the advance that the horizontal
/// metrics hold for `glyph`, `None` where they hold none.
#[verifier::external_body]
fn face_hor_advance(face: &ttf_parser::Face, glyph: u16) -> (r: Option<u16>)
    ensures
        r == (if hor_advances(face).contains_key(glyph) {
            Some(hor_advances(face)[glyph])
        } else {
            None
        }),
{
    face.glyph_hor_advance(ttf_parser::GlyphId(glyph))
}

/// Why a typeface could not be loaded.
#[derive(Clone, Copy, Debug, PartialEq, Eq, Structural)]
pub enum FontLoadError {
    /// A read past the end of the data.
    MalformedFont,
    /// The data do not start like a font.
    UnknownMagic,
    /// The collection holds no face of the index asked for.
    FaceIndexOutOfBounds,
    /// The `head` table is missing or malformed.
    NoHeadTable,
    /// The `hhea` table is missing or malformed.
    NoHheaTable,
    /// The `maxp` table is missing or malformed.
    NoMaxpTable,
}

/// The load error that stands for a parsing error.
pub open spec fn load_error_of(e: ttf_parser::FaceParsingError) -> FontLoadError {
    match e {
        ttf_parser::FaceParsingError::MalformedFont => FontLoadError::MalformedFont,
        ttf_parser::FaceParsingError::UnknownMagic => FontLoadError::UnknownMagic,
        ttf_parser::FaceParsingError::FaceIndexOutOfBounds => FontLoadError::FaceIndexOutOfBounds,
        ttf_parser::FaceParsingError::NoHeadTable => FontLoadError::NoHeadTable,
        ttf_parser::FaceParsingError::NoHheaTable => FontLoadError::NoHheaTable,
        ttf_parser::FaceParsingError::NoMaxpTable => FontLoadError::NoMaxpTable,
    }
}

/// A typeface: the font data, the parsed face and its units per em.
pub struct FontData<'a> {
    pub font_vec: &'a [u8],
    pub upem: u16,
    pub face: ttf_parser::Face<'a>,
}

/// Advance of `c` in font units in `face`: that of its glyph, and 0 where
/// the face maps no glyph to `c` or holds no advance for the glyph.
pub open spec fn char_advance(face: &ttf_parser::Face, c: char) -> nat {
    if glyph_ids(face).contains_key(c) && hor_advances(face).contains_key(glyph_ids(face)[c]) {
        hor_advances(face)[glyph_ids(face)[c]] as nat
    } else {
        0
    }
}

/// Sum of the advances of the characters of `s` in `face`, in font units.
pub open spec fn run_units(face: &ttf_parser::Face, s: Seq<char>) -> nat
    decreases s.len(),
{
    if s.len() == 0 {
        0
    } else {
        run_units(face, s.drop_last()) + char_advance(face, s.last())
    }
}

/// The advances of a run add up over its parts.
pub proof fn lemma_run_units_concat(face: &ttf_parser::Face, a: Seq<char>, b: Seq<char>)
    ensures
        run_units(face, a + b) == run_units(face, a) + run_units(face, b),
    decreases b.len(),
{
    if b.len() == 0 {
        assert(a + b =~= a);
    } else {
        assert((a + b).drop_last() =~= a + b.drop_last());
        assert((a + b).last() == b.last());
        lemma_run_units_concat(face, a, b.drop_last());
    }
}

/// The load error that stands for the parsing error `e`.
pub fn load_error(e: ttf_parser::FaceParsingError) -> (r: FontLoadError)
    ensures
        r == load_error_of(e),
{
    match e {
        ttf_parser::FaceParsingError::MalformedFont => FontLoadError::MalformedFont,
        ttf_parser::FaceParsingError::UnknownMagic => FontLoadError::UnknownMagic,
        ttf_parser::FaceParsingError::FaceIndexOutOfBounds => FontLoadError::FaceIndexOutOfBounds,
        ttf_parser::FaceParsingError::NoHeadTable => FontLoadError::NoHeadTable,
        ttf_parser::FaceParsingError::NoHheaTable => FontLoadError::NoHheaTable,
        ttf_parser::FaceParsingError::NoMaxpTable => FontLoadError::NoMaxpTable,
    }
}

impl<'a> FontData<'a> {
    /// The units per em are those of the face, in the range that every
    /// parsed face has.
    pub open spec fn wf(&self) -> bool {
        self.upem == units_per_em(&self.face) && 16 <= self.upem <= 16384
    }

    /// Advance of `c` in font units.
    pub open spec fn advance(&self, c: char) -> nat {
        char_advance(&self.face, c)
    }

    /// Sum of the advances of `s` in font units.
    pub open spec fn units(&self, s: Seq<char>) -> nat {
        run_units(&self.face, s)
    }

    /// Width of `s` in micrometres at `font_size` hundredths of a point.
    pub open spec fn width(&self, s: Seq<char>, font_size: u16) -> int {
        scaled_width(self.units(s), font_size, self.upem)
    }

    /// Parses `data` as a typeface. Fails exactly where the parser turns the
    /// data down, with the error that stands for the parser's.
    pub fn load(data: &'a [u8]) -> (r: Result<FontData<'a>, FontLoadError>)
        ensures
            match face_parse_failure(data@, 0) {
                Some(e) => r == Err::<FontData<'a>, FontLoadError>(load_error_of(e)),
                None => r is Ok && r->Ok_0.wf() && r->Ok_0.font_vec@ == data@,
            },
    {
        match parse_face(data, 0) {
            Ok(face) => {
                let upem = face_units_per_em(&face);
                Ok(FontData { font_vec: data, upem, face })
            },
            Err(e) => Err(load_error(e)),
        }
    }

    /// Advance of `c` in font units; 0 for a character without a glyph.
    pub fn glyph_advance(&self, c: char) -> (r: u16)
        ensures
            r == self.advance(c),
    {
        match face_glyph_index(&self.face, c) {
            Some(glyph) => match face_hor_advance(&self.face, glyph) {
                Some(adv) => adv,
                None => 0,
            },
            None => 0,
        }
    }

    /// Sum of the advances of `s` in font units.
    pub fn text_units(&self, s: &[char]) -> (r: u64)
        requires
            s@.len() <= MAX_TEXT_CHARS,
        ensures
            r == self.units(s@),
            r <= 65535 * s@.len(),
    {
        let mut total: u64 = 0;
        let mut i: usize = 0;
        while i < s.len()
            invariant
                i <= s@.len() <= MAX_TEXT_CHARS,
                total == self.units(s@.take(i as int)),
                total <= 65535 * i,
            decreases s.len() - i,
        {
            let adv = self.glyph_advance(s[i]);
            proof {
                assert(s@.take(i + 1).drop_last() =~= s@.take(i as int));
                assert(s@.take(i + 1).last() == s@[i as int]);
            }
            total = total + adv as u64;
            i = i + 1;
        }
        proof {
            assert(s@.take(i as int) =~= s@);
        }
        total
    }

    /// Width of `text` in micrometres, rounded down, at `font_size`
    /// hundredths of a point.
    pub fn measure(&self, text: &str, font_size: u16) -> (r: i64)
        requires
            self.wf(),
            text@.len() <= MAX_TEXT_CHARS,
        ensures
            r == self.width(text@, font_size),
            r >= 0,
    {
        let chars = crate::text::chars_of(text);
        let units = self.text_units(chars.as_slice());
        width_of(units, font_size, self.upem)
    }
}

} // verus!
