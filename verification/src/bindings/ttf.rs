//! Reading font programs.
//!
//! A parsed face borrows the data it was parsed from. What its methods
//! return is a function of that data and of the index of the face, and is
//! named here by what it is read from.
use vstd::prelude::*;

verus! {

#[verifier::external_type_specification]
#[verifier::external_body]
pub struct ExFace<'a>(ttf_parser::Face<'a>);

#[verifier::external_type_specification]
#[verifier::external_body]
pub struct ExFaceParsingError(ttf_parser::FaceParsingError);

/// The data that a face was parsed from.
pub uninterp spec fn face_data(face: ttf_parser::Face<'_>) -> Seq<u8>;

/// The index of a face in its data.
pub uninterp spec fn face_index(face: ttf_parser::Face<'_>) -> u32;

/// Whether `ttf_parser` accepts face `index` of `data` as a font.
pub uninterp spec fn font_parses(data: Seq<u8>, index: u32) -> bool;

/// The units per em of a font.
pub uninterp spec fn font_units_per_em(data: Seq<u8>, index: u32) -> u16;

/// The ascender of a font, in font units.
pub uninterp spec fn font_ascender(data: Seq<u8>, index: u32) -> i16;

/// The descender of a font, in font units.
pub uninterp spec fn font_descender(data: Seq<u8>, index: u32) -> i16;

/// The capital height that a font states, if it states one.
pub uninterp spec fn font_capital_height(data: Seq<u8>, index: u32) -> Option<i16>;

/// The glyph that a font maps a character to.
pub uninterp spec fn font_glyph_index(data: Seq<u8>, index: u32, ch: char) -> Option<u16>;

/// The top of the bounding box of a glyph, if it has an outline.
pub uninterp spec fn font_glyph_top(data: Seq<u8>, index: u32, glyph: u16) -> Option<i16>;

/// The number of records in the name table of a font.
pub uninterp spec fn font_name_count(data: Seq<u8>, index: u32) -> u16;

/// Record `at` of the name table: its name id, whether its encoding is a
/// Unicode one, and its text where that can be read.
pub uninterp spec fn font_name(data: Seq<u8>, index: u32, at: u16) -> Option<
    (u16, bool, Option<Seq<char>>),
>;

/// The number of subtables of the character map of a font; `None` for a
/// font without a character map.
pub uninterp spec fn font_subtable_count(data: Seq<u8>, index: u32) -> Option<u16>;

/// Whether subtable `at` of the character map is for Unicode; `None` if
/// the subtable cannot be read.
pub uninterp spec fn font_subtable_is_unicode(data: Seq<u8>, index: u32, at: u16) -> Option<bool>;

/// The code points that subtable `at` covers, in its order.
pub uninterp spec fn font_subtable_codepoints(data: Seq<u8>, index: u32, at: u16) -> Seq<u32>;

/// The glyph that subtable `at` maps a code point to.
pub uninterp spec fn font_subtable_glyph(data: Seq<u8>, index: u32, at: u16, code: u32) -> Option<
    u16,
>;

/// The number of glyphs of a font.
pub uninterp spec fn font_glyph_count(data: Seq<u8>, index: u32) -> u16;

/// The horizontal advance of a glyph.
pub uninterp spec fn font_advance(data: Seq<u8>, index: u32, glyph: u16) -> Option<u16>;

/// Calls `ttf_parser::Face::parse`. Whether it succeeds depends on the data
/// and the index alone; the face it returns is that face of the data.
#[verifier::external_body]
pub(crate) fn parse_face<'a>(data: &'a [u8], index: u32) -> (r: Result<
    ttf_parser::Face<'a>,
    ttf_parser::FaceParsingError,
>)
    ensures
        r is Ok == font_parses(data@, index),
        r matches Ok(face) ==> face_data(face) == data@ && face_index(face) == index,
{
    ttf_parser::Face::parse(data, index)
}

/// The `Display` text of a `ttf_parser::FaceParsingError`.
#[verifier::external_body]
pub(crate) fn face_error_text(e: &ttf_parser::FaceParsingError) -> String {
    format!("{}", e)
}

/// Calls `Face::units_per_em`, which a parsed face keeps between 16 and
/// 16384.
#[verifier::external_body]
pub(crate) fn face_units_per_em(face: &ttf_parser::Face<'_>) -> (r: u16)
    ensures
        r == font_units_per_em(face_data(*face), face_index(*face)),
        16 <= r <= 16384,
{
    face.units_per_em()
}

/// Calls `Face::ascender`.
#[verifier::external_body]
pub(crate) fn face_ascender(face: &ttf_parser::Face<'_>) -> (r: i16)
    ensures
        r == font_ascender(face_data(*face), face_index(*face)),
{
    face.ascender()
}

/// Calls `Face::descender`.
#[verifier::external_body]
pub(crate) fn face_descender(face: &ttf_parser::Face<'_>) -> (r: i16)
    ensures
        r == font_descender(face_data(*face), face_index(*face)),
{
    face.descender()
}

/// Calls `Face::capital_height`.
#[verifier::external_body]
pub(crate) fn face_capital_height(face: &ttf_parser::Face<'_>) -> (r: Option<i16>)
    ensures
        r == font_capital_height(face_data(*face), face_index(*face)),
{
    face.capital_height()
}

/// Calls `Face::glyph_index` and gives the number of the glyph id.
#[verifier::external_body]
pub(crate) fn face_glyph_index(face: &ttf_parser::Face<'_>, ch: char) -> (r: Option<u16>)
    ensures
        r == font_glyph_index(face_data(*face), face_index(*face), ch),
{
    face.glyph_index(ch).map(|id| id.0)
}

/// Calls `Face::glyph_bounding_box` and gives the top of the box.
#[verifier::external_body]
pub(crate) fn face_glyph_top(face: &ttf_parser::Face<'_>, glyph: u16) -> (r: Option<i16>)
    ensures
        r == font_glyph_top(face_data(*face), face_index(*face), glyph),
{
    face.glyph_bounding_box(ttf_parser::GlyphId(glyph)).map(|bbox| bbox.y_max)
}

/// Calls `Face::names` and `Names::len`.
#[verifier::external_body]
pub(crate) fn face_name_count(face: &ttf_parser::Face<'_>) -> (r: u16)
    ensures
        r == font_name_count(face_data(*face), face_index(*face)),
{
    face.names().len()
}

/// What a name record reads as.
pub open spec fn name_view(record: Option<(u16, bool, Option<String>)>) -> Option<
    (u16, bool, Option<Seq<char>>),
> {
    match record {
        Some((id, unicode, Some(text))) => Some((id, unicode, Some(text@))),
        Some((id, unicode, None)) => Some((id, unicode, None)),
        None => None,
    }
}

/// Calls `Face::names` and `Names::get`, and gives of the record its name
/// id, what `Name::is_unicode` says and what `Name::to_string` returns.
#[verifier::external_body]
pub(crate) fn face_name(face: &ttf_parser::Face<'_>, at: u16) -> (r: Option<
    (u16, bool, Option<String>),
>)
    ensures
        name_view(r) == font_name(face_data(*face), face_index(*face), at),
{
    face.names().get(at).map(|n| (n.name_id, n.is_unicode(), n.to_string()))
}

/// The number of subtables of the face's character map, by
/// `Subtables::len`; `None` for a face without one.
#[verifier::external_body]
pub(crate) fn cmap_subtable_count(face: &ttf_parser::Face<'_>) -> (r: Option<u16>)
    ensures
        r == font_subtable_count(face_data(*face), face_index(*face)),
{
    face.tables().cmap.map(|table| table.subtables.len())
}

/// Whether subtable `at` of the character map, got by `Subtables::get`, is
/// for Unicode, by `Subtable::is_unicode`; `None` if it cannot be got.
#[verifier::external_body]
pub(crate) fn cmap_subtable_is_unicode(face: &ttf_parser::Face<'_>, at: u16) -> (r: Option<bool>)
    ensures
        r == font_subtable_is_unicode(face_data(*face), face_index(*face), at),
{
    face.tables().cmap.and_then(|table| table.subtables.get(at)).map(|s| s.is_unicode())
}

/// The code points that `Subtable::codepoints` hands out for subtable
/// `at`, in its order.
#[verifier::external_body]
pub(crate) fn cmap_subtable_codepoints(face: &ttf_parser::Face<'_>, at: u16) -> (r: Vec<u32>)
    ensures
        r@ == font_subtable_codepoints(face_data(*face), face_index(*face), at),
{
    let mut codes = Vec::new();
    if let Some(subtable) = face.tables().cmap.and_then(|table| table.subtables.get(at)) {
        subtable.codepoints(|code| codes.push(code));
    }
    codes
}

/// Calls `Subtable::glyph_index` on subtable `at` and gives the number of
/// the glyph id.
#[verifier::external_body]
pub(crate) fn cmap_subtable_glyph(face: &ttf_parser::Face<'_>, at: u16, code: u32) -> (r: Option<
    u16,
>)
    ensures
        r == font_subtable_glyph(face_data(*face), face_index(*face), at, code),
{
    let subtable = face.tables().cmap.and_then(|table| table.subtables.get(at))?;
    subtable.glyph_index(code).map(|id| id.0)
}

/// Calls `Face::number_of_glyphs`.
#[verifier::external_body]
pub(crate) fn face_number_of_glyphs(face: &ttf_parser::Face<'_>) -> (r: u16)
    ensures
        r == font_glyph_count(face_data(*face), face_index(*face)),
{
    face.number_of_glyphs()
}

/// Calls `Face::glyph_hor_advance`.
#[verifier::external_body]
pub(crate) fn face_glyph_hor_advance(face: &ttf_parser::Face<'_>, glyph: u16) -> (r: Option<u16>)
    ensures
        r == font_advance(face_data(*face), face_index(*face), glyph),
{
    face.glyph_hor_advance(ttf_parser::GlyphId(glyph))
}

} // verus!
