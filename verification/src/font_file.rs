//! Reading the tables of a font program.
use crate::bindings::ttf::{
    cmap_subtable_codepoints, cmap_subtable_count, cmap_subtable_glyph, cmap_subtable_is_unicode,
    face_ascender, face_capital_height, face_data, face_descender, face_error_text,
    face_glyph_hor_advance, face_glyph_index, face_glyph_top, face_index, face_name,
    face_name_count, face_number_of_glyphs, face_units_per_em, font_advance, font_ascender,
    font_capital_height, font_descender, font_glyph_count, font_glyph_index, font_glyph_top,
    font_name, font_name_count, font_parses, font_subtable_codepoints, font_subtable_count,
    font_subtable_glyph, font_subtable_is_unicode, font_units_per_em, parse_face,
};
use crate::error::RupdfError;
use crate::resources::LoadedFont;
use std::collections::HashMap;
use vstd::prelude::*;
use vstd::string::StringExecFns;

verus! {

/// The name id under which a font stores the name it gives itself.
pub const POSTSCRIPT_NAME_ID: u16 = 6;

/// The face that is loaded from a font program: the first.
pub const FACE_INDEX: u32 = 0;

/// A record of a font's name table.
#[derive(Debug)]
pub struct NameRecord {
    pub name_id: u16,
    /// Whether the record is in a Unicode encoding.
    pub unicode: bool,
    /// The text of the record, where it can be read.
    pub text: Option<String>,
}

/// A name record as a mathematical value: name id, whether it is in a
/// Unicode encoding, and its text.
pub type NameModel = (u16, bool, Option<Seq<char>>);

impl View for NameRecord {
    type V = NameModel;

    open spec fn view(&self) -> NameModel {
        (
            self.name_id,
            self.unicode,
            match self.text {
                Some(t) => Some(t@),
                None => None,
            },
        )
    }
}

/// The records of a vector as mathematical values.
pub open spec fn records_view(records: Seq<NameRecord>) -> Seq<NameModel> {
    Seq::new(records.len(), |i: int| records[i]@)
}

/// Seven tenths of `ascender`, rounded towards zero.
pub open spec fn estimated_cap_height(ascender: i16) -> int {
    if ascender >= 0 {
        (ascender * 7) / 10
    } else {
        -((-ascender * 7) / 10)
    }
}

/// The capital height of a font: the dedicated metric if the font has
/// one; else the top of the glyph of the capital H, if it has that; else
/// seven tenths of the ascender.
pub open spec fn cap_height_spec(capital: Option<i16>, h_top: Option<i16>, ascender: i16) -> int {
    match capital {
        Some(h) => h as int,
        None => match h_top {
            Some(top) => top as int,
            None => estimated_cap_height(ascender),
        },
    }
}

/// The capital height of a font with these metrics.
pub fn cap_height_from(capital: Option<i16>, h_top: Option<i16>, ascender: i16) -> (r: i16)
    ensures
        r == cap_height_spec(capital, h_top, ascender),
{
    match capital {
        Some(h) => h,
        None => match h_top {
            Some(top) => top,
            None => {
                let a: i32 = ascender as i32;
                if a >= 0 {
                    ((a * 7) / 10) as i16
                } else {
                    (-((-a * 7) / 10)) as i16
                }
            },
        },
    }
}

/// The index of the first of `records` from `i` on that holds the font's
/// own name in a Unicode encoding.
pub open spec fn own_name_index(records: Seq<NameModel>, i: int) -> Option<int>
    decreases records.len() - i,
{
    if i < 0 || i >= records.len() {
        None
    } else if records[i].0 == POSTSCRIPT_NAME_ID && records[i].1 {
        Some(i)
    } else {
        own_name_index(records, i + 1)
    }
}

/// The name by which a font is identified: the text of the first record
/// that holds the font's own name in a Unicode encoding, if that text can
/// be read; else the name the document gives the font.
pub open spec fn postscript_name_spec(records: Seq<NameModel>, fallback: Seq<char>) -> Seq<char> {
    match own_name_index(records, 0) {
        Some(i) => match records[i].2 {
            Some(text) => text,
            None => fallback,
        },
        None => fallback,
    }
}

/// The name by which a font with these name records is identified.
pub fn postscript_name_from(records: &Vec<NameRecord>, fallback: &str) -> (r: String)
    ensures
        r@ == postscript_name_spec(records_view(records@), fallback@),
{
    let mut i: usize = 0;
    while i < records.len()
        invariant
            i <= records.len(),
            own_name_index(records_view(records@), 0) == own_name_index(
                records_view(records@),
                i as int,
            ),
        decreases records.len() - i,
    {
        assert(records_view(records@)[i as int] == records@[i as int]@);
        if records[i].name_id == POSTSCRIPT_NAME_ID && records[i].unicode {
            return match &records[i].text {
                Some(text) => text.clone(),
                None => String::from_str(fallback),
            };
        }
        i += 1;
    }
    String::from_str(fallback)
}

/// Whether `code` is a Unicode scalar value, the code point of a
/// character.
pub open spec fn is_scalar_value(code: u32) -> bool {
    code < 0xd800 || 0xe000 <= code <= 0x10ffff
}

/// The map `base` after the entries from `i` on: an entry with a code
/// point that is a character and with a glyph maps the one to the other,
/// a later entry replacing an earlier one.
pub open spec fn with_entries(base: Map<u32, u16>, entries: Seq<(u32, Option<u16>)>, i: int) -> Map<
    u32,
    u16,
>
    decreases entries.len() - i,
{
    if i < 0 || i >= entries.len() {
        base
    } else {
        let next = match entries[i].1 {
            Some(g) => if is_scalar_value(entries[i].0) {
                base.insert(entries[i].0, g)
            } else {
                base
            },
            None => base,
        };
        with_entries(next, entries, i + 1)
    }
}

/// Adds the entries of a subtable to a character map.
pub fn add_entries(cmap: &mut HashMap<u32, u16>, entries: &Vec<(u32, Option<u16>)>)
    ensures
        final(cmap)@ == with_entries(old(cmap)@, entries@, 0),
{
    let mut i: usize = 0;
    while i < entries.len()
        invariant
            i <= entries.len(),
            with_entries(old(cmap)@, entries@, 0) == with_entries(cmap@, entries@, i as int),
        decreases entries.len() - i,
    {
        let code = entries[i].0;
        match entries[i].1 {
            Some(g) => {
                if code < 0xd800 || (0xe000 <= code && code <= 0x10ffff) {
                    cmap.insert(code, g);
                }
            },
            None => {},
        }
        i += 1;
    }
}

/// The name records of a font from `at` on, up to the first that cannot
/// be read.
pub open spec fn names_from(data: Seq<u8>, at: int) -> Seq<NameModel>
    decreases font_name_count(data, FACE_INDEX) - at,
{
    if at < 0 || at >= font_name_count(data, FACE_INDEX) {
        Seq::empty()
    } else {
        match font_name(data, FACE_INDEX, at as u16) {
            Some(record) => seq![record] + names_from(data, at + 1),
            None => Seq::empty(),
        }
    }
}

/// The entries of subtable `at` of a font's character map: every code
/// point it covers with the glyph it maps it to.
pub open spec fn subtable_entries(data: Seq<u8>, at: u16) -> Seq<(u32, Option<u16>)> {
    let codes = font_subtable_codepoints(data, FACE_INDEX, at);
    Seq::new(codes.len(), |k: int| (codes[k], font_subtable_glyph(data, FACE_INDEX, at, codes[k])))
}

/// The number of subtables of a font's character map: none for a font
/// without a character map.
pub open spec fn subtable_count(data: Seq<u8>) -> int {
    match font_subtable_count(data, FACE_INDEX) {
        Some(count) => count as int,
        None => 0,
    }
}

/// The character map `base` after the subtables from `at` on: the entries
/// of every Unicode subtable are added, in order, up to the first subtable
/// that cannot be read.
pub open spec fn cmap_from(data: Seq<u8>, at: int, base: Map<u32, u16>) -> Map<u32, u16>
    decreases subtable_count(data) - at,
{
    if at < 0 || at >= subtable_count(data) {
        base
    } else {
        match font_subtable_is_unicode(data, FACE_INDEX, at as u16) {
            Some(true) => cmap_from(
                data,
                at + 1,
                with_entries(base, subtable_entries(data, at as u16), 0),
            ),
            Some(false) => cmap_from(data, at + 1, base),
            None => base,
        }
    }
}

/// The width table `base` after the glyphs from `glyph` on: every glyph
/// that has an advance is given it.
pub open spec fn widths_from(data: Seq<u8>, glyph: int, base: Map<u16, u16>) -> Map<u16, u16>
    decreases font_glyph_count(data, FACE_INDEX) - glyph,
{
    if glyph < 0 || glyph >= font_glyph_count(data, FACE_INDEX) {
        base
    } else {
        match font_advance(data, FACE_INDEX, glyph as u16) {
            Some(advance) => widths_from(data, glyph + 1, base.insert(glyph as u16, advance)),
            None => widths_from(data, glyph + 1, base),
        }
    }
}

/// The top of the capital H of a font, if it has that glyph with an
/// outline.
pub open spec fn h_top(data: Seq<u8>) -> Option<i16> {
    match font_glyph_index(data, FACE_INDEX, 'H') {
        Some(glyph) => font_glyph_top(data, FACE_INDEX, glyph),
        None => None,
    }
}

/// Whether `font` is what loading `data` under the name `name` gives: the
/// data itself; the font's units per em, ascender and descender; the
/// capital height by its fallbacks; the font's own name or, failing that,
/// `name`; the character map of all Unicode subtables; and the advance of
/// every glyph.
pub open spec fn loads_as(font: LoadedFont, name: Seq<char>, data: Seq<u8>) -> bool {
    &&& font.data@ == data
    &&& font.units_per_em == font_units_per_em(data, FACE_INDEX)
    &&& font.ascender == font_ascender(data, FACE_INDEX)
    &&& font.descender == font_descender(data, FACE_INDEX)
    &&& font.cap_height == cap_height_spec(
        font_capital_height(data, FACE_INDEX),
        h_top(data),
        font_ascender(data, FACE_INDEX),
    )
    &&& font.postscript_name@ == postscript_name_spec(names_from(data, 0), name)
    &&& font.cmap@ == cmap_from(data, 0, Map::empty())
    &&& font.glyph_widths@ == widths_from(data, 0, Map::empty())
}

/// The name records of a face, up to the first that cannot be read.
fn read_names(face: &ttf_parser::Face<'_>) -> (records: Vec<NameRecord>)
    requires
        face_index(*face) == FACE_INDEX,
    ensures
        records_view(records@) == names_from(face_data(*face), 0),
{
    let ghost data = face_data(*face);
    let count = face_name_count(face);
    let mut records: Vec<NameRecord> = Vec::new();
    let mut i: u16 = 0;
    assert(records_view(records@) =~= Seq::<NameModel>::empty());
    while i < count
        invariant
            i <= count,
            data == face_data(*face),
            face_index(*face) == FACE_INDEX,
            count == font_name_count(data, FACE_INDEX),
            names_from(data, 0) == records_view(records@) + names_from(data, i as int),
        decreases count - i,
    {
        match face_name(face, i) {
            Some((name_id, unicode, text)) => {
                let ghost before = records_view(records@);
                let record = NameRecord { name_id, unicode, text };
                records.push(record);
                proof {
                    let model = font_name(data, FACE_INDEX, i)->0;
                    assert(record@ == model);
                    assert(records_view(records@) =~= before + seq![model]);
                    assert(before + (seq![model] + names_from(data, i + 1)) =~= (before + seq![
                        model,
                    ]) + names_from(data, i + 1));
                }
            },
            None => {
                assert(records_view(records@) + Seq::<NameModel>::empty() =~= records_view(
                    records@,
                ));
                return records;
            },
        }
        i += 1;
    }
    assert(records_view(records@) + Seq::<NameModel>::empty() =~= records_view(records@));
    records
}

/// The entries of one subtable of the character map.
fn read_entries(face: &ttf_parser::Face<'_>, at: u16) -> (entries: Vec<(u32, Option<u16>)>)
    requires
        face_index(*face) == FACE_INDEX,
    ensures
        entries@ == subtable_entries(face_data(*face), at),
{
    let ghost data = face_data(*face);
    let codes = cmap_subtable_codepoints(face, at);
    let mut entries: Vec<(u32, Option<u16>)> = Vec::new();
    let mut k: usize = 0;
    while k < codes.len()
        invariant
            k <= codes.len(),
            data == face_data(*face),
            face_index(*face) == FACE_INDEX,
            codes@ == font_subtable_codepoints(data, FACE_INDEX, at),
            entries@.len() == k,
            forall|j: int| 0 <= j < k ==> entries@[j] == subtable_entries(data, at)[j],
        decreases codes.len() - k,
    {
        entries.push((codes[k], cmap_subtable_glyph(face, at, codes[k])));
        k += 1;
    }
    assert(entries@ =~= subtable_entries(data, at));
    entries
}

/// The character map of a face: the entries of its Unicode subtables, in
/// order, up to the first subtable that cannot be read.
fn read_cmap(face: &ttf_parser::Face<'_>) -> (cmap: HashMap<u32, u16>)
    requires
        face_index(*face) == FACE_INDEX,
    ensures
        cmap@ == cmap_from(face_data(*face), 0, Map::empty()),
{
    let ghost data = face_data(*face);
    let mut cmap: HashMap<u32, u16> = HashMap::new();
    let count: u16 = match cmap_subtable_count(face) {
        Some(count) => count,
        None => 0,
    };
    let mut s: u16 = 0;
    while s < count
        invariant
            s <= count,
            data == face_data(*face),
            face_index(*face) == FACE_INDEX,
            count == subtable_count(data),
            cmap_from(data, 0, Map::empty()) == cmap_from(data, s as int, cmap@),
        decreases count - s,
    {
        match cmap_subtable_is_unicode(face, s) {
            Some(true) => {
                let entries = read_entries(face, s);
                add_entries(&mut cmap, &entries);
            },
            Some(false) => {},
            None => {
                return cmap;
            },
        }
        s += 1;
    }
    cmap
}

/// The advance widths of all glyphs of a face that have one.
fn read_widths(face: &ttf_parser::Face<'_>) -> (widths: HashMap<u16, u16>)
    requires
        face_index(*face) == FACE_INDEX,
    ensures
        widths@ == widths_from(face_data(*face), 0, Map::empty()),
{
    let ghost data = face_data(*face);
    let mut widths: HashMap<u16, u16> = HashMap::new();
    let count = face_number_of_glyphs(face);
    let mut g: u16 = 0;
    while g < count
        invariant
            g <= count,
            data == face_data(*face),
            face_index(*face) == FACE_INDEX,
            count == font_glyph_count(data, FACE_INDEX),
            widths_from(data, 0, Map::empty()) == widths_from(data, g as int, widths@),
        decreases count - g,
    {
        match face_glyph_hor_advance(face, g) {
            Some(advance) => {
                widths.insert(g, advance);
            },
            None => {},
        }
        g += 1;
    }
    widths
}

/// The text of the error for a font that cannot be parsed begins with
/// these words.
pub open spec fn parse_failure_prefix() -> Seq<char> {
    "Failed to parse font: "@
}

impl LoadedFont {
    /// Parses the font program `data` of the font that the document calls
    /// `name`: its metrics, its character map over all Unicode subtables, and
    /// the advance width of every glyph.
    pub fn load(name: &str, data: Vec<u8>) -> (r: Result<LoadedFont, RupdfError>)
        ensures
            match r {
                Ok(font) => font_parses(data@, FACE_INDEX) && font.wf() && loads_as(
                    font,
                    name@,
                    data@,
                ),
                Err(e) => !font_parses(data@, FACE_INDEX) && (e matches RupdfError::InvalidFont(
                    n,
                    detail,
                ) && n@ == name@ && parse_failure_prefix().is_prefix_of(detail@)),
            },
    {
        let face = match parse_face(data.as_slice(), FACE_INDEX) {
            Ok(face) => face,
            Err(e) => {
                let mut detail = String::from_str("Failed to parse font: ");
                let text = face_error_text(&e);
                detail.append(text.as_str());
                return Err(RupdfError::InvalidFont(String::from_str(name), detail));
            },
        };
        let units_per_em = face_units_per_em(&face);
        let ascender = face_ascender(&face);
        let descender = face_descender(&face);
        let capital = face_capital_height(&face);
        let top = match capital {
            Some(_) => None,
            None => match face_glyph_index(&face, 'H') {
                Some(glyph) => face_glyph_top(&face, glyph),
                None => None,
            },
        };
        let cap_height = cap_height_from(capital, top, ascender);
        let records = read_names(&face);
        let postscript_name = postscript_name_from(&records, name);
        let cmap = read_cmap(&face);
        let glyph_widths = read_widths(&face);
        Ok(
            LoadedFont {
                data,
                postscript_name,
                units_per_em,
                ascender,
                descender,
                cap_height,
                glyph_widths,
                cmap,
            },
        )
    }
}

} // verus!
