use rupdf::error::RupdfError;
use rupdf::font_file::{add_entries, cap_height_from, postscript_name_from, NameRecord};
use rupdf::measure::points;
use rupdf::pdf::FontEmbedder;
use rupdf::resources::LoadedFont;
use std::collections::HashMap;

fn be16(out: &mut Vec<u8>, v: u16) {
    out.extend_from_slice(&v.to_be_bytes());
}

fn be32(out: &mut Vec<u8>, v: u32) {
    out.extend_from_slice(&v.to_be_bytes());
}

/// A font with 60 empty glyphs: the characters from the space to Z map to
/// the glyphs 1 to 59, glyph `g` is `100 + g` units wide, the em has 1000
/// units, and the font calls itself Mini-Regular. It has no table of
/// metrics beyond ascender 800 and descender -200.
fn mini_font() -> Vec<u8> {
    font_with(None, None)
}

/// The same font, stating the capital height `capital` if one is given,
/// and with a table of glyph names that claims to name `named` glyphs, and
/// names none, if that is given.
fn font_with(capital: Option<i16>, named: Option<u16>) -> Vec<u8> {
    let glyphs: u16 = 60;
    let mut head = Vec::new();
    be32(&mut head, 0x0001_0000);
    be32(&mut head, 0x0001_0000);
    be32(&mut head, 0);
    be32(&mut head, 0x5f0f_3cf5);
    be16(&mut head, 0);
    be16(&mut head, 1000);
    head.extend_from_slice(&[0; 16]);
    for v in [0u16, 0, 1000, 1000] {
        be16(&mut head, v);
    }
    for v in [0u16, 8, 2, 0, 0] {
        be16(&mut head, v);
    }
    let mut hhea = Vec::new();
    be32(&mut hhea, 0x0001_0000);
    be16(&mut hhea, 800);
    be16(&mut hhea, (-200i16) as u16);
    hhea.extend_from_slice(&[0; 26]);
    be16(&mut hhea, glyphs);
    let mut maxp = Vec::new();
    be32(&mut maxp, 0x0001_0000);
    be16(&mut maxp, glyphs);
    maxp.extend_from_slice(&[0; 26]);
    let mut hmtx = Vec::new();
    for g in 0..glyphs {
        be16(&mut hmtx, 100 + g);
        be16(&mut hmtx, 0);
    }
    let mut cmap = Vec::new();
    for v in [0u16, 1, 3, 1] {
        be16(&mut cmap, v);
    }
    be32(&mut cmap, 12);
    for v in [4u16, 32, 0, 4, 4, 1, 0] {
        be16(&mut cmap, v);
    }
    for v in [0x5au16, 0xffff, 0, 0x20, 0xffff, 1u16.wrapping_sub(0x20), 1, 0, 0] {
        be16(&mut cmap, v);
    }
    let own_name: Vec<u8> = "Mini-Regular".encode_utf16().flat_map(|u| u.to_be_bytes()).collect();
    let mut name = Vec::new();
    for v in [0u16, 1, 18, 3, 1, 0x409, 6, own_name.len() as u16, 0] {
        be16(&mut name, v);
    }
    name.extend_from_slice(&own_name);
    let loca = vec![0u8; 2 * (glyphs as usize + 1)];
    let glyf = vec![0u8; 4];
    let mut tables: Vec<(&[u8; 4], Vec<u8>)> = Vec::new();
    if let Some(height) = capital {
        let mut os2 = vec![0u8; 96];
        os2[1] = 2;
        os2[88..90].copy_from_slice(&height.to_be_bytes());
        tables.push((b"OS/2", os2));
    }
    tables.extend([
        (b"cmap", cmap),
        (b"glyf", glyf),
        (b"head", head),
        (b"hhea", hhea),
        (b"hmtx", hmtx),
        (b"loca", loca),
        (b"maxp", maxp),
        (b"name", name),
    ]);
    if let Some(count) = named {
        let mut post = vec![0u8; 32];
        post[1] = 2;
        be16(&mut post, count);
        tables.push((b"post", post));
    }
    let mut font = Vec::new();
    be32(&mut font, 0x0001_0000);
    be16(&mut font, tables.len() as u16);
    for v in [128u16, 3, 0] {
        be16(&mut font, v);
    }
    let mut offset = 12 + 16 * tables.len();
    for (tag, data) in &tables {
        font.extend_from_slice(*tag);
        be32(&mut font, 0);
        be32(&mut font, offset as u32);
        be32(&mut font, data.len() as u32);
        offset += (data.len() + 3) / 4 * 4;
    }
    for (_, data) in &tables {
        font.extend_from_slice(data);
        while font.len() % 4 != 0 {
            font.push(0);
        }
    }
    font
}

#[test]
fn a_font_is_loaded_with_its_tables() {
    let data = mini_font();
    let font = LoadedFont::load("body", data.clone()).unwrap();
    assert_eq!(font.data, data);
    assert_eq!(font.postscript_name, "Mini-Regular");
    assert_eq!(font.units_per_em, 1000);
    assert_eq!(font.ascender, 800);
    assert_eq!(font.descender, -200);
    // Neither a capital height nor an outline of H: seven tenths of 800.
    assert_eq!(font.cap_height, 560);
    assert_eq!(font.cmap.len(), 59);
    assert_eq!(font.glyph_id(' ', "body"), Ok(1));
    assert_eq!(font.glyph_id('A', "body"), Ok(34));
    assert_eq!(font.glyph_id('Z', "body"), Ok(59));
    assert!(font.glyph_id('a', "body").is_err());
    assert_eq!(font.glyph_widths.len(), 60);
    assert_eq!(font.advance_width(34), 134);
    assert_eq!(font.text_width("AZ", points(10), "body"), Ok(2_930_000));
}

#[test]
fn a_stated_capital_height_is_taken() {
    let font = LoadedFont::load("body", font_with(Some(712), None)).unwrap();
    assert_eq!(font.cap_height, 712);
    assert_eq!(font.cap_height_pts(points(10)), 7_120_000);
}

#[test]
fn data_that_is_no_font_is_invalid() {
    match LoadedFont::load("body", vec![0, 1, 2, 3, 4, 5]) {
        Err(RupdfError::InvalidFont(name, detail)) => {
            assert_eq!(name, "body");
            assert_eq!(detail, "Failed to parse font: unknown magic");
        }
        _ => panic!("expected an invalid font"),
    }
}

#[test]
fn a_loaded_font_is_embedded_as_a_subset() {
    let font = LoadedFont::load("body", mini_font()).unwrap();
    let mut embedder = FontEmbedder::new(&font, "body");
    embedder.use_text("BA A").unwrap();
    let embedded = embedder.embed(10, 11, 12, 13, 14, true).unwrap();
    assert!(embedded.compress);
    assert_eq!(
        (
            embedded.font_ref,
            embedded.cid_font_ref,
            embedded.descriptor_ref,
            embedded.cmap_ref,
            embedded.font_file_ref
        ),
        (10, 11, 12, 13, 14)
    );
    assert_eq!(embedded.base_font, "Mini-Regular");
    assert_eq!(embedded.widths, vec![(1, 101), (34, 134), (35, 135)]);
    assert_eq!(embedded.ascent, points(800));
    assert_eq!(embedded.descent, points(-200));
    assert_eq!(embedded.cap_height, points(640));
    assert_eq!(embedded.bbox, (points(-500), points(-300), points(1500), points(1000)));
    assert_eq!(embedded.stem_v, points(80));
    assert_eq!(embedded.default_width, points(1000));
    assert_eq!(embedded.italic_angle, 0);
    assert!(embedded.symbolic);
    // The font program is a zlib stream of a font that still parses.
    assert_eq!(embedded.font_file[0], 0x78);
    let program = miniz_oxide::inflate::decompress_to_vec_zlib(&embedded.font_file).unwrap();
    assert_ne!(program, font.data);
    let subset = LoadedFont::load("subset", program.clone()).unwrap();
    assert_eq!(subset.units_per_em, 1000);
    let map = miniz_oxide::inflate::decompress_to_vec_zlib(&embedded.to_unicode).unwrap();
    let map = String::from_utf8(map).unwrap();
    assert!(map.contains("<0001> <0020>\n<0022> <0041>\n<0023> <0042>"));
    // Without compression both streams are stored plain.
    let plain = embedder.embed(10, 11, 12, 13, 14, false).unwrap();
    assert!(!plain.compress);
    assert_eq!(plain.font_file, program);
    assert_eq!(String::from_utf8(plain.to_unicode).unwrap(), map);
}

#[test]
fn a_font_that_names_too_many_glyphs_is_not_subsetted() {
    let font = LoadedFont::load("body", font_with(None, Some(65278))).unwrap();
    let mut embedder = FontEmbedder::new(&font, "body");
    embedder.use_text("A").unwrap();
    assert_eq!(
        embedder.embed(1, 2, 3, 4, 5, true).err(),
        Some(RupdfError::InvalidFont(
            "body".to_string(),
            "Failed to subset font: too many glyph names".to_string()
        ))
    );
    assert!(!rupdf::glyph_names::check_glyph_names(&font.data, 0));
    // A table at the limit is handed to the subsetter, which misses the
    // names that the table claims to hold.
    let font = LoadedFont::load("body", font_with(None, Some(65277))).unwrap();
    assert!(rupdf::glyph_names::check_glyph_names(&font.data, 0));
    let mut embedder = FontEmbedder::new(&font, "body");
    embedder.use_text("A").unwrap();
    assert_eq!(
        embedder.embed(1, 2, 3, 4, 5, true).err(),
        Some(RupdfError::InvalidFont(
            "body".to_string(),
            "Failed to subset font: MissingData".to_string()
        ))
    );
    assert!(rupdf::glyph_names::check_glyph_names(&mini_font(), 0));
    assert!(rupdf::glyph_names::check_glyph_names(&[], 0));
    assert!(rupdf::glyph_names::check_glyph_names(b"ttcf\0\0\0\0\0\0\0\0", 0));
}

#[test]
fn the_capital_height_falls_back_in_two_steps() {
    assert_eq!(cap_height_from(Some(712), Some(690), 800), 712);
    assert_eq!(cap_height_from(None, Some(690), 800), 690);
    assert_eq!(cap_height_from(None, None, 800), 560);
    assert_eq!(cap_height_from(None, None, 9), 6);
    assert_eq!(cap_height_from(None, None, -9), -6);
}

fn record(name_id: u16, unicode: bool, text: Option<&str>) -> NameRecord {
    NameRecord { name_id, unicode, text: text.map(|t| t.to_string()) }
}

#[test]
fn a_font_is_known_by_its_own_name() {
    let records = vec![
        record(1, true, Some("Family")),
        record(6, false, None),
        record(6, true, Some("Own-Name")),
        record(6, true, Some("Later")),
    ];
    assert_eq!(postscript_name_from(&records, "alias"), "Own-Name");
    assert_eq!(postscript_name_from(&vec![record(1, true, Some("Family"))], "alias"), "alias");
    // The first matching record decides, even if it cannot be read.
    let unreadable = vec![record(6, true, None), record(6, true, Some("Later"))];
    assert_eq!(postscript_name_from(&unreadable, "alias"), "alias");
}

#[test]
fn only_characters_with_glyphs_enter_the_map() {
    let mut cmap = HashMap::new();
    cmap.insert(0x41, 7);
    add_entries(
        &mut cmap,
        &vec![(0x41, Some(1)), (0x42, None), (0xd800, Some(3)), (0x1f600, Some(4)), (0x110000, Some(5))],
    );
    let mut entries: Vec<(u32, u16)> = cmap.into_iter().collect();
    entries.sort();
    assert_eq!(entries, vec![(0x41, 1), (0x1f600, 4)]);
}
