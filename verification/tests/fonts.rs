use rupdf::error::RupdfError;
use rupdf::measure::points;
use rupdf::pdf::FontEmbedder;
use rupdf::resources::LoadedFont;
use std::collections::HashMap;

/// A font with glyphs for the letters a to z, the capitals T and H, and the
/// space: every letter 500 units wide, the space 250, in an em of 1000.
fn sample_font() -> LoadedFont {
    let mut cmap = HashMap::new();
    let mut glyph_widths = HashMap::new();
    let mut next: u16 = 1;
    for c in ('a'..='z').chain(['T', 'H']) {
        cmap.insert(c as u32, next);
        glyph_widths.insert(next, 500u16);
        next += 1;
    }
    cmap.insert(' ' as u32, 300);
    glyph_widths.insert(300, 250);
    LoadedFont {
        data: Vec::new(),
        postscript_name: "Sample-Regular".to_string(),
        units_per_em: 1000,
        ascender: 800,
        descender: -200,
        cap_height: 700,
        glyph_widths,
        cmap,
    }
}

#[test]
fn glyph_id_finds_mapped_characters() {
    let font = sample_font();
    assert_eq!(font.glyph_id('a', "body"), Ok(1));
    assert_eq!(font.glyph_id('z', "body"), Ok(26));
    assert_eq!(font.glyph_id(' ', "body"), Ok(300));
}

#[test]
fn missing_glyph_names_character_and_font() {
    let font = sample_font();
    assert_eq!(
        font.glyph_id('中', "body"),
        Err(RupdfError::MissingGlyph { glyph: '中', font: "body".to_string() })
    );
    assert_eq!(
        font.text_width("ab中d", points(12), "body"),
        Err(RupdfError::MissingGlyph { glyph: '中', font: "body".to_string() })
    );
}

#[test]
fn advance_width_is_zero_for_unknown_glyphs() {
    let font = sample_font();
    assert_eq!(font.advance_width(1), 500);
    assert_eq!(font.advance_width(300), 250);
    assert_eq!(font.advance_width(9999), 0);
}

#[test]
fn text_width_scales_advances() {
    let font = sample_font();
    // Three letters of half an em and a space of a quarter, at 12 points.
    assert_eq!(font.text_width("ab c", points(12), "body"), Ok(21_000_000));
    assert_eq!(font.text_width("", points(12), "body"), Ok(0));
}

#[test]
fn metrics_scale_with_size() {
    let font = sample_font();
    assert_eq!(font.ascender_pts(points(10)), 8_000_000);
    assert_eq!(font.descender_pts(points(10)), -2_000_000);
    assert_eq!(font.cap_height_pts(points(10)), 7_000_000);
}

#[test]
fn wrap_text_two_words_per_line() {
    let font = sample_font();
    // "The quick" is 3 + 5 letters and a space: 4.25 em, 51 points at size 12.
    let lines = font
        .wrap_text("the quick brown fox", points(12), points(51), "body")
        .unwrap();
    assert_eq!(lines, vec!["the quick".to_string(), "brown fox".to_string()]);
}

#[test]
fn wrap_text_keeps_empty_paragraphs() {
    let font = sample_font();
    let lines = font.wrap_text("a\n\nb", points(12), points(100), "body").unwrap();
    assert_eq!(lines, vec!["a".to_string(), String::new(), "b".to_string()]);
}

#[test]
fn wrap_text_places_a_word_wider_than_the_limit() {
    let font = sample_font();
    let lines = font.wrap_text("extraordinarily", points(12), points(10), "body").unwrap();
    assert_eq!(lines, vec!["extraordinarily".to_string()]);
    let lines = font.wrap_text("a extraordinarily b", points(12), points(10), "body").unwrap();
    assert_eq!(
        lines,
        vec!["a".to_string(), "extraordinarily".to_string(), "b".to_string()]
    );
}

#[test]
fn wrap_text_collapses_runs_of_spaces() {
    let font = sample_font();
    let lines = font.wrap_text("  a \t b  ", points(12), points(100), "body").unwrap();
    assert_eq!(lines, vec!["a b".to_string()]);
    let lines = font.wrap_text("   ", points(12), points(100), "body").unwrap();
    assert_eq!(lines, vec![String::new()]);
}

#[test]
fn wrap_text_fails_on_missing_glyph() {
    let font = sample_font();
    assert_eq!(
        font.wrap_text("ab\ncd é", points(12), points(100), "body"),
        Err(RupdfError::MissingGlyph { glyph: 'é', font: "body".to_string() })
    );
}

#[test]
fn embedder_registers_and_encodes() {
    let font = sample_font();
    let mut embedder = FontEmbedder::new(&font, "body");
    assert_eq!(embedder.use_char('b'), Ok(2));
    embedder.use_text("a z\n").unwrap();
    // 'c' was never registered and is left out.
    assert_eq!(embedder.encode_text("abc z"), vec![0, 1, 0, 2, 1, 44, 0, 26]);
}

#[test]
fn embedder_rejects_missing_glyph() {
    let font = sample_font();
    let mut embedder = FontEmbedder::new(&font, "body");
    assert_eq!(
        embedder.use_text("ab!cd"),
        Err(RupdfError::MissingGlyph { glyph: '!', font: "body".to_string() })
    );
    // What came before the failure stays registered.
    assert_eq!(embedder.encode_text("abcd"), vec![0, 1, 0, 2]);
}

#[test]
fn widths_are_sorted_and_scaled() {
    let mut font = sample_font();
    font.units_per_em = 2048;
    let mut embedder = FontEmbedder::new(&font, "body");
    embedder.use_text("zb a").unwrap();
    assert_eq!(embedder.glyph_list(), vec![1, 2, 26, 300]);
    assert_eq!(
        embedder.build_widths(),
        vec![(1, 244), (2, 244), (26, 244), (300, 122)]
    );
}

#[test]
fn to_unicode_map_lists_pairs_in_character_order() {
    let font = sample_font();
    let mut embedder = FontEmbedder::new(&font, "body");
    embedder.use_text("ba").unwrap();
    let stream = String::from_utf8(embedder.build_to_unicode_cmap()).unwrap();
    assert!(stream.contains("/CMapName /Adobe-Identity-UCS def"));
    let a = stream.find("<0001> <0061>").unwrap();
    let b = stream.find("<0002> <0062>").unwrap();
    assert!(a < b);
}

#[test]
fn subsetting_garbage_is_an_invalid_font() {
    let mut font = sample_font();
    font.data = vec![1, 2, 3];
    let mut embedder = FontEmbedder::new(&font, "body");
    embedder.use_text("a").unwrap();
    match embedder.embed(3, 4, 5, 6, 7, true) {
        Err(RupdfError::InvalidFont(name, detail)) => {
            assert_eq!(name, "body");
            assert!(detail.starts_with("Failed to subset font: "));
        }
        _ => panic!("expected an invalid font"),
    }
}
