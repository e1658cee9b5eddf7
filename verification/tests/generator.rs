use rupdf::elements::svg::{Node, Transform, Tree};
use rupdf::error::RupdfError;
use rupdf::measure::points;
use rupdf::pdf::content::Op;
use rupdf::pdf::page::{finish_content, render_page_content};
use rupdf::pdf::usage::discover;
use rupdf::pdf::writer::{CompiledDocument, ImageObject};
use rupdf::pdf::{render_pdf, PdfGenerator};
use rupdf::resources::{LoadedFont, LoadedImage, LoadedResources};
use rupdf::types::{
    BarcodeElement, Color, Document, Element, ImageElement, LineElement, Metadata, Page,
    QRCodeElement, RectElement, Resources, TextAlign, TextElement, VerticalAnchor,
};
use std::collections::HashMap;
use std::io::Cursor;

fn page(elements: Vec<Element>) -> Page {
    Page { width: points(612), height: points(792), background: Color::white(), elements }
}

fn document(pages: Vec<Page>) -> Document {
    Document { metadata: Metadata::default(), pages, resources: Resources::default() }
}

fn rect_element() -> Element {
    Element::Rect(RectElement {
        x: points(72),
        y: points(72),
        w: points(100),
        h: points(50),
        stroke: points(1),
        stroke_color: Color::black(),
        fill_color: Some(Color { r: 200, g: 200, b: 255, a: 255 }),
        corner_radius: 0,
    })
}

fn text_element(font: &str, text: &str) -> Element {
    Element::Text(TextElement {
        x: points(72),
        y: points(100),
        text: text.to_string(),
        font: font.to_string(),
        size: points(12),
        color: Color::black(),
        align: TextAlign::Left,
        vertical_anchor: VerticalAnchor::Baseline,
    })
}

fn image_element(name: &str, w: Option<i64>) -> Element {
    Element::Image(ImageElement {
        x: points(10),
        y: points(10),
        w,
        h: None,
        image_ref: name.to_string(),
        align: TextAlign::Left,
    })
}

fn be16(out: &mut Vec<u8>, v: u16) {
    out.extend_from_slice(&v.to_be_bytes());
}

fn be32(out: &mut Vec<u8>, v: u32) {
    out.extend_from_slice(&v.to_be_bytes());
}

/// A font program with 60 empty glyphs for the characters from the space
/// to Z, each 500 units wide in an em of 1000.
fn font_program(own_name: &str) -> Vec<u8> {
    let glyphs: u16 = 60;
    let mut head = Vec::new();
    for v in [0x0001_0000u32, 0x0001_0000, 0, 0x5f0f_3cf5] {
        be32(&mut head, v);
    }
    be16(&mut head, 0);
    be16(&mut head, 1000);
    head.extend_from_slice(&[0; 16]);
    for v in [0u16, 0, 1000, 1000, 0, 8, 2, 0, 0] {
        be16(&mut head, v);
    }
    let mut hhea = Vec::new();
    be32(&mut hhea, 0x0001_0000);
    be16(&mut hhea, 800);
    be16(&mut hhea, (-200i16) as u16);
    hhea.extend_from_slice(&[0; 26]);
    be16(&mut hhea, glyphs);
    let mut maxp = Vec::new();
    be32(&mut maxp, 0x0001_0000);
    be16(&mut maxp, glyphs);
    maxp.extend_from_slice(&[0; 26]);
    let mut hmtx = Vec::new();
    for _ in 0..glyphs {
        be16(&mut hmtx, 500);
        be16(&mut hmtx, 0);
    }
    let mut cmap = Vec::new();
    for v in [0u16, 1, 3, 1] {
        be16(&mut cmap, v);
    }
    be32(&mut cmap, 12);
    for v in [4u16, 32, 0, 4, 4, 1, 0] {
        be16(&mut cmap, v);
    }
    for v in [0x5au16, 0xffff, 0, 0x20, 0xffff, 1u16.wrapping_sub(0x20), 1, 0, 0] {
        be16(&mut cmap, v);
    }
    let text: Vec<u8> = own_name.encode_utf16().flat_map(|u| u.to_be_bytes()).collect();
    let mut name = Vec::new();
    for v in [0u16, 1, 18, 3, 1, 0x409, 6, text.len() as u16, 0] {
        be16(&mut name, v);
    }
    name.extend_from_slice(&text);
    let tables: Vec<(&[u8; 4], Vec<u8>)> = vec![
        (b"cmap", cmap),
        (b"glyf", vec![0u8; 4]),
        (b"head", head),
        (b"hhea", hhea),
        (b"hmtx", hmtx),
        (b"loca", vec![0u8; 2 * (glyphs as usize + 1)]),
        (b"maxp", maxp),
        (b"name", name),
    ];
    let mut font = Vec::new();
    be32(&mut font, 0x0001_0000);
    for v in [tables.len() as u16, 128, 3, 0] {
        be16(&mut font, v);
    }
    let mut offset = 12 + 16 * tables.len();
    for (tag, data) in &tables {
        font.extend_from_slice(*tag);
        be32(&mut font, 0);
        be32(&mut font, offset as u32);
        be32(&mut font, data.len() as u32);
        offset += (data.len() + 3) / 4 * 4;
    }
    for (_, data) in &tables {
        font.extend_from_slice(data);
        while font.len() % 4 != 0 {
            font.push(0);
        }
    }
    font
}

fn png(width: u32, height: u32) -> Vec<u8> {
    let buffer = image::RgbaImage::from_pixel(width, height, image::Rgba([9, 9, 9, 255]));
    let mut data = Vec::new();
    image::DynamicImage::ImageRgba8(buffer)
        .write_to(&mut Cursor::new(&mut data), image::ImageOutputFormat::Png)
        .unwrap();
    data
}

fn resources() -> LoadedResources {
    let mut res = LoadedResources::new();
    res.insert_font("body", LoadedFont::load("body", font_program("Body-Regular")).unwrap());
    res.insert_font("head", LoadedFont::load("head", font_program("Head-Bold")).unwrap());
    res.insert_image("photo", LoadedImage::load("photo", png(40, 20), None).unwrap());
    let tree = Tree {
        root: Node::Group { transform: Transform::identity(), children: vec![] },
        width: points(30),
        height: points(15),
    };
    res.insert_image("logo", LoadedImage::load("logo", b"<svg/>".to_vec(), Some(Ok(tree))).unwrap());
    res
}

fn compile(doc: &Document, res: &LoadedResources, compress: bool) -> Result<CompiledDocument, RupdfError> {
    assert_eq!(doc.validate(), Ok(()));
    assert!(res.is_wf());
    PdfGenerator::new(doc, res, compress).generate()
}

/// Every identifier of a compiled document, in the order of numbering.
fn identifiers(plan: &CompiledDocument) -> Vec<i32> {
    let mut ids = vec![plan.catalog_ref, plan.page_tree_ref];
    if let Some(info) = &plan.info {
        ids.push(info.info_ref);
    }
    let mut states: Vec<i32> = plan.alpha_states.values().copied().collect();
    states.sort();
    ids.extend(states);
    for f in &plan.fonts {
        ids.extend([f.font_ref, f.cid_font_ref, f.descriptor_ref, f.cmap_ref, f.font_file_ref]);
    }
    for image in &plan.images {
        ids.push(match &image.object {
            ImageObject::Raster(object) => object.image_ref,
            ImageObject::Form(form) => form.form_ref,
        });
    }
    for p in &plan.pages {
        ids.extend([p.content_ref, p.page_ref]);
    }
    ids
}

#[test]
fn an_empty_page_compiles_to_catalog_tree_and_page() {
    let doc = document(vec![page(vec![])]);
    let plan = compile(&doc, &LoadedResources::new(), false).unwrap();
    assert_eq!((plan.catalog_ref, plan.page_tree_ref), (1, 2));
    assert!(plan.info.is_none());
    assert!(plan.fonts.is_empty());
    assert!(plan.images.is_empty());
    assert_eq!(plan.pages.len(), 1);
    assert_eq!((plan.pages[0].width, plan.pages[0].height), (points(612), points(792)));
    assert!(plan.pages[0].content.is_empty());
    assert!(!plan.pages[0].compress);
    let mut states: Vec<(u8, i32)> = plan.alpha_states.iter().map(|(l, r)| (*l, *r)).collect();
    states.sort_by_key(|s| s.1);
    assert_eq!(states, vec![(255, 3), (191, 4), (127, 5), (63, 6)]);
    assert_eq!(identifiers(&plan), (1..=8).collect::<Vec<i32>>());
}

#[test]
fn a_rectangle_adds_to_the_page_program() {
    let doc = document(vec![page(vec![rect_element()])]);
    let plan = compile(&doc, &LoadedResources::new(), false).unwrap();
    assert_eq!(plan.pages[0].content.len(), 9);
    assert_eq!(plan.pages[0].content[1], Op::SetFillRgb(200, 200, 255));
}

#[test]
fn a_line_compiles() {
    let line = Element::Line(LineElement {
        x1: points(72),
        y1: points(72),
        x2: points(200),
        y2: points(150),
        stroke: points(2),
        color: Color { r: 255, g: 0, b: 0, a: 255 },
    });
    let plan = compile(&document(vec![page(vec![line])]), &LoadedResources::new(), false).unwrap();
    assert_eq!(plan.pages[0].content[3], Op::MoveTo(points(72), points(720)));
}

fn three_pages() -> Document {
    let mut second = page(vec![]);
    second.background = Color { r: 240, g: 240, b: 255, a: 255 };
    let mut third = page(vec![]);
    third.width = points(595);
    third.height = points(842);
    let mut doc = document(vec![page(vec![]), second, third]);
    doc.metadata.title = Some("Multi-Page Test".to_string());
    doc.metadata.author = Some("rupdf".to_string());
    doc
}

#[test]
fn every_page_is_compiled_and_the_title_kept() {
    let doc = three_pages();
    let plan = compile(&doc, &LoadedResources::new(), false).unwrap();
    assert_eq!(plan.pages.len(), 3);
    let info = plan.info.as_ref().unwrap();
    assert_eq!(info.info_ref, 3);
    assert_eq!(info.title.as_deref(), Some("Multi-Page Test"));
    assert_eq!(info.author.as_deref(), Some("rupdf"));
    assert!(info.subject.is_none());
    assert_eq!((plan.pages[2].width, plan.pages[2].height), (points(595), points(842)));
    assert_eq!(plan.pages[1].content.len(), 5);
    assert_eq!(identifiers(&plan), (1..=13).collect::<Vec<i32>>());
}

#[test]
fn compression_changes_the_streams_and_nothing_else() {
    let doc = three_pages();
    let res = LoadedResources::new();
    let with = compile(&doc, &res, true).unwrap();
    let without = compile(&doc, &res, false).unwrap();
    assert!(with.compress && !without.compress);
    for (a, b) in with.pages.iter().zip(&without.pages) {
        assert!(a.compress && !b.compress);
        assert_eq!(a.content, b.content);
        assert_eq!((a.width, a.height), (b.width, b.height));
    }
    let program = b"0.5 0.5 0.5 rg 0 0 10 10 re f".repeat(20);
    assert_eq!(finish_content(program.clone(), false), program);
    let stored = finish_content(program.clone(), true);
    assert_eq!(stored[0], 0x78);
    assert_eq!(miniz_oxide::inflate::decompress_to_vec_zlib(&stored).unwrap(), program);
}

#[test]
fn fonts_are_embedded_once_with_all_their_characters() {
    let res = resources();
    let doc = document(vec![
        page(vec![text_element("body", "AB"), text_element("head", "Z")]),
        page(vec![text_element("body", "C A")]),
    ]);
    let plan = compile(&doc, &res, true).unwrap();
    assert_eq!(plan.fonts.len(), 2);
    assert_eq!(plan.fonts[0].base_font, "Body-Regular");
    assert_eq!(plan.fonts[1].base_font, "Head-Bold");
    let glyphs: Vec<u16> = plan.fonts[0].widths.iter().map(|w| w.0).collect();
    assert_eq!(glyphs, vec![1, 34, 35, 36]);
    assert_eq!(plan.fonts[0].font_ref, 7);
    assert_eq!(plan.fonts[1].font_ref, 12);
    assert_eq!(plan.pages[0].content_ref, 17);
    assert_eq!(identifiers(&plan), (1..=20).collect::<Vec<i32>>());
    assert_eq!(plan.pages[0].content[3], Op::SetFont("Body-Regular".to_string(), points(12)));
    assert_eq!(plan.pages[0].content[5], Op::Show(vec![0, 34, 0, 35]));
    assert_eq!(plan.pages[0].content[11], Op::SetFont("Head-Bold".to_string(), points(12)));
}

#[test]
fn a_raster_image_is_embedded_for_every_size() {
    let res = resources();
    let doc = document(vec![page(vec![
        image_element("photo", Some(points(4))),
        image_element("logo", None),
        image_element("photo", None),
        image_element("photo", Some(points(4))),
        image_element("logo", Some(points(90))),
    ])]);
    let plan = compile(&doc, &res, false).unwrap();
    let keys: Vec<&str> = plan.images.iter().map(|i| i.key.as_str()).collect();
    assert_eq!(keys, vec!["photo_4x2", "logo", "photo_40x20"]);
    match &plan.images[0].object {
        // Four points hold 17 samples at 300 to the inch.
        ImageObject::Raster(object) => {
            assert_eq!((object.image_ref, object.width, object.height), (7, 17, 9))
        }
        _ => panic!("expected a raster image"),
    }
    match &plan.images[1].object {
        ImageObject::Form(form) => {
            assert_eq!((form.form_ref, form.width, form.height), (8, points(30), points(15)))
        }
        _ => panic!("expected a form"),
    }
    match &plan.images[2].object {
        ImageObject::Raster(object) => {
            assert_eq!((object.image_ref, object.width, object.height), (9, 40, 20))
        }
        _ => panic!("expected a raster image"),
    }
    assert_eq!(plan.pages[0].content[2], Op::XObject("photo_4x2".to_string()));
    assert_eq!(plan.pages[0].content[18], Op::XObject("logo".to_string()));
    assert_eq!(
        plan.pages[0].content[17],
        Op::Transform(points(3), 0, 0, points(3), points(10), points(737))
    );
}

#[test]
fn unknown_resources_fail_the_compilation() {
    let res = resources();
    let doc = document(vec![page(vec![rect_element(), text_element("serif", "A")])]);
    assert_eq!(
        compile(&doc, &res, false).unwrap_err(),
        RupdfError::MissingFont("serif".to_string())
    );
    let doc = document(vec![page(vec![image_element("chart", None)])]);
    assert_eq!(
        compile(&doc, &res, false).unwrap_err(),
        RupdfError::MissingImage("chart".to_string())
    );
}

#[test]
fn a_missing_glyph_fails_the_compilation() {
    let res = resources();
    let doc = document(vec![page(vec![text_element("body", "A\nb")])]);
    assert_eq!(
        compile(&doc, &res, false).unwrap_err(),
        RupdfError::MissingGlyph { glyph: 'b', font: "body".to_string() }
    );
}

fn barcode_element(value: &str, human_readable: bool) -> Element {
    Element::Barcode(BarcodeElement {
        x: points(10),
        y: points(20),
        w: points(46),
        h: points(30),
        value: value.to_string(),
        human_readable,
        font: "body".to_string(),
        font_size: points(10),
    })
}

#[test]
fn a_barcode_with_a_null_byte_fails_the_compilation() {
    let res = resources();
    let doc = document(vec![page(vec![barcode_element("test\x00", false)])]);
    match compile(&doc, &res, false) {
        Err(RupdfError::InvalidBarcode { value, reason }) => {
            assert_eq!(value, "test\x00");
            assert_eq!(reason, "null bytes not allowed");
        }
        _ => panic!("expected an invalid barcode"),
    }
}

#[test]
fn a_barcode_prints_its_value_in_its_font() {
    let res = resources();
    let doc = document(vec![page(vec![barcode_element("A", true)])]);
    let plan = compile(&doc, &res, false).unwrap();
    assert_eq!(plan.fonts.len(), 1);
    let ops = &plan.pages[0].content;
    assert_eq!(ops[ops.len() - 1], Op::RestoreState);
    assert_eq!(ops[ops.len() - 2], Op::EndText);
    assert_eq!(ops[ops.len() - 3], Op::Show(vec![0, 34]));
    // The value is 5 points wide and centred in 46 points; its top lies
    // two points below the bars, which are 16 points high.
    assert_eq!(
        ops[ops.len() - 4],
        Op::NextLine(points(10) + (points(46) - points(5)) / 2, points(792 - 20 - 16 - 2 - 8))
    );
    // A barcode without printed value uses no font.
    let doc = document(vec![page(vec![barcode_element("A", false)])]);
    assert!(compile(&doc, &res, false).unwrap().fonts.is_empty());
}

#[test]
fn a_matrix_symbol_compiles() {
    let qr = Element::QRCode(QRCodeElement {
        x: points(10),
        y: points(20),
        size: points(42),
        value: "https://example.org".to_string(),
        color: Color::black(),
        background: Color::white(),
    });
    let doc = document(vec![page(vec![qr])]);
    let plan = compile(&doc, &LoadedResources::new(), false).unwrap();
    let ops = &plan.pages[0].content;
    assert_eq!(ops[0], Op::SaveState);
    assert_eq!(ops[1], Op::SetFillRgb(0, 0, 0));
    assert!(ops.len() > 100);
}

#[test]
fn usage_is_discovered_in_order_of_first_use() {
    let res = resources();
    let doc = document(vec![page(vec![
        text_element("head", "A"),
        image_element("logo", None),
        text_element("body", "B"),
        text_element("head", "C"),
    ])]);
    let usage = discover(&doc, &res).unwrap();
    let aliases: Vec<&str> = usage.fonts.iter().map(|f| f.alias.as_str()).collect();
    assert_eq!(aliases, vec!["head", "body"]);
    assert_eq!(usage.fonts[0].embedder.encode_text("ABC"), vec![0, 34, 0, 36]);
    assert_eq!(usage.images.len(), 1);
    assert_eq!((usage.images[0].width, usage.images[0].height), (points(30), points(15)));
    let ops = render_page_content(&doc.pages[0], &res, &usage).unwrap();
    assert_eq!(ops.iter().filter(|op| **op == Op::SaveState).count(), 4);
}

#[test]
fn a_font_that_cannot_be_subsetted_fails_the_compilation() {
    let mut cmap = HashMap::new();
    cmap.insert('A' as u32, 1u16);
    let broken = LoadedFont {
        data: vec![0, 1, 0, 0],
        postscript_name: "Broken".to_string(),
        units_per_em: 1000,
        ascender: 800,
        descender: -200,
        cap_height: 700,
        glyph_widths: HashMap::new(),
        cmap,
    };
    let mut res = LoadedResources::new();
    res.insert_font("body", broken);
    let doc = document(vec![page(vec![text_element("body", "A")])]);
    assert!(matches!(
        compile(&doc, &res, false),
        Err(RupdfError::InvalidFont(name, detail))
            if name == "body" && detail.starts_with("Failed to subset font: ")
    ));
}

#[test]
fn resources_are_found_by_name() {
    let mut res = resources();
    assert!(res.get_font("body").is_ok());
    assert_eq!(res.get_font("Body").err(), Some(RupdfError::MissingFont("Body".to_string())));
    assert_eq!(res.get_image("x").err(), Some(RupdfError::MissingImage("x".to_string())));
    assert_eq!(res.get_font("head").unwrap().postscript_name, "Head-Bold");
    // A second font of the same name takes the place of the first.
    res.insert_font("head", LoadedFont::load("head", font_program("Head-Light")).unwrap());
    assert_eq!(res.fonts.len(), 2);
    assert_eq!(res.get_font("head").unwrap().postscript_name, "Head-Light");
}

#[test]
fn resources_are_loaded_fonts_first() {
    let tree = Tree {
        root: Node::Group { transform: Transform::identity(), children: vec![] },
        width: points(30),
        height: points(15),
    };
    let res = LoadedResources::load(
        vec![("body".to_string(), font_program("Body-Regular"))],
        vec![
            ("photo".to_string(), png(4, 2), None),
            ("logo".to_string(), b"<svg/>".to_vec(), Some(Ok(tree))),
        ],
    )
    .unwrap();
    assert!(res.is_wf());
    assert_eq!(res.get_font("body").unwrap().postscript_name, "Body-Regular");
    assert_eq!(res.get_image("photo").unwrap().dimensions(), (points(4), points(2)));
    assert_eq!(res.get_image("logo").unwrap().dimensions(), (points(30), points(15)));
    // A font that cannot be parsed is reported before an image that cannot
    // be decoded.
    let failed = LoadedResources::load(
        vec![
            ("body".to_string(), font_program("Body-Regular")),
            ("bad".to_string(), vec![1, 2, 3]),
        ],
        vec![("junk".to_string(), vec![1, 2, 3], None)],
    );
    assert!(matches!(failed, Err(RupdfError::InvalidFont(name, _)) if name == "bad"));
    let failed = LoadedResources::load(vec![], vec![("junk".to_string(), vec![1, 2, 3], None)]);
    assert!(matches!(failed, Err(RupdfError::InvalidImage(name, _)) if name == "junk"));
}

#[test]
fn a_document_is_checked_before_it_is_compiled() {
    let mut bad = page(vec![]);
    bad.height = points(-1);
    let doc = document(vec![page(vec![]), bad]);
    assert_eq!(
        render_pdf(&doc, &LoadedResources::new(), false).unwrap_err(),
        RupdfError::InvalidPageSize { width: points(612), height: points(-1) }
    );
    let mut res = LoadedResources::new();
    res.images.push(("empty".to_string(), LoadedImage::Raster { data: vec![], width: 0, height: 1 }));
    assert_eq!(
        render_pdf(&document(vec![page(vec![])]), &res, false).unwrap_err(),
        RupdfError::ResourceError("A resource is not usable".to_string())
    );
    let plan = render_pdf(&document(vec![page(vec![rect_element()])]), &resources(), true).unwrap();
    assert_eq!(plan.pages.len(), 1);
    assert!(plan.pages[0].compress);
}
