//! Whole documents, written out with `pdf_writer` as a host would.
use pdf_writer::types::{CidFontType, FontFlags, SystemInfo};
use pdf_writer::{Content, Filter, Finish, Name, Pdf, Rect, Ref, Str, TextStr};
use rupdf::measure::{points, Micro};
use rupdf::pdf::content::Op;
use rupdf::pdf::page::finish_content;
use rupdf::pdf::render_pdf;
use rupdf::pdf::shapes::alpha_state_name;
use rupdf::pdf::writer::{CompiledDocument, ImageObject};
use rupdf::elements::svg::{Node, Path, PathSegment, Transform, Tree};
use rupdf::resources::{LoadedFont, LoadedImage, LoadedResources};
use rupdf::types::{
    Color, Document, Element, ImageElement, LineElement, Metadata, Page, RectElement, Resources,
    TextAlign, TextElement, VerticalAnchor,
};

fn pt(value: Micro) -> f32 {
    (value as f64 / 1_000_000.0) as f32
}

fn share(value: u8) -> f32 {
    value as f32 / 255.0
}

fn content_bytes(ops: &[Op]) -> Vec<u8> {
    let mut content = Content::new();
    for op in ops {
        match op {
            Op::SaveState => {
                content.save_state();
            }
            Op::RestoreState => {
                content.restore_state();
            }
            Op::SetParameters(name) => {
                content.set_parameters(Name(name.as_bytes()));
            }
            Op::SetFillRgb(r, g, b) => {
                content.set_fill_rgb(share(*r), share(*g), share(*b));
            }
            Op::SetStrokeRgb(r, g, b) => {
                content.set_stroke_rgb(share(*r), share(*g), share(*b));
            }
            Op::SetLineWidth(w) => {
                content.set_line_width(pt(*w));
            }
            Op::Rect(x, y, w, h) => {
                content.rect(pt(*x), pt(*y), pt(*w), pt(*h));
            }
            Op::MoveTo(x, y) => {
                content.move_to(pt(*x), pt(*y));
            }
            Op::LineTo(x, y) => {
                content.line_to(pt(*x), pt(*y));
            }
            Op::CubicTo(x1, y1, x2, y2, x3, y3) => {
                content.cubic_to(pt(*x1), pt(*y1), pt(*x2), pt(*y2), pt(*x3), pt(*y3));
            }
            Op::ClosePath => {
                content.close_path();
            }
            Op::FillNonzero => {
                content.fill_nonzero();
            }
            Op::Stroke => {
                content.stroke();
            }
            Op::FillNonzeroAndStroke => {
                content.fill_nonzero_and_stroke();
            }
            Op::EndPath => {
                content.end_path();
            }
            Op::ClipNonzero => {
                content.clip_nonzero();
            }
            Op::BeginText => {
                content.begin_text();
            }
            Op::EndText => {
                content.end_text();
            }
            Op::SetFont(name, size) => {
                content.set_font(Name(name.as_bytes()), pt(*size));
            }
            Op::NextLine(x, y) => {
                content.next_line(pt(*x), pt(*y));
            }
            Op::Show(bytes) => {
                content.show(Str(bytes));
            }
            Op::Transform(a, b, c, d, e, f) => {
                content.transform([pt(*a), pt(*b), pt(*c), pt(*d), pt(*e), pt(*f)]);
            }
            Op::XObject(name) => {
                content.x_object(Name(name.as_bytes()));
            }
        }
    }
    content.finish()
}

fn write_fonts(pdf: &mut Pdf, plan: &CompiledDocument) {
    for font in &plan.fonts {
        let ps_name = font.base_font.as_bytes();
        let mut cmap = pdf.stream(Ref::new(font.cmap_ref), &font.to_unicode);
        if font.compress {
            cmap.filter(Filter::FlateDecode);
        }
        cmap.finish();
        let mut font_file = pdf.stream(Ref::new(font.font_file_ref), &font.font_file);
        if font.compress {
            font_file.filter(Filter::FlateDecode);
        }
        font_file.finish();
        let mut descriptor = pdf.font_descriptor(Ref::new(font.descriptor_ref));
        descriptor.name(Name(ps_name));
        descriptor.flags(FontFlags::SYMBOLIC);
        descriptor.bbox(Rect::new(
            pt(font.bbox.0),
            pt(font.bbox.1),
            pt(font.bbox.2),
            pt(font.bbox.3),
        ));
        descriptor.italic_angle(pt(font.italic_angle));
        descriptor.ascent(pt(font.ascent));
        descriptor.descent(pt(font.descent));
        descriptor.cap_height(pt(font.cap_height));
        descriptor.stem_v(pt(font.stem_v));
        descriptor.font_file2(Ref::new(font.font_file_ref));
        descriptor.finish();
        let mut cid_font = pdf.cid_font(Ref::new(font.cid_font_ref));
        cid_font.subtype(CidFontType::Type2);
        cid_font.base_font(Name(ps_name));
        cid_font.system_info(SystemInfo {
            registry: Str(b"Adobe"),
            ordering: Str(b"Identity"),
            supplement: 0,
        });
        cid_font.font_descriptor(Ref::new(font.descriptor_ref));
        cid_font.default_width(pt(font.default_width));
        if !font.widths.is_empty() {
            let mut w = cid_font.widths();
            for (glyph_id, width) in &font.widths {
                w.consecutive(*glyph_id, [*width as f32].into_iter());
            }
            w.finish();
        }
        cid_font.cid_to_gid_map_predefined(Name(b"Identity"));
        cid_font.finish();
        let mut type0 = pdf.type0_font(Ref::new(font.font_ref));
        type0.base_font(Name(ps_name));
        type0.encoding_predefined(Name(b"Identity-H"));
        type0.descendant_font(Ref::new(font.cid_font_ref));
        type0.to_unicode(Ref::new(font.cmap_ref));
        type0.finish();
    }
}

fn image_ref(object: &ImageObject) -> Ref {
    match object {
        ImageObject::Raster(raster) => Ref::new(raster.image_ref),
        ImageObject::Form(form) => Ref::new(form.form_ref),
    }
}

fn write_images(pdf: &mut Pdf, plan: &CompiledDocument) {
    for image in &plan.images {
        match &image.object {
            ImageObject::Raster(object) => {
                let mut xobject = pdf.image_xobject(Ref::new(object.image_ref), &object.data);
                xobject.filter(Filter::DctDecode);
                xobject.width(object.width as i32);
                xobject.height(object.height as i32);
                xobject.color_space().device_rgb();
                xobject.bits_per_component(object.bits_per_component as i32);
                xobject.finish();
            }
            ImageObject::Form(form) => {
                let stored = finish_content(content_bytes(&form.ops), form.compress);
                let mut xobject = pdf.form_xobject(Ref::new(form.form_ref), &stored);
                if form.compress {
                    xobject.filter(Filter::FlateDecode);
                }
                xobject.bbox(Rect::new(0.0, 0.0, pt(form.width), pt(form.height)));
                xobject.finish();
            }
        }
    }
}

fn write_pages(pdf: &mut Pdf, plan: &CompiledDocument) {
    for page in &plan.pages {
        let content_ref = Ref::new(page.content_ref);
        let content_data = finish_content(content_bytes(&page.content), page.compress);
        let mut stream = pdf.stream(content_ref, &content_data);
        if page.compress {
            stream.filter(Filter::FlateDecode);
        }
        stream.finish();
        let mut page_dict = pdf.page(Ref::new(page.page_ref));
        page_dict.parent(Ref::new(plan.page_tree_ref));
        page_dict.media_box(Rect::new(0.0, 0.0, pt(page.width), pt(page.height)));
        let mut resources = page_dict.resources();
        if !plan.fonts.is_empty() {
            let mut fonts = resources.fonts();
            for font in &plan.fonts {
                fonts.pair(Name(font.base_font.as_bytes()), Ref::new(font.font_ref));
            }
            fonts.finish();
        }
        if !plan.images.is_empty() {
            let mut xobjects = resources.x_objects();
            for image in &plan.images {
                xobjects.pair(Name(image.key.as_bytes()), image_ref(&image.object));
            }
            xobjects.finish();
        }
        let mut ext_g = resources.ext_g_states();
        for (&level, &state_ref) in &plan.alpha_states {
            let name = alpha_state_name(level);
            ext_g.pair(Name(name.as_bytes()), Ref::new(state_ref));
        }
        ext_g.finish();
        resources.finish();
        page_dict.contents(content_ref);
        page_dict.finish();
    }
}

/// The bytes of the file for `doc`, which uses no resources.
fn generate(doc: &Document, compress: bool) -> Vec<u8> {
    write(&render_pdf(doc, &LoadedResources::new(), compress).unwrap())
}

/// The bytes of the file for a compiled document.
fn write(plan: &CompiledDocument) -> Vec<u8> {
    let mut pdf = Pdf::new();
    let page_tree_ref = Ref::new(plan.page_tree_ref);
    pdf.catalog(Ref::new(plan.catalog_ref)).pages(page_tree_ref);
    if let Some(info) = &plan.info {
        let mut object = pdf.document_info(Ref::new(info.info_ref));
        if let Some(title) = &info.title {
            object.title(TextStr(title));
        }
        if let Some(author) = &info.author {
            object.author(TextStr(author));
        }
        if let Some(subject) = &info.subject {
            object.subject(TextStr(subject));
        }
        if let Some(creator) = &info.creator {
            object.creator(TextStr(creator));
        }
        object.finish();
    }
    let mut pages = pdf.pages(page_tree_ref);
    pages.kids(plan.pages.iter().map(|p| Ref::new(p.page_ref)));
    pages.count(plan.pages.len() as i32);
    pages.finish();
    for (&level, &state_ref) in &plan.alpha_states {
        let mut gs = pdf.ext_graphics(Ref::new(state_ref));
        gs.non_stroking_alpha(share(level));
        gs.stroking_alpha(share(level));
        gs.finish();
    }
    write_fonts(&mut pdf, plan);
    write_images(&mut pdf, plan);
    write_pages(&mut pdf, plan);
    pdf.finish()
}

fn make_empty_doc() -> Document {
    Document {
        metadata: Metadata::default(),
        pages: vec![Page {
            width: points(612),
            height: points(792),
            background: Color::white(),
            elements: vec![],
        }],
        resources: Resources::default(),
    }
}

fn make_rect_doc() -> Document {
    Document {
        metadata: Metadata::default(),
        pages: vec![Page {
            width: points(612),
            height: points(792),
            background: Color::white(),
            elements: vec![Element::Rect(RectElement {
                x: points(72),
                y: points(72),
                w: points(100),
                h: points(50),
                stroke: points(1),
                stroke_color: Color::black(),
                fill_color: Some(Color { r: 200, g: 200, b: 255, a: 255 }),
                corner_radius: 0,
            })],
        }],
        resources: Resources::default(),
    }
}

fn make_line_doc() -> Document {
    Document {
        metadata: Metadata::default(),
        pages: vec![Page {
            width: points(612),
            height: points(792),
            background: Color::white(),
            elements: vec![Element::Line(LineElement {
                x1: points(72),
                y1: points(72),
                x2: points(200),
                y2: points(150),
                stroke: points(2),
                color: Color { r: 255, g: 0, b: 0, a: 255 },
            })],
        }],
        resources: Resources::default(),
    }
}

fn make_multi_page_doc() -> Document {
    Document {
        metadata: Metadata {
            title: Some("Multi-Page Test".to_string()),
            author: Some("rupdf".to_string()),
            ..Default::default()
        },
        pages: vec![
            Page {
                width: points(612),
                height: points(792),
                background: Color::white(),
                elements: vec![],
            },
            Page {
                width: points(612),
                height: points(792),
                background: Color { r: 240, g: 240, b: 255, a: 255 },
                elements: vec![],
            },
            Page {
                width: points(595),
                height: points(842),
                background: Color::white(),
                elements: vec![],
            },
        ],
        resources: Resources::default(),
    }
}

#[test]
fn test_empty_document_generates_valid_pdf() {
    let doc = make_empty_doc();
    let pdf = generate(&doc, false);

    assert!(pdf.starts_with(b"%PDF-"), "Should start with PDF header");
    let pdf_str = String::from_utf8_lossy(&pdf);
    assert!(pdf_str.contains("%%EOF"), "Should end with EOF marker");
    assert!(pdf_str.contains("/Type /Catalog"), "Should have catalog");
    assert!(pdf_str.contains("/Type /Pages"), "Should have pages");
}

#[test]
fn test_rect_document() {
    let doc = make_rect_doc();
    let pdf = generate(&doc, false);

    assert!(pdf.starts_with(b"%PDF-"));
    assert!(pdf.len() > 500, "Rect document should have content");
}

#[test]
fn test_line_document() {
    let doc = make_line_doc();
    let pdf = generate(&doc, false);

    assert!(pdf.starts_with(b"%PDF-"));
}

#[test]
fn test_multi_page_document() {
    let doc = make_multi_page_doc();
    let pdf = generate(&doc, false);

    let pdf_str = String::from_utf8_lossy(&pdf);
    assert!(pdf_str.contains("/Count 3"), "Should have 3 pages");
    assert!(pdf_str.contains("Multi-Page Test"), "Should have title");
}

#[test]
fn test_compression_uses_flatedecode() {
    let doc = make_multi_page_doc();
    let compressed = generate(&doc, true);

    let pdf_str = String::from_utf8_lossy(&compressed);
    assert!(pdf_str.contains("FlateDecode"), "Should use FlateDecode");
    assert!(compressed.starts_with(b"%PDF-"));
}

#[test]
fn test_page_dimensions_in_mediabox() {
    let doc = Document {
        metadata: Metadata::default(),
        pages: vec![Page {
            width: points(595),
            height: points(842),
            background: Color::white(),
            elements: vec![],
        }],
        resources: Resources::default(),
    };
    let pdf = generate(&doc, false);

    let pdf_str = String::from_utf8_lossy(&pdf);
    assert!(pdf_str.contains("/MediaBox"), "Should have MediaBox");
    assert!(pdf_str.contains("595"), "Should have width");
    assert!(pdf_str.contains("842"), "Should have height");
}

#[test]
fn test_background_color_generates_content() {
    let doc = Document {
        metadata: Metadata::default(),
        pages: vec![Page {
            width: points(612),
            height: points(792),
            background: Color { r: 200, g: 220, b: 255, a: 255 },
            elements: vec![],
        }],
        resources: Resources::default(),
    };
    let pdf = generate(&doc, false);

    assert!(pdf.len() > 200, "Should have background content");
}

#[test]
fn output_ends_with_the_end_of_file_marker() {
    for doc in [make_empty_doc(), make_rect_doc(), make_multi_page_doc()] {
        for compress in [false, true] {
            let pdf = generate(&doc, compress);
            assert!(pdf.starts_with(b"%PDF-"));
            assert!(pdf.ends_with(b"%%EOF"));
        }
    }
}

#[test]
fn without_compression_no_stream_is_deflated() {
    let pdf = generate(&make_multi_page_doc(), false);
    assert!(!String::from_utf8_lossy(&pdf).contains("FlateDecode"));
}

#[test]
fn a_rectangle_makes_the_file_longer() {
    assert!(generate(&make_rect_doc(), false).len() > generate(&make_empty_doc(), false).len());
}

/// A page with a vector image, and the image.
fn make_image_doc() -> (Document, LoadedResources) {
    let tree = Tree {
        root: Node::Path(Path {
            transform: Transform::identity(),
            segments: vec![
                PathSegment::MoveTo { x: 0, y: 0 },
                PathSegment::LineTo { x: points(10), y: points(10) },
            ],
            fill: None,
            stroke: None,
        }),
        width: points(20),
        height: points(20),
    };
    let mut res = LoadedResources::new();
    res.insert_image("logo", LoadedImage::load("logo", b"<svg/>".to_vec(), Some(Ok(tree))).unwrap());
    let mut doc = make_empty_doc();
    doc.pages[0].elements.push(Element::Image(ImageElement {
        x: 0,
        y: 0,
        w: None,
        h: None,
        image_ref: "logo".to_string(),
        align: TextAlign::Left,
    }));
    (doc, res)
}

#[test]
fn a_vector_image_is_deflated_only_with_compression() {
    let (doc, res) = make_image_doc();
    let plain = write(&render_pdf(&doc, &res, false).unwrap());
    assert!(!String::from_utf8_lossy(&plain).contains("FlateDecode"));
    assert!(String::from_utf8_lossy(&plain).contains("/Subtype /Form"));
    let packed = write(&render_pdf(&doc, &res, true).unwrap());
    assert!(String::from_utf8_lossy(&packed).contains("FlateDecode"));
}

fn be16(out: &mut Vec<u8>, v: u16) {
    out.extend_from_slice(&v.to_be_bytes());
}

fn be32(out: &mut Vec<u8>, v: u32) {
    out.extend_from_slice(&v.to_be_bytes());
}

/// A font program with 60 empty glyphs for the characters from the space
/// to Z, each 500 units wide in an em of 1000.
fn font_program() -> Vec<u8> {
    let glyphs: u16 = 60;
    let mut head = Vec::new();
    for v in [0x0001_0000u32, 0x0001_0000, 0, 0x5f0f_3cf5] {
        be32(&mut head, v);
    }
    be16(&mut head, 0);
    be16(&mut head, 1000);
    head.extend_from_slice(&[0; 16]);
    for v in [0u16, 0, 1000, 1000, 0, 8, 2, 0, 0] {
        be16(&mut head, v);
    }
    let mut hhea = Vec::new();
    be32(&mut hhea, 0x0001_0000);
    be16(&mut hhea, 800);
    be16(&mut hhea, (-200i16) as u16);
    hhea.extend_from_slice(&[0; 26]);
    be16(&mut hhea, glyphs);
    let mut maxp = Vec::new();
    be32(&mut maxp, 0x0001_0000);
    be16(&mut maxp, glyphs);
    maxp.extend_from_slice(&[0; 26]);
    let mut hmtx = Vec::new();
    for _ in 0..glyphs {
        be16(&mut hmtx, 500);
        be16(&mut hmtx, 0);
    }
    let mut cmap = Vec::new();
    for v in [0u16, 1, 3, 1] {
        be16(&mut cmap, v);
    }
    be32(&mut cmap, 12);
    for v in [4u16, 32, 0, 4, 4, 1, 0] {
        be16(&mut cmap, v);
    }
    for v in [0x5au16, 0xffff, 0, 0x20, 0xffff, 1u16.wrapping_sub(0x20), 1, 0, 0] {
        be16(&mut cmap, v);
    }
    let tables: Vec<(&[u8; 4], Vec<u8>)> = vec![
        (b"cmap", cmap),
        (b"glyf", vec![0u8; 4]),
        (b"head", head),
        (b"hhea", hhea),
        (b"hmtx", hmtx),
        (b"loca", vec![0u8; 2 * (glyphs as usize + 1)]),
        (b"maxp", maxp),
    ];
    let mut font = Vec::new();
    be32(&mut font, 0x0001_0000);
    for v in [tables.len() as u16, 64, 2, 48] {
        be16(&mut font, v);
    }
    let mut offset = 12 + 16 * tables.len();
    for (tag, data) in &tables {
        font.extend_from_slice(*tag);
        be32(&mut font, 0);
        be32(&mut font, offset as u32);
        be32(&mut font, data.len() as u32);
        offset += (data.len() + 3) / 4 * 4;
    }
    for (_, data) in &tables {
        font.extend_from_slice(data);
        while font.len() % 4 != 0 {
            font.push(0);
        }
    }
    font
}

fn make_text_doc() -> (Document, LoadedResources) {
    let mut res = LoadedResources::new();
    res.insert_font("body", LoadedFont::load("body", font_program()).unwrap());
    let mut doc = make_empty_doc();
    doc.pages[0].elements.push(Element::Text(TextElement {
        x: points(72),
        y: points(100),
        text: "HELLO PAGE".to_string(),
        font: "body".to_string(),
        size: points(12),
        color: Color::black(),
        align: TextAlign::Left,
        vertical_anchor: VerticalAnchor::Baseline,
    }));
    (doc, res)
}

#[test]
fn without_compression_no_font_stream_is_deflated() {
    let (doc, res) = make_text_doc();
    let plan = render_pdf(&doc, &res, false).unwrap();
    assert_eq!(plan.fonts.len(), 1);
    assert!(!plan.fonts[0].compress);
    // The font program is stored as the subsetter made it, the character
    // map as text.
    assert_eq!(&plan.fonts[0].font_file[..4], &[0, 1, 0, 0]);
    assert!(plan.fonts[0].to_unicode.starts_with(b"%!PS-Adobe-3.0 Resource-CMap"));
    let pdf = write(&plan);
    assert!(pdf.starts_with(b"%PDF-"));
    assert!(pdf.ends_with(b"%%EOF"));
    assert!(!String::from_utf8_lossy(&pdf).contains("FlateDecode"));
}

#[test]
fn with_compression_the_font_streams_are_deflated() {
    let (doc, res) = make_text_doc();
    let plan = render_pdf(&doc, &res, true).unwrap();
    assert!(plan.fonts[0].compress);
    assert_eq!(plan.fonts[0].font_file[0], 0x78);
    assert_eq!(plan.fonts[0].to_unicode[0], 0x78);
    let map = miniz_oxide::inflate::decompress_to_vec_zlib(&plan.fonts[0].to_unicode).unwrap();
    assert!(map.starts_with(b"%!PS-Adobe-3.0 Resource-CMap"));
    let pdf = String::from_utf8_lossy(&write(&plan)).to_string();
    assert_eq!(pdf.matches("FlateDecode").count(), 3);
}
