use rupdf::error::RupdfError;
use rupdf::measure::{points, MEASURE_MAX};
use rupdf::types::{
    Color, Document, Element, FontSource, ImageSource, LineElement, Metadata, Page, Resources,
    TextAlign, TextAlignY, VerticalAnchor,
};

#[test]
fn test_color_black() {
    let c = Color::black();
    assert_eq!(c.r, 0);
    assert_eq!(c.g, 0);
    assert_eq!(c.b, 0);
    assert_eq!(c.a, 255);
}

#[test]
fn test_color_white() {
    let c = Color::white();
    assert_eq!(c.r, 255);
    assert_eq!(c.g, 255);
    assert_eq!(c.b, 255);
    assert_eq!(c.a, 255);
}

#[test]
fn test_text_align_default() {
    let align = TextAlign::default();
    assert!(matches!(align, TextAlign::Left));
}

#[test]
fn test_metadata_default() {
    let meta = Metadata::default();
    assert!(meta.title.is_none());
    assert!(meta.author.is_none());
    assert!(meta.subject.is_none());
    assert!(meta.creator.is_none());
}

#[test]
fn test_resources_default() {
    let res = Resources::default();
    assert!(res.fonts.is_empty());
    assert!(res.images.is_empty());
}

#[test]
fn other_defaults() {
    assert!(matches!(VerticalAnchor::default(), VerticalAnchor::Baseline));
    assert!(matches!(TextAlignY::default(), TextAlignY::Baseline));
    assert!(Metadata::default().creation_date.is_none());
}

#[test]
fn a_source_is_a_path_or_bytes() {
    assert!(matches!(
        FontSource::from_parts("body", Some("a.ttf".to_string()), None),
        Ok(FontSource::Path(p)) if p == "a.ttf"
    ));
    assert!(matches!(
        ImageSource::from_parts("logo", None, Some(vec![1, 2])),
        Ok(ImageSource::Bytes(b)) if b == vec![1, 2]
    ));
    assert_eq!(
        FontSource::from_parts("body", Some("a.ttf".to_string()), Some(vec![1])).unwrap_err(),
        RupdfError::ResourceError(
            "Font 'body' has both 'path' and 'bytes'; only one is allowed".to_string()
        )
    );
    assert_eq!(
        ImageSource::from_parts("logo", None, None).unwrap_err(),
        RupdfError::ResourceError("Image 'logo' must have either 'path' or 'bytes'".to_string())
    );
}

fn page(width: i64, height: i64, elements: Vec<Element>) -> Page {
    Page { width, height, background: Color::white(), elements }
}

#[test]
fn a_page_needs_a_positive_size() {
    assert_eq!(page(points(612), points(792), vec![]).validate(), Ok(()));
    assert_eq!(
        page(points(-10), points(792), vec![]).validate(),
        Err(RupdfError::InvalidPageSize { width: points(-10), height: points(792) })
    );
    assert_eq!(
        page(points(612), 0, vec![]).validate(),
        Err(RupdfError::InvalidPageSize { width: points(612), height: 0 })
    );
}

#[test]
fn measures_beyond_the_range_make_a_document_invalid() {
    let line = LineElement {
        x1: 0,
        y1: 0,
        x2: MEASURE_MAX + 1,
        y2: 0,
        stroke: points(1),
        color: Color::black(),
    };
    let doc = Document {
        metadata: Metadata::default(),
        pages: vec![
            page(points(612), points(792), vec![]),
            page(points(612), points(792), vec![Element::Line(line)]),
        ],
        resources: Resources::default(),
    };
    assert!(matches!(doc.validate(), Err(RupdfError::InvalidDocument(_))));
    let ok = Document {
        metadata: Metadata::default(),
        pages: vec![page(points(612), points(792), vec![])],
        resources: Resources::default(),
    };
    assert_eq!(ok.validate(), Ok(()));
}
