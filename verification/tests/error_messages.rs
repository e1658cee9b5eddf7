use rupdf::error::RupdfError;
use rupdf::measure::points;

#[test]
fn test_error_display_missing_font() {
    let err = RupdfError::MissingFont("Arial".to_string());
    assert_eq!(err.message(), "Missing font: 'Arial'");
}

#[test]
fn test_error_display_missing_glyph() {
    let err = RupdfError::MissingGlyph { glyph: '中', font: "Arial".to_string() };
    assert_eq!(err.message(), "Missing glyph '中' in font 'Arial'");
}

#[test]
fn test_error_display_invalid_page_size() {
    let err = RupdfError::InvalidPageSize { width: points(-10), height: points(792) };
    assert_eq!(err.message(), "Invalid page size: width=-10, height=792");
}

#[test]
fn test_error_display_invalid_barcode() {
    let err = RupdfError::InvalidBarcode {
        value: "test\x00".to_string(),
        reason: "null bytes not allowed".to_string(),
    };
    assert!(err.message().contains("null bytes not allowed"));
}

#[test]
fn test_error_display_unknown_element() {
    let err = RupdfError::UnknownElementType("circle".to_string());
    assert_eq!(err.message(), "Unknown element type: 'circle'");
}

#[test]
fn page_size_message_keeps_fractions() {
    let err = RupdfError::InvalidPageSize { width: 612_500_000, height: -1 };
    assert_eq!(err.message(), "Invalid page size: width=612.5, height=-0.000001");
}

#[test]
fn every_error_has_its_message() {
    let cases = [
        (RupdfError::MissingImage("logo".to_string()), "Missing image: 'logo'"),
        (
            RupdfError::InvalidFont("body".to_string(), "bad table".to_string()),
            "Invalid font data for 'body': bad table",
        ),
        (
            RupdfError::InvalidImage("logo".to_string(), "truncated".to_string()),
            "Invalid image data for 'logo': truncated",
        ),
        (
            RupdfError::InvalidBarcode { value: "a\u{0}".to_string(), reason: "Character".to_string() },
            "Invalid barcode value 'a\u{0}': Character",
        ),
        (
            RupdfError::InvalidDocument("Element 3: missing".to_string()),
            "Invalid document structure: Element 3: missing",
        ),
        (RupdfError::ResourceError("no source".to_string()), "Resource error: no source"),
        (RupdfError::IoError("not found".to_string()), "IO error: not found"),
        (RupdfError::PdfError("Too many objects".to_string()), "PDF generation error: Too many objects"),
    ];
    for (error, message) in cases {
        assert_eq!(error.message(), message);
    }
}

#[test]
fn measures_read_as_decimal_numbers() {
    let text = |width: i64| {
        let message = RupdfError::InvalidPageSize { width, height: 0 }.message();
        message["Invalid page size: width=".len()..message.len() - ", height=0".len()].to_string()
    };
    assert_eq!(text(0), "0");
    assert_eq!(text(72_000_000), "72");
    assert_eq!(text(72_050_000), "72.05");
    assert_eq!(text(-72_500_000), "-72.5");
    assert_eq!(text(123_456), "0.123456");
    assert_eq!(text(1_000_001), "1.000001");
    assert_eq!(text(i64::MIN), "-9223372036854.775808");
}
