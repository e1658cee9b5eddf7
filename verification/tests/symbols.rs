use rupdf::error::RupdfError;
use rupdf::measure::points;
use rupdf::pdf::content::{Content, Op};
use rupdf::pdf::symbols::{
    barcode_modules, render_barcode_bars, render_qr_rows, render_qrcode,
};
use rupdf::types::{BarcodeElement, Color, QRCodeElement};

#[test]
fn a_null_byte_is_not_a_barcode_character() {
    assert_eq!(
        barcode_modules("test\x00"),
        Err(RupdfError::InvalidBarcode {
            value: "test\x00".to_string(),
            reason: "null bytes not allowed".to_string(),
        })
    );
}

#[test]
fn a_character_outside_the_set_is_refused_by_the_encoder() {
    assert_eq!(
        barcode_modules("caf\u{e9}"),
        Err(RupdfError::InvalidBarcode {
            value: "caf\u{e9}".to_string(),
            reason: "Character".to_string(),
        })
    );
}

#[test]
fn an_overlong_value_is_refused() {
    let value = "A".repeat(6396);
    assert_eq!(
        barcode_modules(&value),
        Err(RupdfError::InvalidBarcode { value: value.clone(), reason: "Length".to_string() })
    );
    // One character less is the longest value that is encoded: a symbol
    // of eleven modules for each character and for the selecting character,
    // the checksum and the stop pattern, and two closing bars.
    let value = "~".repeat(6395);
    assert_eq!(barcode_modules(&value).unwrap().len(), (6395 + 3) * 11 + 2);
}

#[test]
fn a_barcode_starts_in_character_set_b() {
    let modules = barcode_modules("A").unwrap();
    // Start B, the letter A, the checksum, the stop pattern and two bars.
    assert_eq!(modules.len(), 4 * 11 + 2);
    assert_eq!(&modules[..11], &[1, 1, 0, 1, 0, 0, 1, 0, 0, 0, 0]);
    assert_eq!(&modules[11..22], &[1, 0, 1, 0, 0, 0, 1, 1, 0, 0, 0]);
}

fn barcode(human_readable: bool) -> BarcodeElement {
    BarcodeElement {
        x: points(10),
        y: points(20),
        w: points(40),
        h: points(30),
        value: "A".to_string(),
        human_readable,
        font: "mono".to_string(),
        font_size: points(10),
    }
}

#[test]
fn bars_divide_the_width_evenly() {
    let mut content = Content::new();
    render_barcode_bars(&mut content, &barcode(false), points(100), &vec![1, 0, 1, 1]);
    assert_eq!(
        content.finish(),
        vec![
            Op::SaveState,
            Op::SetFillRgb(0, 0, 0),
            Op::Rect(points(10), points(50), points(10), points(30)),
            Op::FillNonzero,
            Op::Rect(points(30), points(50), points(10), points(30)),
            Op::FillNonzero,
            Op::Rect(points(40), points(50), points(10), points(30)),
            Op::FillNonzero,
        ]
    );
}

#[test]
fn a_printed_value_shortens_the_bars() {
    let mut content = Content::new();
    render_barcode_bars(&mut content, &barcode(true), points(100), &vec![1]);
    // 30 points less the font size and four points of padding.
    assert_eq!(content.finish()[2], Op::Rect(points(10), points(64), points(40), points(16)));
}

fn qr(background: Color) -> QRCodeElement {
    QRCodeElement {
        x: points(10),
        y: points(20),
        size: points(30),
        value: "hello".to_string(),
        color: Color::black(),
        background,
    }
}

fn rows(lines: &[&str]) -> Vec<Vec<char>> {
    lines.iter().map(|l| l.chars().collect()).collect()
}

#[test]
fn dark_modules_become_squares_from_the_top() {
    let mut content = Content::new();
    render_qr_rows(&mut content, &qr(Color::white()), points(100), &rows(&["\u{2588} ", " #", "  "]));
    // Three rows are the longer side: a module is 10 points.
    assert_eq!(
        content.finish(),
        vec![
            Op::SaveState,
            Op::SetFillRgb(0, 0, 0),
            Op::Rect(points(10), points(70), points(10), points(10)),
            Op::Rect(points(20), points(60), points(10), points(10)),
            Op::FillNonzero,
            Op::RestoreState,
        ]
    );
}

#[test]
fn a_coloured_background_is_a_square() {
    let mut content = Content::new();
    let background = Color { r: 10, g: 20, b: 30, a: 255 };
    render_qr_rows(&mut content, &qr(background), points(100), &rows(&["#"]));
    assert_eq!(
        content.finish(),
        vec![
            Op::SaveState,
            Op::SetFillRgb(10, 20, 30),
            Op::Rect(points(10), points(50), points(30), points(30)),
            Op::FillNonzero,
            Op::SetFillRgb(0, 0, 0),
            Op::Rect(points(10), points(50), points(30), points(30)),
            Op::FillNonzero,
            Op::RestoreState,
        ]
    );
}

#[test]
fn an_empty_matrix_draws_nothing() {
    let mut content = Content::new();
    render_qr_rows(&mut content, &qr(Color::white()), points(100), &rows(&[""]));
    assert_eq!(content.finish(), vec![Op::SaveState, Op::RestoreState]);
}

#[test]
fn a_value_is_encoded_as_a_matrix() {
    let mut content = Content::new();
    render_qrcode(&mut content, &qr(Color::white()), points(100)).unwrap();
    let ops = content.finish();
    // "hello" fits the smallest symbol, 21 modules a side; its top left
    // finder pattern begins with seven dark modules.
    let module = points(30) / 21;
    for col in 0..7 {
        assert_eq!(
            ops[2 + col],
            Op::Rect(points(10) + col as i64 * module, points(80) - module, module, module)
        );
    }
    assert_eq!(ops[ops.len() - 2], Op::FillNonzero);
}

#[test]
fn too_much_data_is_no_matrix() {
    let mut element = qr(Color::white());
    element.value = "x".repeat(8000);
    let mut content = Content::new();
    match render_qrcode(&mut content, &element, points(100)) {
        Err(RupdfError::InvalidBarcode { value, reason }) => {
            assert_eq!(value, element.value);
            assert_eq!(reason, "QR code generation failed: data too long");
        }
        other => panic!("unexpected {:?}", other),
    }
    assert!(content.finish().is_empty());
}
