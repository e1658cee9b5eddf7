//! Bar and matrix symbols.
use crate::bindings::symbols::{
    code128, code128_encoding, qr_error_text, qr_matrix, qr_matrix_text, BarcodeFailure,
};
use crate::error::RupdfError;
use crate::layout::{paragraphs, split_paragraphs, views};
use crate::measure::{divide_by_count, half, in_range, MEASURE_MAX, Micro};
use crate::pdf::content::{Content, Op, OpModel};
use crate::pdf::fonts::{encode_spec, FontEmbedder};
use crate::pdf::shapes::{alpha_ops, set_alpha};
use crate::pdf::textual::{times, times_exec};
use crate::resources::LoadedFont;
use crate::text::chars_of;
use crate::types::{BarcodeElement, QRCodeElement};
use vstd::prelude::*;
use vstd::string::StringExecFns;

verus! {

/// The character that selects the general alphanumeric character set.
pub const CHARACTER_SET_B: char = '\u{0181}';

/// Most characters that a bar symbol may hold, the selecting character
/// included: the most for which the checksum of the symbol, summed in 32
/// bits, cannot overflow.
pub const BARCODE_LIMIT: usize = 6396;

/// Whether a matrix symbol is rendered with a quiet zone round it: it is
/// not.
pub const QUIET_ZONE: bool = false;

/// How many characters wide and high a module of a matrix symbol is
/// rendered: one.
pub const MODULE_SIDE: u32 = 1;

/// The space left between the bars and the printed value, and above it.
pub const LABEL_PADDING: i64 = 4_000_000;

/// The text that is encoded for `value`: the value after the character
/// that selects the character set.
pub open spec fn prefixed(value: Seq<char>) -> Seq<char> {
    seq![CHARACTER_SET_B] + value
}

/// The name of a failure.
pub open spec fn failure_name(failure: BarcodeFailure) -> Seq<char> {
    match failure {
        BarcodeFailure::Character => "Character"@,
        BarcodeFailure::Length => "Length"@,
        BarcodeFailure::Generate => "Generate"@,
        BarcodeFailure::Checksum => "Checksum"@,
    }
}

/// The modules of the bar symbol for `value`, or the failure: a value
/// that with its selecting character is beyond the limit is too long; else
/// the encoder decides.
pub open spec fn barcode_modules_spec(value: Seq<char>) -> Result<Seq<u8>, BarcodeFailure> {
    if prefixed(value).len() > BARCODE_LIMIT {
        Err(BarcodeFailure::Length)
    } else {
        code128_encoding(prefixed(value))
    }
}

fn failure_text(failure: BarcodeFailure) -> (s: String)
    ensures
        s@ == failure_name(failure),
{
    match failure {
        BarcodeFailure::Character => String::from_str("Character"),
        BarcodeFailure::Length => String::from_str("Length"),
        BarcodeFailure::Generate => String::from_str("Generate"),
        BarcodeFailure::Checksum => String::from_str("Checksum"),
    }
}

/// The reason given for a value that holds a null byte.
pub open spec fn null_byte_reason() -> Seq<char> {
    "null bytes not allowed"@
}

/// The modules of the bar symbol for `value`, or the reason why there is
/// none: a null byte is not allowed in a value; any other value is refused
/// for the reason that the encoder names.
pub open spec fn barcode_outcome(value: Seq<char>) -> Result<Seq<u8>, Seq<char>> {
    if value.contains('\0') {
        Err(null_byte_reason())
    } else {
        match barcode_modules_spec(value) {
            Ok(modules) => Ok(modules),
            Err(failure) => Err(failure_name(failure)),
        }
    }
}

/// Whether `value` holds a null byte.
pub fn has_null_byte(value: &str) -> (r: bool)
    ensures
        r == value@.contains('\0'),
{
    let chars = chars_of(value);
    let mut i: usize = 0;
    while i < chars.len()
        invariant
            i <= chars.len(),
            chars@ == value@,
            forall|j: int| 0 <= j < i ==> chars@[j] != '\0',
        decreases chars.len() - i,
    {
        if chars[i] == '\0' {
            return true;
        }
        i += 1;
    }
    false
}

/// Encodes `value` as a bar symbol: 1 for a bar, 0 for a gap. A value
/// with a null byte is refused before it reaches the encoder. A value that
/// cannot be encoded is an error that names the value, as it was given, and
/// the reason.
pub fn barcode_modules(value: &str) -> (r: Result<Vec<u8>, RupdfError>)
    ensures
        match barcode_outcome(value@) {
            Ok(modules) => r matches Ok(v) && v@ == modules,
            Err(why) => r matches Err(RupdfError::InvalidBarcode { value: v, reason }) && v@
                == value@ && reason@ == why,
        },
{
    if has_null_byte(value) {
        return Err(
            RupdfError::InvalidBarcode {
                value: String::from_str(value),
                reason: String::from_str("null bytes not allowed"),
            },
        );
    }
    let mut text = String::new();
    text.push(CHARACTER_SET_B);
    text.append(value);
    assert(text@ =~= prefixed(value@));
    let outcome = if text.as_str().unicode_len() > BARCODE_LIMIT {
        Err(BarcodeFailure::Length)
    } else {
        code128(text.as_str())
    };
    match outcome {
        Ok(modules) => Ok(modules),
        Err(failure) => Err(
            RupdfError::InvalidBarcode {
                value: String::from_str(value),
                reason: failure_text(failure),
            },
        ),
    }
}

/// The height of the bars: the height of the element, less the font size
/// and the padding if the value is printed below.
pub open spec fn bar_height(barcode: BarcodeElement) -> int {
    if barcode.human_readable {
        barcode.h - barcode.font_size - LABEL_PADDING
    } else {
        barcode.h as int
    }
}

/// The width of a module: the width of the element divided evenly.
pub open spec fn module_width(barcode: BarcodeElement, total: int) -> int {
    if total > 0 {
        barcode.w as int / total
    } else {
        0
    }
}

/// The bars of the modules from `i` on: a filled rectangle for every
/// module that is 1, at its place in the row.
pub open spec fn bars_ops(
    modules: Seq<u8>,
    i: int,
    x: int,
    width: int,
    bottom: int,
    height: int,
) -> Seq<OpModel>
    decreases modules.len() - i,
{
    if i < 0 || i >= modules.len() {
        Seq::empty()
    } else if modules[i] == 1 {
        seq![OpModel::Rect(x + times(i, width), bottom, width, height), OpModel::FillNonzero]
            + bars_ops(modules, i + 1, x, width, bottom, height)
    } else {
        bars_ops(modules, i + 1, x, width, bottom, height)
    }
}

/// The printed value: centred under the bars, its top the padding's half
/// below them.
pub open spec fn label_ops(
    barcode: BarcodeElement,
    page_height: int,
    font: &LoadedFont,
    registered: Set<char>,
    ps_name: Seq<char>,
) -> Seq<OpModel> {
    let bottom = page_height - barcode.y - bar_height(barcode);
    let width = font.width_of(barcode.value@, barcode.font_size as int);
    let ascender = font.units_to_measure(font.ascender as int, barcode.font_size as int);
    seq![
        OpModel::BeginText,
        OpModel::SetFont(ps_name, barcode.font_size as int),
        OpModel::NextLine(barcode.x + (barcode.w - width) / 2, bottom - 2_000_000 - ascender),
        OpModel::Show(encode_spec(font, registered, barcode.value@)),
        OpModel::EndText,
    ]
}

/// The bars of a bar symbol with black fill, opening the bracket that
/// `render_barcode_label` or a restore closes.
pub open spec fn barcode_bars_ops(barcode: BarcodeElement, page_height: int, modules: Seq<u8>) -> Seq<
    OpModel,
> {
    seq![OpModel::SaveState, OpModel::SetFillRgb(0, 0, 0)] + bars_ops(
        modules,
        0,
        barcode.x as int,
        module_width(barcode, modules.len() as int),
        page_height - barcode.y - bar_height(barcode),
        bar_height(barcode),
    )
}

/// Appends the bars of a bar symbol with the given modules.
pub fn render_barcode_bars(
    content: &mut Content,
    barcode: &BarcodeElement,
    page_height: Micro,
    modules: &Vec<u8>,
)
    requires
        barcode.wf(),
        in_range(page_height as int),
    ensures
        final(content)@ == old(content)@ + barcode_bars_ops(*barcode, page_height as int, modules@),
{
    content.push(Op::SaveState);
    let height: Micro = if barcode.human_readable {
        barcode.h - barcode.font_size - LABEL_PADDING
    } else {
        barcode.h
    };
    let total = modules.len();
    let width: Micro = if total > 0 {
        divide_by_count(barcode.w, total)
    } else {
        0
    };
    let bottom: Micro = page_height - barcode.y - height;
    content.push(Op::SetFillRgb(0, 0, 0));
    let ghost head = content@;
    let ghost all = bars_ops(
        modules@,
        0,
        barcode.x as int,
        width as int,
        bottom as int,
        height as int,
    );
    let ghost mut done: Seq<OpModel> = Seq::empty();
    let mut i: usize = 0;
    assert(head + done =~= head);
    while i < modules.len()
        invariant
            i <= modules.len(),
            barcode.wf(),
            in_range(width as int),
            content@ == head + done,
            all == done + bars_ops(
                modules@,
                i as int,
                barcode.x as int,
                width as int,
                bottom as int,
                height as int,
            ),
        decreases modules.len() - i,
    {
        if modules[i] == 1 {
            let x: Micro = barcode.x + times_exec(i, width);
            content.push(Op::Rect(x, bottom, width, height));
            content.push(Op::FillNonzero);
            proof {
                let step = seq![
                    OpModel::Rect(x as int, bottom as int, width as int, height as int),
                    OpModel::FillNonzero,
                ];
                let rest = bars_ops(
                    modules@,
                    i + 1,
                    barcode.x as int,
                    width as int,
                    bottom as int,
                    height as int,
                );
                assert(content@ =~= head + (done + step));
                assert(done + (step + rest) =~= (done + step) + rest);
                done = done + step;
            }
        }
        i += 1;
    }
    assert(done + Seq::<OpModel>::empty() =~= done);
    assert(content@ =~= old(content)@ + barcode_bars_ops(*barcode, page_height as int, modules@));
}

/// Appends the printed value of a bar symbol. Fails, and appends nothing,
/// if the font lacks a glyph for a character of the value.
pub fn render_barcode_label(
    content: &mut Content,
    barcode: &BarcodeElement,
    page_height: Micro,
    font: &LoadedFont,
    embedder: &FontEmbedder,
    ps_name: &str,
) -> (r: Result<(), RupdfError>)
    requires
        barcode.wf(),
        in_range(page_height as int),
        font.wf(),
        embedder.wf(),
        embedder.font() == font,
    ensures
        match font.first_unmapped(barcode.value@) {
            None => r is Ok && final(content)@ == old(content)@ + label_ops(
                *barcode,
                page_height as int,
                font,
                embedder.registered(),
                ps_name@,
            ),
            Some(c) => final(content)@ == old(content)@ && (r matches Err(
                RupdfError::MissingGlyph { glyph, font: name },
            ) && glyph == c && name@ == barcode.font@),
        },
{
    let height: Micro = if barcode.human_readable {
        barcode.h - barcode.font_size - LABEL_PADDING
    } else {
        barcode.h
    };
    let bottom: Micro = page_height - barcode.y - height;
    let width = match font.text_width(
        barcode.value.as_str(),
        barcode.font_size,
        barcode.font.as_str(),
    ) {
        Ok(w) => w,
        Err(e) => {
            return Err(e);
        },
    };
    let text_x: Micro = barcode.x + half(barcode.w - width);
    let ascender = font.ascender_pts(barcode.font_size);
    let text_y: Micro = bottom - 2_000_000 - ascender;
    content.push(Op::BeginText);
    content.push(Op::SetFont(String::from_str(ps_name), barcode.font_size));
    content.push(Op::NextLine(text_x, text_y));
    let encoded = embedder.encode_text(barcode.value.as_str());
    content.push(Op::Show(encoded));
    content.push(Op::EndText);
    assert(content@ =~= old(content)@ + label_ops(
        *barcode,
        page_height as int,
        font,
        embedder.registered(),
        ps_name@,
    ));
    Ok(())
}

/// Whether a character of a rendered matrix stands for a dark module.
pub open spec fn is_dark(c: char) -> bool {
    c == '\u{2588}' || c == '\u{2580}' || c == '\u{2584}' || c == '#'
}

/// The squares of the dark modules of row `row` from column `col` on.
pub open spec fn row_ops(cells: Seq<char>, row: int, col: int, x: int, top: int, module: int) -> Seq<
    OpModel,
>
    decreases cells.len() - col,
{
    if col < 0 || col >= cells.len() {
        Seq::empty()
    } else {
        let rest = row_ops(cells, row, col + 1, x, top, module);
        if is_dark(cells[col]) {
            seq![
                OpModel::Rect(x + times(col, module), top - times(row + 1, module), module, module),
            ] + rest
        } else {
            rest
        }
    }
}

/// The squares of the dark modules of the rows from `row` on.
pub open spec fn rows_ops(rows: Seq<Seq<char>>, row: int, x: int, top: int, module: int) -> Seq<
    OpModel,
>
    decreases rows.len() - row,
{
    if row < 0 || row >= rows.len() {
        Seq::empty()
    } else {
        row_ops(rows[row], row, 0, x, top, module) + rows_ops(rows, row + 1, x, top, module)
    }
}

/// The larger of two counts.
pub open spec fn larger(a: int, b: int) -> int {
    if a >= b {
        a
    } else {
        b
    }
}

/// The background of a matrix symbol: a square, unless the colour is
/// white.
pub open spec fn qr_background_ops(qr: QRCodeElement, top: int) -> Seq<OpModel> {
    if qr.background.is_white() {
        Seq::empty()
    } else {
        alpha_ops(qr.background.a) + seq![
            OpModel::SetFillRgb(qr.background.r, qr.background.g, qr.background.b),
            OpModel::Rect(qr.x as int, top - qr.size, qr.size as int, qr.size as int),
            OpModel::FillNonzero,
        ]
    }
}

/// The program of a matrix symbol whose rendered rows are `rows`: the
/// symbol fills a square of the element's size, each module a square of
/// that size divided by the number of modules on the longer side; the dark
/// modules are painted in one fill, the first row at the top.
pub open spec fn qr_ops(qr: QRCodeElement, page_height: int, rows: Seq<Seq<char>>) -> Seq<OpModel> {
    if rows.len() == 0 || rows[0].len() == 0 {
        seq![OpModel::SaveState, OpModel::RestoreState]
    } else {
        let module = qr.size as int / larger(rows[0].len() as int, rows.len() as int);
        let top = page_height - qr.y;
        seq![OpModel::SaveState] + qr_background_ops(qr, top) + alpha_ops(qr.color.a) + seq![
            OpModel::SetFillRgb(qr.color.r, qr.color.g, qr.color.b),
        ] + rows_ops(rows, 0, qr.x as int, top, module) + seq![
            OpModel::FillNonzero,
            OpModel::RestoreState,
        ]
    }
}

/// Appends the squares of the dark modules of one row.
fn render_row(content: &mut Content, cells: &Vec<char>, row: usize, x: Micro, top: Micro, module: Micro)
    requires
        in_range(x as int),
        in_range(module as int),
        -2 * MEASURE_MAX <= top <= 2 * MEASURE_MAX,
        row < usize::MAX,
    ensures
        final(content)@ == old(content)@ + row_ops(
            cells@,
            row as int,
            0,
            x as int,
            top as int,
            module as int,
        ),
{
    let ghost head = content@;
    let ghost all = row_ops(cells@, row as int, 0, x as int, top as int, module as int);
    let ghost mut done: Seq<OpModel> = Seq::empty();
    let y: Micro = top - times_exec(row + 1, module);
    let mut col: usize = 0;
    assert(head + done =~= head);
    while col < cells.len()
        invariant
            col <= cells.len(),
            in_range(x as int),
            in_range(module as int),
            y == top - times(row + 1, module as int),
            content@ == head + done,
            all == done + row_ops(cells@, row as int, col as int, x as int, top as int, module as int),
        decreases cells.len() - col,
    {
        let c = cells[col];
        if c == '\u{2588}' || c == '\u{2580}' || c == '\u{2584}' || c == '#' {
            let cx: Micro = x + times_exec(col, module);
            content.push(Op::Rect(cx, y, module, module));
            proof {
                let step = seq![OpModel::Rect(cx as int, y as int, module as int, module as int)];
                let rest = row_ops(cells@, row as int, col + 1, x as int, top as int, module as int);
                assert(content@ =~= head + (done + step));
                assert(done + (step + rest) =~= (done + step) + rest);
                done = done + step;
            }
        }
        col += 1;
    }
    assert(done + Seq::<OpModel>::empty() =~= done);
}

/// Appends the squares of the dark modules of all rows.
fn render_rows(content: &mut Content, rows: &Vec<Vec<char>>, x: Micro, top: Micro, module: Micro)
    requires
        in_range(x as int),
        in_range(module as int),
        -2 * MEASURE_MAX <= top <= 2 * MEASURE_MAX,
    ensures
        final(content)@ == old(content)@ + rows_ops(
            views(rows@),
            0,
            x as int,
            top as int,
            module as int,
        ),
{
    let ghost head = content@;
    let ghost rseq = views(rows@);
    let ghost all = rows_ops(rseq, 0, x as int, top as int, module as int);
    let ghost mut done: Seq<OpModel> = Seq::empty();
    let mut row: usize = 0;
    assert(head + done =~= head);
    while row < rows.len()
        invariant
            row <= rows.len(),
            rseq == views(rows@),
            in_range(x as int),
            in_range(module as int),
            -2 * MEASURE_MAX <= top <= 2 * MEASURE_MAX,
            content@ == head + done,
            all == done + rows_ops(rseq, row as int, x as int, top as int, module as int),
        decreases rows.len() - row,
    {
        assert(rseq[row as int] == rows@[row as int]@);
        render_row(content, &rows[row], row, x, top, module);
        proof {
            let step = row_ops(rseq[row as int], row as int, 0, x as int, top as int, module as int);
            let rest = rows_ops(rseq, row + 1, x as int, top as int, module as int);
            assert(content@ =~= head + (done + step));
            assert(done + (step + rest) =~= (done + step) + rest);
            done = done + step;
        }
        row += 1;
    }
    assert(done + Seq::<OpModel>::empty() =~= done);
}

/// Appends the program of a matrix symbol with the given rendered rows.
pub fn render_qr_rows(
    content: &mut Content,
    qr: &QRCodeElement,
    page_height: Micro,
    rows: &Vec<Vec<char>>,
)
    requires
        qr.wf(),
        in_range(page_height as int),
    ensures
        final(content)@ == old(content)@ + qr_ops(*qr, page_height as int, views(rows@)),
{
    content.push(Op::SaveState);
    let qr_height = rows.len();
    let qr_width = if qr_height > 0 {
        rows[0].len()
    } else {
        0
    };
    if qr_width == 0 || qr_height == 0 {
        content.push(Op::RestoreState);
        assert(content@ =~= old(content)@ + qr_ops(*qr, page_height as int, views(rows@)));
        return ;
    }
    let longer = if qr_width >= qr_height {
        qr_width
    } else {
        qr_height
    };
    let module = divide_by_count(qr.size, longer);
    let top: Micro = page_height - qr.y;
    let ghost c0 = content@;
    if qr.background.r != 255 || qr.background.g != 255 || qr.background.b != 255 {
        set_alpha(content, qr.background.a);
        content.push(Op::SetFillRgb(qr.background.r, qr.background.g, qr.background.b));
        content.push(Op::Rect(qr.x, top - qr.size, qr.size, qr.size));
        content.push(Op::FillNonzero);
    }
    assert(content@ =~= c0 + qr_background_ops(*qr, top as int));
    set_alpha(content, qr.color.a);
    content.push(Op::SetFillRgb(qr.color.r, qr.color.g, qr.color.b));
    render_rows(content, rows, qr.x, top, module);
    content.push(Op::FillNonzero);
    content.push(Op::RestoreState);
    assert(content@ =~= old(content)@ + qr_ops(*qr, page_height as int, views(rows@)));
}

/// The text of the error for a value that cannot be encoded as a matrix
/// begins with these words.
pub open spec fn qr_failure_prefix() -> Seq<char> {
    "QR code generation failed: "@
}

/// The program of a matrix symbol, or nothing where the value cannot be
/// encoded. The value is encoded without a quiet zone, one character for a
/// module.
pub open spec fn qrcode_ops(qr: QRCodeElement, page_height: int) -> Option<Seq<OpModel>> {
    match qr_matrix_text(vstd::utf8::encode_utf8(qr.value@), QUIET_ZONE, MODULE_SIDE, MODULE_SIDE) {
        Some(text) => Some(qr_ops(qr, page_height, paragraphs(text))),
        None => None,
    }
}

/// Appends the program of a matrix symbol. A value that cannot be encoded
/// is an error that names the value and the reason.
pub fn render_qrcode(content: &mut Content, qr: &QRCodeElement, page_height: Micro) -> (r: Result<
    (),
    RupdfError,
>)
    requires
        qr.wf(),
        in_range(page_height as int),
    ensures
        match qrcode_ops(*qr, page_height as int) {
            Some(ops) => r is Ok && final(content)@ == old(content)@ + ops,
            None => final(content)@ == old(content)@ && (r matches Err(
                RupdfError::InvalidBarcode { value, reason },
            ) && value@ == qr.value@ && qr_failure_prefix().is_prefix_of(reason@)),
        },
{
    let matrix = match qr_matrix(
        qr.value.as_str().as_bytes(),
        QUIET_ZONE,
        MODULE_SIDE,
        MODULE_SIDE,
    ) {
        Ok(text) => text,
        Err(e) => {
            let mut reason = String::from_str("QR code generation failed: ");
            let text = qr_error_text(&e);
            reason.append(text.as_str());
            return Err(RupdfError::InvalidBarcode { value: qr.value.clone(), reason });
        },
    };
    let chars = chars_of(matrix.as_str());
    let rows = split_paragraphs(&chars);
    render_qr_rows(content, qr, page_height, &rows);
    Ok(())
}

} // verus!
