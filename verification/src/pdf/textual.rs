//! Single lines of text and wrapped text boxes.
use crate::error::RupdfError;
use crate::layout::texts;
use crate::measure::{half, in_range, MEASURE_MAX, Micro, mul_div_wide, scaled};
use crate::pdf::content::{Content, Op, OpModel};
use crate::pdf::fonts::{encode_spec, FontEmbedder};
use crate::pdf::shapes::{alpha_ops, set_alpha};
use crate::resources::LoadedFont;
use crate::types::{
    BoxAlignX, BoxAlignY, TextAlign, TextAlignY, TextBoxElement, TextElement, VerticalAnchor,
};
use vstd::prelude::*;
use vstd::string::StringExecFns;

verus! {

/// Where a line `width` wide starts when it is aligned about `x`.
pub open spec fn aligned_x(align: TextAlign, x: int, width: int) -> int {
    match align {
        TextAlign::Left => x,
        TextAlign::Center => x - width / 2,
        TextAlign::Right => x - width,
    }
}

/// The baseline, measured from the page bottom, of text anchored at `y`
/// from the page top, where capitals are `cap` high.
pub open spec fn anchored_baseline(anchor: VerticalAnchor, page_height: int, y: int, cap: int) -> int {
    match anchor {
        VerticalAnchor::Baseline => page_height - y,
        VerticalAnchor::Capline => page_height - y - cap,
        VerticalAnchor::Center => page_height - y - cap / 2,
    }
}

/// The program of a line of text set in `font`, which the output knows as
/// `ps_name`, when `registered` are the characters registered for it.
pub open spec fn text_ops(
    text: TextElement,
    page_height: int,
    font: &LoadedFont,
    registered: Set<char>,
    ps_name: Seq<char>,
) -> Seq<OpModel> {
    let cap = font.units_to_measure(font.cap_height as int, text.size as int);
    let width = font.width_of(text.text@, text.size as int);
    seq![OpModel::SaveState] + alpha_ops(text.color.a) + seq![
        OpModel::SetFillRgb(text.color.r, text.color.g, text.color.b),
        OpModel::BeginText,
        OpModel::SetFont(ps_name, text.size as int),
        OpModel::NextLine(
            aligned_x(text.align, text.x as int, width),
            anchored_baseline(text.vertical_anchor, page_height, text.y as int, cap),
        ),
        OpModel::Show(encode_spec(font, registered, text.text@)),
        OpModel::EndText,
        OpModel::RestoreState,
    ]
}

/// Appends the program of a line of text. Fails, and appends nothing, if
/// the font lacks a glyph for one of its characters.
pub fn render_text(
    content: &mut Content,
    text: &TextElement,
    page_height: Micro,
    font: &LoadedFont,
    embedder: &FontEmbedder,
    ps_name: &str,
) -> (r: Result<(), RupdfError>)
    requires
        text.wf(),
        in_range(page_height as int),
        font.wf(),
        embedder.wf(),
        embedder.font() == font,
    ensures
        match font.first_unmapped(text.text@) {
            None => r is Ok && final(content)@ == old(content)@ + text_ops(
                *text,
                page_height as int,
                font,
                embedder.registered(),
                ps_name@,
            ),
            Some(c) => final(content)@ == old(content)@ && (r matches Err(
                RupdfError::MissingGlyph { glyph, font: name },
            ) && glyph == c && name@ == text.font@),
        },
{
    let cap = font.cap_height_pts(text.size);
    let baseline_y: Micro = match text.vertical_anchor {
        VerticalAnchor::Baseline => page_height - text.y,
        VerticalAnchor::Capline => page_height - text.y - cap,
        VerticalAnchor::Center => page_height - text.y - half(cap),
    };
    let width = match font.text_width(text.text.as_str(), text.size, text.font.as_str()) {
        Ok(w) => w,
        Err(e) => {
            return Err(e);
        },
    };
    let x: Micro = match text.align {
        TextAlign::Left => text.x,
        TextAlign::Center => text.x - half(width),
        TextAlign::Right => text.x - width,
    };
    content.push(Op::SaveState);
    set_alpha(content, text.color.a);
    content.push(Op::SetFillRgb(text.color.r, text.color.g, text.color.b));
    content.push(Op::BeginText);
    content.push(Op::SetFont(String::from_str(ps_name), text.size));
    content.push(Op::NextLine(x, baseline_y));
    let encoded = embedder.encode_text(text.text.as_str());
    content.push(Op::Show(encoded));
    content.push(Op::EndText);
    content.push(Op::RestoreState);
    assert(content@ =~= old(content)@ + text_ops(
        *text,
        page_height as int,
        font,
        embedder.registered(),
        ps_name@,
    ));
    Ok(())
}

/// A length taken `count` times, capped.
pub open spec fn times(count: int, len: int) -> int {
    scaled(count, len, 1)
}

/// `len` taken `count` times.
pub fn times_exec(count: usize, len: Micro) -> (r: Micro)
    requires
        in_range(len as int),
    ensures
        r == times(count as int, len as int),
        in_range(r as int),
{
    mul_div_wide(count as u128, len, 1)
}

/// The left edge of a text box.
pub open spec fn box_left(tb: TextBoxElement) -> int {
    match tb.box_align_x {
        BoxAlignX::Left => tb.x as int,
        BoxAlignX::Center => tb.x - tb.w / 2,
        BoxAlignX::Right => tb.x - tb.w,
    }
}

/// The top edge of a text box, from the page top.
pub open spec fn box_top(tb: TextBoxElement) -> int {
    match tb.box_align_y {
        BoxAlignY::Top => tb.y as int,
        BoxAlignY::Center => tb.y - tb.h / 2,
        BoxAlignY::Bottom => tb.y - tb.h,
    }
}

/// The magnitude of `x`.
pub open spec fn magnitude(x: int) -> int {
    if x < 0 {
        -x
    } else {
        x
    }
}

/// The baseline of the first of `n` lines, from the page top. The block
/// of lines is as high as the distance between the first and the last
/// baseline plus one capital height.
pub open spec fn first_baseline(tb: TextBoxElement, font: &LoadedFont, n: int) -> int {
    let cap = font.units_to_measure(font.cap_height as int, tb.size as int);
    let ascender = font.units_to_measure(font.ascender as int, tb.size as int);
    let descender = magnitude(font.units_to_measure(font.descender as int, tb.size as int));
    let last_offset = times(n - 1, tb.line_height as int);
    let block = if n == 1 {
        cap
    } else {
        last_offset + cap
    };
    let top = box_top(tb);
    match tb.text_align_y {
        TextAlignY::Top => top + ascender,
        TextAlignY::Capline => top + cap,
        TextAlignY::Center => top + (tb.h - block) / 2 + cap,
        TextAlignY::Baseline => top + tb.h - last_offset,
        TextAlignY::Bottom => top + tb.h - last_offset - descender,
    }
}

/// Where line `i`, `width` wide, starts.
pub open spec fn line_x(tb: TextBoxElement, width: int) -> int {
    match tb.text_align_x {
        TextAlign::Left => box_left(tb),
        TextAlign::Center => box_left(tb) + (tb.w - width) / 2,
        TextAlign::Right => box_left(tb) + tb.w - width,
    }
}

/// The operators that place and show the lines from `i` on: a line that
/// is not empty is placed by its offset from the line placed before it
/// (from the origin for the first), an empty line only takes up its turn.
/// The character is the first that the font has no glyph for.
pub open spec fn lines_ops(
    tb: TextBoxElement,
    page_height: int,
    font: &LoadedFont,
    registered: Set<char>,
    lines: Seq<Seq<char>>,
    first: int,
    i: int,
    prev_x: int,
    prev_y: int,
) -> Result<Seq<OpModel>, char>
    decreases lines.len() - i,
{
    if i < 0 || i >= lines.len() {
        Ok(Seq::empty())
    } else if lines[i].len() == 0 {
        lines_ops(tb, page_height, font, registered, lines, first, i + 1, prev_x, prev_y)
    } else {
        match font.first_unmapped(lines[i]) {
            Some(c) => Err(c),
            None => {
                let y = page_height - (first + times(i, tb.line_height as int));
                let x = line_x(tb, font.width_of(lines[i], tb.size as int));
                match lines_ops(tb, page_height, font, registered, lines, first, i + 1, x, y) {
                    Ok(rest) => Ok(
                        seq![
                            OpModel::NextLine(x - prev_x, y - prev_y),
                            OpModel::Show(encode_spec(font, registered, lines[i])),
                        ] + rest,
                    ),
                    Err(c) => Err(c),
                }
            },
        }
    }
}

/// The program of a text box whose text wraps into `lines`: the box is
/// the clip region, and the lines follow one another `line_height` apart.
pub open spec fn textbox_lines_program(
    tb: TextBoxElement,
    page_height: int,
    font: &LoadedFont,
    registered: Set<char>,
    ps_name: Seq<char>,
    lines: Seq<Seq<char>>,
) -> Result<Seq<OpModel>, char> {
    if lines.len() == 0 {
        Ok(Seq::empty())
    } else {
        let first = first_baseline(tb, font, lines.len() as int);
        match lines_ops(tb, page_height, font, registered, lines, first, 0, 0, 0) {
            Ok(placed) => Ok(
                seq![
                    OpModel::SaveState,
                    OpModel::Rect(box_left(tb), page_height - box_top(tb) - tb.h, tb.w as int, tb.h as int),
                    OpModel::ClipNonzero,
                    OpModel::EndPath,
                ] + alpha_ops(tb.color.a) + seq![
                    OpModel::SetFillRgb(tb.color.r, tb.color.g, tb.color.b),
                    OpModel::BeginText,
                    OpModel::SetFont(ps_name, tb.size as int),
                ] + placed + seq![OpModel::EndText, OpModel::RestoreState],
            ),
            Err(c) => Err(c),
        }
    }
}

/// The program of a text box, or the first character that the font has no
/// glyph for.
pub open spec fn textbox_ops(
    tb: TextBoxElement,
    page_height: int,
    font: &LoadedFont,
    registered: Set<char>,
    ps_name: Seq<char>,
) -> Result<Seq<OpModel>, char> {
    match font.wrap_spec(tb.text@, tb.size as int, tb.w as int) {
        Ok(lines) => textbox_lines_program(tb, page_height, font, registered, ps_name, lines),
        Err(c) => Err(c),
    }
}

/// `ops` followed by the operators of `rest`, where there are any.
pub open spec fn then_ops(ops: Seq<OpModel>, rest: Result<Seq<OpModel>, char>) -> Result<
    Seq<OpModel>,
    char,
> {
    match rest {
        Ok(more) => Ok(ops + more),
        Err(c) => Err(c),
    }
}

/// The left edge of the box.
fn textbox_left(textbox: &TextBoxElement) -> (left: Micro)
    requires
        textbox.wf(),
    ensures
        left == box_left(*textbox),
{
    match textbox.box_align_x {
        BoxAlignX::Left => textbox.x,
        BoxAlignX::Center => textbox.x - half(textbox.w),
        BoxAlignX::Right => textbox.x - textbox.w,
    }
}

/// The top edge of the box.
fn textbox_top(textbox: &TextBoxElement) -> (top: Micro)
    requires
        textbox.wf(),
    ensures
        top == box_top(*textbox),
{
    match textbox.box_align_y {
        BoxAlignY::Top => textbox.y,
        BoxAlignY::Center => textbox.y - half(textbox.h),
        BoxAlignY::Bottom => textbox.y - textbox.h,
    }
}

/// The baseline of the first of `n` lines.
fn textbox_first_baseline(textbox: &TextBoxElement, font: &LoadedFont, n: usize) -> (first: Micro)
    requires
        textbox.wf(),
        font.wf(),
        n >= 1,
    ensures
        first == first_baseline(*textbox, font, n as int),
        -6 * MEASURE_MAX <= first <= 6 * MEASURE_MAX,
{
    let top = textbox_top(textbox);
    let cap = font.cap_height_pts(textbox.size);
    let ascender = font.ascender_pts(textbox.size);
    let below = font.descender_pts(textbox.size);
    let descender: Micro = if below < 0 {
        -below
    } else {
        below
    };
    let last_offset = times_exec(n - 1, textbox.line_height);
    let block: Micro = if n == 1 {
        cap
    } else {
        last_offset + cap
    };
    match textbox.text_align_y {
        TextAlignY::Top => top + ascender,
        TextAlignY::Capline => top + cap,
        TextAlignY::Center => top + half(textbox.h - block) + cap,
        TextAlignY::Baseline => top + textbox.h - last_offset,
        TextAlignY::Bottom => top + textbox.h - last_offset - descender,
    }
}

/// Where a line `width` wide starts.
fn textbox_line_x(textbox: &TextBoxElement, left: Micro, width: Micro) -> (x: Micro)
    requires
        textbox.wf(),
        left == box_left(*textbox),
        in_range(width as int),
    ensures
        x == line_x(*textbox, width as int),
        -4 * MEASURE_MAX <= x <= 4 * MEASURE_MAX,
{
    match textbox.text_align_x {
        TextAlign::Left => left,
        TextAlign::Center => left + half(textbox.w - width),
        TextAlign::Right => left + textbox.w - width,
    }
}

/// Appends the operators that place and show `lines`.
fn render_lines(
    content: &mut Content,
    textbox: &TextBoxElement,
    page_height: Micro,
    font: &LoadedFont,
    embedder: &FontEmbedder,
    lines: &Vec<String>,
    first: Micro,
) -> (r: Result<(), RupdfError>)
    requires
        textbox.wf(),
        in_range(page_height as int),
        font.wf(),
        embedder.wf(),
        embedder.font() == font,
        -6 * MEASURE_MAX <= first <= 6 * MEASURE_MAX,
    ensures
        match lines_ops(
            *textbox,
            page_height as int,
            font,
            embedder.registered(),
            texts(lines@),
            first as int,
            0,
            0,
            0,
        ) {
            Ok(ops) => r is Ok && final(content)@ == old(content)@ + ops,
            Err(c) => r matches Err(RupdfError::MissingGlyph { glyph, font: name }) && glyph == c
                && name@ == textbox.font@,
        },
{
    let ghost tb = *textbox;
    let ghost lseq = texts(lines@);
    let ghost registered = embedder.registered();
    let ghost head = content@;
    let ghost all = lines_ops(tb, page_height as int, font, registered, lseq, first as int, 0, 0, 0);
    let ghost mut done: Seq<OpModel> = Seq::empty();
    let left = textbox_left(textbox);
    let mut prev_x: Micro = 0;
    let mut prev_y: Micro = 0;
    let mut i: usize = 0;
    assert(head + done =~= head);
    while i < lines.len()
        invariant
            i <= lines.len(),
            tb == *textbox,
            tb.wf(),
            in_range(page_height as int),
            font.wf(),
            embedder.wf(),
            embedder.font() == font,
            registered == embedder.registered(),
            lseq == texts(lines@),
            left == box_left(tb),
            -6 * MEASURE_MAX <= first <= 6 * MEASURE_MAX,
            -8 * MEASURE_MAX <= prev_y <= 8 * MEASURE_MAX,
            -4 * MEASURE_MAX <= prev_x <= 4 * MEASURE_MAX,
            all == lines_ops(tb, page_height as int, font, registered, lseq, first as int, 0, 0, 0),
            content@ == head + done,
            all == then_ops(
                done,
                lines_ops(
                    tb,
                    page_height as int,
                    font,
                    registered,
                    lseq,
                    first as int,
                    i as int,
                    prev_x as int,
                    prev_y as int,
                ),
            ),
        decreases lines.len() - i,
    {
        let line = &lines[i];
        assert(lseq[i as int] == line@);
        if line.as_str().unicode_len() == 0 {
            i += 1;
            continue ;
        }
        let line_y: Micro = first + times_exec(i, textbox.line_height);
        let pdf_y: Micro = page_height - line_y;
        let width = match font.text_width(line.as_str(), textbox.size, textbox.font.as_str()) {
            Ok(w) => w,
            Err(e) => {
                return Err(e);
            },
        };
        let x = textbox_line_x(textbox, left, width);
        content.push(Op::NextLine(x - prev_x, pdf_y - prev_y));
        let encoded = embedder.encode_text(line.as_str());
        content.push(Op::Show(encoded));
        proof {
            let step = seq![
                OpModel::NextLine(x - prev_x, pdf_y - prev_y),
                OpModel::Show(encode_spec(font, registered, lseq[i as int])),
            ];
            assert(content@ =~= head + (done + step));
            match lines_ops(
                tb,
                page_height as int,
                font,
                registered,
                lseq,
                first as int,
                i + 1,
                x as int,
                pdf_y as int,
            ) {
                Ok(rest) => {
                    assert(done + (step + rest) =~= (done + step) + rest);
                },
                Err(_) => {},
            }
            done = done + step;
        }
        prev_x = x;
        prev_y = pdf_y;
        i += 1;
    }
    assert(done + Seq::<OpModel>::empty() =~= done);
    Ok(())
}

/// Appends the program of a text box whose text has been wrapped into
/// `lines`.
pub fn render_textbox_lines(
    content: &mut Content,
    textbox: &TextBoxElement,
    page_height: Micro,
    font: &LoadedFont,
    embedder: &FontEmbedder,
    ps_name: &str,
    lines: &Vec<String>,
) -> (r: Result<(), RupdfError>)
    requires
        textbox.wf(),
        in_range(page_height as int),
        font.wf(),
        embedder.wf(),
        embedder.font() == font,
    ensures
        match textbox_lines_program(
            *textbox,
            page_height as int,
            font,
            embedder.registered(),
            ps_name@,
            texts(lines@),
        ) {
            Ok(ops) => r is Ok && final(content)@ == old(content)@ + ops,
            Err(c) => r matches Err(RupdfError::MissingGlyph { glyph, font: name }) && glyph == c
                && name@ == textbox.font@,
        },
{
    let num_lines = lines.len();
    if num_lines == 0 {
        assert(content@ =~= old(content)@ + Seq::<OpModel>::empty());
        return Ok(());
    }
    let left = textbox_left(textbox);
    let top = textbox_top(textbox);
    let first = textbox_first_baseline(textbox, font, num_lines);
    content.push(Op::SaveState);
    content.push(Op::Rect(left, page_height - top - textbox.h, textbox.w, textbox.h));
    content.push(Op::ClipNonzero);
    content.push(Op::EndPath);
    set_alpha(content, textbox.color.a);
    content.push(Op::SetFillRgb(textbox.color.r, textbox.color.g, textbox.color.b));
    content.push(Op::BeginText);
    content.push(Op::SetFont(String::from_str(ps_name), textbox.size));
    let ghost head = content@;
    match render_lines(content, textbox, page_height, font, embedder, lines, first) {
        Ok(()) => {},
        Err(e) => {
            return Err(e);
        },
    }
    content.push(Op::EndText);
    content.push(Op::RestoreState);
    proof {
        let program = textbox_lines_program(
            *textbox,
            page_height as int,
            font,
            embedder.registered(),
            ps_name@,
            texts(lines@),
        );
        assert(program is Ok);
        assert(content@ =~= old(content)@ + program->Ok_0);
    }
    Ok(())
}

/// Appends the program of a text box. Fails if the font lacks a glyph for
/// a character of the text.
pub fn render_textbox(
    content: &mut Content,
    textbox: &TextBoxElement,
    page_height: Micro,
    font: &LoadedFont,
    embedder: &FontEmbedder,
    ps_name: &str,
) -> (r: Result<(), RupdfError>)
    requires
        textbox.wf(),
        in_range(page_height as int),
        font.wf(),
        embedder.wf(),
        embedder.font() == font,
    ensures
        match textbox_ops(*textbox, page_height as int, font, embedder.registered(), ps_name@) {
            Ok(ops) => r is Ok && final(content)@ == old(content)@ + ops,
            Err(c) => r matches Err(RupdfError::MissingGlyph { glyph, font: name }) && glyph == c
                && name@ == textbox.font@,
        },
{
    let lines = match font.wrap_text(
        textbox.text.as_str(),
        textbox.size,
        textbox.w,
        textbox.font.as_str(),
    ) {
        Ok(lines) => lines,
        Err(e) => {
            return Err(e);
        },
    };
    render_textbox_lines(content, textbox, page_height, font, embedder, ps_name, &lines)
}

} // verus!
