//! Transparency levels, rectangles and lines.
use crate::measure::{half, in_range, MEASURE_MAX, Micro, mul_div, scaled};
use crate::pdf::content::{Content, Op, OpModel};
use crate::text::{decimal, push_decimal};
use crate::types::{Color, LineElement, RectElement};
use vstd::prelude::*;

verus! {

/// The transparency levels for which a graphics state exists.
pub open spec fn is_alpha_level(level: u8) -> bool {
    level == 255 || level == 191 || level == 127 || level == 63
}

/// How far two alpha values are apart.
pub open spec fn alpha_distance(a: u8, b: u8) -> int {
    if a >= b {
        a - b
    } else {
        b - a
    }
}

/// The level that stands for the alpha `a`: the nearest one, and of two
/// equally near ones the higher.
pub open spec fn nearest_alpha_spec(a: u8) -> u8 {
    if a >= 223 {
        255
    } else if a >= 159 {
        191
    } else if a >= 95 {
        127
    } else {
        63
    }
}

/// The chosen level is a level, no level is nearer, and a level that is as
/// near is lower. An alpha that is a level stands for itself.
pub proof fn lemma_nearest_alpha(a: u8, level: u8)
    requires
        is_alpha_level(level),
    ensures
        is_alpha_level(nearest_alpha_spec(a)),
        alpha_distance(a, nearest_alpha_spec(a)) <= alpha_distance(a, level),
        alpha_distance(a, nearest_alpha_spec(a)) == alpha_distance(a, level) ==> level
            <= nearest_alpha_spec(a),
        is_alpha_level(a) ==> nearest_alpha_spec(a) == a,
{
}

/// The level that stands for the alpha `a`.
pub fn nearest_alpha(a: u8) -> (level: u8)
    ensures
        level == nearest_alpha_spec(a),
{
    if a >= 223 {
        255
    } else if a >= 159 {
        191
    } else if a >= 95 {
        127
    } else {
        63
    }
}

/// The name of the graphics state of a level: the letter A and the level.
pub open spec fn alpha_level_name(level: u8) -> Seq<char> {
    seq!['A'] + decimal(level as nat)
}

/// The name of the graphics state that stands for the alpha `a`.
pub open spec fn alpha_name(a: u8) -> Seq<char> {
    alpha_level_name(nearest_alpha_spec(a))
}

/// The name of the graphics state of `level`.
pub fn alpha_state_name(level: u8) -> (name: String)
    ensures
        name@ == alpha_level_name(level),
{
    let mut name = String::new();
    name.push('A');
    push_decimal(&mut name, level as u64);
    assert(name@ =~= alpha_level_name(level));
    name
}

/// The name of the graphics state that stands for the alpha `alpha`.
pub fn get_alpha_state_name(alpha: u8) -> (name: String)
    ensures
        name@ == alpha_name(alpha),
{
    alpha_state_name(nearest_alpha(alpha))
}

/// What a colour's alpha adds to a program: nothing for an opaque colour,
/// else the selection of the nearest graphics state.
pub open spec fn alpha_ops(a: u8) -> Seq<OpModel> {
    if a != 255 {
        seq![OpModel::SetParameters(alpha_name(a))]
    } else {
        Seq::empty()
    }
}

/// Selects the graphics state for `a` unless it is opaque.
pub fn set_alpha(content: &mut Content, a: u8)
    ensures
        final(content)@ == old(content)@ + alpha_ops(a),
{
    if a != 255 {
        content.push(Op::SetParameters(get_alpha_state_name(a)));
    }
    assert(content@ =~= old(content)@ + alpha_ops(a));
}

/// The corner radius actually drawn: the one asked for, but at most half
/// the width and half the height.
pub open spec fn clamped_radius(radius: int, w: int, h: int) -> int {
    let r1 = if radius <= w / 2 {
        radius
    } else {
        w / 2
    };
    if r1 <= h / 2 {
        r1
    } else {
        h / 2
    }
}

/// The distance of a curve's control points from its ends that makes a
/// cubic curve approximate a quarter circle of radius `r`: 0.5523 times `r`.
pub open spec fn control_offset(r: int) -> int {
    scaled(r, 5523, 10000)
}

/// The path of a rectangle with its lower left corner at (`x`, `y`). With
/// a radius above zero the corners are quarter circles, drawn clockwise from
/// the top left.
pub open spec fn rect_path(x: int, y: int, w: int, h: int, radius: int) -> Seq<OpModel> {
    if radius <= 0 {
        seq![OpModel::Rect(x, y, w, h)]
    } else {
        let r = clamped_radius(radius, w, h);
        let c = control_offset(r);
        seq![
            OpModel::MoveTo(x + r, y + h),
            OpModel::LineTo(x + w - r, y + h),
            OpModel::CubicTo(x + w - r + c, y + h, x + w, y + h - r + c, x + w, y + h - r),
            OpModel::LineTo(x + w, y + r),
            OpModel::CubicTo(x + w, y + r - c, x + w - r + c, y, x + w - r, y),
            OpModel::LineTo(x + r, y),
            OpModel::CubicTo(x + r - c, y, x, y + r - c, x, y + r),
            OpModel::LineTo(x, y + h - r),
            OpModel::CubicTo(x, y + h - r + c, x + r - c, y + h, x + r, y + h),
            OpModel::ClosePath,
        ]
    }
}

/// A radius beyond half the smaller side is clamped to it, and the rounded
/// outline of a rectangle with sides that are not negative never crosses
/// itself: each corner stays within its quarter, so the straight edges keep
/// a length that is not negative, and the control points lie between the
/// ends of their curve.
pub proof fn lemma_rounded_rect_is_simple(w: int, h: int, radius: int)
    requires
        w >= 0,
        h >= 0,
        radius > 0,
        in_range(w),
        in_range(h),
        in_range(radius),
    ensures
        ({
            let r = clamped_radius(radius, w, h);
            let c = control_offset(r);
            let smaller = if w <= h {
                w
            } else {
                h
            };
            &&& radius > smaller / 2 ==> r == smaller / 2
            &&& radius <= smaller / 2 ==> r == radius
            &&& 0 <= r
            &&& r <= w - r
            &&& r <= h - r
            &&& 0 <= c <= r
        }),
{
    let r = clamped_radius(radius, w, h);
    lemma_control_offset_bounds(r);
}

/// Half the smaller side of a rectangle.
pub open spec fn half_smaller_side(w: int, h: int) -> int {
    if w <= h {
        w / 2
    } else {
        h / 2
    }
}

/// A radius beyond half the smaller side draws what half the smaller side
/// draws. This holds of every rectangle whose sides are at least two
/// millionths of a point long: with a shorter side, half the side is no
/// length at all.
pub proof fn lemma_radius_is_clamped(x: int, y: int, w: int, h: int, radius: int)
    requires
        w >= 2,
        h >= 2,
        radius > half_smaller_side(w, h),
    ensures
        rect_path(x, y, w, h, radius) == rect_path(x, y, w, h, half_smaller_side(w, h)),
{
}

/// The control offset of a radius that is not negative lies between zero
/// and the radius.
pub proof fn lemma_control_offset_bounds(r: int)
    requires
        0 <= r,
        in_range(r),
    ensures
        0 <= control_offset(r) <= r,
{
    let p = r * 5523;
    assert(0 <= p <= r * 10000) by (nonlinear_arith)
        requires
            0 <= r,
            p == r * 5523,
    ;
    vstd::arithmetic::div_mod::lemma_div_pos_is_pos(p, 10000);
    vstd::arithmetic::div_mod::lemma_div_is_ordered(p, r * 10000, 10000);
    vstd::arithmetic::div_mod::lemma_div_multiples_vanish(r, 10000);
    assert(10000 * r == r * 10000) by (nonlinear_arith);
}

/// Appends the path of a rectangle, rounded if `radius` is above zero.
pub fn draw_rect_path(content: &mut Content, x: Micro, y: Micro, w: Micro, h: Micro, radius: Micro)
    requires
        in_range(x as int),
        in_range(w as int),
        in_range(h as int),
        in_range(radius as int),
        -3 * MEASURE_MAX <= y <= 3 * MEASURE_MAX,
    ensures
        final(content)@ == old(content)@ + rect_path(
            x as int,
            y as int,
            w as int,
            h as int,
            radius as int,
        ),
{
    if radius <= 0 {
        content.push(Op::Rect(x, y, w, h));
        assert(content@ =~= old(content)@ + rect_path(
            x as int,
            y as int,
            w as int,
            h as int,
            radius as int,
        ));
    } else {
        let half_w = half(w);
        let half_h = half(h);
        let r1 = if radius <= half_w {
            radius
        } else {
            half_w
        };
        let r = if r1 <= half_h {
            r1
        } else {
            half_h
        };
        let c = mul_div(r, 5523, 10000);
        content.push(Op::MoveTo(x + r, y + h));
        content.push(Op::LineTo(x + w - r, y + h));
        content.push(Op::CubicTo(x + w - r + c, y + h, x + w, y + h - r + c, x + w, y + h - r));
        content.push(Op::LineTo(x + w, y + r));
        content.push(Op::CubicTo(x + w, y + r - c, x + w - r + c, y, x + w - r, y));
        content.push(Op::LineTo(x + r, y));
        content.push(Op::CubicTo(x + r - c, y, x, y + r - c, x, y + r));
        content.push(Op::LineTo(x, y + h - r));
        content.push(Op::CubicTo(x, y + h - r + c, x + r - c, y + h, x + r, y + h));
        content.push(Op::ClosePath);
        assert(content@ =~= old(content)@ + rect_path(
            x as int,
            y as int,
            w as int,
            h as int,
            radius as int,
        ));
    }
}

/// The fill pass of a rectangle: present if a fill colour is set.
pub open spec fn rect_fill_ops(rect: RectElement, pdf_y: int) -> Seq<OpModel> {
    match rect.fill_color {
        Some(fill) => alpha_ops(fill.a) + seq![OpModel::SetFillRgb(fill.r, fill.g, fill.b)]
            + rect_path(
            rect.x as int,
            pdf_y,
            rect.w as int,
            rect.h as int,
            rect.corner_radius as int,
        ) + seq![OpModel::FillNonzero],
        None => Seq::empty(),
    }
}

/// The stroke pass of a rectangle: present if the stroke width is above
/// zero.
pub open spec fn rect_stroke_ops(rect: RectElement, pdf_y: int) -> Seq<OpModel> {
    if rect.stroke > 0 {
        alpha_ops(rect.stroke_color.a) + seq![
            OpModel::SetStrokeRgb(rect.stroke_color.r, rect.stroke_color.g, rect.stroke_color.b),
            OpModel::SetLineWidth(rect.stroke as int),
        ] + rect_path(
            rect.x as int,
            pdf_y,
            rect.w as int,
            rect.h as int,
            rect.corner_radius as int,
        ) + seq![OpModel::Stroke]
    } else {
        Seq::empty()
    }
}

/// The program of a rectangle on a page `page_height` high: its lower edge
/// lies at `page_height - y - h`; fill and stroke are separate passes over
/// the same path, bracketed so that nothing leaks out.
pub open spec fn rect_ops(rect: RectElement, page_height: int) -> Seq<OpModel> {
    let pdf_y = page_height - rect.y - rect.h;
    seq![OpModel::SaveState] + rect_fill_ops(rect, pdf_y) + rect_stroke_ops(rect, pdf_y)
        + seq![OpModel::RestoreState]
}

/// Appends the program of a rectangle.
pub fn render_rect(content: &mut Content, rect: &RectElement, page_height: Micro)
    requires
        rect.wf(),
        in_range(page_height as int),
    ensures
        final(content)@ == old(content)@ + rect_ops(*rect, page_height as int),
{
    content.push(Op::SaveState);
    let pdf_y: Micro = page_height - rect.y - rect.h;
    let ghost c0 = content@;
    match rect.fill_color {
        Some(fill) => {
            set_alpha(content, fill.a);
            content.push(Op::SetFillRgb(fill.r, fill.g, fill.b));
            draw_rect_path(content, rect.x, pdf_y, rect.w, rect.h, rect.corner_radius);
            content.push(Op::FillNonzero);
        },
        None => {},
    }
    assert(content@ =~= c0 + rect_fill_ops(*rect, pdf_y as int));
    let ghost c1 = content@;
    if rect.stroke > 0 {
        set_alpha(content, rect.stroke_color.a);
        content.push(
            Op::SetStrokeRgb(rect.stroke_color.r, rect.stroke_color.g, rect.stroke_color.b),
        );
        content.push(Op::SetLineWidth(rect.stroke));
        draw_rect_path(content, rect.x, pdf_y, rect.w, rect.h, rect.corner_radius);
        content.push(Op::Stroke);
    }
    assert(content@ =~= c1 + rect_stroke_ops(*rect, pdf_y as int));
    content.push(Op::RestoreState);
    assert(content@ =~= old(content)@ + rect_ops(*rect, page_height as int));
}

/// The program of a line on a page `page_height` high.
pub open spec fn line_ops(line: LineElement, page_height: int) -> Seq<OpModel> {
    seq![OpModel::SaveState] + alpha_ops(line.color.a) + seq![
        OpModel::SetStrokeRgb(line.color.r, line.color.g, line.color.b),
        OpModel::SetLineWidth(line.stroke as int),
        OpModel::MoveTo(line.x1 as int, page_height - line.y1),
        OpModel::LineTo(line.x2 as int, page_height - line.y2),
        OpModel::Stroke,
        OpModel::RestoreState,
    ]
}

/// Appends the program of a line.
pub fn render_line(content: &mut Content, line: &LineElement, page_height: Micro)
    requires
        line.wf(),
        in_range(page_height as int),
    ensures
        final(content)@ == old(content)@ + line_ops(*line, page_height as int),
{
    content.push(Op::SaveState);
    let pdf_y1: Micro = page_height - line.y1;
    let pdf_y2: Micro = page_height - line.y2;
    set_alpha(content, line.color.a);
    content.push(Op::SetStrokeRgb(line.color.r, line.color.g, line.color.b));
    content.push(Op::SetLineWidth(line.stroke));
    content.push(Op::MoveTo(line.x1, pdf_y1));
    content.push(Op::LineTo(line.x2, pdf_y2));
    content.push(Op::Stroke);
    content.push(Op::RestoreState);
    assert(content@ =~= old(content)@ + line_ops(*line, page_height as int));
}

/// The background of a page: a rectangle over the whole page, unless the
/// colour is opaque white.
pub open spec fn background_ops(background: Color, width: int, height: int) -> Seq<OpModel> {
    if background.is_opaque_white() {
        Seq::empty()
    } else {
        seq![OpModel::SaveState] + alpha_ops(background.a) + seq![
            OpModel::SetFillRgb(background.r, background.g, background.b),
            OpModel::Rect(0, 0, width, height),
            OpModel::FillNonzero,
            OpModel::RestoreState,
        ]
    }
}

/// Appends the background of a page.
pub fn render_background(content: &mut Content, background: Color, width: Micro, height: Micro)
    ensures
        final(content)@ == old(content)@ + background_ops(background, width as int, height as int),
{
    if background.r != 255 || background.g != 255 || background.b != 255 || background.a != 255 {
        content.push(Op::SaveState);
        set_alpha(content, background.a);
        content.push(Op::SetFillRgb(background.r, background.g, background.b));
        content.push(Op::Rect(0, 0, width, height));
        content.push(Op::FillNonzero);
        content.push(Op::RestoreState);
    }
    assert(content@ =~= old(content)@ + background_ops(background, width as int, height as int));
}

} // verus!
