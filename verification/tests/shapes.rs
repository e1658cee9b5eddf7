use rupdf::measure::{half, mul_div, points};
use rupdf::pdf::content::{Content, Op};
use rupdf::pdf::shapes::{
    alpha_state_name, draw_rect_path, get_alpha_state_name, nearest_alpha, render_background,
    render_line, render_rect,
};
use rupdf::types::{Color, LineElement, RectElement};

#[test]
fn alpha_resolves_to_the_nearest_level() {
    assert_eq!(nearest_alpha(200), 191);
    assert_eq!(nearest_alpha(255), 255);
    assert_eq!(nearest_alpha(0), 63);
    assert_eq!(nearest_alpha(63), 63);
    assert_eq!(nearest_alpha(127), 127);
    assert_eq!(nearest_alpha(191), 191);
    assert_eq!(get_alpha_state_name(200), "A191");
    assert_eq!(get_alpha_state_name(255), "A255");
    assert_eq!(alpha_state_name(63), "A63");
}

#[test]
fn alpha_ties_go_to_the_higher_level() {
    assert_eq!(nearest_alpha(223), 255);
    assert_eq!(nearest_alpha(222), 191);
    assert_eq!(nearest_alpha(159), 191);
    assert_eq!(nearest_alpha(158), 127);
    assert_eq!(nearest_alpha(95), 127);
    assert_eq!(nearest_alpha(94), 63);
}

#[test]
fn measures_round_down() {
    assert_eq!(mul_div(7, 1, 2), 3);
    assert_eq!(mul_div(-7, 1, 2), -4);
    assert_eq!(mul_div(points(10), 5523, 10000), 5_523_000);
    assert_eq!(half(-3), -2);
    assert_eq!(half(3), 1);
    assert_eq!(mul_div(i64::MAX, i64::MAX, 1), rupdf::measure::MEASURE_MAX);
    assert_eq!(mul_div(i64::MIN, i64::MAX, 1), -rupdf::measure::MEASURE_MAX);
}

fn rect(radius: i64, fill: Option<Color>, stroke: i64) -> RectElement {
    RectElement {
        x: points(72),
        y: points(72),
        w: points(100),
        h: points(50),
        stroke,
        stroke_color: Color::black(),
        fill_color: fill,
        corner_radius: radius,
    }
}

#[test]
fn a_plain_rectangle_is_filled_then_stroked() {
    let mut content = Content::new();
    let fill = Color { r: 200, g: 200, b: 255, a: 255 };
    render_rect(&mut content, &rect(0, Some(fill), points(1)), points(792));
    let y = points(792 - 72 - 50);
    assert_eq!(
        content.finish(),
        vec![
            Op::SaveState,
            Op::SetFillRgb(200, 200, 255),
            Op::Rect(points(72), y, points(100), points(50)),
            Op::FillNonzero,
            Op::SetStrokeRgb(0, 0, 0),
            Op::SetLineWidth(points(1)),
            Op::Rect(points(72), y, points(100), points(50)),
            Op::Stroke,
            Op::RestoreState,
        ]
    );
}

#[test]
fn a_rectangle_without_fill_or_stroke_draws_nothing() {
    let mut content = Content::new();
    render_rect(&mut content, &rect(0, None, 0), points(792));
    assert_eq!(content.finish(), vec![Op::SaveState, Op::RestoreState]);
}

#[test]
fn a_transparent_fill_selects_a_graphics_state() {
    let mut content = Content::new();
    let fill = Color { r: 1, g: 2, b: 3, a: 200 };
    render_rect(&mut content, &rect(0, Some(fill), 0), points(100));
    let ops = content.finish();
    assert_eq!(ops[1], Op::SetParameters("A191".to_string()));
    assert_eq!(ops[2], Op::SetFillRgb(1, 2, 3));
}

#[test]
fn a_rounded_rectangle_has_four_quarter_circles() {
    let mut content = Content::new();
    draw_rect_path(&mut content, 0, 0, points(100), points(50), points(10));
    let r = points(10);
    let c = 5_523_000;
    let (w, h) = (points(100), points(50));
    assert_eq!(
        content.finish(),
        vec![
            Op::MoveTo(r, h),
            Op::LineTo(w - r, h),
            Op::CubicTo(w - r + c, h, w, h - r + c, w, h - r),
            Op::LineTo(w, r),
            Op::CubicTo(w, r - c, w - r + c, 0, w - r, 0),
            Op::LineTo(r, 0),
            Op::CubicTo(r - c, 0, 0, r - c, 0, r),
            Op::LineTo(0, h - r),
            Op::CubicTo(0, h - r + c, r - c, h, r, h),
            Op::ClosePath,
        ]
    );
}

#[test]
fn a_corner_radius_is_clamped_to_half_the_smaller_side() {
    let mut content = Content::new();
    draw_rect_path(&mut content, 0, 0, points(100), points(50), points(40));
    let ops = content.finish();
    // The radius is 25, half the height: the vertical edges vanish.
    assert_eq!(ops[0], Op::MoveTo(points(25), points(50)));
    assert_eq!(ops[1], Op::LineTo(points(75), points(50)));
    assert_eq!(ops[3], Op::LineTo(points(100), points(25)));
    assert_eq!(ops[7], Op::LineTo(0, points(25)));
}

#[test]
fn a_line_is_flipped_about_the_page_height() {
    let mut content = Content::new();
    let line = LineElement {
        x1: points(72),
        y1: points(72),
        x2: points(200),
        y2: points(150),
        stroke: points(2),
        color: Color { r: 255, g: 0, b: 0, a: 255 },
    };
    render_line(&mut content, &line, points(792));
    assert_eq!(
        content.finish(),
        vec![
            Op::SaveState,
            Op::SetStrokeRgb(255, 0, 0),
            Op::SetLineWidth(points(2)),
            Op::MoveTo(points(72), points(720)),
            Op::LineTo(points(200), points(642)),
            Op::Stroke,
            Op::RestoreState,
        ]
    );
}

#[test]
fn a_white_background_is_not_painted() {
    let mut content = Content::new();
    render_background(&mut content, Color::white(), points(612), points(792));
    assert!(content.finish().is_empty());
    let mut content = Content::new();
    render_background(
        &mut content,
        Color { r: 200, g: 220, b: 255, a: 255 },
        points(612),
        points(792),
    );
    assert_eq!(
        content.finish(),
        vec![
            Op::SaveState,
            Op::SetFillRgb(200, 220, 255),
            Op::Rect(0, 0, points(612), points(792)),
            Op::FillNonzero,
            Op::RestoreState,
        ]
    );
    // White that is not opaque is painted, through a graphics state.
    let mut content = Content::new();
    render_background(
        &mut content,
        Color { r: 255, g: 255, b: 255, a: 100 },
        points(10),
        points(10),
    );
    assert_eq!(content.finish()[1], Op::SetParameters("A127".to_string()));
}
