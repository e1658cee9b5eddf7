use rupdf::elements::svg::{
    render_svg_to_content, write_svg_form, Node, Paint, Path, PathSegment, Stroke, Transform,
    Tree, Unsupported,
};
use rupdf::measure::points;
use rupdf::pdf::content::Op;

fn square(fill: Option<Paint>, stroke: Option<Stroke>, transform: Transform) -> Node {
    Node::Path(Path {
        transform,
        segments: vec![
            PathSegment::MoveTo { x: 0, y: 0 },
            PathSegment::LineTo { x: points(10), y: 0 },
            PathSegment::CurveTo {
                x1: points(10),
                y1: points(5),
                x2: points(5),
                y2: points(10),
                x: 0,
                y: points(10),
            },
            PathSegment::ClosePath,
        ],
        fill,
        stroke,
    })
}

fn tree(root: Node) -> Tree {
    Tree { root, width: points(20), height: points(20) }
}

#[test]
fn a_path_is_flipped_and_painted_once() {
    let stroke = Stroke { paint: Paint::Color(0, 0, 255), width: points(2) };
    let root = square(Some(Paint::Color(255, 0, 0)), Some(stroke), Transform::identity());
    let (content, skipped) = render_svg_to_content(&tree(root));
    assert!(skipped.is_empty());
    assert_eq!(
        content.finish(),
        vec![
            Op::MoveTo(0, points(20)),
            Op::LineTo(points(10), points(20)),
            Op::CubicTo(points(10), points(15), points(5), points(10), 0, points(10)),
            Op::ClosePath,
            Op::SetFillRgb(255, 0, 0),
            Op::SetStrokeRgb(0, 0, 255),
            Op::SetLineWidth(points(2)),
            Op::FillNonzeroAndStroke,
        ]
    );
}

#[test]
fn paint_operators_follow_the_paints() {
    let last = |fill, stroke| {
        let (content, _) = render_svg_to_content(&tree(square(fill, stroke, Transform::identity())));
        content.finish().pop().unwrap()
    };
    let stroke = Stroke { paint: Paint::Color(0, 0, 0), width: points(1) };
    assert_eq!(last(Some(Paint::Color(1, 2, 3)), None), Op::FillNonzero);
    assert_eq!(last(None, Some(stroke)), Op::Stroke);
    assert_eq!(last(None, None), Op::EndPath);
}

#[test]
fn groups_bracket_only_real_transformations() {
    let shift = Transform { a: 1_000_000, b: 0, c: 0, d: 1_000_000, e: points(5), f: 0 };
    let inner = Node::Group {
        transform: shift,
        children: vec![square(None, None, Transform::identity())],
    };
    let root = Node::Group { transform: Transform::identity(), children: vec![inner] };
    let (content, _) = render_svg_to_content(&tree(root));
    let ops = content.finish();
    assert_eq!(ops[0], Op::SaveState);
    assert_eq!(ops[1], Op::Transform(1_000_000, 0, 0, 1_000_000, points(5), 0));
    assert_eq!(ops[ops.len() - 1], Op::RestoreState);
    assert_eq!(ops.iter().filter(|op| **op == Op::SaveState).count(), 1);
}

#[test]
fn unsupported_features_are_listed_and_passed_over() {
    let gradient = Stroke { paint: Paint::RadialGradient, width: points(1) };
    let root = Node::Group {
        transform: Transform::identity(),
        children: vec![
            Node::Image,
            square(Some(Paint::Pattern), Some(gradient), Transform::identity()),
            Node::Text,
        ],
    };
    let form = write_svg_form(9, &tree(root), true);
    assert!(form.compress);
    assert!(!write_svg_form(9, &tree(Node::Text), false).compress);
    assert_eq!(form.form_ref, 9);
    assert_eq!((form.width, form.height), (points(20), points(20)));
    assert_eq!(
        form.skipped,
        vec![
            Unsupported::EmbeddedImage,
            Unsupported::PatternFill,
            Unsupported::RadialGradientStroke,
            Unsupported::Text,
        ]
    );
    // The path is still traced, with its line width, and painted.
    assert_eq!(form.ops[form.ops.len() - 2], Op::SetLineWidth(points(1)));
    assert_eq!(form.ops[form.ops.len() - 1], Op::FillNonzeroAndStroke);
    assert_eq!(
        Unsupported::Text.warning(),
        "rupdf warning: SVG feature not supported: text element in SVG (convert text to paths for best results)"
    );
}
