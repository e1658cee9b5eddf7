//! Vector images: a tree of groups and paths, and its drawing program.
//!
//! The tree has its origin at the top left; the program it is converted to
//! has its origin at the bottom left, so every `y` is flipped about the
//! height of the image.
use crate::measure::{in_range, is_in_range, MEASURE_MAX, Micro};
use crate::pdf::content::{ops_view, Content, Op, OpModel};
use vstd::prelude::*;
use vstd::string::StringExecFns;

verus! {

/// An affine transformation `[a b c d e f]`; `a` to `d` are ratios, `e` and
/// `f` lengths.
#[derive(Debug, Clone, Copy, PartialEq, Eq, Structural)]
pub struct Transform {
    pub a: Micro,
    pub b: Micro,
    pub c: Micro,
    pub d: Micro,
    pub e: Micro,
    pub f: Micro,
}

impl Transform {
    /// The transformation that changes nothing.
    pub open spec fn is_identity(self) -> bool {
        self.a == 1_000_000 && self.b == 0 && self.c == 0 && self.d == 1_000_000 && self.e == 0
            && self.f == 0
    }

    /// The transformation that changes nothing.
    pub fn identity() -> (t: Transform)
        ensures
            t.is_identity(),
    {
        Transform { a: 1_000_000, b: 0, c: 0, d: 1_000_000, e: 0, f: 0 }
    }

    fn check_identity(&self) -> (r: bool)
        ensures
            r == self.is_identity(),
    {
        self.a == 1_000_000 && self.b == 0 && self.c == 0 && self.d == 1_000_000 && self.e == 0
            && self.f == 0
    }

    /// The operator that applies the transformation.
    pub open spec fn op(self) -> OpModel {
        OpModel::Transform(
            self.a as int,
            self.b as int,
            self.c as int,
            self.d as int,
            self.e as int,
            self.f as int,
        )
    }
}

/// What an outline is filled or stroked with.
#[derive(Debug, Clone, Copy, PartialEq, Eq, Structural)]
pub enum Paint {
    Color(u8, u8, u8),
    LinearGradient,
    RadialGradient,
    Pattern,
}

/// The stroke of a path.
#[derive(Debug, Clone, Copy, PartialEq, Eq, Structural)]
pub struct Stroke {
    pub paint: Paint,
    pub width: Micro,
}

/// A segment of a path, in absolute coordinates.
#[derive(Debug, Clone, Copy, PartialEq, Eq, Structural)]
pub enum PathSegment {
    MoveTo { x: Micro, y: Micro },
    LineTo { x: Micro, y: Micro },
    CurveTo { x1: Micro, y1: Micro, x2: Micro, y2: Micro, x: Micro, y: Micro },
    ClosePath,
}

impl PathSegment {
    /// All coordinates are representable.
    pub open spec fn wf(self) -> bool {
        match self {
            PathSegment::MoveTo { x, y } => in_range(x as int) && in_range(y as int),
            PathSegment::LineTo { x, y } => in_range(x as int) && in_range(y as int),
            PathSegment::CurveTo { x1, y1, x2, y2, x, y } => in_range(x1 as int) && in_range(
                y1 as int,
            ) && in_range(x2 as int) && in_range(y2 as int) && in_range(x as int) && in_range(
                y as int,
            ),
            PathSegment::ClosePath => true,
        }
    }

    /// The operator of the segment in an image `height` high.
    pub open spec fn op(self, height: int) -> OpModel {
        match self {
            PathSegment::MoveTo { x, y } => OpModel::MoveTo(x as int, height - y),
            PathSegment::LineTo { x, y } => OpModel::LineTo(x as int, height - y),
            PathSegment::CurveTo { x1, y1, x2, y2, x, y } => OpModel::CubicTo(
                x1 as int,
                height - y1,
                x2 as int,
                height - y2,
                x as int,
                height - y,
            ),
            PathSegment::ClosePath => OpModel::ClosePath,
        }
    }
}

/// An outline with its paints.
#[derive(Debug, Clone)]
pub struct Path {
    pub transform: Transform,
    pub segments: Vec<PathSegment>,
    pub fill: Option<Paint>,
    pub stroke: Option<Stroke>,
}

/// A node of the tree.
#[derive(Debug)]
pub enum Node {
    Group { transform: Transform, children: Vec<Node> },
    Path(Path),
    /// An embedded raster image: not drawn.
    Image,
    /// A text element: not drawn.
    Text,
}

/// A parsed vector image with its declared size.
#[derive(Debug)]
pub struct Tree {
    pub root: Node,
    pub width: Micro,
    pub height: Micro,
}

/// A feature of vector images that is passed over.
#[derive(Debug, Clone, Copy, PartialEq, Eq, Structural)]
pub enum Unsupported {
    EmbeddedImage,
    Text,
    LinearGradientFill,
    RadialGradientFill,
    PatternFill,
    LinearGradientStroke,
    RadialGradientStroke,
    PatternStroke,
}

impl Unsupported {
    /// The words that name the feature.
    pub open spec fn feature_spec(self) -> Seq<char> {
        match self {
            Unsupported::EmbeddedImage => "embedded image in SVG"@,
            Unsupported::Text => "text element in SVG (convert text to paths for best results)"@,
            Unsupported::LinearGradientFill => "linear gradient fill"@,
            Unsupported::RadialGradientFill => "radial gradient fill"@,
            Unsupported::PatternFill => "pattern fill"@,
            Unsupported::LinearGradientStroke => "linear gradient stroke"@,
            Unsupported::RadialGradientStroke => "radial gradient stroke"@,
            Unsupported::PatternStroke => "pattern stroke"@,
        }
    }

    /// The words that name the feature.
    pub fn feature(&self) -> (s: &'static str)
        ensures
            s@ == self.feature_spec(),
    {
        match self {
            Unsupported::EmbeddedImage => "embedded image in SVG",
            Unsupported::Text => "text element in SVG (convert text to paths for best results)",
            Unsupported::LinearGradientFill => "linear gradient fill",
            Unsupported::RadialGradientFill => "radial gradient fill",
            Unsupported::PatternFill => "pattern fill",
            Unsupported::LinearGradientStroke => "linear gradient stroke",
            Unsupported::RadialGradientStroke => "radial gradient stroke",
            Unsupported::PatternStroke => "pattern stroke",
        }
    }

    /// The warning to give for the feature.
    pub fn warning(&self) -> (s: String)
        ensures
            s@ == "rupdf warning: SVG feature not supported: "@ + self.feature_spec(),
    {
        let mut s = String::from_str("rupdf warning: SVG feature not supported: ");
        s.append(self.feature());
        s
    }
}

/// What converting a part of a tree gives: operators, and the features
/// that were passed over, in the order met.
pub struct Converted {
    pub ops: Seq<OpModel>,
    pub skipped: Seq<Unsupported>,
}

impl Converted {
    /// Nothing.
    pub open spec fn empty() -> Converted {
        Converted { ops: Seq::empty(), skipped: Seq::empty() }
    }

    /// `self` followed by `other`.
    pub open spec fn followed_by(self, other: Converted) -> Converted {
        Converted { ops: self.ops + other.ops, skipped: self.skipped + other.skipped }
    }

    /// Only operators.
    pub open spec fn of_ops(ops: Seq<OpModel>) -> Converted {
        Converted { ops, skipped: Seq::empty() }
    }

    /// Only a feature passed over.
    pub open spec fn of_skipped(feature: Unsupported) -> Converted {
        Converted { ops: Seq::empty(), skipped: seq![feature] }
    }
}

/// The operators of the segments from `i` on.
pub open spec fn segments_ops(segments: Seq<PathSegment>, height: int, i: int) -> Seq<OpModel>
    decreases segments.len() - i,
{
    if i < 0 || i >= segments.len() {
        Seq::empty()
    } else {
        seq![segments[i].op(height)] + segments_ops(segments, height, i + 1)
    }
}

/// What the fill of a path adds: its colour, or a feature passed over.
pub open spec fn fill_converted(fill: Option<Paint>) -> Converted {
    match fill {
        Some(Paint::Color(r, g, b)) => Converted::of_ops(seq![OpModel::SetFillRgb(r, g, b)]),
        Some(Paint::LinearGradient) => Converted::of_skipped(Unsupported::LinearGradientFill),
        Some(Paint::RadialGradient) => Converted::of_skipped(Unsupported::RadialGradientFill),
        Some(Paint::Pattern) => Converted::of_skipped(Unsupported::PatternFill),
        None => Converted::empty(),
    }
}

/// What the stroke of a path adds: its colour, or a feature passed over,
/// and its width.
pub open spec fn stroke_converted(stroke: Option<Stroke>) -> Converted {
    match stroke {
        Some(s) => (match s.paint {
            Paint::Color(r, g, b) => Converted::of_ops(seq![OpModel::SetStrokeRgb(r, g, b)]),
            Paint::LinearGradient => Converted::of_skipped(Unsupported::LinearGradientStroke),
            Paint::RadialGradient => Converted::of_skipped(Unsupported::RadialGradientStroke),
            Paint::Pattern => Converted::of_skipped(Unsupported::PatternStroke),
        }).followed_by(Converted::of_ops(seq![OpModel::SetLineWidth(s.width as int)])),
        None => Converted::empty(),
    }
}

/// The operator that paints a path: one combined operator for a path with
/// both fill and stroke; a path with neither is ended unpainted.
pub open spec fn paint_op(has_fill: bool, has_stroke: bool) -> OpModel {
    if has_fill && has_stroke {
        OpModel::FillNonzeroAndStroke
    } else if has_fill {
        OpModel::FillNonzero
    } else if has_stroke {
        OpModel::Stroke
    } else {
        OpModel::EndPath
    }
}

/// What opens the bracket of a transformation that is not the identity.
pub open spec fn open_transform(t: Transform) -> Seq<OpModel> {
    if t.is_identity() {
        Seq::empty()
    } else {
        seq![OpModel::SaveState, t.op()]
    }
}

/// What closes that bracket.
pub open spec fn close_transform(t: Transform) -> Seq<OpModel> {
    if t.is_identity() {
        Seq::empty()
    } else {
        seq![OpModel::RestoreState]
    }
}

/// The conversion of a path in an image `height` high.
pub open spec fn path_converted(path: Path, height: int) -> Converted {
    Converted::of_ops(open_transform(path.transform) + segments_ops(path.segments@, height, 0)).followed_by(
        fill_converted(path.fill),
    ).followed_by(stroke_converted(path.stroke)).followed_by(
        Converted::of_ops(
            seq![paint_op(path.fill is Some, path.stroke is Some)] + close_transform(
                path.transform,
            ),
        ),
    )
}

/// The conversion of a node.
pub open spec fn node_converted(node: Node, height: int) -> Converted
    decreases node, 1nat, 0nat,
{
    match node {
        Node::Path(path) => path_converted(path, height),
        Node::Group { transform, children } => Converted::of_ops(open_transform(transform)).followed_by(
            children_converted(node, height, 0),
        ).followed_by(Converted::of_ops(close_transform(transform))),
        Node::Image => Converted::of_skipped(Unsupported::EmbeddedImage),
        Node::Text => Converted::of_skipped(Unsupported::Text),
    }
}

/// The conversion of the children of a group from `i` on.
pub open spec fn children_converted(group: Node, height: int, i: int) -> Converted
    decreases group, 0nat, group->children@.len() - i,
{
    match group {
        Node::Group { transform, children } => if i < 0 || i >= children@.len() {
            Converted::empty()
        } else {
            node_converted(children@[i], height).followed_by(children_converted(group, height, i + 1))
        },
        _ => Converted::empty(),
    }
}

impl PathSegment {
    /// Whether all coordinates are representable.
    pub fn is_wf(&self) -> (r: bool)
        ensures
            r == self.wf(),
    {
        match *self {
            PathSegment::MoveTo { x, y } => is_in_range(x) && is_in_range(y),
            PathSegment::LineTo { x, y } => is_in_range(x) && is_in_range(y),
            PathSegment::CurveTo { x1, y1, x2, y2, x, y } => is_in_range(x1) && is_in_range(y1)
                && is_in_range(x2) && is_in_range(y2) && is_in_range(x) && is_in_range(y),
            PathSegment::ClosePath => true,
        }
    }
}

impl Path {
    /// All coordinates are representable.
    pub open spec fn wf(&self) -> bool {
        forall|i: int| 0 <= i < self.segments@.len() ==> (#[trigger] self.segments@[i]).wf()
    }

    /// Whether all coordinates are representable.
    pub fn is_wf(&self) -> (r: bool)
        ensures
            r == self.wf(),
    {
        let mut i: usize = 0;
        while i < self.segments.len()
            invariant
                i <= self.segments.len(),
                forall|j: int| 0 <= j < i ==> (#[trigger] self.segments@[j]).wf(),
            decreases self.segments.len() - i,
        {
            if !self.segments[i].is_wf() {
                return false;
            }
            i += 1;
        }
        true
    }
}

impl Node {
    /// All coordinates in the node and below it are representable.
    pub open spec fn wf(&self) -> bool
        decreases self,
    {
        match self {
            Node::Path(path) => path.wf(),
            Node::Group { transform, children } => forall|i: int|
                0 <= i < children@.len() ==> (#[trigger] children@[i]).wf(),
            Node::Image => true,
            Node::Text => true,
        }
    }
}

impl Node {
    /// Whether all coordinates in the node and below it are representable.
    pub fn is_wf(&self) -> (r: bool)
        ensures
            r == self.wf(),
        decreases self,
    {
        match self {
            Node::Path(path) => path.is_wf(),
            Node::Group { transform, children } => {
                let mut i: usize = 0;
                while i < children.len()
                    invariant
                        i <= children.len(),
                        *self matches Node::Group { transform: t, children: c } && c == children,
                        forall|j: int| 0 <= j < i ==> (#[trigger] children@[j]).wf(),
                    decreases children.len() - i,
                {
                    if !children[i].is_wf() {
                        return false;
                    }
                    i += 1;
                }
                true
            },
            Node::Image => true,
            Node::Text => true,
        }
    }
}

impl Tree {
    /// The image has a positive, representable size, and representable
    /// coordinates throughout.
    pub open spec fn wf(&self) -> bool {
        &&& 0 < self.width <= MEASURE_MAX
        &&& 0 < self.height <= MEASURE_MAX
        &&& self.root.wf()
    }

    /// Whether the tree is well formed.
    pub fn is_wf(&self) -> (r: bool)
        ensures
            r == self.wf(),
    {
        0 < self.width && self.width <= MEASURE_MAX && 0 < self.height
            && self.height <= MEASURE_MAX && self.root.is_wf()
    }
}

/// Opens the bracket of a transformation that is not the identity.
fn apply_transform(transform: &Transform, content: &mut Content) -> (applied: bool)
    ensures
        applied == !transform.is_identity(),
        final(content)@ == old(content)@ + open_transform(*transform),
{
    if transform.check_identity() {
        assert(content@ =~= old(content)@ + open_transform(*transform));
        false
    } else {
        content.push(Op::SaveState);
        content.push(
            Op::Transform(
                transform.a,
                transform.b,
                transform.c,
                transform.d,
                transform.e,
                transform.f,
            ),
        );
        assert(content@ =~= old(content)@ + open_transform(*transform));
        true
    }
}

/// Appends the operators of the segments of a path.
fn render_segments(segments: &Vec<PathSegment>, content: &mut Content, svg_height: Micro)
    requires
        in_range(svg_height as int),
        forall|i: int| 0 <= i < segments@.len() ==> (#[trigger] segments@[i]).wf(),
    ensures
        final(content)@ == old(content)@ + segments_ops(segments@, svg_height as int, 0),
{
    let ghost all = segments_ops(segments@, svg_height as int, 0);
    let ghost mut done: Seq<OpModel> = Seq::empty();
    let mut i: usize = 0;
    assert(content@ =~= old(content)@ + done);
    while i < segments.len()
        invariant
            i <= segments.len(),
            in_range(svg_height as int),
            forall|j: int| 0 <= j < segments@.len() ==> (#[trigger] segments@[j]).wf(),
            content@ == old(content)@ + done,
            all == done + segments_ops(segments@, svg_height as int, i as int),
        decreases segments.len() - i,
    {
        let segment = segments[i];
        assert(segments@[i as int].wf());
        let ghost step = seq![segment.op(svg_height as int)];
        match segment {
            PathSegment::MoveTo { x, y } => {
                content.push(Op::MoveTo(x, svg_height - y));
            },
            PathSegment::LineTo { x, y } => {
                content.push(Op::LineTo(x, svg_height - y));
            },
            PathSegment::CurveTo { x1, y1, x2, y2, x, y } => {
                content.push(
                    Op::CubicTo(x1, svg_height - y1, x2, svg_height - y2, x, svg_height - y),
                );
            },
            PathSegment::ClosePath => {
                content.push(Op::ClosePath);
            },
        }
        proof {
            assert(content@ =~= old(content)@ + (done + step));
            assert(done + (step + segments_ops(segments@, svg_height as int, i + 1)) =~= (done
                + step) + segments_ops(segments@, svg_height as int, i + 1));
            done = done + step;
        }
        i += 1;
    }
    assert(done + Seq::<OpModel>::empty() =~= done);
}

/// Sets the fill colour, or lists the paint as passed over.
fn render_fill(fill: Option<Paint>, content: &mut Content, skipped: &mut Vec<Unsupported>)
    ensures
        final(content)@ == old(content)@ + fill_converted(fill).ops,
        final(skipped)@ == old(skipped)@ + fill_converted(fill).skipped,
{
    match fill {
        Some(Paint::Color(r, g, b)) => {
            content.push(Op::SetFillRgb(r, g, b));
        },
        Some(Paint::LinearGradient) => {
            skipped.push(Unsupported::LinearGradientFill);
        },
        Some(Paint::RadialGradient) => {
            skipped.push(Unsupported::RadialGradientFill);
        },
        Some(Paint::Pattern) => {
            skipped.push(Unsupported::PatternFill);
        },
        None => {},
    }
    assert(content@ =~= old(content)@ + fill_converted(fill).ops);
    assert(skipped@ =~= old(skipped)@ + fill_converted(fill).skipped);
}

/// Sets the stroke colour, or lists the paint as passed over, and sets
/// the line width.
fn render_stroke(stroke: Option<Stroke>, content: &mut Content, skipped: &mut Vec<Unsupported>)
    ensures
        final(content)@ == old(content)@ + stroke_converted(stroke).ops,
        final(skipped)@ == old(skipped)@ + stroke_converted(stroke).skipped,
{
    match stroke {
        Some(stroke) => {
            match stroke.paint {
                Paint::Color(r, g, b) => {
                    content.push(Op::SetStrokeRgb(r, g, b));
                },
                Paint::LinearGradient => {
                    skipped.push(Unsupported::LinearGradientStroke);
                },
                Paint::RadialGradient => {
                    skipped.push(Unsupported::RadialGradientStroke);
                },
                Paint::Pattern => {
                    skipped.push(Unsupported::PatternStroke);
                },
            }
            content.push(Op::SetLineWidth(stroke.width));
        },
        None => {},
    }
    assert(content@ =~= old(content)@ + stroke_converted(stroke).ops);
    assert(skipped@ =~= old(skipped)@ + stroke_converted(stroke).skipped);
}

/// Paints the path and closes the bracket of its transformation.
fn render_paint(has_fill: bool, has_stroke: bool, transform: &Transform, content: &mut Content)
    ensures
        final(content)@ == old(content)@ + (seq![paint_op(has_fill, has_stroke)] + close_transform(
            *transform,
        )),
{
    if has_fill && has_stroke {
        content.push(Op::FillNonzeroAndStroke);
    } else if has_fill {
        content.push(Op::FillNonzero);
    } else if has_stroke {
        content.push(Op::Stroke);
    } else {
        content.push(Op::EndPath);
    }
    if !transform.check_identity() {
        content.push(Op::RestoreState);
    }
    assert(content@ =~= old(content)@ + (seq![paint_op(has_fill, has_stroke)] + close_transform(
        *transform,
    )));
}

/// Appends the conversion of a path.
fn render_path(
    path: &Path,
    content: &mut Content,
    skipped: &mut Vec<Unsupported>,
    svg_height: Micro,
)
    requires
        in_range(svg_height as int),
        path.wf(),
    ensures
        final(content)@ == old(content)@ + path_converted(*path, svg_height as int).ops,
        final(skipped)@ == old(skipped)@ + path_converted(*path, svg_height as int).skipped,
{
    apply_transform(&path.transform, content);
    render_segments(&path.segments, content, svg_height);
    render_fill(path.fill, content, skipped);
    render_stroke(path.stroke, content, skipped);
    render_paint(path.fill.is_some(), path.stroke.is_some(), &path.transform, content);
    proof {
        let a = open_transform(path.transform) + segments_ops(path.segments@, svg_height as int, 0);
        let b = fill_converted(path.fill);
        let c = stroke_converted(path.stroke);
        let d = seq![paint_op(path.fill is Some, path.stroke is Some)] + close_transform(
            path.transform,
        );
        assert(content@ =~= old(content)@ + (a + b.ops + c.ops + d));
        assert(skipped@ =~= old(skipped)@ + (Seq::<Unsupported>::empty() + b.skipped + c.skipped
            + Seq::<Unsupported>::empty()));
    }
}

/// Appends the conversion of a node and of all below it. A group brackets
/// its children only if its transformation is not the identity; images and
/// text are passed over.
pub fn render_node(
    node: &Node,
    content: &mut Content,
    skipped: &mut Vec<Unsupported>,
    svg_height: Micro,
)
    requires
        in_range(svg_height as int),
        node.wf(),
    ensures
        final(content)@ == old(content)@ + node_converted(*node, svg_height as int).ops,
        final(skipped)@ == old(skipped)@ + node_converted(*node, svg_height as int).skipped,
    decreases node,
{
    match node {
        Node::Path(path) => {
            render_path(path, content, skipped, svg_height);
        },
        Node::Group { transform, children } => {
            let has_transform = apply_transform(transform, content);
            let ghost c0 = content@;
            let ghost s0 = skipped@;
            let ghost all = children_converted(*node, svg_height as int, 0);
            let ghost mut done = Converted::empty();
            let mut i: usize = 0;
            assert(content@ =~= c0 + done.ops);
            assert(skipped@ =~= s0 + done.skipped);
            assert(all.ops =~= done.ops + all.ops);
            assert(all.skipped =~= done.skipped + all.skipped);
            while i < children.len()
                invariant
                    i <= children.len(),
                    in_range(svg_height as int),
                    node.wf(),
                    *node matches Node::Group { transform: t, children: c } && c == children,
                    content@ == c0 + done.ops,
                    skipped@ == s0 + done.skipped,
                    all.ops == done.ops + children_converted(
                        *node,
                        svg_height as int,
                        i as int,
                    ).ops,
                    all.skipped == done.skipped + children_converted(
                        *node,
                        svg_height as int,
                        i as int,
                    ).skipped,
                decreases children.len() - i,
            {
                let child = &children[i];
                assert(children@[i as int].wf());
                render_node(child, content, skipped, svg_height);
                proof {
                    let here = node_converted(*child, svg_height as int);
                    let rest = children_converted(*node, svg_height as int, i + 1);
                    assert(content@ =~= c0 + (done.ops + here.ops));
                    assert(skipped@ =~= s0 + (done.skipped + here.skipped));
                    assert(done.ops + (here.ops + rest.ops) =~= (done.ops + here.ops) + rest.ops);
                    assert(done.skipped + (here.skipped + rest.skipped) =~= (done.skipped
                        + here.skipped) + rest.skipped);
                    done = done.followed_by(here);
                }
                i += 1;
            }
            if has_transform {
                content.push(Op::RestoreState);
            }
            assert(content@ =~= old(content)@ + node_converted(*node, svg_height as int).ops);
            assert(skipped@ =~= old(skipped)@ + node_converted(*node, svg_height as int).skipped);
        },
        Node::Image => {
            skipped.push(Unsupported::EmbeddedImage);
            assert(content@ =~= old(content)@ + node_converted(*node, svg_height as int).ops);
            assert(skipped@ =~= old(skipped)@ + node_converted(*node, svg_height as int).skipped);
        },
        Node::Text => {
            skipped.push(Unsupported::Text);
            assert(content@ =~= old(content)@ + node_converted(*node, svg_height as int).ops);
            assert(skipped@ =~= old(skipped)@ + node_converted(*node, svg_height as int).skipped);
        },
    }
}

/// A form: a reusable drawing program in its own coordinate space, with
/// the lower left corner of its bounding box at the origin.
#[derive(Debug)]
pub struct FormObject {
    pub form_ref: i32,
    /// The drawing program.
    pub ops: Vec<Op>,
    /// Whether the program is stored as a zlib stream.
    pub compress: bool,
    /// The upper right corner of the bounding box.
    pub width: Micro,
    pub height: Micro,
    /// The features of the image that were passed over.
    pub skipped: Vec<Unsupported>,
}

/// The program of a whole tree.
pub fn render_svg_to_content(tree: &Tree) -> (r: (Content, Vec<Unsupported>))
    requires
        tree.wf(),
    ensures
        r.0@ == node_converted(tree.root, tree.height as int).ops,
        r.1@ == node_converted(tree.root, tree.height as int).skipped,
{
    let mut content = Content::new();
    let mut skipped: Vec<Unsupported> = Vec::new();
    render_node(&tree.root, &mut content, &mut skipped, tree.height);
    assert(content@ =~= node_converted(tree.root, tree.height as int).ops);
    assert(skipped@ =~= node_converted(tree.root, tree.height as int).skipped);
    (content, skipped)
}

/// Converts a tree into a form under the identifier `form_ref`, stored
/// as the compression flag says. Features that cannot be drawn are passed
/// over and listed; the conversion never fails.
pub fn write_svg_form(form_ref: i32, tree: &Tree, compress: bool) -> (form: FormObject)
    requires
        tree.wf(),
    ensures
        form.form_ref == form_ref,
        form.compress == compress,
        form.width == tree.width,
        form.height == tree.height,
        ops_view(form.ops@) == node_converted(
            tree.root,
            tree.height as int,
        ).ops,
        form.skipped@ == node_converted(tree.root, tree.height as int).skipped,
{
    let (content, skipped) = render_svg_to_content(tree);
    FormObject {
        form_ref,
        ops: content.finish(),
        compress,
        width: tree.width,
        height: tree.height,
        skipped,
    }
}

} // verus!
