//! Drawing programs: the operators of a page or form, in order.
use crate::measure::Micro;
use vstd::prelude::*;

verus! {

/// One drawing operator. Coordinates have their origin at the bottom left;
/// lengths and matrix entries are in millionths, colour channels 0 to 255.
#[derive(Debug, Clone, PartialEq, Eq)]
pub enum Op {
    SaveState,
    RestoreState,
    /// Selects the named graphics state.
    SetParameters(String),
    SetFillRgb(u8, u8, u8),
    SetStrokeRgb(u8, u8, u8),
    SetLineWidth(Micro),
    /// A rectangle path: x, y, width, height.
    Rect(Micro, Micro, Micro, Micro),
    MoveTo(Micro, Micro),
    LineTo(Micro, Micro),
    /// A cubic curve: two control points, then the end point.
    CubicTo(Micro, Micro, Micro, Micro, Micro, Micro),
    ClosePath,
    FillNonzero,
    Stroke,
    FillNonzeroAndStroke,
    EndPath,
    ClipNonzero,
    BeginText,
    EndText,
    /// Selects the named font at a size.
    SetFont(String, Micro),
    /// Moves to the next line, offset from the start of the current one.
    NextLine(Micro, Micro),
    /// Shows glyphs, two bytes each.
    Show(Vec<u8>),
    /// Multiplies the transformation matrix by `[a b c d e f]`.
    Transform(Micro, Micro, Micro, Micro, Micro, Micro),
    /// Paints the named image or form.
    XObject(String),
}

/// An operator as a mathematical value.
pub enum OpModel {
    SaveState,
    RestoreState,
    SetParameters(Seq<char>),
    SetFillRgb(u8, u8, u8),
    SetStrokeRgb(u8, u8, u8),
    SetLineWidth(int),
    Rect(int, int, int, int),
    MoveTo(int, int),
    LineTo(int, int),
    CubicTo(int, int, int, int, int, int),
    ClosePath,
    FillNonzero,
    Stroke,
    FillNonzeroAndStroke,
    EndPath,
    ClipNonzero,
    BeginText,
    EndText,
    SetFont(Seq<char>, int),
    NextLine(int, int),
    Show(Seq<u8>),
    Transform(int, int, int, int, int, int),
    XObject(Seq<char>),
}

impl View for Op {
    type V = OpModel;

    open spec fn view(&self) -> OpModel {
        match *self {
            Op::SaveState => OpModel::SaveState,
            Op::RestoreState => OpModel::RestoreState,
            Op::SetParameters(name) => OpModel::SetParameters(name@),
            Op::SetFillRgb(r, g, b) => OpModel::SetFillRgb(r, g, b),
            Op::SetStrokeRgb(r, g, b) => OpModel::SetStrokeRgb(r, g, b),
            Op::SetLineWidth(w) => OpModel::SetLineWidth(w as int),
            Op::Rect(x, y, w, h) => OpModel::Rect(x as int, y as int, w as int, h as int),
            Op::MoveTo(x, y) => OpModel::MoveTo(x as int, y as int),
            Op::LineTo(x, y) => OpModel::LineTo(x as int, y as int),
            Op::CubicTo(x1, y1, x2, y2, x3, y3) => OpModel::CubicTo(
                x1 as int,
                y1 as int,
                x2 as int,
                y2 as int,
                x3 as int,
                y3 as int,
            ),
            Op::ClosePath => OpModel::ClosePath,
            Op::FillNonzero => OpModel::FillNonzero,
            Op::Stroke => OpModel::Stroke,
            Op::FillNonzeroAndStroke => OpModel::FillNonzeroAndStroke,
            Op::EndPath => OpModel::EndPath,
            Op::ClipNonzero => OpModel::ClipNonzero,
            Op::BeginText => OpModel::BeginText,
            Op::EndText => OpModel::EndText,
            Op::SetFont(name, size) => OpModel::SetFont(name@, size as int),
            Op::NextLine(x, y) => OpModel::NextLine(x as int, y as int),
            Op::Show(bytes) => OpModel::Show(bytes@),
            Op::Transform(a, b, c, d, e, f) => OpModel::Transform(
                a as int,
                b as int,
                c as int,
                d as int,
                e as int,
                f as int,
            ),
            Op::XObject(name) => OpModel::XObject(name@),
        }
    }
}

/// The operators of a program as mathematical values.
pub open spec fn ops_view(ops: Seq<Op>) -> Seq<OpModel> {
    Seq::new(ops.len(), |i: int| ops[i]@)
}

/// A drawing program under construction.
#[derive(Debug)]
pub struct Content {
    pub ops: Vec<Op>,
}

impl View for Content {
    type V = Seq<OpModel>;

    open spec fn view(&self) -> Seq<OpModel> {
        ops_view(self.ops@)
    }
}

impl Content {
    /// An empty program.
    pub fn new() -> (c: Content)
        ensures
            c@ == Seq::<OpModel>::empty(),
    {
        let c = Content { ops: Vec::new() };
        assert(c@ =~= Seq::<OpModel>::empty());
        c
    }

    /// Appends one operator.
    pub fn push(&mut self, op: Op)
        ensures
            final(self)@ == old(self)@.push(op@),
    {
        self.ops.push(op);
        assert(self@ =~= old(self)@.push(op@));
    }

    /// The operators written so far.
    pub fn finish(self) -> (ops: Vec<Op>)
        ensures
            ops == self.ops,
    {
        self.ops
    }
}

} // verus!
