//! The shapes a cutting machine follows: points, segments, outlines.
//!
//! Every coordinate is a whole number of hundredths of a millimetre.

use vstd::prelude::*;

verus! {

/// A position in hundredths of a millimetre.
#[derive(Clone, Copy, Debug, PartialEq, Eq, Structural)]
pub struct Point {
    pub x: i32,
    pub y: i32,
}

/// A straight segment from wherever the outline stands to `end`.
#[derive(Clone, Copy, Debug, PartialEq, Eq, Structural)]
pub struct SegmentLine {
    pub end: Point,
}

/// A cubic curve from wherever the outline stands to `end`.
#[derive(Clone, Copy, Debug, PartialEq, Eq, Structural)]
pub struct SegmentBezier {
    pub control1: Point,
    pub control2: Point,
    pub end: Point,
}

/// The body of one subpath: straight segments only, or curves only.
#[derive(Clone, Debug, PartialEq, Eq)]
pub enum Outline {
    Line(Vec<SegmentLine>),
    Bezier(Vec<SegmentBezier>),
}

/// What an [`Outline`] holds.
pub enum OutlineView {
    Line(Seq<SegmentLine>),
    Bezier(Seq<SegmentBezier>),
}

impl View for Outline {
    type V = OutlineView;

    open spec fn view(&self) -> OutlineView {
        match self {
            Outline::Line(segments) => OutlineView::Line(segments@),
            Outline::Bezier(segments) => OutlineView::Bezier(segments@),
        }
    }
}

impl OutlineView {
    /// The number of segments.
    pub open spec fn len(self) -> nat {
        match self {
            OutlineView::Line(segments) => segments.len(),
            OutlineView::Bezier(segments) => segments.len(),
        }
    }
}

/// The views of a run of outlines.
pub open spec fn outline_views(outlines: Seq<Outline>) -> Seq<OutlineView> {
    outlines.map_values(|o: Outline| o@)
}

/// A start point and the outlines that continue from it.
#[derive(Clone, Debug, PartialEq, Eq)]
pub struct PathShape {
    pub start: Point,
    pub outlines: Vec<Outline>,
}

/// What a [`PathShape`] holds.
pub struct PathShapeView {
    pub start: Point,
    pub outlines: Seq<OutlineView>,
}

impl View for PathShape {
    type V = PathShapeView;

    open spec fn view(&self) -> PathShapeView {
        PathShapeView { start: self.start, outlines: outline_views(self.outlines@) }
    }
}

/// The views of a run of shapes.
pub open spec fn shape_views(shapes: Seq<PathShape>) -> Seq<PathShapeView> {
    shapes.map_values(|s: PathShape| s@)
}

} // verus!
