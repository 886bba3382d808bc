//! The box around a piece's geometry, and the geometry moved so that the
//! box is centred on the origin.
//!
//! The box is taken around every point that the shapes name: starts, ends
//! and the control points of curves. It is no smaller than the curves
//! themselves and may be larger.

use vstd::prelude::*;
use crate::fixed::{saturate_i32, saturate_to_i32};
use crate::geometry::{
    outline_views,
    shape_views,
    Outline,
    OutlineView,
    PathShape,
    PathShapeView,
    Point,
    SegmentBezier,
    SegmentLine,
};

verus! {

/// The points of a run of straight segments: their ends.
pub open spec fn line_points(segments: Seq<SegmentLine>) -> Seq<Point> {
    segments.map_values(|s: SegmentLine| s.end)
}

/// The points of a run of curves: for each its two control points and
/// its end.
pub open spec fn curve_points(segments: Seq<SegmentBezier>) -> Seq<Point>
    decreases segments.len(),
{
    if segments.len() == 0 {
        Seq::empty()
    } else {
        curve_points(segments.drop_last()) + seq![
            segments.last().control1,
            segments.last().control2,
            segments.last().end,
        ]
    }
}

/// The points of an outline.
pub open spec fn outline_points(outline: OutlineView) -> Seq<Point> {
    match outline {
        OutlineView::Line(segments) => line_points(segments),
        OutlineView::Bezier(segments) => curve_points(segments),
    }
}

/// The points of a run of outlines, one outline after another.
pub open spec fn outlines_points(outlines: Seq<OutlineView>) -> Seq<Point>
    decreases outlines.len(),
{
    if outlines.len() == 0 {
        Seq::empty()
    } else {
        outlines_points(outlines.drop_last()) + outline_points(outlines.last())
    }
}

/// The points of a shape: its start, then the points of its outlines.
pub open spec fn shape_points(shape: PathShapeView) -> Seq<Point> {
    seq![shape.start] + outlines_points(shape.outlines)
}

/// The points of a run of shapes, one shape after another.
pub open spec fn shapes_points(shapes: Seq<PathShapeView>) -> Seq<Point>
    decreases shapes.len(),
{
    if shapes.len() == 0 {
        Seq::empty()
    } else {
        shapes_points(shapes.drop_last()) + shape_points(shapes.last())
    }
}

/// A box with sides along the axes, its edges included.
#[derive(Clone, Copy, Debug, PartialEq, Eq, Structural)]
pub struct Bounds {
    pub min_x: i32,
    pub min_y: i32,
    pub max_x: i32,
    pub max_y: i32,
}

/// The whole number halfway between `a` and `b`; where that is no whole
/// number, the one next to it on the side of zero.
pub open spec fn midpoint(a: int, b: int) -> int {
    if a + b >= 0 {
        (a + b) / 2
    } else {
        -((-(a + b)) / 2)
    }
}

impl Bounds {
    /// Whether `p` lies in the box.
    pub open spec fn encloses(self, p: Point) -> bool {
        &&& self.min_x <= p.x <= self.max_x
        &&& self.min_y <= p.y <= self.max_y
    }

    /// Whether the box is the smallest that holds every one of `points`:
    /// it holds them all, and on each of its four edges lies one of them.
    pub open spec fn tight_around(self, points: Seq<Point>) -> bool {
        &&& forall|i: int| 0 <= i < points.len() ==> self.encloses(#[trigger] points[i])
        &&& exists|i: int| 0 <= i < points.len() && (#[trigger] points[i]).x == self.min_x
        &&& exists|i: int| 0 <= i < points.len() && (#[trigger] points[i]).x == self.max_x
        &&& exists|i: int| 0 <= i < points.len() && (#[trigger] points[i]).y == self.min_y
        &&& exists|i: int| 0 <= i < points.len() && (#[trigger] points[i]).y == self.max_y
    }

    /// The extent of the box along x; zero for a box that holds nothing.
    pub open spec fn spec_width(self) -> int {
        if self.max_x >= self.min_x {
            self.max_x - self.min_x
        } else {
            0
        }
    }

    /// The extent of the box along y; zero for a box that holds nothing.
    pub open spec fn spec_height(self) -> int {
        if self.max_y >= self.min_y {
            self.max_y - self.min_y
        } else {
            0
        }
    }

    /// The middle of the box.
    pub open spec fn spec_center(self) -> Point {
        Point {
            x: midpoint(self.min_x as int, self.max_x as int) as i32,
            y: midpoint(self.min_y as int, self.max_y as int) as i32,
        }
    }

    /// The extent of the box along x.
    pub fn width(&self) -> (r: u32)
        ensures
            r == self.spec_width(),
    {
        if self.max_x >= self.min_x {
            (self.max_x as i64 - self.min_x as i64) as u32
        } else {
            0
        }
    }

    /// The extent of the box along y.
    pub fn height(&self) -> (r: u32)
        ensures
            r == self.spec_height(),
    {
        if self.max_y >= self.min_y {
            (self.max_y as i64 - self.min_y as i64) as u32
        } else {
            0
        }
    }

    /// The middle of the box.
    pub fn center(&self) -> (r: Point)
        ensures
            r == self.spec_center(),
    {
        Point { x: halfway(self.min_x, self.max_x), y: halfway(self.min_y, self.max_y) }
    }
}

/// The whole number halfway between `a` and `b`.
pub fn halfway(a: i32, b: i32) -> (r: i32)
    ensures
        r == midpoint(a as int, b as int),
{
    let sum: i64 = a as i64 + b as i64;
    if sum >= 0 {
        (sum / 2) as i32
    } else {
        (-((-sum) / 2)) as i32
    }
}

/// Appends the points of a run of straight segments.
fn push_line_points(segments: &Vec<SegmentLine>, out: &mut Vec<Point>)
    ensures
        final(out)@ == old(out)@ + line_points(segments@),
{
    let mut i: usize = 0;
    assert(out@ =~= old(out)@ + line_points(segments@.take(0)));
    while i < segments.len()
        invariant
            i <= segments@.len(),
            out@ == old(out)@ + line_points(segments@.take(i as int)),
        decreases segments@.len() - i,
    {
        out.push(segments[i].end);
        assert(line_points(segments@.take(i + 1)) =~= line_points(segments@.take(i as int)).push(
            segments@[i as int].end,
        ));
        assert(out@ =~= old(out)@ + line_points(segments@.take(i + 1)));
        i = i + 1;
    }
    assert(segments@.take(i as int) =~= segments@);
}

/// Appends the points of a run of curves.
fn push_curve_points(segments: &Vec<SegmentBezier>, out: &mut Vec<Point>)
    ensures
        final(out)@ == old(out)@ + curve_points(segments@),
{
    let mut i: usize = 0;
    assert(out@ =~= old(out)@ + curve_points(segments@.take(0)));
    while i < segments.len()
        invariant
            i <= segments@.len(),
            out@ == old(out)@ + curve_points(segments@.take(i as int)),
        decreases segments@.len() - i,
    {
        let ghost before = out@;
        out.push(segments[i].control1);
        out.push(segments[i].control2);
        out.push(segments[i].end);
        proof {
            let upto = segments@.take(i + 1);
            assert(upto.drop_last() =~= segments@.take(i as int));
            assert(upto.last() == segments@[i as int]);
            assert(out@ =~= before + seq![upto.last().control1, upto.last().control2, upto.last().end]);
            assert(out@ =~= old(out)@ + curve_points(upto));
        }
        i = i + 1;
    }
    assert(segments@.take(i as int) =~= segments@);
}

/// Appends the points of an outline.
fn push_outline_points(outline: &Outline, out: &mut Vec<Point>)
    ensures
        final(out)@ == old(out)@ + outline_points(outline@),
{
    match outline {
        Outline::Line(segments) => push_line_points(segments, out),
        Outline::Bezier(segments) => push_curve_points(segments, out),
    }
}

/// Appends the points of a shape.
fn push_shape_points(shape: &PathShape, out: &mut Vec<Point>)
    ensures
        final(out)@ == old(out)@ + shape_points(shape@),
{
    out.push(shape.start);
    let ghost outlines = outline_views(shape.outlines@);
    let mut i: usize = 0;
    assert(out@ =~= old(out)@ + (seq![shape.start] + outlines_points(outlines.take(0))));
    while i < shape.outlines.len()
        invariant
            i <= shape.outlines@.len(),
            outlines == outline_views(shape.outlines@),
            out@ == old(out)@ + (seq![shape.start] + outlines_points(outlines.take(i as int))),
        decreases shape.outlines@.len() - i,
    {
        let ghost before = out@;
        push_outline_points(&shape.outlines[i], out);
        proof {
            let upto = outlines.take(i + 1);
            assert(upto.drop_last() =~= outlines.take(i as int));
            assert(upto.last() == shape.outlines@[i as int]@);
            assert(out@ =~= old(out)@ + (seq![shape.start] + outlines_points(upto)));
        }
        i = i + 1;
    }
    assert(outlines.take(i as int) =~= outlines);
}

/// The points of `shapes`, in their order.
pub fn points_of(shapes: &Vec<PathShape>) -> (r: Vec<Point>)
    ensures
        r@ == shapes_points(shape_views(shapes@)),
{
    let mut out: Vec<Point> = Vec::new();
    let ghost all = shape_views(shapes@);
    let mut i: usize = 0;
    assert(out@ =~= shapes_points(all.take(0)));
    while i < shapes.len()
        invariant
            i <= shapes@.len(),
            all == shape_views(shapes@),
            out@ == shapes_points(all.take(i as int)),
        decreases shapes@.len() - i,
    {
        push_shape_points(&shapes[i], &mut out);
        proof {
            let upto = all.take(i + 1);
            assert(upto.drop_last() =~= all.take(i as int));
            assert(upto.last() == shapes@[i as int]@);
        }
        i = i + 1;
    }
    assert(all.take(i as int) =~= all);
    out
}

/// The smallest box that holds every one of `points`, if there is one.
pub fn bounding_box(points: &Vec<Point>) -> (r: Option<Bounds>)
    ensures
        match r {
            None => points@.len() == 0,
            Some(b) => points@.len() > 0 && b.tight_around(points@),
        },
{
    if points.len() == 0 {
        return None;
    }
    let first = points[0];
    let mut b = Bounds { min_x: first.x, min_y: first.y, max_x: first.x, max_y: first.y };
    let mut i: usize = 1;
    assert(points@.take(1)[0] == first);
    while i < points.len()
        invariant
            1 <= i <= points@.len(),
            b.tight_around(points@.take(i as int)),
        decreases points@.len() - i,
    {
        let p = points[i];
        let ghost seen = points@.take(i as int);
        let ghost more = points@.take(i + 1);
        let ghost was = b;
        if p.x < b.min_x {
            b.min_x = p.x;
        }
        if p.x > b.max_x {
            b.max_x = p.x;
        }
        if p.y < b.min_y {
            b.min_y = p.y;
        }
        if p.y > b.max_y {
            b.max_y = p.y;
        }
        proof {
            assert(more[i as int] == p);
            assert forall|k: int| 0 <= k < more.len() implies b.encloses(#[trigger] more[k]) by {
                if k < i {
                    assert(was.encloses(seen[k]));
                }
            }
            lemma_edge_kept(seen, more, was.min_x, b.min_x, p.x, 0);
            lemma_edge_kept(seen, more, was.max_x, b.max_x, p.x, 0);
            lemma_edge_kept(seen, more, was.min_y, b.min_y, p.y, 1);
            lemma_edge_kept(seen, more, was.max_y, b.max_y, p.y, 1);
        }
        i = i + 1;
    }
    assert(points@.take(i as int) =~= points@);
    Some(b)
}

/// The coordinate of `p` along the axis `axis`: 0 for x, anything else
/// for y.
pub open spec fn along(p: Point, axis: int) -> int {
    if axis == 0 {
        p.x as int
    } else {
        p.y as int
    }
}

/// If one of `seen` lies at `was` along an axis, and `more` is `seen` and
/// one more point that lies at `last`, then one of `more` lies at `now`,
/// where `now` is `was` or `last`.
proof fn lemma_edge_kept(seen: Seq<Point>, more: Seq<Point>, was: i32, now: i32, last: i32, axis: int)
    requires
        more.len() == seen.len() + 1,
        seen =~= more.drop_last(),
        along(more.last(), axis) == last,
        exists|i: int| 0 <= i < seen.len() && along(#[trigger] seen[i], axis) == was,
        now == was || now == last,
    ensures
        exists|i: int| 0 <= i < more.len() && along(#[trigger] more[i], axis) == now,
{
    if now == was {
        let k = choose|i: int| 0 <= i < seen.len() && along(#[trigger] seen[i], axis) == was;
        assert(more[k] == seen[k]);
    } else {
        assert(along(more[more.len() - 1], axis) == now);
    }
}

/// The box around every point of `shapes`, if they have a point.
pub fn bounds_of(shapes: &Vec<PathShape>) -> (r: Option<Bounds>)
    ensures
        match r {
            None => shapes@.len() == 0,
            Some(b) => shapes@.len() > 0 && b.tight_around(shapes_points(shape_views(shapes@))),
        },
{
    let points = points_of(shapes);
    proof {
        lemma_shapes_have_points(shape_views(shapes@));
    }
    bounding_box(&points)
}

/// Shapes have a point exactly if there is a shape.
pub proof fn lemma_shapes_have_points(shapes: Seq<PathShapeView>)
    ensures
        (shapes_points(shapes).len() == 0) == (shapes.len() == 0),
{
}

/// The point `p` as seen from `origin`: each coordinate less that of
/// `origin`, and clamped to the range of a coordinate.
pub open spec fn seen_from(p: Point, origin: Point) -> Point {
    Point { x: saturate_i32(p.x - origin.x) as i32, y: saturate_i32(p.y - origin.y) as i32 }
}

/// A straight segment as seen from `origin`.
pub open spec fn line_seen_from(s: SegmentLine, origin: Point) -> SegmentLine {
    SegmentLine { end: seen_from(s.end, origin) }
}

/// A curve as seen from `origin`.
pub open spec fn curve_seen_from(s: SegmentBezier, origin: Point) -> SegmentBezier {
    SegmentBezier {
        control1: seen_from(s.control1, origin),
        control2: seen_from(s.control2, origin),
        end: seen_from(s.end, origin),
    }
}

/// An outline as seen from `origin`: each of its segments so.
pub open spec fn outline_seen_from(outline: OutlineView, origin: Point) -> OutlineView {
    match outline {
        OutlineView::Line(segments) => OutlineView::Line(
            segments.map_values(|s: SegmentLine| line_seen_from(s, origin)),
        ),
        OutlineView::Bezier(segments) => OutlineView::Bezier(
            segments.map_values(|s: SegmentBezier| curve_seen_from(s, origin)),
        ),
    }
}

/// A shape as seen from `origin`: its start and each of its outlines so.
pub open spec fn shape_seen_from(shape: PathShapeView, origin: Point) -> PathShapeView {
    PathShapeView {
        start: seen_from(shape.start, origin),
        outlines: shape.outlines.map_values(|o: OutlineView| outline_seen_from(o, origin)),
    }
}

/// Shapes as seen from `origin`.
pub open spec fn shapes_seen_from(shapes: Seq<PathShapeView>, origin: Point) -> Seq<PathShapeView> {
    shapes.map_values(|s: PathShapeView| shape_seen_from(s, origin))
}

/// A point in a box, seen from the middle of the box, is not clamped.
pub proof fn lemma_center_never_clips(b: Bounds, p: Point)
    requires
        b.encloses(p),
    ensures
        seen_from(p, b.spec_center()).x == p.x - b.spec_center().x,
        seen_from(p, b.spec_center()).y == p.y - b.spec_center().y,
{
}

/// The point `p` as seen from `origin`.
pub fn recenter_point(p: Point, origin: Point) -> (r: Point)
    ensures
        r == seen_from(p, origin),
{
    Point {
        x: saturate_to_i32(p.x as i128 - origin.x as i128),
        y: saturate_to_i32(p.y as i128 - origin.y as i128),
    }
}

/// The outline as seen from `origin`.
pub fn recenter_outline(outline: &Outline, origin: Point) -> (r: Outline)
    ensures
        r@ == outline_seen_from(outline@, origin),
{
    match outline {
        Outline::Line(segments) => {
            let mut out: Vec<SegmentLine> = Vec::new();
            let mut i: usize = 0;
            while i < segments.len()
                invariant
                    i <= segments@.len(),
                    out@ == segments@.take(i as int).map_values(
                        |s: SegmentLine| line_seen_from(s, origin),
                    ),
                decreases segments@.len() - i,
            {
                out.push(SegmentLine { end: recenter_point(segments[i].end, origin) });
                assert(out@ =~= segments@.take(i + 1).map_values(
                    |s: SegmentLine| line_seen_from(s, origin),
                ));
                i = i + 1;
            }
            assert(segments@.take(i as int) =~= segments@);
            Outline::Line(out)
        },
        Outline::Bezier(segments) => {
            let mut out: Vec<SegmentBezier> = Vec::new();
            let mut i: usize = 0;
            while i < segments.len()
                invariant
                    i <= segments@.len(),
                    out@ == segments@.take(i as int).map_values(
                        |s: SegmentBezier| curve_seen_from(s, origin),
                    ),
                decreases segments@.len() - i,
            {
                let s = segments[i];
                out.push(
                    SegmentBezier {
                        control1: recenter_point(s.control1, origin),
                        control2: recenter_point(s.control2, origin),
                        end: recenter_point(s.end, origin),
                    },
                );
                assert(out@ =~= segments@.take(i + 1).map_values(
                    |s: SegmentBezier| curve_seen_from(s, origin),
                ));
                i = i + 1;
            }
            assert(segments@.take(i as int) =~= segments@);
            Outline::Bezier(out)
        },
    }
}

/// The shape as seen from `origin`.
pub fn recenter_shape(shape: &PathShape, origin: Point) -> (r: PathShape)
    ensures
        r@ == shape_seen_from(shape@, origin),
{
    let mut outlines: Vec<Outline> = Vec::new();
    let ghost views = outline_views(shape.outlines@);
    let mut i: usize = 0;
    while i < shape.outlines.len()
        invariant
            i <= shape.outlines@.len(),
            views == outline_views(shape.outlines@),
            outlines@.len() == i,
            outline_views(outlines@) == views.take(i as int).map_values(
                |o: OutlineView| outline_seen_from(o, origin),
            ),
        decreases shape.outlines@.len() - i,
    {
        let ghost before = outlines@;
        let moved = recenter_outline(&shape.outlines[i], origin);
        outlines.push(moved);
        proof {
            let target = views.take(i + 1).map_values(|o: OutlineView| outline_seen_from(o, origin));
            assert forall|k: int| 0 <= k < target.len() implies outline_views(outlines@)[k]
                == target[k] by {
                if k < i {
                    assert(outlines@[k] == before[k]);
                    assert(outline_views(before)[k] == views.take(i as int).map_values(
                        |o: OutlineView| outline_seen_from(o, origin),
                    )[k]);
                }
            }
            assert(outline_views(outlines@) =~= target);
        }
        i = i + 1;
    }
    assert(views.take(i as int) =~= views);
    PathShape { start: recenter_point(shape.start, origin), outlines }
}

/// The shapes as seen from `origin`.
pub fn recentered(shapes: &Vec<PathShape>, origin: Point) -> (r: Vec<PathShape>)
    ensures
        shape_views(r@) == shapes_seen_from(shape_views(shapes@), origin),
{
    let mut out: Vec<PathShape> = Vec::new();
    let ghost views = shape_views(shapes@);
    let mut i: usize = 0;
    while i < shapes.len()
        invariant
            i <= shapes@.len(),
            views == shape_views(shapes@),
            out@.len() == i,
            shape_views(out@) == shapes_seen_from(views.take(i as int), origin),
        decreases shapes@.len() - i,
    {
        let ghost before = out@;
        let moved = recenter_shape(&shapes[i], origin);
        out.push(moved);
        proof {
            let target = shapes_seen_from(views.take(i + 1), origin);
            assert forall|k: int| 0 <= k < target.len() implies shape_views(out@)[k]
                == target[k] by {
                if k < i {
                    assert(out@[k] == before[k]);
                    assert(shape_views(before)[k] == shapes_seen_from(
                        views.take(i as int),
                        origin,
                    )[k]);
                }
            }
            assert(shape_views(out@) =~= target);
        }
        i = i + 1;
    }
    assert(views.take(i as int) =~= views);
    out
}

} // verus!
