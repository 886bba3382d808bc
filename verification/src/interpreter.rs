//! Carrying out path commands: the pen, the open subpath, and the subpaths
//! that are done.
//!
//! The curves of an elliptical arc need trigonometry and are worked out
//! outside this crate. A session therefore notes each arc that needs
//! curves as an [`ArcRequest`], and takes the curves for the arcs, in the
//! order of the requests, as an argument. Where an arc ends, and so every
//! later request, does not depend on its curves.

use vstd::prelude::*;
use crate::command::PathCommand;
use crate::fixed::Fixed;

verus! {

/// One piece of a subpath, in artwork units.
#[derive(Clone, Copy, Debug, PartialEq, Eq, Structural)]
pub enum Segment {
    Line { x: Fixed, y: Fixed },
    Cubic { c1x: Fixed, c1y: Fixed, c2x: Fixed, c2y: Fixed, x: Fixed, y: Fixed },
}

/// An elliptical arc from `(x1, y1)` to `(x2, y2)` that is neither empty
/// nor a straight line, in artwork units and degrees.
#[derive(Clone, Copy, Debug, PartialEq, Eq, Structural)]
pub struct ArcRequest {
    pub x1: Fixed,
    pub y1: Fixed,
    pub rx: Fixed,
    pub ry: Fixed,
    pub x_rotation: Fixed,
    pub large_arc: bool,
    pub sweep: bool,
    pub x2: Fixed,
    pub y2: Fixed,
}

/// A subpath that is done, in artwork units.
#[derive(Clone, Debug, PartialEq, Eq)]
pub struct RawSubpath {
    pub start_x: Fixed,
    pub start_y: Fixed,
    pub segments: Vec<Segment>,
    pub closed: bool,
}

/// What a [`RawSubpath`] holds.
pub struct RawSubpathView {
    pub start_x: Fixed,
    pub start_y: Fixed,
    pub segments: Seq<Segment>,
    pub closed: bool,
}

impl View for RawSubpath {
    type V = RawSubpathView;

    open spec fn view(&self) -> RawSubpathView {
        RawSubpathView {
            start_x: self.start_x,
            start_y: self.start_y,
            segments: self.segments@,
            closed: self.closed,
        }
    }
}

/// The views of a run of subpaths.
pub open spec fn raw_views(subpaths: Seq<RawSubpath>) -> Seq<RawSubpathView> {
    subpaths.map_values(|p: RawSubpath| p@)
}

/// The curves handed in for arcs, as sequences.
pub open spec fn curve_views(arcs: Seq<Vec<Segment>>) -> Seq<Seq<Segment>> {
    arcs.map_values(|a: Vec<Segment>| a@)
}

/// How far the pen may stand from the start of a subpath, in millionths,
/// for a close-path to add no closing line.
pub const CLOSE_TOLERANCE: u64 = 1000;

/// The state of a session.
pub struct SessionView {
    pub subpaths: Seq<RawSubpathView>,
    pub segments: Seq<Segment>,
    pub current_x: Fixed,
    pub current_y: Fixed,
    pub start_x: Fixed,
    pub start_y: Fixed,
    pub last_control_x: Fixed,
    pub last_control_y: Fixed,
    pub has_start: bool,
    pub requests: Seq<ArcRequest>,
}

/// Whether an arc ends where it starts.
pub open spec fn arc_is_empty(arc: ArcRequest) -> bool {
    arc.x1 == arc.x2 && arc.y1 == arc.y2
}

/// Whether an arc has a radius of zero.
pub open spec fn arc_is_flat(arc: ArcRequest) -> bool {
    arc.rx.micros == 0 || arc.ry.micros == 0
}

/// The segments an arc stands for: none if it ends where it starts, else
/// one line if a radius is zero, else the curves worked out for it. A
/// path description is carried out only with curves that can stand for an
/// arc ([`proper_curves`]): one or more for each arc, all of them cubic.
pub open spec fn arc_segments(arc: ArcRequest, curves: Seq<Segment>) -> Seq<Segment> {
    if arc_is_empty(arc) {
        Seq::empty()
    } else if arc_is_flat(arc) {
        seq![Segment::Line { x: arc.x2, y: arc.y2 }]
    } else {
        curves
    }
}

/// Whether `curves` can stand for an arc that is neither empty nor a
/// straight line: one or more segments, each a cubic curve.
pub open spec fn proper_curves(curves: Seq<Segment>) -> bool {
    &&& curves.len() >= 1
    &&& forall|i: int| 0 <= i < curves.len() ==> #[trigger] curves[i] is Cubic
}

/// The index of the first of `arcs` from index `k` on that cannot stand for
/// an arc; the length of `arcs` if there is none.
pub open spec fn first_improper(arcs: Seq<Seq<Segment>>, k: int) -> int
    decreases arcs.len() - k,
{
    if k < 0 || k >= arcs.len() {
        arcs.len() as int
    } else if !proper_curves(arcs[k]) {
        k
    } else {
        first_improper(arcs, k + 1)
    }
}

/// Where no entry from `k` on is found wanting, every entry from `k` on can
/// stand for an arc; where one is, it lies at or behind `k` and is the
/// first that cannot.
pub proof fn lemma_first_improper(arcs: Seq<Seq<Segment>>, k: int)
    requires
        0 <= k <= arcs.len(),
    ensures
        k <= first_improper(arcs, k) <= arcs.len(),
        forall|j: int| k <= j < first_improper(arcs, k) ==> proper_curves(#[trigger] arcs[j]),
        first_improper(arcs, k) < arcs.len() ==> !proper_curves(arcs[first_improper(arcs, k)]),
    decreases arcs.len() - k,
{
    if k < arcs.len() && proper_curves(arcs[k]) {
        lemma_first_improper(arcs, k + 1);
    }
}

/// Whether `curves` can stand for an arc.
pub fn are_proper_curves(curves: &Vec<Segment>) -> (r: bool)
    ensures
        r == proper_curves(curves@),
{
    if curves.len() == 0 {
        return false;
    }
    let mut i: usize = 0;
    while i < curves.len()
        invariant
            i <= curves@.len(),
            forall|j: int| 0 <= j < i ==> #[trigger] curves@[j] is Cubic,
        decreases curves@.len() - i,
    {
        match curves[i] {
            Segment::Cubic { .. } => {},
            Segment::Line { .. } => {
                assert(!(curves@[i as int] is Cubic));
                return false;
            },
        }
        i = i + 1;
    }
    true
}

/// The index of the first of `arcs` that cannot stand for an arc, if
/// there is one.
pub fn find_improper(arcs: &Vec<Vec<Segment>>) -> (r: Option<usize>)
    ensures
        match r {
            Some(k) => k < arcs@.len() && first_improper(curve_views(arcs@), 0) == k,
            None => first_improper(curve_views(arcs@), 0) == arcs@.len(),
        },
{
    let ghost all = curve_views(arcs@);
    let mut i: usize = 0;
    while i < arcs.len()
        invariant
            i <= arcs@.len(),
            all == curve_views(arcs@),
            first_improper(all, 0) == first_improper(all, i as int),
        decreases arcs@.len() - i,
    {
        if !are_proper_curves(&arcs[i]) {
            assert(all[i as int] == arcs@[i as int]@);
            return Some(i);
        }
        assert(all[i as int] == arcs@[i as int]@);
        i = i + 1;
    }
    None
}

/// The curves handed in for the request with index `k`; none if there are
/// not that many.
pub open spec fn curves_for(arcs: Seq<Seq<Segment>>, k: int) -> Seq<Segment> {
    if 0 <= k < arcs.len() {
        arcs[k]
    } else {
        Seq::empty()
    }
}

impl SessionView {
    /// The state before the first command.
    pub open spec fn initial() -> SessionView {
        SessionView {
            subpaths: Seq::empty(),
            segments: Seq::empty(),
            current_x: Fixed { micros: 0 },
            current_y: Fixed { micros: 0 },
            start_x: Fixed { micros: 0 },
            start_y: Fixed { micros: 0 },
            last_control_x: Fixed { micros: 0 },
            last_control_y: Fixed { micros: 0 },
            has_start: false,
            requests: Seq::empty(),
        }
    }

    /// Whether a subpath is open and has a segment.
    pub open spec fn drawing(self) -> bool {
        self.has_start && self.segments.len() > 0
    }

    /// The open subpath moved to the subpaths that are done.
    pub open spec fn flushed(self, closed: bool) -> SessionView {
        SessionView {
            subpaths: self.subpaths.push(
                RawSubpathView {
                    start_x: self.start_x,
                    start_y: self.start_y,
                    segments: self.segments,
                    closed,
                },
            ),
            segments: Seq::empty(),
            ..self
        }
    }

    /// The pen moved to `(x, y)` along `segment`.
    pub open spec fn drawn(self, segment: Segment, x: Fixed, y: Fixed) -> SessionView {
        SessionView { segments: self.segments.push(segment), current_x: x, current_y: y, ..self }
    }

    /// The pen moved to `(x, y)` along a cubic curve whose second control
    /// point is remembered.
    pub open spec fn curved(
        self,
        c1x: Fixed,
        c1y: Fixed,
        c2x: Fixed,
        c2y: Fixed,
        x: Fixed,
        y: Fixed,
    ) -> SessionView {
        SessionView {
            last_control_x: c2x,
            last_control_y: c2y,
            ..self.drawn(Segment::Cubic { c1x, c1y, c2x, c2y, x, y }, x, y)
        }
    }

    /// The pen moved to `(x, y)` along the cubic curve that equals the
    /// quadratic curve with control point `(qx, qy)`, which is remembered.
    pub open spec fn bent(self, qx: Fixed, qy: Fixed, x: Fixed, y: Fixed) -> SessionView {
        SessionView {
            last_control_x: qx,
            last_control_y: qy,
            ..self.drawn(
                Segment::Cubic {
                    c1x: self.current_x.two_thirds(qx),
                    c1y: self.current_y.two_thirds(qy),
                    c2x: x.two_thirds(qx),
                    c2y: y.two_thirds(qy),
                    x,
                    y,
                },
                x,
                y,
            )
        }
    }

    /// The arc that `command`, an arc-to, asks for from where the pen
    /// stands.
    pub open spec fn arc_of(self, command: PathCommand) -> ArcRequest
        recommends
            command is ArcTo,
    {
        ArcRequest {
            x1: self.current_x,
            y1: self.current_y,
            rx: command->rx,
            ry: command->ry,
            x_rotation: command->x_rotation,
            large_arc: command->large_arc,
            sweep: command->sweep,
            x2: self.current_x.resolved(command->ArcTo_relative, command->ArcTo_x),
            y2: self.current_y.resolved(command->ArcTo_relative, command->ArcTo_y),
        }
    }

    /// The state after `command`.
    pub open spec fn step(self, command: PathCommand, arcs: Seq<Seq<Segment>>) -> SessionView {
        match command {
            PathCommand::MoveTo { relative, x, y } => {
                let before = if self.drawing() {
                    self.flushed(false)
                } else {
                    self
                };
                let nx = self.current_x.resolved(relative, x);
                let ny = self.current_y.resolved(relative, y);
                SessionView {
                    current_x: nx,
                    current_y: ny,
                    start_x: nx,
                    start_y: ny,
                    has_start: true,
                    ..before
                }
            },
            PathCommand::LineTo { relative, x, y } => {
                let nx = self.current_x.resolved(relative, x);
                let ny = self.current_y.resolved(relative, y);
                self.drawn(Segment::Line { x: nx, y: ny }, nx, ny)
            },
            PathCommand::HorizontalTo { relative, x } => {
                let nx = self.current_x.resolved(relative, x);
                self.drawn(Segment::Line { x: nx, y: self.current_y }, nx, self.current_y)
            },
            PathCommand::VerticalTo { relative, y } => {
                let ny = self.current_y.resolved(relative, y);
                self.drawn(Segment::Line { x: self.current_x, y: ny }, self.current_x, ny)
            },
            PathCommand::CubicTo { relative, c1x, c1y, c2x, c2y, x, y } => self.curved(
                self.current_x.resolved(relative, c1x),
                self.current_y.resolved(relative, c1y),
                self.current_x.resolved(relative, c2x),
                self.current_y.resolved(relative, c2y),
                self.current_x.resolved(relative, x),
                self.current_y.resolved(relative, y),
            ),
            PathCommand::SmoothCubicTo { relative, reflect, c2x, c2y, x, y } => self.curved(
                if reflect {
                    self.last_control_x.reflected(self.current_x)
                } else {
                    self.current_x
                },
                if reflect {
                    self.last_control_y.reflected(self.current_y)
                } else {
                    self.current_y
                },
                self.current_x.resolved(relative, c2x),
                self.current_y.resolved(relative, c2y),
                self.current_x.resolved(relative, x),
                self.current_y.resolved(relative, y),
            ),
            PathCommand::QuadraticTo { relative, qx, qy, x, y } => self.bent(
                self.current_x.resolved(relative, qx),
                self.current_y.resolved(relative, qy),
                self.current_x.resolved(relative, x),
                self.current_y.resolved(relative, y),
            ),
            PathCommand::SmoothQuadraticTo { relative, reflect, x, y } => self.bent(
                if reflect {
                    self.last_control_x.reflected(self.current_x)
                } else {
                    self.current_x
                },
                if reflect {
                    self.last_control_y.reflected(self.current_y)
                } else {
                    self.current_y
                },
                self.current_x.resolved(relative, x),
                self.current_y.resolved(relative, y),
            ),
            PathCommand::ArcTo { .. } => {
                let arc = self.arc_of(command);
                let asked = !arc_is_empty(arc) && !arc_is_flat(arc);
                SessionView {
                    segments: self.segments + arc_segments(
                        arc,
                        curves_for(arcs, self.requests.len() as int),
                    ),
                    current_x: arc.x2,
                    current_y: arc.y2,
                    requests: if asked {
                        self.requests.push(arc)
                    } else {
                        self.requests
                    },
                    ..self
                }
            },
            PathCommand::ClosePath => {
                let before = if self.drawing() {
                    let gap = self.current_x.apart(self.start_x, CLOSE_TOLERANCE as int)
                        || self.current_y.apart(self.start_y, CLOSE_TOLERANCE as int);
                    (if gap {
                        SessionView {
                            segments: self.segments.push(
                                Segment::Line { x: self.start_x, y: self.start_y },
                            ),
                            ..self
                        }
                    } else {
                        self
                    }).flushed(true)
                } else {
                    self
                };
                SessionView {
                    current_x: self.start_x,
                    current_y: self.start_y,
                    has_start: false,
                    ..before
                }
            },
        }
    }

    /// The subpaths when the input has ended: those that are done, and the
    /// open one if it has a segment.
    pub open spec fn finished(self) -> Seq<RawSubpathView> {
        if self.drawing() {
            self.flushed(false).subpaths
        } else {
            self.subpaths
        }
    }
}

/// The state after the first `n` of `commands`.
pub open spec fn state_after(commands: Seq<PathCommand>, arcs: Seq<Seq<Segment>>, n: nat)
    -> SessionView
    decreases n,
{
    if n == 0 {
        SessionView::initial()
    } else {
        state_after(commands, arcs, (n - 1) as nat).step(commands[n - 1], arcs)
    }
}

/// The arcs among `commands` that need curves, in order.
pub open spec fn requests_of(commands: Seq<PathCommand>) -> Seq<ArcRequest> {
    state_after(commands, Seq::empty(), commands.len()).requests
}

/// The subpaths that `commands` draw, given the curves for its arcs.
pub open spec fn subpaths_of(commands: Seq<PathCommand>, arcs: Seq<Seq<Segment>>) -> Seq<
    RawSubpathView,
> {
    state_after(commands, arcs, commands.len()).finished()
}

/// Where the pen stands, what it remembers and which arcs it has asked for
/// do not depend on the curves handed in.
pub proof fn lemma_pen_ignores_curves(
    commands: Seq<PathCommand>,
    arcs1: Seq<Seq<Segment>>,
    arcs2: Seq<Seq<Segment>>,
    n: nat,
)
    requires
        n <= commands.len(),
    ensures
        ({
            let a = state_after(commands, arcs1, n);
            let b = state_after(commands, arcs2, n);
            &&& a.current_x == b.current_x
            &&& a.current_y == b.current_y
            &&& a.start_x == b.start_x
            &&& a.start_y == b.start_y
            &&& a.last_control_x == b.last_control_x
            &&& a.last_control_y == b.last_control_y
            &&& a.has_start == b.has_start
            &&& a.requests == b.requests
        }),
    decreases n,
{
    if n > 0 {
        lemma_pen_ignores_curves(commands, arcs1, arcs2, (n - 1) as nat);
    }
}

/// The arcs that need curves are the same whatever curves are handed in.
pub proof fn lemma_requests_fixed(commands: Seq<PathCommand>, arcs: Seq<Seq<Segment>>)
    ensures
        state_after(commands, arcs, commands.len()).requests == requests_of(commands),
{
    lemma_pen_ignores_curves(commands, arcs, Seq::empty(), commands.len());
}

/// An arc that ends where it starts adds no segment and asks for no
/// curves; an arc with a radius of zero that ends elsewhere adds exactly
/// one line to its end point and asks for no curves either.
pub proof fn lemma_arc_degenerate(s: SessionView, command: PathCommand, arcs: Seq<Seq<Segment>>)
    requires
        command is ArcTo,
    ensures
        arc_is_empty(s.arc_of(command)) ==> s.step(command, arcs).segments == s.segments && s.step(
            command,
            arcs,
        ).requests == s.requests,
        !arc_is_empty(s.arc_of(command)) && arc_is_flat(s.arc_of(command)) ==> s.step(
            command,
            arcs,
        ).segments == s.segments.push(
            Segment::Line { x: s.arc_of(command).x2, y: s.arc_of(command).y2 },
        ) && s.step(command, arcs).requests == s.requests,
{
    let arc = s.arc_of(command);
    if arc_is_empty(arc) {
        assert(s.segments + Seq::<Segment>::empty() =~= s.segments);
    } else if arc_is_flat(arc) {
        assert(s.segments + seq![Segment::Line { x: arc.x2, y: arc.y2 }] =~= s.segments.push(
            Segment::Line { x: arc.x2, y: arc.y2 },
        ));
    }
}

/// An arc that is neither empty nor a straight line adds the curves handed
/// in for it and asks for them: where those can stand for an arc, it adds
/// one segment or more, and every segment it adds is a cubic curve.
pub proof fn lemma_arc_proper(s: SessionView, command: PathCommand, arcs: Seq<Seq<Segment>>)
    requires
        command is ArcTo,
        !arc_is_empty(s.arc_of(command)),
        !arc_is_flat(s.arc_of(command)),
        proper_curves(curves_for(arcs, s.requests.len() as int)),
    ensures
        s.step(command, arcs).segments == s.segments + curves_for(arcs, s.requests.len() as int),
        s.step(command, arcs).requests == s.requests.push(s.arc_of(command)),
        s.step(command, arcs).segments.len() >= s.segments.len() + 1,
        forall|i: int|
            s.segments.len() <= i < s.step(command, arcs).segments.len() ==> (#[trigger] s.step(
                command,
                arcs,
            ).segments[i]) is Cubic,
{
    let curves = curves_for(arcs, s.requests.len() as int);
    let after = s.step(command, arcs).segments;
    assert forall|i: int| s.segments.len() <= i < after.len() implies (#[trigger] after[i])
        is Cubic by {
        assert(after[i] == curves[i - s.segments.len()]);
    }
}

/// A session: the pen, the open subpath and the subpaths that are done.
pub struct Session {
    pub subpaths: Vec<RawSubpath>,
    pub segments: Vec<Segment>,
    pub current_x: Fixed,
    pub current_y: Fixed,
    pub start_x: Fixed,
    pub start_y: Fixed,
    pub last_control_x: Fixed,
    pub last_control_y: Fixed,
    pub has_start: bool,
    pub requests: Vec<ArcRequest>,
}

impl View for Session {
    type V = SessionView;

    open spec fn view(&self) -> SessionView {
        SessionView {
            subpaths: raw_views(self.subpaths@),
            segments: self.segments@,
            current_x: self.current_x,
            current_y: self.current_y,
            start_x: self.start_x,
            start_y: self.start_y,
            last_control_x: self.last_control_x,
            last_control_y: self.last_control_y,
            has_start: self.has_start,
            requests: self.requests@,
        }
    }
}

/// The segments that the arc `arc` stands for, `curves` being the curves
/// worked out for it: none if the arc ends where it starts, one line if a
/// radius is zero, else `curves`.
pub fn arc_to_beziers(arc: &ArcRequest, curves: &Vec<Segment>) -> (r: Vec<Segment>)
    ensures
        r@ == arc_segments(*arc, curves@),
{
    let mut out: Vec<Segment> = Vec::new();
    if arc.x1.micros == arc.x2.micros && arc.y1.micros == arc.y2.micros {
        return out;
    }
    if arc.rx.micros == 0 || arc.ry.micros == 0 {
        out.push(Segment::Line { x: arc.x2, y: arc.y2 });
        assert(out@ =~= seq![Segment::Line { x: arc.x2, y: arc.y2 }]);
        return out;
    }
    let mut i: usize = 0;
    while i < curves.len()
        invariant
            i <= curves@.len(),
            out@ == curves@.take(i as int),
        decreases curves@.len() - i,
    {
        out.push(curves[i]);
        assert(curves@.take(i + 1) =~= curves@.take(i as int).push(curves@[i as int]));
        i = i + 1;
    }
    assert(curves@.take(curves@.len() as int) =~= curves@);
    out
}

impl Session {
    /// A session before its first command.
    pub fn new() -> (r: Session)
        ensures
            r@ == SessionView::initial(),
    {
        let r = Session {
            subpaths: Vec::new(),
            segments: Vec::new(),
            current_x: Fixed { micros: 0 },
            current_y: Fixed { micros: 0 },
            start_x: Fixed { micros: 0 },
            start_y: Fixed { micros: 0 },
            last_control_x: Fixed { micros: 0 },
            last_control_y: Fixed { micros: 0 },
            has_start: false,
            requests: Vec::new(),
        };
        assert(r@.subpaths =~= Seq::empty());
        r
    }

    /// Moves the open subpath to the subpaths that are done.
    fn flush(self, closed: bool) -> (r: Session)
        ensures
            r@ == self@.flushed(closed),
    {
        let mut s = self;
        let mut segments: Vec<Segment> = Vec::new();
        core::mem::swap(&mut s.segments, &mut segments);
        let ghost before = s.subpaths@;
        let done = RawSubpath { start_x: s.start_x, start_y: s.start_y, segments, closed };
        s.subpaths.push(done);
        assert(raw_views(s.subpaths@) =~= raw_views(before).push(done@));
        s
    }

    /// Moves the pen to `(x, y)` along `segment`.
    fn draw(self, segment: Segment, x: Fixed, y: Fixed) -> (r: Session)
        ensures
            r@ == self@.drawn(segment, x, y),
    {
        let mut s = self;
        s.segments.push(segment);
        s.current_x = x;
        s.current_y = y;
        s
    }

    /// Moves the pen along a cubic curve and remembers its second control
    /// point.
    fn curve(self, c1x: Fixed, c1y: Fixed, c2x: Fixed, c2y: Fixed, x: Fixed, y: Fixed) -> (r:
        Session)
        ensures
            r@ == self@.curved(c1x, c1y, c2x, c2y, x, y),
    {
        let mut s = self.draw(Segment::Cubic { c1x, c1y, c2x, c2y, x, y }, x, y);
        s.last_control_x = c2x;
        s.last_control_y = c2y;
        s
    }

    /// Moves the pen along a quadratic curve, written as a cubic one, and
    /// remembers its control point.
    fn bend(self, qx: Fixed, qy: Fixed, x: Fixed, y: Fixed) -> (r: Session)
        ensures
            r@ == self@.bent(qx, qy, x, y),
    {
        let c1x: Fixed = self.current_x.two_thirds_toward(qx);
        let c1y: Fixed = self.current_y.two_thirds_toward(qy);
        let c2x: Fixed = x.two_thirds_toward(qx);
        let c2y: Fixed = y.two_thirds_toward(qy);
        let mut s = self.draw(Segment::Cubic { c1x, c1y, c2x, c2y, x, y }, x, y);
        s.last_control_x = qx;
        s.last_control_y = qy;
        s
    }

    /// Carries out one command. `arcs` holds the curves for the arcs that
    /// need them, in the order in which the session asks for them.
    pub fn apply(self, command: PathCommand, arcs: &Vec<Vec<Segment>>) -> (r: Session)
        ensures
            r@ == self@.step(command, curve_views(arcs@)),
    {
        match command {
            PathCommand::MoveTo { relative, x, y } => {
                let nx: Fixed = self.current_x.resolve(relative, x);
                let ny: Fixed = self.current_y.resolve(relative, y);
                let mut s = if self.has_start && self.segments.len() > 0 {
                    self.flush(false)
                } else {
                    self
                };
                s.current_x = nx;
                s.current_y = ny;
                s.start_x = nx;
                s.start_y = ny;
                s.has_start = true;
                s
            },
            PathCommand::LineTo { relative, x, y } => {
                let nx: Fixed = self.current_x.resolve(relative, x);
                let ny: Fixed = self.current_y.resolve(relative, y);
                self.draw(Segment::Line { x: nx, y: ny }, nx, ny)
            },
            PathCommand::HorizontalTo { relative, x } => {
                let nx: Fixed = self.current_x.resolve(relative, x);
                let y: Fixed = self.current_y;
                self.draw(Segment::Line { x: nx, y }, nx, y)
            },
            PathCommand::VerticalTo { relative, y } => {
                let ny: Fixed = self.current_y.resolve(relative, y);
                let x: Fixed = self.current_x;
                self.draw(Segment::Line { x, y: ny }, x, ny)
            },
            PathCommand::CubicTo { relative, c1x, c1y, c2x, c2y, x, y } => {
                let cx: Fixed = self.current_x;
                let cy: Fixed = self.current_y;
                self.curve(
                    cx.resolve(relative, c1x),
                    cy.resolve(relative, c1y),
                    cx.resolve(relative, c2x),
                    cy.resolve(relative, c2y),
                    cx.resolve(relative, x),
                    cy.resolve(relative, y),
                )
            },
            PathCommand::SmoothCubicTo { relative, reflect, c2x, c2y, x, y } => {
                let cx: Fixed = self.current_x;
                let cy: Fixed = self.current_y;
                let c1x: Fixed = if reflect {
                    self.last_control_x.reflect_through(cx)
                } else {
                    cx
                };
                let c1y: Fixed = if reflect {
                    self.last_control_y.reflect_through(cy)
                } else {
                    cy
                };
                self.curve(
                    c1x,
                    c1y,
                    cx.resolve(relative, c2x),
                    cy.resolve(relative, c2y),
                    cx.resolve(relative, x),
                    cy.resolve(relative, y),
                )
            },
            PathCommand::QuadraticTo { relative, qx, qy, x, y } => {
                let cx: Fixed = self.current_x;
                let cy: Fixed = self.current_y;
                self.bend(
                    cx.resolve(relative, qx),
                    cy.resolve(relative, qy),
                    cx.resolve(relative, x),
                    cy.resolve(relative, y),
                )
            },
            PathCommand::SmoothQuadraticTo { relative, reflect, x, y } => {
                let cx: Fixed = self.current_x;
                let cy: Fixed = self.current_y;
                let qx: Fixed = if reflect {
                    self.last_control_x.reflect_through(cx)
                } else {
                    cx
                };
                let qy: Fixed = if reflect {
                    self.last_control_y.reflect_through(cy)
                } else {
                    cy
                };
                self.bend(qx, qy, cx.resolve(relative, x), cy.resolve(relative, y))
            },
            PathCommand::ArcTo { relative, rx, ry, x_rotation, large_arc, sweep, x, y } => {
                let arc = ArcRequest {
                    x1: self.current_x,
                    y1: self.current_y,
                    rx,
                    ry,
                    x_rotation,
                    large_arc,
                    sweep,
                    x2: self.current_x.resolve(relative, x),
                    y2: self.current_y.resolve(relative, y),
                };
                let mut s = self;
                let k: usize = s.requests.len();
                let none: Vec<Segment> = Vec::new();
                let mut found: Vec<Segment> = if k < arcs.len() {
                    arc_to_beziers(&arc, &arcs[k])
                } else {
                    arc_to_beziers(&arc, &none)
                };
                s.segments.append(&mut found);
                if !(arc.x1.micros == arc.x2.micros && arc.y1.micros == arc.y2.micros) && !(
                arc.rx.micros == 0 || arc.ry.micros == 0) {
                    s.requests.push(arc);
                }
                s.current_x = arc.x2;
                s.current_y = arc.y2;
                s
            },
            PathCommand::ClosePath => {
                let sx: Fixed = self.start_x;
                let sy: Fixed = self.start_y;
                let mut s = if self.has_start && self.segments.len() > 0 {
                    let mut open = self;
                    if open.current_x.farther_than(sx, CLOSE_TOLERANCE)
                        || open.current_y.farther_than(sy, CLOSE_TOLERANCE) {
                        open.segments.push(Segment::Line { x: sx, y: sy });
                    }
                    open.flush(true)
                } else {
                    self
                };
                s.current_x = sx;
                s.current_y = sy;
                s.has_start = false;
                s
            },
        }
    }

    /// Ends the session: the subpaths that are done, and the open one if it
    /// has a segment.
    pub fn finish(self) -> (r: Vec<RawSubpath>)
        ensures
            raw_views(r@) == self@.finished(),
    {
        let s = if self.has_start && self.segments.len() > 0 {
            self.flush(false)
        } else {
            self
        };
        s.subpaths
    }
}

/// Carries out `commands` from a fresh session.
pub fn run(commands: &Vec<PathCommand>, arcs: &Vec<Vec<Segment>>) -> (r: Session)
    ensures
        r@ == state_after(commands@, curve_views(arcs@), commands@.len()),
{
    let mut session = Session::new();
    let mut i: usize = 0;
    while i < commands.len()
        invariant
            i <= commands@.len(),
            session@ == state_after(commands@, curve_views(arcs@), i as nat),
        decreases commands@.len() - i,
    {
        session = session.apply(commands[i], arcs);
        i = i + 1;
    }
    session
}

} // verus!
