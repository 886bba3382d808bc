//! Path descriptions: how their lengths are converted, and the error they
//! fail with.

use vstd::prelude::*;
use crate::fixed::{
    div_half_up,
    div_round,
    div_round_exec,
    magnitude,
    magnitude_of,
    saturate_i32,
    saturate_to_i32,
    Fixed,
};
use crate::command::{commands_of, parse_commands, Parsed, PathCommand};
use crate::geometry::{
    Outline,
    OutlineView,
    PathShape,
    PathShapeView,
    Point,
    SegmentBezier,
    SegmentLine,
    shape_views,
};
use crate::interpreter::{
    curve_views,
    find_improper,
    first_improper,
    lemma_first_improper,
    lemma_requests_fixed,
    proper_curves,
    raw_views,
    requests_of,
    run,
    subpaths_of,
    ArcRequest,
    RawSubpath,
    RawSubpathView,
    Segment,
};
use crate::lexer::{tokenize, tokens_of, Token};

verus! {

/// Why a path description was refused, and where.
///
/// `position` counts characters while the text is split into tokens, and
/// tokens while they are grouped into commands: it is the index of the
/// token at fault, or the index at which a missing operand was due. In an
/// error about the curves handed in for arcs it counts arcs.
#[derive(Debug, Clone, PartialEq, Eq)]
pub struct SvgParseError {
    pub message: String,
    pub position: usize,
}

/// What an [`SvgParseError`] holds.
pub struct SvgParseErrorView {
    pub message: Seq<char>,
    pub position: nat,
}

impl View for SvgParseError {
    type V = SvgParseErrorView;

    open spec fn view(&self) -> SvgParseErrorView {
        SvgParseErrorView { message: self.message@, position: self.position as nat }
    }
}

/// A character that starts no token.
pub open spec fn err_unexpected_character(c: char, position: nat) -> SvgParseErrorView {
    SvgParseErrorView { message: "Unexpected character: '"@.push(c) + "'"@, position }
}

/// A numeral without digits, or with an exponent without digits.
pub open spec fn err_invalid_number(text: Seq<char>, position: nat) -> SvgParseErrorView {
    SvgParseErrorView { message: "Invalid number: "@ + text, position }
}

/// A command letter that names no command.
pub open spec fn err_unknown_command(c: char, position: nat) -> SvgParseErrorView {
    SvgParseErrorView { message: "Unknown command: "@.push(c), position }
}

/// A number where a command letter was due.
pub open spec fn err_unexpected_number(position: nat) -> SvgParseErrorView {
    SvgParseErrorView { message: "Unexpected number without command"@, position }
}

/// The command letter `c` at token `position`, where an operand was due.
pub open spec fn err_expected_number(c: char, position: nat) -> SvgParseErrorView {
    SvgParseErrorView { message: "Expected number, got command '"@.push(c) + "'"@, position }
}

/// The input ended inside a coordinate pair: the value that is missing
/// would be token `position`.
pub open spec fn err_short_point(position: nat) -> SvgParseErrorView {
    SvgParseErrorView { message: "Not enough values for point"@, position }
}

/// The input ended inside the operands of an arc: the value that is
/// missing would be token `position`.
pub open spec fn err_short_arc(position: nat) -> SvgParseErrorView {
    SvgParseErrorView { message: "Not enough values for arc"@, position }
}

/// The number of curves handed in for arcs is not the number of arcs that
/// need one, which is `needed`.
pub open spec fn err_arc_count(needed: nat) -> SvgParseErrorView {
    SvgParseErrorView { message: "Wrong number of arc curves"@, position: needed }
}

/// The curves handed in for the arc with index `position` among those that
/// need curves are none at all, or not all of them curves.
pub open spec fn err_arc_curves(position: nat) -> SvgParseErrorView {
    SvgParseErrorView { message: "Arc curves must be one or more cubic curves"@, position }
}

/// How artwork units are taken to hundredths of a millimetre.
#[derive(Debug, Clone, Copy, PartialEq, Eq, Structural)]
pub struct SvgConfig {
    /// Artwork units per inch (96 for the web, 72 for print).
    pub dpi: Fixed,
    /// Scale factor (1 leaves sizes as they are).
    pub scale: Fixed,
    /// Shift along x in millimetres.
    pub offset_x_mm: Fixed,
    /// Shift along y in millimetres.
    pub offset_y_mm: Fixed,
}

/// The length `value / dpi` inches, times `scale`, in hundredths of a
/// millimetre (2540 to the inch): rounded to the nearest whole number, a
/// tie going away from zero, and clamped to `i32`. All three arguments are
/// in millionths.
///
/// With `dpi` zero the length is without bound, or undefined: the result is
/// then the end of the range on the side of `value * scale`, or zero.
pub open spec fn native_units(value: int, dpi: int, scale: int) -> int {
    if dpi == 0 {
        if value * scale > 0 {
            i32::MAX as int
        } else if value * scale < 0 {
            i32::MIN as int
        } else {
            0
        }
    } else {
        saturate_i32(div_round(value * scale * 2540, dpi * 1_000_000))
    }
}

/// A shift of `offset_mm` millionths of a millimetre in hundredths of a
/// millimetre, rounded and clamped like a length.
pub open spec fn offset_units(offset_mm: int) -> int {
    saturate_i32(div_round(offset_mm, 10_000))
}

impl SvgConfig {
    /// The length `value` in hundredths of a millimetre.
    pub open spec fn native(self, value: Fixed) -> i32 {
        native_units(value.micros as int, self.dpi.micros as int, self.scale.micros as int) as i32
    }

    /// The point `(x, y)` in hundredths of a millimetre, shifted by the
    /// offsets.
    pub open spec fn native_point(self, x: Fixed, y: Fixed) -> Point {
        Point {
            x: saturate_i32(self.native(x) + offset_units(self.offset_x_mm.micros as int)) as i32,
            y: saturate_i32(self.native(y) + offset_units(self.offset_y_mm.micros as int)) as i32,
        }
    }

    /// Converts a length in artwork units to hundredths of a millimetre.
    pub fn to_fcm(&self, svg_value: Fixed) -> (r: i32)
        ensures
            r == self.native(svg_value),
    {
        let v: i128 = svg_value.micros as i128;
        let s: i128 = self.scale.micros as i128;
        let d: i128 = self.dpi.micros as i128;
        assert(-0x4000_0000_0000_0000_0000_0000_0000_0000 <= v * s
            <= 0x4000_0000_0000_0000_0000_0000_0000_0000) by (nonlinear_arith)
            requires
                -0x8000_0000_0000_0000 <= v <= 0x8000_0000_0000_0000,
                -0x8000_0000_0000_0000 <= s <= 0x8000_0000_0000_0000,
        ;
        let product: i128 = v * s;
        if d == 0 {
            return if product > 0 {
                i32::MAX
            } else if product < 0 {
                i32::MIN
            } else {
                0
            };
        }
        let positive: bool = (product >= 0) == (d > 0);
        let n: u128 = magnitude_of(product);
        let q: u128 = magnitude_of(d) * 1_000_000;
        let ghost numerator = n as int * 2540;
        assert(magnitude(v * s * 2540) == numerator);
        assert(magnitude(d * 1_000_000) == q as int);
        assert((v * s * 2540 >= 0) == (product >= 0));
        // Past this the quotient is out of range whatever the divisor.
        if n >= 0x4_0000_0000_0000_0000_0000_0000_0000 {
            proof {
                lemma_large_quotient(numerator, q as int);
            }
            return if positive {
                i32::MAX
            } else {
                i32::MIN
            };
        }
        let rounded: u128 = (2 * (n * 2540) + q) / (2 * q);
        if positive {
            if rounded > 0x7fff_ffff {
                i32::MAX
            } else {
                rounded as i32
            }
        } else {
            if rounded > 0x8000_0000 {
                i32::MIN
            } else {
                (-(rounded as i64)) as i32
            }
        }
    }

    /// Converts a point in artwork units to a point of the file.
    pub fn point_to_fcm(&self, x: Fixed, y: Fixed) -> (r: Point)
        ensures
            r == self.native_point(x, y),
    {
        let dx: i128 = div_round_exec(self.offset_x_mm.micros as i128, 10_000);
        let dy: i128 = div_round_exec(self.offset_y_mm.micros as i128, 10_000);
        let shift_x: i32 = saturate_to_i32(dx);
        let shift_y: i32 = saturate_to_i32(dy);
        Point {
            x: saturate_to_i32(self.to_fcm(x) as i128 + shift_x as i128),
            y: saturate_to_i32(self.to_fcm(y) as i128 + shift_y as i128),
        }
    }
}

impl Default for SvgConfig {
    /// 96 units per inch, no scaling, no shift.
    fn default() -> (r: SvgConfig)
        ensures
            r == (SvgConfig {
                dpi: Fixed { micros: 96_000_000 },
                scale: Fixed { micros: 1_000_000 },
                offset_x_mm: Fixed { micros: 0 },
                offset_y_mm: Fixed { micros: 0 },
            }),
    {
        SvgConfig {
            dpi: Fixed { micros: 96_000_000 },
            scale: Fixed { micros: 1_000_000 },
            offset_x_mm: Fixed { micros: 0 },
            offset_y_mm: Fixed { micros: 0 },
        }
    }
}

/// A numerator this large gives a quotient out of the range of `i32`
/// whatever the divisor.
proof fn lemma_large_quotient(n: int, q: int)
    requires
        n >= 0x4_0000_0000_0000_0000_0000_0000_0000 * 2540,
        0 < q <= 0x8000_0000_0000_0000 * 1_000_000,
    ensures
        div_half_up(n, q) > 0x8000_0000,
{
    let bound: int = 0x8000_0001;
    assert(2 * q * bound <= 2 * n + q) by (nonlinear_arith)
        requires
            n >= 0x4_0000_0000_0000_0000_0000_0000_0000 * 2540,
            0 < q <= 0x8000_0000_0000_0000 * 1_000_000,
            bound == 0x8000_0001,
    ;
    vstd::arithmetic::div_mod::lemma_div_multiples_vanish(bound, 2 * q);
    assert((2 * q * bound) / (2 * q) == bound) by {
        assert(2 * q * bound == (2 * q) * bound) by (nonlinear_arith);
    }
    vstd::arithmetic::div_mod::lemma_div_is_ordered(2 * q * bound, 2 * n + q, 2 * q);
}

impl SvgParseError {
    /// The error for the character `c` at `position`, which starts no token.
    pub fn unexpected_character(c: char, position: usize) -> (e: SvgParseError)
        ensures
            e@ == err_unexpected_character(c, position as nat),
    {
        let mut message = String::from_str("Unexpected character: '");
        message.push(c);
        message.append("'");
        SvgParseError { message, position }
    }

    /// The error for the text `chars[from..to]`, which has the shape of a
    /// number and is none.
    pub fn invalid_number(chars: &Vec<char>, from: usize, to: usize) -> (e: SvgParseError)
        requires
            from <= to <= chars@.len(),
        ensures
            e@ == err_invalid_number(chars@.subrange(from as int, to as int), to as nat),
    {
        let mut message = String::from_str("Invalid number: ");
        crate::text::push_range(&mut message, chars, from, to);
        SvgParseError { message, position: to }
    }

    /// The error for the letter `c` at token `position`, which names no
    /// command.
    pub fn unknown_command(c: char, position: usize) -> (e: SvgParseError)
        ensures
            e@ == err_unknown_command(c, position as nat),
    {
        let mut message = String::from_str("Unknown command: ");
        message.push(c);
        SvgParseError { message, position }
    }

    /// The error for a number at token `position` that follows no command.
    pub fn unexpected_number(position: usize) -> (e: SvgParseError)
        ensures
            e@ == err_unexpected_number(position as nat),
    {
        SvgParseError { message: String::from_str("Unexpected number without command"), position }
    }

    /// The error for the command letter `c` at token `position`, where a
    /// number was due.
    pub fn expected_number(c: char, position: usize) -> (e: SvgParseError)
        ensures
            e@ == err_expected_number(c, position as nat),
    {
        let mut message = String::from_str("Expected number, got command '");
        message.push(c);
        message.append("'");
        SvgParseError { message, position }
    }

    /// The error for a coordinate pair that the input ends in, the value
    /// that is missing being due as token `position`.
    pub fn short_point(position: usize) -> (e: SvgParseError)
        ensures
            e@ == err_short_point(position as nat),
    {
        SvgParseError { message: String::from_str("Not enough values for point"), position }
    }

    /// The error for an arc that the input ends in, the value that is
    /// missing being due as token `position`.
    pub fn short_arc(position: usize) -> (e: SvgParseError)
        ensures
            e@ == err_short_arc(position as nat),
    {
        SvgParseError { message: String::from_str("Not enough values for arc"), position }
    }

    /// The error for curves that are not as many as the `needed` arcs that
    /// need them.
    pub fn arc_count(needed: usize) -> (e: SvgParseError)
        ensures
            e@ == err_arc_count(needed as nat),
    {
        SvgParseError { message: String::from_str("Wrong number of arc curves"), position: needed }
    }

    /// The error for the curves of the arc with index `position` among
    /// those that need curves, which are none or not all curves.
    pub fn arc_curves(position: usize) -> (e: SvgParseError)
        ensures
            e@ == err_arc_curves(position as nat),
    {
        SvgParseError {
            message: String::from_str("Arc curves must be one or more cubic curves"),
            position,
        }
    }
}

/// One continuous curve: from a move-to to a close-path, the next move-to
/// or the end of the input.
#[derive(Debug, Clone, PartialEq, Eq)]
pub struct ParsedSubpath {
    pub start: Point,
    pub outline: Outline,
    pub closed: bool,
}

/// What a [`ParsedSubpath`] holds.
pub struct ParsedSubpathView {
    pub start: Point,
    pub outline: OutlineView,
    pub closed: bool,
}

impl View for ParsedSubpath {
    type V = ParsedSubpathView;

    open spec fn view(&self) -> ParsedSubpathView {
        ParsedSubpathView { start: self.start, outline: self.outline@, closed: self.closed }
    }
}

/// The views of a run of subpaths.
pub open spec fn subpath_views(subpaths: Seq<ParsedSubpath>) -> Seq<ParsedSubpathView> {
    subpaths.map_values(|p: ParsedSubpath| p@)
}

/// Whether one of `segments` is a curve.
pub open spec fn has_curve(segments: Seq<Segment>) -> bool {
    exists|i: int| 0 <= i < segments.len() && #[trigger] segments[i] is Cubic
}

impl SvgConfig {
    /// The end point of `segment` in the file's units.
    pub open spec fn end_of(self, segment: Segment) -> Point {
        match segment {
            Segment::Line { x, y } => self.native_point(x, y),
            Segment::Cubic { x, y, .. } => self.native_point(x, y),
        }
    }

    /// `segment` as a straight segment of the file.
    pub open spec fn line_of(self, segment: Segment) -> SegmentLine {
        SegmentLine { end: self.end_of(segment) }
    }

    /// `segment` as a curve of the file; a straight segment becomes the
    /// curve whose control points both lie on its end point.
    pub open spec fn bezier_of(self, segment: Segment) -> SegmentBezier {
        match segment {
            Segment::Line { x, y } => SegmentBezier {
                control1: self.native_point(x, y),
                control2: self.native_point(x, y),
                end: self.native_point(x, y),
            },
            Segment::Cubic { c1x, c1y, c2x, c2y, x, y } => SegmentBezier {
                control1: self.native_point(c1x, c1y),
                control2: self.native_point(c2x, c2y),
                end: self.native_point(x, y),
            },
        }
    }

    /// The outline of a subpath: curves throughout if one of its segments
    /// is a curve, straight segments otherwise.
    pub open spec fn outline_of(self, segments: Seq<Segment>) -> OutlineView {
        if has_curve(segments) {
            OutlineView::Bezier(segments.map_values(|s: Segment| self.bezier_of(s)))
        } else {
            OutlineView::Line(segments.map_values(|s: Segment| self.line_of(s)))
        }
    }

    /// A subpath in the file's units.
    pub open spec fn subpath_of(self, raw: RawSubpathView) -> ParsedSubpathView {
        ParsedSubpathView {
            start: self.native_point(raw.start_x, raw.start_y),
            outline: self.outline_of(raw.segments),
            closed: raw.closed,
        }
    }

    /// A subpath as a shape with one outline.
    pub open spec fn shape_of(self, raw: RawSubpathView) -> PathShapeView {
        PathShapeView {
            start: self.native_point(raw.start_x, raw.start_y),
            outlines: seq![self.outline_of(raw.segments)],
        }
    }

    /// The subpaths in artwork units that a token sequence draws, given the
    /// curves for its arcs: the first error of the grammar, else an error
    /// if `arcs` does not hold one entry for each arc that needs curves,
    /// else an error at the first entry that is not one or more cubic
    /// curves.
    pub open spec fn traced(tokens: Seq<Token>, arcs: Seq<Seq<Segment>>) -> Parsed<
        Seq<RawSubpathView>,
    > {
        match commands_of(tokens) {
            Err(e) => Err(e),
            Ok(commands) => if requests_of(commands).len() != arcs.len() {
                Err(err_arc_count(requests_of(commands).len()))
            } else if first_improper(arcs, 0) < arcs.len() {
                Err(err_arc_curves(first_improper(arcs, 0) as nat))
            } else {
                Ok(subpaths_of(commands, arcs))
            },
        }
    }

    /// The subpaths that a token sequence draws.
    pub open spec fn subpaths_of_tokens(self, tokens: Seq<Token>, arcs: Seq<Seq<Segment>>)
        -> Parsed<Seq<ParsedSubpathView>> {
        match SvgConfig::traced(tokens, arcs) {
            Err(e) => Err(e),
            Ok(raw) => Ok(raw.map_values(|p: RawSubpathView| self.subpath_of(p))),
        }
    }

    /// The subpaths that the path description `d` draws.
    pub open spec fn subpaths_of_path(self, d: Seq<char>, arcs: Seq<Seq<Segment>>) -> Parsed<
        Seq<ParsedSubpathView>,
    > {
        match tokens_of(d) {
            Err(e) => Err(e),
            Ok(tokens) => self.subpaths_of_tokens(tokens, arcs),
        }
    }

    /// The shapes that the path description `d` draws.
    pub open spec fn shapes_of_path(self, d: Seq<char>, arcs: Seq<Seq<Segment>>) -> Parsed<
        Seq<PathShapeView>,
    > {
        match tokens_of(d) {
            Err(e) => Err(e),
            Ok(tokens) => match SvgConfig::traced(tokens, arcs) {
                Err(e) => Err(e),
                Ok(raw) => Ok(raw.map_values(|p: RawSubpathView| self.shape_of(p))),
            },
        }
    }
}

/// The arcs of the path description `d` that need curves, in order.
pub open spec fn arcs_of_path(d: Seq<char>) -> Parsed<Seq<ArcRequest>> {
    match tokens_of(d) {
        Err(e) => Err(e),
        Ok(tokens) => match commands_of(tokens) {
            Err(e) => Err(e),
            Ok(commands) => Ok(requests_of(commands)),
        },
    }
}

/// What a function that returns subpaths returned, as a specification
/// value.
pub open spec fn parsed_subpaths(r: Result<Vec<ParsedSubpath>, SvgParseError>) -> Parsed<
    Seq<ParsedSubpathView>,
> {
    match r {
        Ok(subpaths) => Ok(subpath_views(subpaths@)),
        Err(e) => Err(e@),
    }
}

/// What a function that returns shapes returned, as a specification value.
pub open spec fn parsed_shapes(r: Result<Vec<PathShape>, SvgParseError>) -> Parsed<
    Seq<PathShapeView>,
> {
    match r {
        Ok(shapes) => Ok(shape_views(shapes@)),
        Err(e) => Err(e@),
    }
}

/// What a function that returns arcs returned, as a specification value.
pub open spec fn parsed_arcs(r: Result<Vec<ArcRequest>, SvgParseError>) -> Parsed<
    Seq<ArcRequest>,
> {
    match r {
        Ok(arcs) => Ok(arcs@),
        Err(e) => Err(e@),
    }
}

/// Turns path descriptions into outlines.
pub struct SvgPathParser {
    config: SvgConfig,
}

impl SvgPathParser {
    /// The configuration the parser was made with.
    pub closed spec fn config(&self) -> SvgConfig {
        self.config
    }

    /// A parser that converts with `config`.
    pub fn new(config: SvgConfig) -> (r: SvgPathParser)
        ensures
            r.config() == config,
    {
        SvgPathParser { config }
    }

    /// The outline of a subpath with the segments `segments`.
    pub fn build_outline(&self, segments: &Vec<Segment>) -> (r: Outline)
        ensures
            r@ == self.config().outline_of(segments@),
    {
        let mut curved: bool = false;
        let mut i: usize = 0;
        while i < segments.len()
            invariant
                i <= segments@.len(),
                curved == has_curve(segments@.take(i as int)),
            decreases segments@.len() - i,
        {
            let ghost before = segments@.take(i as int);
            let ghost now = segments@.take(i + 1);
            proof {
                if has_curve(before) {
                    let j = choose|j: int| 0 <= j < before.len() && #[trigger] before[j] is Cubic;
                    assert(now[j] is Cubic);
                }
                if segments@[i as int] is Cubic {
                    assert(now[i as int] is Cubic);
                }
                if has_curve(now) {
                    let j = choose|j: int| 0 <= j < now.len() && #[trigger] now[j] is Cubic;
                    if j < i {
                        assert(before[j] is Cubic);
                    }
                }
            }
            match segments[i] {
                Segment::Cubic { .. } => {
                    curved = true;
                },
                Segment::Line { .. } => {},
            }
            i = i + 1;
        }
        assert(segments@.take(segments@.len() as int) =~= segments@);
        if curved {
            let mut curves: Vec<SegmentBezier> = Vec::new();
            let mut k: usize = 0;
            while k < segments.len()
                invariant
                    k <= segments@.len(),
                    curves@ == segments@.take(k as int).map_values(
                        |s: Segment| self.config().bezier_of(s),
                    ),
                decreases segments@.len() - k,
            {
                let curve: SegmentBezier = match segments[k] {
                    Segment::Line { x, y } => {
                        let end: Point = self.config.point_to_fcm(x, y);
                        SegmentBezier { control1: end, control2: end, end }
                    },
                    Segment::Cubic { c1x, c1y, c2x, c2y, x, y } => SegmentBezier {
                        control1: self.config.point_to_fcm(c1x, c1y),
                        control2: self.config.point_to_fcm(c2x, c2y),
                        end: self.config.point_to_fcm(x, y),
                    },
                };
                curves.push(curve);
                assert(curves@ =~= segments@.take(k + 1).map_values(
                    |s: Segment| self.config().bezier_of(s),
                ));
                k = k + 1;
            }
            Outline::Bezier(curves)
        } else {
            let mut lines: Vec<SegmentLine> = Vec::new();
            let mut k: usize = 0;
            while k < segments.len()
                invariant
                    k <= segments@.len(),
                    lines@ == segments@.take(k as int).map_values(
                        |s: Segment| self.config().line_of(s),
                    ),
                decreases segments@.len() - k,
            {
                let end: Point = match segments[k] {
                    Segment::Line { x, y } => self.config.point_to_fcm(x, y),
                    Segment::Cubic { x, y, .. } => self.config.point_to_fcm(x, y),
                };
                lines.push(SegmentLine { end });
                assert(lines@ =~= segments@.take(k + 1).map_values(
                    |s: Segment| self.config().line_of(s),
                ));
                k = k + 1;
            }
            Outline::Line(lines)
        }
    }

    /// The subpath that starts at `(start_x, start_y)` and has the
    /// segments `segments`, in the file's units. If one segment is a curve,
    /// every straight segment becomes a curve too.
    pub fn build_subpath(
        &self,
        start_x: Fixed,
        start_y: Fixed,
        segments: &Vec<Segment>,
        closed: bool,
    ) -> (r: ParsedSubpath)
        ensures
            r@ == self.config().subpath_of(
                RawSubpathView { start_x, start_y, segments: segments@, closed },
            ),
    {
        let start: Point = self.config.point_to_fcm(start_x, start_y);
        let outline: Outline = self.build_outline(segments);
        ParsedSubpath { start, outline, closed }
    }

    /// Carries out a token sequence in artwork units.
    fn trace(tokens: &Vec<Token>, arcs: &Vec<Vec<Segment>>) -> (r: Result<
        Vec<RawSubpath>,
        SvgParseError,
    >)
        ensures
            match r {
                Ok(raw) => SvgConfig::traced(tokens@, curve_views(arcs@)) == Ok::<
                    _,
                    SvgParseErrorView,
                >(raw_views(raw@)),
                Err(e) => SvgConfig::traced(tokens@, curve_views(arcs@)) == Err::<
                    Seq<RawSubpathView>,
                    _,
                >(e@),
            },
    {
        let commands: Vec<PathCommand> = match parse_commands(tokens) {
            Ok(commands) => commands,
            Err(e) => {
                return Err(e);
            },
        };
        let session = run(&commands, arcs);
        proof {
            lemma_requests_fixed(commands@, curve_views(arcs@));
        }
        if session.requests.len() != arcs.len() {
            return Err(SvgParseError::arc_count(session.requests.len()));
        }
        match find_improper(arcs) {
            Some(k) => Err(SvgParseError::arc_curves(k)),
            None => Ok(session.finish()),
        }
    }

    /// Carries out a token sequence. `arcs` holds the curves of the arcs
    /// that need them, one entry for each, in their order, and each entry
    /// one or more cubic curves.
    ///
    /// Fails with the first error of the grammar, else if `arcs` has not
    /// as many entries as arcs need curves, else at the first entry that
    /// is empty or holds a straight segment.
    pub fn parse_tokens(&self, tokens: &Vec<Token>, arcs: &Vec<Vec<Segment>>) -> (r: Result<
        Vec<ParsedSubpath>,
        SvgParseError,
    >)
        ensures
            parsed_subpaths(r) == self.config().subpaths_of_tokens(tokens@, curve_views(arcs@)),
    {
        let raw: Vec<RawSubpath> = match SvgPathParser::trace(tokens, arcs) {
            Ok(raw) => raw,
            Err(e) => {
                return Err(e);
            },
        };
        let mut subpaths: Vec<ParsedSubpath> = Vec::new();
        let mut i: usize = 0;
        while i < raw.len()
            invariant
                i <= raw@.len(),
                subpath_views(subpaths@) == raw_views(raw@).take(i as int).map_values(
                    |p: RawSubpathView| self.config().subpath_of(p),
                ),
            decreases raw@.len() - i,
        {
            let p = &raw[i];
            let built = self.build_subpath(p.start_x, p.start_y, &p.segments, p.closed);
            let ghost before = subpaths@;
            subpaths.push(built);
            proof {
                assert(built@ == self.config().subpath_of(raw@[i as int]@));
                assert(subpath_views(subpaths@) =~= subpath_views(before).push(built@));
                assert(raw_views(raw@).take(i + 1) =~= raw_views(raw@).take(i as int).push(
                    raw@[i as int]@,
                ));
                assert(subpath_views(subpaths@) =~= raw_views(raw@).take(i + 1).map_values(
                    |p: RawSubpathView| self.config().subpath_of(p),
                ));
            }
            i = i + 1;
        }
        assert(raw_views(raw@).take(raw@.len() as int) =~= raw_views(raw@));
        Ok(subpaths)
    }

    /// Turns a path description into subpaths. `arcs` holds the curves of
    /// the arcs that [`SvgPathParser::arc_requests`] lists, in their order,
    /// one or more cubic curves for each.
    ///
    /// Fails where the text cannot be split into tokens, and where
    /// [`SvgPathParser::parse_tokens`] fails.
    pub fn parse_to_subpaths(&self, d: &str, arcs: &Vec<Vec<Segment>>) -> (r: Result<
        Vec<ParsedSubpath>,
        SvgParseError,
    >)
        ensures
            parsed_subpaths(r) == self.config().subpaths_of_path(d@, curve_views(arcs@)),
    {
        let tokens: Vec<Token> = match tokenize(d) {
            Ok(tokens) => tokens,
            Err(e) => {
                return Err(e);
            },
        };
        self.parse_tokens(&tokens, arcs)
    }

    /// Turns a path description into shapes, one for each subpath. `arcs`
    /// holds the curves of the arcs that [`SvgPathParser::arc_requests`]
    /// lists, in their order, one or more cubic curves for each.
    ///
    /// Fails where [`SvgPathParser::parse_to_subpaths`] fails.
    pub fn parse(&self, d: &str, arcs: &Vec<Vec<Segment>>) -> (r: Result<
        Vec<PathShape>,
        SvgParseError,
    >)
        ensures
            parsed_shapes(r) == self.config().shapes_of_path(d@, curve_views(arcs@)),
    {
        let tokens: Vec<Token> = match tokenize(d) {
            Ok(tokens) => tokens,
            Err(e) => {
                return Err(e);
            },
        };
        let raw: Vec<RawSubpath> = match SvgPathParser::trace(&tokens, arcs) {
            Ok(raw) => raw,
            Err(e) => {
                return Err(e);
            },
        };
        let mut shapes: Vec<PathShape> = Vec::new();
        let mut i: usize = 0;
        while i < raw.len()
            invariant
                i <= raw@.len(),
                shape_views(shapes@) == raw_views(raw@).take(i as int).map_values(
                    |p: RawSubpathView| self.config().shape_of(p),
                ),
            decreases raw@.len() - i,
        {
            let p = &raw[i];
            let start: Point = self.config.point_to_fcm(p.start_x, p.start_y);
            let mut outlines: Vec<Outline> = Vec::new();
            outlines.push(self.build_outline(&p.segments));
            let shape = PathShape { start, outlines };
            assert(shape@.outlines =~= seq![self.config().outline_of(p.segments@)]);
            let ghost before = shapes@;
            let ghost shape_view = shape@;
            shapes.push(shape);
            proof {
                assert(shape_view == self.config().shape_of(raw@[i as int]@));
                assert(shape_views(shapes@) =~= shape_views(before).push(shape_view));
                assert(raw_views(raw@).take(i + 1) =~= raw_views(raw@).take(i as int).push(
                    raw@[i as int]@,
                ));
                assert(shape_views(shapes@) =~= raw_views(raw@).take(i + 1).map_values(
                    |p: RawSubpathView| self.config().shape_of(p),
                ));
            }
            i = i + 1;
        }
        assert(raw_views(raw@).take(raw@.len() as int) =~= raw_views(raw@));
        Ok(shapes)
    }

    /// The arcs of a path description that need curves, in the order in
    /// which `parse` and `parse_to_subpaths` take the curves.
    pub fn arc_requests(&self, d: &str) -> (r: Result<Vec<ArcRequest>, SvgParseError>)
        ensures
            parsed_arcs(r) == arcs_of_path(d@),
    {
        let tokens: Vec<Token> = match tokenize(d) {
            Ok(tokens) => tokens,
            Err(e) => {
                return Err(e);
            },
        };
        let commands: Vec<PathCommand> = match parse_commands(&tokens) {
            Ok(commands) => commands,
            Err(e) => {
                return Err(e);
            },
        };
        let none: Vec<Vec<Segment>> = Vec::new();
        let session = run(&commands, &none);
        proof {
            lemma_requests_fixed(commands@, curve_views(none@));
        }
        Ok(session.requests)
    }
}

/// A token sequence is carried out only with curves that can stand for
/// arcs: where it gives subpaths, `arcs` holds one entry for each arc that
/// needs curves, and each entry is one or more cubic curves.
pub proof fn lemma_traced_curves_proper(tokens: Seq<Token>, arcs: Seq<Seq<Segment>>)
    requires
        SvgConfig::traced(tokens, arcs) is Ok,
    ensures
        commands_of(tokens) is Ok,
        arcs.len() == requests_of(commands_of(tokens)->Ok_0).len(),
        forall|k: int| 0 <= k < arcs.len() ==> proper_curves(#[trigger] arcs[k]),
{
    lemma_first_improper(arcs, 0);
}

/// A converted length is a nearest whole number of hundredths of a
/// millimetre: where it is not clamped, it differs from the exact length,
/// `value * scale * 2540 / (dpi * 1000000)`, by at most a half.
pub proof fn lemma_to_fcm_nearest(config: SvgConfig, value: Fixed)
    requires
        config.dpi.micros != 0,
        i32::MIN <= div_round(
            value.micros * config.scale.micros * 2540,
            config.dpi.micros * 1_000_000,
        ) <= i32::MAX,
    ensures
        2 * magnitude(
            config.native(value) * (config.dpi.micros * 1_000_000) - value.micros
                * config.scale.micros * 2540,
        ) <= magnitude(config.dpi.micros * 1_000_000),
{
    crate::fixed::lemma_div_round_nearest(
        value.micros * config.scale.micros * 2540,
        config.dpi.micros * 1_000_000,
    );
}

/// Two conversions of the same length with the same configuration give
/// the same number.
pub proof fn lemma_to_fcm_deterministic(config: SvgConfig, value: Fixed, first: i32, second: i32)
    requires
        first == config.native(value),
        second == config.native(value),
    ensures
        first == second,
{
}

/// Two results of turning the same path description into subpaths, with
/// the same configuration and the same curves, are the same.
pub proof fn lemma_parse_deterministic(
    config: SvgConfig,
    d: Seq<char>,
    arcs: Seq<Seq<Segment>>,
    first: Result<Vec<ParsedSubpath>, SvgParseError>,
    second: Result<Vec<ParsedSubpath>, SvgParseError>,
)
    requires
        parsed_subpaths(first) == config.subpaths_of_path(d, arcs),
        parsed_subpaths(second) == config.subpaths_of_path(d, arcs),
    ensures
        parsed_subpaths(first) == parsed_subpaths(second),
{
}

} // verus!
