use fcmlib::command::{parse_commands, read_number, read_point, PathCommand};
use fcmlib::interpreter::{
    are_proper_curves, arc_to_beziers, find_improper, ArcRequest, Segment,
};
use fcmlib::lexer::{tokenize, Token};
use fcmlib::svg_path::{ParsedSubpath, SvgConfig, SvgParseError, SvgPathParser};
use fcmlib::{Fixed, Outline, Point, SegmentBezier, SegmentLine};

fn fx(value: f64) -> Fixed {
    Fixed::from_micros((value * 1_000_000.0).round() as i64)
}

/// One artwork unit is one hundredth of a millimetre.
fn one_to_one() -> SvgPathParser {
    SvgPathParser::new(SvgConfig {
        dpi: Fixed::from_int(2540),
        ..Default::default()
    })
}

fn web() -> SvgPathParser {
    SvgPathParser::new(SvgConfig {
        dpi: Fixed::from_int(96),
        ..Default::default()
    })
}

fn p(x: i32, y: i32) -> Point {
    Point { x, y }
}

fn line(x: i32, y: i32) -> SegmentLine {
    SegmentLine { end: p(x, y) }
}

fn subpaths(d: &str) -> Vec<ParsedSubpath> {
    one_to_one().parse_to_subpaths(d, &vec![]).unwrap()
}

fn failure(d: &str) -> SvgParseError {
    one_to_one().parse_to_subpaths(d, &vec![]).unwrap_err()
}

/// The curves of an arc, worked out in floating point.
fn arc_curves(arc: &ArcRequest) -> Vec<Segment> {
    let v = |f: Fixed| f.micros as f64 / 1_000_000.0;
    let (x1, y1, x2, y2) = (v(arc.x1), v(arc.y1), v(arc.x2), v(arc.y2));
    let mut rx = v(arc.rx).abs();
    let mut ry = v(arc.ry).abs();
    let phi = v(arc.x_rotation).to_radians();
    let (cos_phi, sin_phi) = (phi.cos(), phi.sin());
    let dx = (x1 - x2) / 2.0;
    let dy = (y1 - y2) / 2.0;
    let x1p = cos_phi * dx + sin_phi * dy;
    let y1p = -sin_phi * dx + cos_phi * dy;
    let lambda = (x1p * x1p) / (rx * rx) + (y1p * y1p) / (ry * ry);
    if lambda > 1.0 {
        rx *= lambda.sqrt();
        ry *= lambda.sqrt();
    }
    let (rx2, ry2, x1p2, y1p2) = (rx * rx, ry * ry, x1p * x1p, y1p * y1p);
    let mut sq = ((rx2 * ry2 - rx2 * y1p2 - ry2 * x1p2) / (rx2 * y1p2 + ry2 * x1p2))
        .max(0.0)
        .sqrt();
    if arc.large_arc == arc.sweep {
        sq = -sq;
    }
    let cxp = sq * rx * y1p / ry;
    let cyp = -sq * ry * x1p / rx;
    let cx = cos_phi * cxp - sin_phi * cyp + (x1 + x2) / 2.0;
    let cy = sin_phi * cxp + cos_phi * cyp + (y1 + y2) / 2.0;
    let angle = |ux: f64, uy: f64, vx: f64, vy: f64| {
        let dot = ux * vx + uy * vy;
        let len = (ux * ux + uy * uy).sqrt() * (vx * vx + vy * vy).sqrt();
        let a = (dot / len).clamp(-1.0, 1.0).acos();
        if ux * vy - uy * vx < 0.0 {
            -a
        } else {
            a
        }
    };
    let theta1 = angle(1.0, 0.0, (x1p - cxp) / rx, (y1p - cyp) / ry);
    let mut dtheta = angle(
        (x1p - cxp) / rx,
        (y1p - cyp) / ry,
        (-x1p - cxp) / rx,
        (-y1p - cyp) / ry,
    );
    if !arc.sweep && dtheta > 0.0 {
        dtheta -= 2.0 * std::f64::consts::PI;
    } else if arc.sweep && dtheta < 0.0 {
        dtheta += 2.0 * std::f64::consts::PI;
    }
    let n = (dtheta.abs() / (std::f64::consts::PI / 2.0)).ceil() as usize;
    let step = dtheta / n as f64;
    let mut out = Vec::new();
    let mut theta = theta1;
    for _ in 0..n {
        let end = theta + step;
        let t = (step / 4.0).tan();
        let alpha = step.sin() * ((4.0 + 3.0 * t * t).sqrt() - 1.0) / 3.0;
        let (c1, s1, c2, s2) = (theta.cos(), theta.sin(), end.cos(), end.sin());
        let p1x = cx + rx * cos_phi * c1 - ry * sin_phi * s1;
        let p1y = cy + rx * sin_phi * c1 + ry * cos_phi * s1;
        let p2x = cx + rx * cos_phi * c2 - ry * sin_phi * s2;
        let p2y = cy + rx * sin_phi * c2 + ry * cos_phi * s2;
        let dx1 = -rx * cos_phi * s1 - ry * sin_phi * c1;
        let dy1 = -rx * sin_phi * s1 + ry * cos_phi * c1;
        let dx2 = -rx * cos_phi * s2 - ry * sin_phi * c2;
        let dy2 = -rx * sin_phi * s2 + ry * cos_phi * c2;
        out.push(Segment::Cubic {
            c1x: fx(p1x + alpha * dx1),
            c1y: fx(p1y + alpha * dy1),
            c2x: fx(p2x - alpha * dx2),
            c2y: fx(p2y - alpha * dy2),
            x: fx(p2x),
            y: fx(p2y),
        });
        theta = end;
    }
    out
}

#[test]
fn test_simple_rect() {
    let parser = SvgPathParser::new(SvgConfig {
        dpi: Fixed::from_int(96),
        ..Default::default()
    });

    let result = parser
        .parse("M 0,0 L 100,0 L 100,100 L 0,100 Z", &vec![])
        .unwrap();
    assert_eq!(result.len(), 1);

    let shape = &result[0];
    assert_eq!(shape.start.x, 0);
    assert_eq!(shape.start.y, 0);

    match &shape.outlines[0] {
        Outline::Line(segments) => {
            assert_eq!(segments.len(), 4); // 3 lines + closing line
        }
        _ => panic!("Expected line outline"),
    }
}

#[test]
fn test_relative_commands() {
    let parser = SvgPathParser::new(SvgConfig {
        dpi: Fixed::from_int(96),
        ..Default::default()
    });

    let result = parser
        .parse("M 0,0 l 100,0 l 0,100 l -100,0 z", &vec![])
        .unwrap();
    assert_eq!(result.len(), 1);
}

#[test]
fn test_bezier_curve() {
    let parser = SvgPathParser::new(SvgConfig {
        dpi: Fixed::from_int(96),
        ..Default::default()
    });

    let result = parser
        .parse("M 0,0 C 50,0 50,100 100,100", &vec![])
        .unwrap();
    assert_eq!(result.len(), 1);

    match &result[0].outlines[0] {
        Outline::Bezier(segments) => {
            assert_eq!(segments.len(), 1);
        }
        _ => panic!("Expected bezier outline"),
    }
}

#[test]
fn rectangle_at_96_dpi_is_exact() {
    let found = web()
        .parse_to_subpaths("M 0,0 L 100,0 L 100,100 L 0,100 Z", &vec![])
        .unwrap();
    // 100 / 96 * 25.4 * 100 = 2645.83...
    assert_eq!(
        found,
        vec![ParsedSubpath {
            start: p(0, 0),
            outline: Outline::Line(vec![
                line(2646, 0),
                line(2646, 2646),
                line(0, 2646),
                line(0, 0)
            ]),
            closed: true,
        }]
    );
}

#[test]
fn relative_rectangle_equals_absolute_rectangle() {
    let absolute = web()
        .parse_to_subpaths("M 0,0 L 100,0 L 100,100 L 0,100 Z", &vec![])
        .unwrap();
    let relative = web()
        .parse_to_subpaths("M 0,0 l 100,0 l 0,100 l -100,0 z", &vec![])
        .unwrap();
    assert_eq!(absolute, relative);
}

#[test]
fn curve_without_close_is_unclosed() {
    let found = subpaths("M 0,0 C 50,0 50,100 100,100");
    assert_eq!(
        found,
        vec![ParsedSubpath {
            start: p(0, 0),
            outline: Outline::Bezier(vec![SegmentBezier {
                control1: p(50, 0),
                control2: p(50, 100),
                end: p(100, 100),
            }]),
            closed: false,
        }]
    );
}

#[test]
fn smooth_curve_reflects_the_last_control_point() {
    let found = subpaths("M 0,0 C 10,0 20,10 20,20 S 40,40 40,20");
    match &found[0].outline {
        Outline::Bezier(segments) => {
            assert_eq!(segments.len(), 2);
            assert_eq!(segments[1].control1, p(20, 30));
            assert_eq!(segments[1].control2, p(40, 40));
            assert_eq!(segments[1].end, p(40, 20));
        }
        _ => panic!("Expected bezier outline"),
    }
}

#[test]
fn smooth_curve_after_a_line_does_not_reflect() {
    let found = subpaths("M 0,0 C 10,0 20,10 20,20 L 30,30 S 40,40 40,20");
    match &found[0].outline {
        Outline::Bezier(segments) => {
            assert_eq!(segments[2].control1, p(30, 30));
        }
        _ => panic!("Expected bezier outline"),
    }
}

#[test]
fn later_groups_of_a_smooth_curve_reflect() {
    // The first group of the S follows a line and does not reflect; the
    // second follows a smooth curve and does.
    let found = subpaths("M 0,0 L 10,10 S 20,20 30,30 40,40 50,50");
    match &found[0].outline {
        Outline::Bezier(segments) => {
            assert_eq!(segments.len(), 3);
            assert_eq!(segments[1].control1, p(10, 10));
            assert_eq!(segments[1].control2, p(20, 20));
            assert_eq!(segments[2].control1, p(40, 40));
            assert_eq!(segments[2].control2, p(40, 40));
            assert_eq!(segments[2].end, p(50, 50));
        }
        _ => panic!("Expected bezier outline"),
    }
}

#[test]
fn later_groups_of_a_smooth_curve_reflect_at_96_dpi() {
    let found = web()
        .parse_to_subpaths("M 0,0 L 96,96 S 192,192 288,288 384,192 480,288", &vec![])
        .unwrap();
    match &found[0].outline {
        Outline::Bezier(segments) => {
            assert_eq!(segments.len(), 3);
            assert_eq!(segments[1].control1, p(2540, 2540));
            assert_eq!(segments[2].control1, p(10160, 10160));
            assert_eq!(segments[2].control2, p(10160, 5080));
            assert_eq!(segments[2].end, p(12700, 7620));
        }
        _ => panic!("Expected bezier outline"),
    }
}

#[test]
fn later_groups_of_a_smooth_quadratic_reflect() {
    // The first group of the T follows a line: its control point is the
    // current point. The second reflects that through (20, 0) to (30, 0).
    let found = subpaths("M 0,0 L 10,0 T 20,0 40,20");
    match &found[0].outline {
        Outline::Bezier(segments) => {
            assert_eq!(segments.len(), 3);
            assert_eq!(segments[1].control1, p(10, 0));
            assert_eq!(segments[1].control2, p(13, 0));
            assert_eq!(segments[2].control1, p(27, 0));
            assert_eq!(segments[2].control2, p(33, 7));
            assert_eq!(segments[2].end, p(40, 20));
        }
        _ => panic!("Expected bezier outline"),
    }
}

#[test]
fn reflection_is_settled_group_by_group() {
    let tokens = tokenize("M 0 0 S 1 2 3 4 5 6 7 8 T 1 2 3 4 Q 1 2 3 4 T 5 6 7 8 L 1 2 3 4").unwrap();
    let flags: Vec<Option<bool>> = parse_commands(&tokens)
        .unwrap()
        .iter()
        .map(|command| match command {
            PathCommand::SmoothCubicTo { reflect, .. } => Some(*reflect),
            PathCommand::SmoothQuadraticTo { reflect, .. } => Some(*reflect),
            _ => None,
        })
        .collect();
    assert_eq!(
        flags,
        vec![
            None,
            Some(false),
            Some(true),
            Some(false),
            Some(true),
            None,
            Some(true),
            Some(true),
            None,
            None,
        ]
    );
}

#[test]
fn quadratic_becomes_cubic() {
    let found = subpaths("M 0,0 Q 30,30 60,0");
    assert_eq!(
        found[0].outline,
        Outline::Bezier(vec![SegmentBezier {
            control1: p(20, 20),
            control2: p(40, 20),
            end: p(60, 0),
        }])
    );
}

#[test]
fn smooth_quadratic_reflects_the_quadratic_control_point() {
    let found = subpaths("M 0,0 Q 30,30 60,0 T 120,0");
    match &found[0].outline {
        Outline::Bezier(segments) => {
            // The reflected control point is (90, -30).
            assert_eq!(segments[1].control1, p(80, -20));
            assert_eq!(segments[1].control2, p(100, -20));
            assert_eq!(segments[1].end, p(120, 0));
        }
        _ => panic!("Expected bezier outline"),
    }
}

#[test]
fn smooth_quadratic_alone_is_a_straight_curve() {
    let found = subpaths("M 0,0 T 30,0");
    assert_eq!(
        found[0].outline,
        Outline::Bezier(vec![SegmentBezier {
            control1: p(0, 0),
            control2: p(10, 0),
            end: p(30, 0),
        }])
    );
}

#[test]
fn horizontal_and_vertical_lines() {
    let found = subpaths("M 10,20 H 50 V 60 h -5 v -5");
    assert_eq!(
        found[0].outline,
        Outline::Line(vec![line(50, 20), line(50, 60), line(45, 60), line(45, 55)])
    );
}

#[test]
fn pairs_behind_a_move_are_lines() {
    let found = subpaths("M 0,0 10,0 10,10");
    assert_eq!(found[0].outline, Outline::Line(vec![line(10, 0), line(10, 10)]));
    let found = subpaths("m 5,5 10,0 0,10");
    assert_eq!(found[0].start, p(5, 5));
    assert_eq!(found[0].outline, Outline::Line(vec![line(15, 5), line(15, 15)]));
}

#[test]
fn a_move_ends_the_open_subpath() {
    let found = subpaths("M 0,0 L 10,0 M 20,20 L 30,20 Z M 1,1");
    assert_eq!(found.len(), 2);
    assert!(!found[0].closed);
    assert_eq!(found[0].outline, Outline::Line(vec![line(10, 0)]));
    assert!(found[1].closed);
    assert_eq!(found[1].start, p(20, 20));
    assert_eq!(found[1].outline, Outline::Line(vec![line(30, 20), line(20, 20)]));
}

#[test]
fn close_adds_no_line_within_the_tolerance() {
    let found = subpaths("M 0,0 L 10,0 L 10,10 L 0.001,0.001 Z");
    assert_eq!(found[0].outline.clone(), Outline::Line(vec![line(10, 0), line(10, 10), line(0, 0)]));
    let found = subpaths("M 0,0 L 10,0 L 10,10 L 0.0011,0 Z");
    match &found[0].outline {
        Outline::Line(segments) => assert_eq!(segments.len(), 4),
        _ => panic!("Expected line outline"),
    }
}

#[test]
fn close_moves_the_pen_to_the_start() {
    let found = subpaths("M 10,10 L 20,10 Z l 5,5 M 0,0 L 1,1");
    // The line behind the close starts at (10, 10) and belongs to no open
    // subpath; it is kept and leads the next subpath.
    assert_eq!(found.len(), 2);
    assert_eq!(found[1].start, p(0, 0));
    assert_eq!(found[1].outline, Outline::Line(vec![line(15, 15), line(1, 1)]));
}

#[test]
fn empty_paths() {
    assert_eq!(subpaths(""), vec![]);
    assert_eq!(subpaths("  ,\t\n"), vec![]);
    assert_eq!(subpaths("M 1,1"), vec![]);
    assert_eq!(subpaths("M 1,1 Z"), vec![]);
    assert_eq!(subpaths("L 1,1 L 2,2"), vec![]);
}

#[test]
fn a_curve_turns_every_line_into_a_curve() {
    let found = subpaths("M 0,0 L 10,0 C 20,0 30,10 30,20 L 0,20 Z");
    assert_eq!(
        found[0].outline,
        Outline::Bezier(vec![
            SegmentBezier { control1: p(10, 0), control2: p(10, 0), end: p(10, 0) },
            SegmentBezier { control1: p(20, 0), control2: p(30, 10), end: p(30, 20) },
            SegmentBezier { control1: p(0, 20), control2: p(0, 20), end: p(0, 20) },
            SegmentBezier { control1: p(0, 0), control2: p(0, 0), end: p(0, 0) },
        ])
    );
}

#[test]
fn parse_gives_one_shape_for_each_subpath() {
    let shapes = one_to_one().parse("M 0,0 L 10,0 M 5,5 C 1,1 2,2 3,3", &vec![]).unwrap();
    assert_eq!(shapes.len(), 2);
    assert_eq!(shapes[0].start, p(0, 0));
    assert_eq!(shapes[0].outlines, vec![Outline::Line(vec![line(10, 0)])]);
    assert_eq!(shapes[1].start, p(5, 5));
    assert_eq!(shapes[1].outlines.len(), 1);
}

#[test]
fn tokens() {
    assert_eq!(
        tokenize("M10-20,.5e1z").unwrap(),
        vec![
            Token::Command('M'),
            Token::Number(Fixed::from_int(10)),
            Token::Number(Fixed::from_int(-20)),
            Token::Number(Fixed::from_int(5)),
            Token::Command('z'),
        ]
    );
    assert_eq!(
        tokenize(".5.5+3").unwrap(),
        vec![
            Token::Number(Fixed::from_micros(500_000)),
            Token::Number(Fixed::from_micros(500_000)),
            Token::Number(Fixed::from_int(3)),
        ]
    );
}

fn number(text: &str) -> i64 {
    match tokenize(text).unwrap().as_slice() {
        [Token::Number(n)] => n.micros,
        other => panic!("not one number: {:?}", other),
    }
}

#[test]
fn numbers() {
    assert_eq!(number("0"), 0);
    assert_eq!(number("-0"), 0);
    assert_eq!(number("5."), 5_000_000);
    assert_eq!(number("1.5e2"), 150_000_000);
    assert_eq!(number("1.5E+2"), 150_000_000);
    assert_eq!(number("-2.5e-1"), -250_000);
    assert_eq!(number("12.345678"), 12_345_678);
    assert_eq!(number("007"), 7_000_000);
    assert_eq!(number("0.0000014"), 1);
    assert_eq!(number("0.0000015"), 2);
    assert_eq!(number("-0.0000015"), -2);
    assert_eq!(number("0.0000004999"), 0);
    assert_eq!(number("0.0000005"), 1);
    assert_eq!(number("1e-7"), 0);
    assert_eq!(number("5e-7"), 1);
    assert_eq!(number("123456789e-15"), 0);
    assert_eq!(number("0.000000000000000000000001e24"), 1_000_000);
    assert_eq!(number("1e12"), 1_000_000_000_000_000_000);
    assert_eq!(number("9223372036854.775807"), i64::MAX);
    assert_eq!(number("9223372036854.775808"), i64::MAX);
    assert_eq!(number("-9223372036854.775808"), i64::MIN);
    assert_eq!(number("-9223372036854.775809"), i64::MIN);
    assert_eq!(number("1e13"), i64::MAX);
    assert_eq!(number("1e300"), i64::MAX);
    assert_eq!(number("-1e99999999999999999999999999999999999999999"), i64::MIN);
    assert_eq!(number("0e99999999999999999999999999999999999999999"), 0);
    assert_eq!(number("1e-99999999999999999999999999999999999999999"), 0);
}

#[test]
fn unexpected_character() {
    let e = failure("M 0,0 X 1,1");
    assert_eq!(e.message, "Unexpected character: 'X'");
    assert_eq!(e.position, 6);
    let e = failure("M 0,\u{e9}");
    assert_eq!(e.message, "Unexpected character: '\u{e9}'");
    assert_eq!(e.position, 4);
}

#[test]
fn invalid_number() {
    let e = failure("M 1e,2");
    assert_eq!(e.message, "Invalid number: 1e");
    assert_eq!(e.position, 4);
    let e = failure("M -");
    assert_eq!(e.message, "Invalid number: -");
    assert_eq!(e.position, 3);
    let e = failure(".");
    assert_eq!(e.message, "Invalid number: .");
    assert_eq!(e.position, 1);
    let e = failure("M 1,2e+");
    assert_eq!(e.message, "Invalid number: 2e+");
    assert_eq!(e.position, 7);
}

#[test]
fn number_without_command() {
    let e = failure("1 2");
    assert_eq!(e.message, "Unexpected number without command");
    assert_eq!(e.position, 0);
    let e = failure("M 0,0 L 1,1 Z 5");
    assert_eq!(e.message, "Unexpected number without command");
    assert_eq!(e.position, 7);
}

#[test]
fn too_few_operands() {
    // A value that is missing is due where the input ends.
    let e = failure("M 5");
    assert_eq!(e.message, "Not enough values for point");
    assert_eq!(e.position, 2);
    let e = failure("M");
    assert_eq!(e.message, "Not enough values for point");
    assert_eq!(e.position, 1);
    // A letter in the place of a value is at fault itself.
    let e = failure("M 0,0 L 1 Z");
    assert_eq!(e.message, "Expected number, got command 'Z'");
    assert_eq!(e.position, 5);
    let e = failure("M 0,0 C 1,1 2,2 3");
    assert_eq!(e.message, "Not enough values for point");
    assert_eq!(e.position, 9);
    let e = failure("M 0,0 C 1,2 3,4");
    assert_eq!(e.message, "Not enough values for point");
    assert_eq!(e.position, 8);
    let e = failure("M 0,0 C 1,1 2,2 L 3,3");
    assert_eq!(e.message, "Expected number, got command 'L'");
    assert_eq!(e.position, 8);
    let e = failure("M Z");
    assert_eq!(e.message, "Not enough values for point");
    assert_eq!(e.position, 2);
    let e = failure("M Z 1");
    assert_eq!(e.message, "Expected number, got command 'Z'");
    assert_eq!(e.position, 1);
    let e = failure("M 0,0 H 1 2 3 V 4 5 L 6");
    assert_eq!(e.message, "Not enough values for point");
    assert_eq!(e.position, 12);
}

#[test]
fn operand_readers_say_where() {
    let tokens = vec![
        Token::Number(fx(1.0)),
        Token::Command('L'),
        Token::Number(fx(2.0)),
        Token::Number(fx(3.0)),
    ];
    assert_eq!(read_number(&tokens[0], 0), Ok(fx(1.0)));
    let e = read_number(&tokens[1], 1).unwrap_err();
    assert_eq!(e.message, "Expected number, got command 'L'");
    assert_eq!(e.position, 1);
    assert_eq!(read_point(&tokens, 2), Ok((fx(2.0), fx(3.0))));
    let e = read_point(&tokens, 0).unwrap_err();
    assert_eq!(e.message, "Expected number, got command 'L'");
    assert_eq!(e.position, 1);
    let e = read_point(&tokens, 1).unwrap_err();
    assert_eq!(e.message, "Expected number, got command 'L'");
    assert_eq!(e.position, 1);
    let e = read_point(&tokens, 3).unwrap_err();
    assert_eq!(e.message, "Not enough values for point");
    assert_eq!(e.position, 4);
    let e = read_point(&tokens, 9).unwrap_err();
    assert_eq!(e.message, "Not enough values for point");
    assert_eq!(e.position, 4);
}

#[test]
fn too_few_operands_for_an_arc() {
    let e = failure("M 0,0 A 5");
    assert_eq!(e.message, "Not enough values for arc");
    assert_eq!(e.position, 5);
    let e = failure("M 0,0 A 5 5 0 0");
    assert_eq!(e.message, "Not enough values for arc");
    assert_eq!(e.position, 8);
    let e = failure("M 0,0 A 5 5 0 0 1");
    assert_eq!(e.message, "Not enough values for point");
    assert_eq!(e.position, 9);
    let e = failure("M 0,0 A 5 5 0 0 1 7");
    assert_eq!(e.message, "Not enough values for point");
    assert_eq!(e.position, 10);
    let e = failure("M 0,0 A 5 5 Z 0 1 7 7");
    assert_eq!(e.message, "Expected number, got command 'Z'");
    assert_eq!(e.position, 6);
}

#[test]
fn unknown_command() {
    let tokens = vec![Token::Command('M'), Token::Number(fx(1.0)), Token::Number(fx(1.0)), Token::Command('X')];
    let e = parse_commands(&tokens).unwrap_err();
    assert_eq!(e.message, "Unknown command: X");
    assert_eq!(e.position, 3);
    let e = one_to_one().parse_tokens(&tokens, &vec![]).unwrap_err();
    assert_eq!(e.message, "Unknown command: X");
    assert_eq!(e.position, 3);
    let e = parse_commands(&vec![Token::Command('?')]).unwrap_err();
    assert_eq!(e.message, "Unknown command: ?");
    assert_eq!(e.position, 0);
}

#[test]
fn commands() {
    let tokens = tokenize("m 1 2 3 4 S 1 2 3 4 c 1 2 3 4 5 6 s 1 2 3 4 a 1 2 3 0 1 4 5 z").unwrap();
    let n = |v: i32| Fixed::from_int(v);
    assert_eq!(
        parse_commands(&tokens).unwrap(),
        vec![
            PathCommand::MoveTo { relative: true, x: n(1), y: n(2) },
            PathCommand::LineTo { relative: true, x: n(3), y: n(4) },
            PathCommand::SmoothCubicTo {
                relative: false,
                reflect: false,
                c2x: n(1),
                c2y: n(2),
                x: n(3),
                y: n(4)
            },
            PathCommand::CubicTo {
                relative: true,
                c1x: n(1),
                c1y: n(2),
                c2x: n(3),
                c2y: n(4),
                x: n(5),
                y: n(6)
            },
            PathCommand::SmoothCubicTo {
                relative: true,
                reflect: true,
                c2x: n(1),
                c2y: n(2),
                x: n(3),
                y: n(4)
            },
            PathCommand::ArcTo {
                relative: true,
                rx: n(1),
                ry: n(2),
                x_rotation: n(3),
                large_arc: false,
                sweep: true,
                x: n(4),
                y: n(5)
            },
            PathCommand::ClosePath,
        ]
    );
}

#[test]
fn arc_that_ends_where_it_starts_adds_nothing() {
    assert_eq!(subpaths("M 0,0 A 5,5 0 0 1 0,0"), vec![]);
    let found = subpaths("M 0,0 L 10,0 A 5,5 0 0 1 10,0 L 20,0");
    assert_eq!(found[0].outline, Outline::Line(vec![line(10, 0), line(20, 0)]));
    assert_eq!(one_to_one().arc_requests("M 0,0 L 10,0 a 5,5 0 0 1 0,0").unwrap(), vec![]);
}

#[test]
fn arc_with_a_zero_radius_is_one_line() {
    let found = subpaths("M 0,0 A 0,5 0 0 1 10,10");
    assert_eq!(found[0].outline, Outline::Line(vec![line(10, 10)]));
    let found = subpaths("M 0,0 A 5,0 30 1 0 10,10 a 0 0 0 0 0 5 5");
    assert_eq!(found[0].outline, Outline::Line(vec![line(10, 10), line(15, 15)]));
    assert_eq!(one_to_one().arc_requests("M 0,0 A 0,5 0 0 1 10,10").unwrap(), vec![]);
}

#[test]
fn arc_to_beziers_chooses_between_nothing_a_line_and_the_curves() {
    let curve = Segment::Cubic { c1x: fx(1.0), c1y: fx(2.0), c2x: fx(3.0), c2y: fx(4.0), x: fx(5.0), y: fx(6.0) };
    let arc = ArcRequest {
        x1: fx(0.0),
        y1: fx(0.0),
        rx: fx(5.0),
        ry: fx(5.0),
        x_rotation: fx(0.0),
        large_arc: false,
        sweep: true,
        x2: fx(5.0),
        y2: fx(6.0),
    };
    assert_eq!(arc_to_beziers(&arc, &vec![curve, curve]), vec![curve, curve]);
    let flat = ArcRequest { rx: fx(0.0), ..arc };
    assert_eq!(arc_to_beziers(&flat, &vec![curve]), vec![Segment::Line { x: fx(5.0), y: fx(6.0) }]);
    let empty = ArcRequest { x2: fx(0.0), y2: fx(0.0), rx: fx(0.0), ..arc };
    assert_eq!(arc_to_beziers(&empty, &vec![curve]), vec![]);
}

#[test]
fn arcs_that_need_curves_are_listed_in_order() {
    let d = "M 10,0 A 10,10 0 0 1 0,10 a 0,10 0 0 1 5,5 a 4,6 30 1 0 -5,5";
    let requests = one_to_one().arc_requests(d).unwrap();
    assert_eq!(
        requests,
        vec![
            ArcRequest {
                x1: fx(10.0),
                y1: fx(0.0),
                rx: fx(10.0),
                ry: fx(10.0),
                x_rotation: fx(0.0),
                large_arc: false,
                sweep: true,
                x2: fx(0.0),
                y2: fx(10.0),
            },
            ArcRequest {
                x1: fx(5.0),
                y1: fx(15.0),
                rx: fx(4.0),
                ry: fx(6.0),
                x_rotation: fx(30.0),
                large_arc: true,
                sweep: false,
                x2: fx(0.0),
                y2: fx(20.0),
            },
        ]
    );
}

#[test]
fn arc_with_its_curves() {
    let d = "M 10,0 A 10,10 0 0 1 0,10 L 0,0 Z";
    let parser = one_to_one();
    let requests = parser.arc_requests(d).unwrap();
    let arcs: Vec<Vec<Segment>> = requests.iter().map(arc_curves).collect();
    assert_eq!(arcs[0].len(), 1);
    let found = parser.parse_to_subpaths(d, &arcs).unwrap();
    assert_eq!(found.len(), 1);
    assert!(found[0].closed);
    match &found[0].outline {
        Outline::Bezier(segments) => {
            assert_eq!(segments.len(), 3);
            // A quarter turn: alpha = (sqrt(4 + 3 tan^2(22.5 deg)) - 1) / 3 = 0.3749,
            // so the control points stand 3.749 from the ends.
            assert_eq!(segments[0].control1, p(10, 4));
            assert_eq!(segments[0].control2, p(4, 10));
            assert_eq!(segments[0].end, p(0, 10));
            assert_eq!(segments[1].end, p(0, 0));
            assert_eq!(segments[2].end, p(10, 0));
        }
        _ => panic!("Expected bezier outline"),
    }
}

#[test]
fn half_circle_takes_two_curves() {
    let d = "M 0,0 A 50,50 0 0 1 100,0";
    let parser = one_to_one();
    let requests = parser.arc_requests(d).unwrap();
    let arcs: Vec<Vec<Segment>> = requests.iter().map(arc_curves).collect();
    let found = parser.parse_to_subpaths(d, &arcs).unwrap();
    match &found[0].outline {
        Outline::Bezier(segments) => {
            assert_eq!(segments.len(), 2);
            assert_eq!(segments[0].end, p(50, -50));
            assert_eq!(segments[1].end, p(100, 0));
        }
        _ => panic!("Expected bezier outline"),
    }
}

#[test]
fn wrong_number_of_arc_curves() {
    let d = "M 10,0 A 10,10 0 0 1 0,10";
    let e = one_to_one().parse_to_subpaths(d, &vec![]).unwrap_err();
    assert_eq!(e.message, "Wrong number of arc curves");
    assert_eq!(e.position, 1);
    let e = one_to_one().parse(d, &vec![vec![], vec![]]).unwrap_err();
    assert_eq!(e.message, "Wrong number of arc curves");
    let e = one_to_one().parse("M 0,0 L 1,1", &vec![vec![]]).unwrap_err();
    assert_eq!(e.position, 0);
}

#[test]
fn arc_curves_must_be_curves() {
    let curve = Segment::Cubic {
        c1x: fx(10.0),
        c1y: fx(4.0),
        c2x: fx(4.0),
        c2y: fx(10.0),
        x: fx(0.0),
        y: fx(10.0),
    };
    let straight = Segment::Line { x: fx(0.0), y: fx(10.0) };
    let parser = one_to_one();
    let d = "M 10,0 A 10,10 0 0 1 0,10";
    let e = parser.parse_to_subpaths(d, &vec![vec![]]).unwrap_err();
    assert_eq!(e.message, "Arc curves must be one or more cubic curves");
    assert_eq!(e.position, 0);
    let e = parser.parse(d, &vec![vec![straight]]).unwrap_err();
    assert_eq!(e.message, "Arc curves must be one or more cubic curves");
    assert_eq!(e.position, 0);
    let e = parser.parse(d, &vec![vec![curve, straight]]).unwrap_err();
    assert_eq!(e.message, "Arc curves must be one or more cubic curves");
    assert!(parser.parse(d, &vec![vec![curve]]).is_ok());
    assert!(parser.parse(d, &vec![vec![curve, curve]]).is_ok());

    let two = "M 10,0 A 10,10 0 0 1 0,10 A 10,10 0 0 1 10,0";
    let e = parser.parse(two, &vec![vec![curve], vec![]]).unwrap_err();
    assert_eq!(e.message, "Arc curves must be one or more cubic curves");
    assert_eq!(e.position, 1);
    let e = parser.parse(two, &vec![vec![straight], vec![]]).unwrap_err();
    assert_eq!(e.position, 0);
    // The number of entries is looked at first, the grammar before that.
    let e = parser.parse(two, &vec![vec![]]).unwrap_err();
    assert_eq!(e.message, "Wrong number of arc curves");
    let e = parser.parse("M 10,0 A 10,10 0 0 1 0", &vec![vec![]]).unwrap_err();
    assert_eq!(e.message, "Not enough values for point");
}

#[test]
fn curves_that_can_stand_for_an_arc() {
    let curve = Segment::Cubic {
        c1x: fx(1.0),
        c1y: fx(2.0),
        c2x: fx(3.0),
        c2y: fx(4.0),
        x: fx(5.0),
        y: fx(6.0),
    };
    let straight = Segment::Line { x: fx(5.0), y: fx(6.0) };
    assert!(are_proper_curves(&vec![curve]));
    assert!(are_proper_curves(&vec![curve, curve, curve]));
    assert!(!are_proper_curves(&vec![]));
    assert!(!are_proper_curves(&vec![straight]));
    assert!(!are_proper_curves(&vec![curve, curve, straight]));
    assert_eq!(find_improper(&vec![]), None);
    assert_eq!(find_improper(&vec![vec![curve], vec![curve, curve]]), None);
    assert_eq!(find_improper(&vec![vec![curve], vec![], vec![straight]]), Some(1));
    assert_eq!(find_improper(&vec![vec![straight], vec![curve]]), Some(0));
}

#[test]
fn parsing_twice_gives_the_same() {
    let d = "M 0,0 C 10,0 20,10 20,20 S 40,40 40,20 q 1 2 3 4 t 5 6 Z M 3,3 h 5 v 5 z";
    assert_eq!(web().parse_to_subpaths(d, &vec![]), web().parse_to_subpaths(d, &vec![]));
    assert_eq!(web().parse(d, &vec![]), web().parse(d, &vec![]));
    let bad = "M 0,0 L 5";
    assert_eq!(web().parse(bad, &vec![]), web().parse(bad, &vec![]));
}

#[test]
fn to_fcm_values() {
    let config = SvgConfig { dpi: Fixed::from_int(96), ..Default::default() };
    assert_eq!(config.to_fcm(Fixed::from_int(96)), 2540);
    assert_eq!(config.to_fcm(Fixed::from_int(96)), config.to_fcm(Fixed::from_int(96)));
    assert_eq!(config.to_fcm(Fixed::from_int(100)), 2646);
    assert_eq!(config.to_fcm(Fixed::from_int(-100)), -2646);
    assert_eq!(config.to_fcm(Fixed::from_int(0)), 0);
    // 0.0189 units are half a hundredth of a millimetre.
    assert_eq!(config.to_fcm(Fixed::from_micros(18_897)), 0);
    assert_eq!(config.to_fcm(Fixed::from_micros(18_898)), 1);
    let print = SvgConfig { dpi: Fixed::from_int(72), scale: fx(0.5), ..Default::default() };
    assert_eq!(print.to_fcm(Fixed::from_int(72)), 1270);
    assert_eq!(SvgConfig::default().to_fcm(Fixed::from_int(96)), 2540);
}

#[test]
fn to_fcm_ties_go_away_from_zero() {
    // At 2540 units to the inch a unit is a hundredth of a millimetre.
    let config = SvgConfig { dpi: Fixed::from_int(2540), ..Default::default() };
    assert_eq!(config.to_fcm(fx(0.5)), 1);
    assert_eq!(config.to_fcm(fx(-0.5)), -1);
    assert_eq!(config.to_fcm(fx(1.5)), 2);
    assert_eq!(config.to_fcm(fx(0.499999)), 0);
}

#[test]
fn to_fcm_clamps() {
    let config = SvgConfig { dpi: Fixed::from_int(96), ..Default::default() };
    assert_eq!(config.to_fcm(Fixed::from_micros(i64::MAX)), i32::MAX);
    assert_eq!(config.to_fcm(Fixed::from_micros(i64::MIN)), i32::MIN);
    let huge = SvgConfig {
        dpi: Fixed::from_micros(1),
        scale: Fixed::from_micros(i64::MAX),
        ..Default::default()
    };
    assert_eq!(huge.to_fcm(Fixed::from_micros(i64::MAX)), i32::MAX);
    assert_eq!(huge.to_fcm(Fixed::from_micros(i64::MIN)), i32::MIN);
    assert_eq!(huge.to_fcm(Fixed::from_micros(0)), 0);
    let backwards = SvgConfig { dpi: Fixed::from_int(-96), ..Default::default() };
    assert_eq!(backwards.to_fcm(Fixed::from_int(96)), -2540);
}

#[test]
fn to_fcm_without_resolution() {
    let config = SvgConfig { dpi: Fixed::from_int(0), ..Default::default() };
    assert_eq!(config.to_fcm(Fixed::from_int(1)), i32::MAX);
    assert_eq!(config.to_fcm(Fixed::from_int(-1)), i32::MIN);
    assert_eq!(config.to_fcm(Fixed::from_int(0)), 0);
    let flat = SvgConfig { dpi: Fixed::from_int(0), scale: Fixed::from_int(0), ..Default::default() };
    assert_eq!(flat.to_fcm(Fixed::from_int(1)), 0);
}

#[test]
fn point_to_fcm_adds_the_offsets() {
    let config = SvgConfig {
        dpi: Fixed::from_int(96),
        scale: Fixed::from_int(1),
        offset_x_mm: fx(10.0),
        offset_y_mm: fx(-2.505),
    };
    assert_eq!(config.point_to_fcm(Fixed::from_int(96), Fixed::from_int(0)), p(3540, -251));
    let far = SvgConfig { offset_x_mm: Fixed::from_micros(i64::MAX), ..config };
    assert_eq!(far.point_to_fcm(Fixed::from_int(96), Fixed::from_int(0)).x, i32::MAX);
}

#[test]
fn build_subpath_converts_and_promotes() {
    let parser = one_to_one();
    let lines = vec![Segment::Line { x: fx(1.0), y: fx(2.0) }];
    assert_eq!(
        parser.build_subpath(fx(5.0), fx(6.0), &lines, true),
        ParsedSubpath { start: p(5, 6), outline: Outline::Line(vec![line(1, 2)]), closed: true }
    );
    assert_eq!(
        parser.build_subpath(fx(0.0), fx(0.0), &vec![], false),
        ParsedSubpath { start: p(0, 0), outline: Outline::Line(vec![]), closed: false }
    );
}
