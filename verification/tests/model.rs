use fcmlib::bounds::{
    bounding_box, bounds_of, halfway, points_of, recenter_point, recentered, Bounds,
};
use fcmlib::{
    Outline, PathShape, PathTool, Piece, PieceRestrictions, PieceTable, Point, SegmentBezier,
    SegmentLine,
};

fn p(x: i32, y: i32) -> Point {
    Point { x, y }
}

fn line(x: i32, y: i32) -> SegmentLine {
    SegmentLine { end: p(x, y) }
}

fn curve(c1: Point, c2: Point, end: Point) -> SegmentBezier {
    SegmentBezier { control1: c1, control2: c2, end }
}

fn two_shapes() -> Vec<PathShape> {
    vec![
        PathShape {
            start: p(100, 200),
            outlines: vec![
                Outline::Line(vec![line(300, 200), line(300, 500), line(100, 200)]),
                Outline::Line(vec![]),
            ],
        },
        PathShape {
            start: p(0, 0),
            outlines: vec![Outline::Bezier(vec![
                curve(p(-50, 10), p(20, 900), p(40, 40)),
                curve(p(41, 41), p(42, 42), p(0, 0)),
            ])],
        },
    ]
}

fn piece(label: &str) -> Piece {
    Piece {
        width: 1,
        height: 2,
        transform: None,
        expansion_limit_value: 0,
        reduction_limit_value: 0,
        restriction_flags: PieceRestrictions::empty(),
        label: String::from(label),
        paths: vec![],
    }
}

#[test]
fn points_come_in_order() {
    assert_eq!(
        points_of(&two_shapes()),
        vec![
            p(100, 200),
            p(300, 200),
            p(300, 500),
            p(100, 200),
            p(0, 0),
            p(-50, 10),
            p(20, 900),
            p(40, 40),
            p(41, 41),
            p(42, 42),
            p(0, 0),
        ]
    );
    assert_eq!(points_of(&vec![]), vec![]);
    assert_eq!(
        points_of(&vec![PathShape { start: p(7, 8), outlines: vec![] }]),
        vec![p(7, 8)]
    );
}

#[test]
fn the_box_is_tight() {
    let b = bounds_of(&two_shapes()).unwrap();
    assert_eq!(b, Bounds { min_x: -50, min_y: 0, max_x: 300, max_y: 900 });
    assert_eq!(b.width(), 350);
    assert_eq!(b.height(), 900);
    assert_eq!(b.center(), p(125, 450));
}

#[test]
fn nothing_has_no_box() {
    assert_eq!(bounds_of(&vec![]), None);
    assert_eq!(bounding_box(&vec![]), None);
}

#[test]
fn one_point_is_its_own_box() {
    let b = bounding_box(&vec![p(-3, 9)]).unwrap();
    assert_eq!(b, Bounds { min_x: -3, min_y: 9, max_x: -3, max_y: 9 });
    assert_eq!(b.width(), 0);
    assert_eq!(b.height(), 0);
    assert_eq!(b.center(), p(-3, 9));
}

#[test]
fn the_widest_box() {
    let b = bounding_box(&vec![p(i32::MIN, i32::MAX), p(i32::MAX, i32::MIN)]).unwrap();
    assert_eq!(b.width(), u32::MAX);
    assert_eq!(b.height(), u32::MAX);
    assert_eq!(b.center(), p(0, 0));
}

#[test]
fn a_box_turned_inside_out_has_no_extent() {
    let b = Bounds { min_x: 5, min_y: 5, max_x: 4, max_y: -5 };
    assert_eq!(b.width(), 0);
    assert_eq!(b.height(), 0);
}

#[test]
fn halfway_leans_to_zero() {
    assert_eq!(halfway(0, 3), 1);
    assert_eq!(halfway(-3, 0), -1);
    assert_eq!(halfway(-4, 0), -2);
    assert_eq!(halfway(-3, 4), 0);
    assert_eq!(halfway(-4, 3), 0);
    assert_eq!(halfway(i32::MAX, i32::MAX), i32::MAX);
    assert_eq!(halfway(i32::MIN, i32::MIN), i32::MIN);
    assert_eq!(halfway(i32::MIN, i32::MAX), 0);
}

#[test]
fn geometry_moves_to_the_origin() {
    let shapes = two_shapes();
    let b = bounds_of(&shapes).unwrap();
    let moved = recentered(&shapes, b.center());
    assert_eq!(
        moved,
        vec![
            PathShape {
                start: p(-25, -250),
                outlines: vec![
                    Outline::Line(vec![line(175, -250), line(175, 50), line(-25, -250)]),
                    Outline::Line(vec![]),
                ],
            },
            PathShape {
                start: p(-125, -450),
                outlines: vec![Outline::Bezier(vec![
                    curve(p(-175, -440), p(-105, 450), p(-85, -410)),
                    curve(p(-84, -409), p(-83, -408), p(-125, -450)),
                ])],
            },
        ]
    );
    let again = bounds_of(&moved).unwrap();
    assert_eq!(again, Bounds { min_x: -175, min_y: -450, max_x: 175, max_y: 450 });
    assert_eq!(again.width(), b.width());
    assert_eq!(again.height(), b.height());
}

#[test]
fn a_far_point_is_clamped() {
    assert_eq!(recenter_point(p(i32::MAX, i32::MIN), p(-1, 1)), p(i32::MAX, i32::MIN));
    assert_eq!(recenter_point(p(i32::MIN, i32::MAX), p(i32::MIN, i32::MAX)), p(0, 0));
    assert_eq!(recenter_point(p(5, -5), p(7, -7)), p(-2, 2));
}

#[test]
fn tools_combine() {
    assert_eq!(PathTool::cut().bits, 1);
    assert_eq!(PathTool::draw().bits, 2);
    let both = PathTool::cut().with(PathTool::draw());
    assert_eq!(both.bits, 3);
    assert!(both.has(PathTool::cut()));
    assert!(both.has(PathTool::draw()));
    assert!(both.has(both));
    assert!(!PathTool::cut().has(PathTool::draw()));
    assert!(!PathTool::cut().has(both));
    assert!(PathTool::cut().has(PathTool { bits: 0 }));
}

#[test]
fn an_identifier_stands_once() {
    let mut table = PieceTable::new();
    assert!(table.pieces.is_empty());
    assert!(table.has_unique_ids());
    assert!(!table.contains_id(7));
    assert!(table.insert(7, piece("a")));
    assert!(table.insert(2, piece("b")));
    assert!(table.contains_id(7));
    assert!(table.contains_id(2));
    assert!(!table.contains_id(0));
    assert!(!table.insert(7, piece("c")));
    assert_eq!(table.pieces, vec![(7, piece("a")), (2, piece("b"))]);
    assert!(table.has_unique_ids());
}

#[test]
fn a_table_written_by_hand_may_repeat_an_identifier() {
    let table = PieceTable { pieces: vec![(1, piece("a")), (2, piece("b")), (1, piece("c"))] };
    assert!(!table.has_unique_ids());
    let table = PieceTable { pieces: vec![(1, piece("a")), (2, piece("b")), (3, piece("a"))] };
    assert!(table.has_unique_ids());
}
