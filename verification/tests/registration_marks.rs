use fcmlib::registration_marks::{
    calculate_mark_positions, generate_mark_svg, generate_registration_marks_svg,
    generate_single_mark_svg, get_fcm_alignment_marks, MarkPosition, PageSize,
};
use fcmlib::{Fixed, Point};

fn mm(value: Fixed) -> f64 {
    value.micros as f64 / 1_000_000.0
}

#[test]
fn test_letter_positions() {
    let positions = calculate_mark_positions(&PageSize::letter());

    // Top-left
    assert!((mm(positions[0].x_mm) - 12.0).abs() < 0.01);
    assert!((mm(positions[0].y_mm) - 13.98).abs() < 0.01);

    // Top-right
    assert!((mm(positions[1].x_mm) - 203.9).abs() < 0.01);

    // Bottom-right
    assert!((mm(positions[2].y_mm) - 265.42).abs() < 0.01);
}

#[test]
fn test_fcm_points() {
    let marks = get_fcm_alignment_marks(&PageSize::letter());
    assert_eq!(marks.len(), 4);
    assert_eq!(marks[0].x, 1200); // 12.00mm
    assert_eq!(marks[0].y, 1398); // 13.98mm
}

#[test]
fn letter_marks_are_exact() {
    let positions = calculate_mark_positions(&PageSize::letter());
    assert_eq!(positions[0].x_mm.micros, 12_000_000);
    assert_eq!(positions[0].y_mm.micros, 13_980_000);
    assert_eq!(positions[1].x_mm.micros, 203_900_000);
    assert_eq!(positions[1].y_mm.micros, 13_980_000);
    assert_eq!(positions[2].x_mm.micros, 203_900_000);
    assert_eq!(positions[2].y_mm.micros, 265_420_000);
    assert_eq!(positions[3].x_mm.micros, 12_000_000);
    assert_eq!(positions[3].y_mm.micros, 265_420_000);
}

#[test]
fn letter_marks_in_file_units() {
    let marks = get_fcm_alignment_marks(&PageSize::letter());
    assert_eq!(
        marks,
        vec![
            Point { x: 1200, y: 1398 },
            Point { x: 20390, y: 1398 },
            Point { x: 20390, y: 26542 },
            Point { x: 1200, y: 26542 },
        ]
    );
}

#[test]
fn page_sizes() {
    assert_eq!(PageSize::letter().to_fcm_units(), (21590, 27940));
    assert_eq!(PageSize::a4().to_fcm_units(), (21000, 29700));
    assert_eq!(PageSize::square_12().to_fcm_units(), (30480, 30480));
    assert_eq!(PageSize::long_12x24().to_fcm_units(), (30480, 60960));
    let page = PageSize::new(Fixed::from_micros(127_000_000), Fixed::from_micros(177_800_000));
    assert_eq!(page.to_fcm_units(), (12700, 17780));
}

#[test]
fn page_size_drops_what_lies_behind_the_hundredths() {
    let page = PageSize::new(Fixed::from_micros(10_019_999), Fixed::from_micros(-5_000_000));
    assert_eq!(page.to_fcm_units(), (1001, 0));
    let huge = PageSize::new(Fixed::from_micros(i64::MAX), Fixed::from_micros(0));
    assert_eq!(huge.to_fcm_units(), (u32::MAX, 0));
}

#[test]
fn mark_position_rounds_to_the_nearest_hundredth() {
    let mark = MarkPosition {
        x_mm: Fixed::from_micros(12_345_000),
        y_mm: Fixed::from_micros(-12_345_000),
    };
    assert_eq!(mark.to_fcm_point(), Point { x: 1235, y: -1235 });
    let mark = MarkPosition {
        x_mm: Fixed::from_micros(12_344_999),
        y_mm: Fixed::from_micros(i64::MAX),
    };
    assert_eq!(mark.to_fcm_point(), Point { x: 1234, y: i32::MAX });
}

#[test]
fn mark_position_in_points() {
    let mark = MarkPosition {
        x_mm: Fixed::from_micros(25_400_000),
        y_mm: Fixed::from_micros(12_000_000),
    };
    let (x, y) = mark.to_svg_coords(Fixed::from_int(72));
    assert_eq!(x.micros, 72_000_000);
    // 12 * 72 / 25.4 = 34.0157480...
    assert_eq!(y.micros, 34_015_748);
}

const TEMPLATE: &str = "<rect x=\"11.33858\" y=\"11.33858\" width=\"45.4\" height=\"51\" fill=\"#fff\"/>\n      <circle cx=\"34.03858\" cy=\"39.63858\" r=\"2.8\" fill=\"#070404\"/>\n      <path d=\"M34.03858,48.13858c-4.7,0-8.5-3.8-8.5-8.5s3.8-8.5,8.5-8.5,8.5,3.8,8.5,8.5-3.8,8.5-8.5,8.5ZM34.03858,34.03858c-3.1,0-5.7,2.5-5.7,5.7,0,3.1,2.5,5.7,5.7,5.7s5.7-2.5,5.7-5.7c-.1-3.2-2.6-5.7-5.7-5.7Z\" fill=\"#070404\"/>\n      <path d=\"M34.03858,53.83858c-7.8,0-14.2-6.4-14.2-14.2s6.4-14.2,14.2-14.2,14.2,6.4,14.2,14.2c0,7.9-6.4,14.2-14.2,14.2ZM34.03858,28.33858c-6.3,0-11.3,5.1-11.3,11.3s5.1,11.3,11.3,11.3,11.3-5,11.3-11.3-5.1-11.3-11.3-11.3Z\" fill=\"#070404\"/>\n      <rect x=\"19.83858\" y=\"19.83858\" width=\"28.3\" height=\"2.8\" fill=\"#070404\"/>";

#[test]
fn mark_at_its_own_centre_is_not_moved() {
    let svg = generate_mark_svg(
        Fixed::from_micros(34_038_580),
        Fixed::from_micros(39_638_580),
        "m",
    );
    assert_eq!(
        svg,
        format!(
            "  <g id=\"m\" transform=\"translate(0.00000, 0.00000)\">\n      {}\n  </g>",
            TEMPLATE
        )
    );
}

#[test]
fn mark_move_is_written_with_five_decimals() {
    let svg = generate_mark_svg(Fixed::from_int(100), Fixed::from_micros(1_234_567), "R9");
    assert!(svg.starts_with(
        "  <g id=\"R9\" transform=\"translate(65.96142, -38.40401)\">\n      <rect"
    ));
}

#[test]
fn single_mark() {
    assert_eq!(
        generate_single_mark_svg(),
        format!(
            "<svg xmlns=\"http://www.w3.org/2000/svg\" width=\"51\" height=\"51\" viewBox=\"0 0 51 51\">\n  <g id=\"mark\" transform=\"translate(-8.52677, -14.12677)\">\n      {}\n  </g>\n</svg>",
            TEMPLATE
        )
    );
}

#[test]
fn letter_page_drawing() {
    let svg = generate_registration_marks_svg(&PageSize::letter());
    let expected = format!(
        "<?xml version=\"1.0\" encoding=\"UTF-8\"?>\n<svg xmlns=\"http://www.w3.org/2000/svg\"\n     width=\"215.9mm\" height=\"279.4mm\"\n     viewBox=\"0 0 612 792\">\n  <title>Brother ScanNCut Registration Marks - 215.9mm \u{d7} 279.4mm</title>\n  <g id=\"registration_marks\">\n  <g id=\"R1\" transform=\"translate(-0.02283, -0.01023)\">\n      {t}\n  </g>\n  <g id=\"R2\" transform=\"translate(543.94567, -0.01023)\">\n      {t}\n  </g>\n  <g id=\"R3\" transform=\"translate(543.94567, 712.73307)\">\n      {t}\n  </g>\n  <g id=\"R4\" transform=\"translate(-0.02283, 712.73307)\">\n      {t}\n  </g>\n  </g>\n</svg>",
        t = TEMPLATE
    );
    assert_eq!(svg, expected);
}

#[test]
fn a4_page_drawing_writes_whole_millimetres_without_a_point() {
    let svg = generate_registration_marks_svg(&PageSize::a4());
    assert!(svg.contains("width=\"210mm\" height=\"297mm\""));
    assert!(svg.contains("viewBox=\"0 0 595 842\""));
}
