//! Registration marks for print-and-cut: where they stand on a page and how
//! they are drawn.
//!
//! Four marks stand near the corners of the page, each a bullseye under a
//! short bar on a white ground. The machine finds them with its scanner and
//! lines the cut up with the print.

use vstd::prelude::*;
use crate::decimal::{fixed_text, push_fixed, push_shortest, shortest_text};
use crate::fixed::{div_round, div_round_exec, saturate, saturate_i32, saturate_to_i64, Fixed};
use crate::geometry::Point;

pub mod dimensions;

verus! {

/// The size of a page in millimetres.
#[derive(Debug, Clone, Copy, PartialEq, Eq, Structural)]
pub struct PageSize {
    pub width_mm: Fixed,
    pub height_mm: Fixed,
}

/// Where the centre of one mark stands, in millimetres.
#[derive(Debug, Clone, Copy, PartialEq, Eq, Structural)]
pub struct MarkPosition {
    pub x_mm: Fixed,
    pub y_mm: Fixed,
}

/// A length of `micros` millionths of a millimetre in whole hundredths of a
/// millimetre: what lies behind the second decimal is dropped, a negative
/// length is zero, and a length past the range of `u32` is its end.
pub open spec fn whole_hundredths(micros: int) -> int {
    if micros <= 0 {
        0
    } else if micros / 10_000 > u32::MAX as int {
        u32::MAX as int
    } else {
        micros / 10_000
    }
}

/// A length of `micros` millionths of a millimetre in hundredths of a
/// millimetre, rounded to the nearest (a tie going away from zero) and
/// clamped to `i32`.
pub open spec fn nearest_hundredths(micros: int) -> int {
    saturate_i32(div_round(micros, 10_000))
}

/// A length of `mm` millimetres in drawing units at `dpi` units per inch:
/// `mm * dpi / 25.4`, rounded to the nearest millionth and clamped.
pub open spec fn drawing_units(mm: Fixed, dpi: Fixed) -> Fixed {
    Fixed { micros: saturate(div_round(mm.micros * dpi.micros, 25_400_000)) as i64 }
}

/// `a - b`, clamped.
pub open spec fn less(a: Fixed, b: Fixed) -> Fixed {
    Fixed { micros: saturate(a.micros - b.micros) as i64 }
}

/// Distance of a mark's centre from the left and right edges of the page.
pub open spec fn x_inset() -> Fixed {
    Fixed { micros: dimensions::X_INSET_MM }
}

/// Distance of a mark's centre from the top and bottom edges of the page.
pub open spec fn y_inset() -> Fixed {
    Fixed { micros: dimensions::Y_INSET_MM }
}

/// The four marks of a page: top left, top right, bottom right, bottom
/// left.
pub open spec fn mark_positions(page: PageSize) -> Seq<MarkPosition> {
    seq![
        MarkPosition { x_mm: x_inset(), y_mm: y_inset() },
        MarkPosition { x_mm: less(page.width_mm, x_inset()), y_mm: y_inset() },
        MarkPosition {
            x_mm: less(page.width_mm, x_inset()),
            y_mm: less(page.height_mm, y_inset()),
        },
        MarkPosition { x_mm: x_inset(), y_mm: less(page.height_mm, y_inset()) },
    ]
}

impl MarkPosition {
    /// The position in hundredths of a millimetre.
    pub open spec fn native(self) -> Point {
        Point {
            x: nearest_hundredths(self.x_mm.micros as int) as i32,
            y: nearest_hundredths(self.y_mm.micros as int) as i32,
        }
    }

    /// Converts the position to a point of the file.
    pub fn to_fcm_point(&self) -> (r: Point)
        ensures
            r == self.native(),
    {
        Point { x: to_nearest_hundredths(self.x_mm), y: to_nearest_hundredths(self.y_mm) }
    }

    /// Converts the position to drawing units at `dpi` units per inch.
    pub fn to_svg_coords(&self, dpi: Fixed) -> (r: (Fixed, Fixed))
        ensures
            r.0 == drawing_units(self.x_mm, dpi),
            r.1 == drawing_units(self.y_mm, dpi),
    {
        (to_drawing_units(self.x_mm, dpi), to_drawing_units(self.y_mm, dpi))
    }
}

impl PageSize {
    /// US Letter: 8.5 by 11 inches.
    pub fn letter() -> (r: PageSize)
        ensures
            r == (PageSize {
                width_mm: Fixed { micros: 215_900_000 },
                height_mm: Fixed { micros: 279_400_000 },
            }),
    {
        PageSize {
            width_mm: Fixed { micros: 215_900_000 },
            height_mm: Fixed { micros: 279_400_000 },
        }
    }

    /// ISO A4: 210 by 297 millimetres.
    pub fn a4() -> (r: PageSize)
        ensures
            r == (PageSize {
                width_mm: Fixed { micros: 210_000_000 },
                height_mm: Fixed { micros: 297_000_000 },
            }),
    {
        PageSize {
            width_mm: Fixed { micros: 210_000_000 },
            height_mm: Fixed { micros: 297_000_000 },
        }
    }

    /// A craft mat of 12 by 12 inches.
    pub fn square_12() -> (r: PageSize)
        ensures
            r == (PageSize {
                width_mm: Fixed { micros: 304_800_000 },
                height_mm: Fixed { micros: 304_800_000 },
            }),
    {
        PageSize {
            width_mm: Fixed { micros: 304_800_000 },
            height_mm: Fixed { micros: 304_800_000 },
        }
    }

    /// A craft mat of 12 by 24 inches.
    pub fn long_12x24() -> (r: PageSize)
        ensures
            r == (PageSize {
                width_mm: Fixed { micros: 304_800_000 },
                height_mm: Fixed { micros: 609_600_000 },
            }),
    {
        PageSize {
            width_mm: Fixed { micros: 304_800_000 },
            height_mm: Fixed { micros: 609_600_000 },
        }
    }

    /// A page of any size.
    pub fn new(width_mm: Fixed, height_mm: Fixed) -> (r: PageSize)
        ensures
            r == (PageSize { width_mm, height_mm }),
    {
        PageSize { width_mm, height_mm }
    }

    /// The size of the page in whole hundredths of a millimetre.
    pub fn to_fcm_units(&self) -> (r: (u32, u32))
        ensures
            r.0 == whole_hundredths(self.width_mm.micros as int),
            r.1 == whole_hundredths(self.height_mm.micros as int),
    {
        (to_whole_hundredths(self.width_mm), to_whole_hundredths(self.height_mm))
    }
}

/// `length` in whole hundredths of a millimetre.
fn to_whole_hundredths(length: Fixed) -> (r: u32)
    ensures
        r == whole_hundredths(length.micros as int),
{
    if length.micros <= 0 {
        0
    } else {
        let whole: u64 = (length.micros as u64) / 10_000;
        if whole > u32::MAX as u64 {
            u32::MAX
        } else {
            whole as u32
        }
    }
}

/// `length` in hundredths of a millimetre, rounded.
fn to_nearest_hundredths(length: Fixed) -> (r: i32)
    ensures
        r == nearest_hundredths(length.micros as int),
{
    crate::fixed::saturate_to_i32(div_round_exec(length.micros as i128, 10_000))
}

/// `mm` millimetres in drawing units at `dpi` units per inch.
fn to_drawing_units(mm: Fixed, dpi: Fixed) -> (r: Fixed)
    ensures
        r == drawing_units(mm, dpi),
{
    let a: i128 = mm.micros as i128;
    let b: i128 = dpi.micros as i128;
    assert(-0x4000_0000_0000_0000_0000_0000_0000_0000 <= a * b
        <= 0x4000_0000_0000_0000_0000_0000_0000_0000) by (nonlinear_arith)
        requires
            -0x8000_0000_0000_0000 <= a <= 0x8000_0000_0000_0000,
            -0x8000_0000_0000_0000 <= b <= 0x8000_0000_0000_0000,
    ;
    Fixed { micros: saturate_to_i64(div_round_exec(a * b, 25_400_000)) }
}

/// `a - b`, clamped.
fn minus(a: Fixed, b: Fixed) -> (r: Fixed)
    ensures
        r == less(a, b),
{
    Fixed { micros: saturate_to_i64(a.micros as i128 - b.micros as i128) }
}

/// The positions of the four marks of a page: top left, top right, bottom
/// right, bottom left.
pub fn calculate_mark_positions(page: &PageSize) -> (r: [MarkPosition; 4])
    ensures
        r@ == mark_positions(*page),
{
    let x: Fixed = Fixed { micros: dimensions::X_INSET_MM };
    let y: Fixed = Fixed { micros: dimensions::Y_INSET_MM };
    let right: Fixed = minus(page.width_mm, x);
    let bottom: Fixed = minus(page.height_mm, y);
    let r = [
        MarkPosition { x_mm: x, y_mm: y },
        MarkPosition { x_mm: right, y_mm: y },
        MarkPosition { x_mm: right, y_mm: bottom },
        MarkPosition { x_mm: x, y_mm: bottom },
    ];
    assert(r@ =~= mark_positions(*page));
    r
}

/// The four marks of a page as points of the file.
pub open spec fn alignment_marks(page: PageSize) -> Seq<Point> {
    mark_positions(page).map_values(|m: MarkPosition| m.native())
}

/// The four marks of a page as points of the file, for its alignment data.
pub fn get_fcm_alignment_marks(page: &PageSize) -> (r: Vec<Point>)
    ensures
        r@ == alignment_marks(*page),
{
    let positions = calculate_mark_positions(page);
    let mut marks: Vec<Point> = Vec::new();
    let mut i: usize = 0;
    while i < 4
        invariant
            i <= 4,
            positions@ == mark_positions(*page),
            marks@ == mark_positions(*page).take(i as int).map_values(
                |m: MarkPosition| m.native(),
            ),
        decreases 4 - i,
    {
        marks.push(positions[i].to_fcm_point());
        assert(marks@ =~= mark_positions(*page).take(i + 1).map_values(
            |m: MarkPosition| m.native(),
        ));
        i = i + 1;
    }
    assert(mark_positions(*page).take(4) =~= mark_positions(*page));
    marks
}

/// The drawing of one mark, centred at (34.03858, 39.63858).
pub open spec fn mark_template() -> Seq<char> {
    "<rect x=\"11.33858\" y=\"11.33858\" width=\"45.4\" height=\"51\" fill=\"#fff\"/>\n      <circle cx=\"34.03858\" cy=\"39.63858\" r=\"2.8\" fill=\"#070404\"/>\n      <path d=\"M34.03858,48.13858c-4.7,0-8.5-3.8-8.5-8.5s3.8-8.5,8.5-8.5,8.5,3.8,8.5,8.5-3.8,8.5-8.5,8.5ZM34.03858,34.03858c-3.1,0-5.7,2.5-5.7,5.7,0,3.1,2.5,5.7,5.7,5.7s5.7-2.5,5.7-5.7c-.1-3.2-2.6-5.7-5.7-5.7Z\" fill=\"#070404\"/>\n      <path d=\"M34.03858,53.83858c-7.8,0-14.2-6.4-14.2-14.2s6.4-14.2,14.2-14.2,14.2,6.4,14.2,14.2c0,7.9-6.4,14.2-14.2,14.2ZM34.03858,28.33858c-6.3,0-11.3,5.1-11.3,11.3s5.1,11.3,11.3,11.3,11.3-5,11.3-11.3-5.1-11.3-11.3-11.3Z\" fill=\"#070404\"/>\n      <rect x=\"19.83858\" y=\"19.83858\" width=\"28.3\" height=\"2.8\" fill=\"#070404\"/>"@
}

/// The same drawing as text.
fn mark_template_text() -> (r: &'static str)
    ensures
        r@ == mark_template(),
{
    "<rect x=\"11.33858\" y=\"11.33858\" width=\"45.4\" height=\"51\" fill=\"#fff\"/>\n      <circle cx=\"34.03858\" cy=\"39.63858\" r=\"2.8\" fill=\"#070404\"/>\n      <path d=\"M34.03858,48.13858c-4.7,0-8.5-3.8-8.5-8.5s3.8-8.5,8.5-8.5,8.5,3.8,8.5,8.5-3.8,8.5-8.5,8.5ZM34.03858,34.03858c-3.1,0-5.7,2.5-5.7,5.7,0,3.1,2.5,5.7,5.7,5.7s5.7-2.5,5.7-5.7c-.1-3.2-2.6-5.7-5.7-5.7Z\" fill=\"#070404\"/>\n      <path d=\"M34.03858,53.83858c-7.8,0-14.2-6.4-14.2-14.2s6.4-14.2,14.2-14.2,14.2,6.4,14.2,14.2c0,7.9-6.4,14.2-14.2,14.2ZM34.03858,28.33858c-6.3,0-11.3,5.1-11.3,11.3s5.1,11.3,11.3,11.3,11.3-5,11.3-11.3-5.1-11.3-11.3-11.3Z\" fill=\"#070404\"/>\n      <rect x=\"19.83858\" y=\"19.83858\" width=\"28.3\" height=\"2.8\" fill=\"#070404\"/>"
}

/// Where the centre of the drawing lies along x, in millionths.
pub const TEMPLATE_CENTER_X: i64 = 34_038_580;

/// Where the centre of the drawing lies along y, in millionths.
pub const TEMPLATE_CENTER_Y: i64 = 39_638_580;

/// One mark centred at `(cx, cy)`: the drawing in a group with the
/// identifier `id`, moved from its own centre to that point. The two
/// numbers of the move are written with five decimals.
pub open spec fn mark_svg(cx: Fixed, cy: Fixed, id: Seq<char>) -> Seq<char> {
    "  <g id=\""@ + id + "\" transform=\"translate("@ + fixed_text(
        saturate(cx.micros - TEMPLATE_CENTER_X),
        5,
    ) + ", "@ + fixed_text(saturate(cy.micros - TEMPLATE_CENTER_Y), 5) + ")\">\n      "@
        + mark_template() + "\n  </g>"@
}

/// Draws one mark centred at `(cx, cy)`, in points.
pub fn generate_mark_svg(cx: Fixed, cy: Fixed, id: &str) -> (r: String)
    ensures
        r@ == mark_svg(cx, cy, id@),
{
    let tx: Fixed = minus(cx, Fixed { micros: TEMPLATE_CENTER_X });
    let ty: Fixed = minus(cy, Fixed { micros: TEMPLATE_CENTER_Y });
    let mut out = String::from_str("  <g id=\"");
    out.append(id);
    out.append("\" transform=\"translate(");
    push_fixed(&mut out, tx, 5);
    out.append(", ");
    push_fixed(&mut out, ty, 5);
    out.append(")\">\n      ");
    out.append(mark_template_text());
    out.append("\n  </g>");
    out
}

/// Points in an inch, in millionths.
pub const POINTS_PER_INCH: i64 = 72_000_000;

/// The mark with the identifier `id` at `position`, drawn in points.
pub open spec fn placed_mark(position: MarkPosition, id: Seq<char>) -> Seq<char> {
    mark_svg(
        drawing_units(position.x_mm, Fixed { micros: POINTS_PER_INCH }),
        drawing_units(position.y_mm, Fixed { micros: POINTS_PER_INCH }),
        id,
    )
}

/// A whole drawing of the page with its four marks `R1` to `R4`, one on a
/// line. The page size is written in millimetres as it is, and in points
/// rounded to whole numbers.
pub open spec fn registration_marks_svg(page: PageSize) -> Seq<char> {
    let marks = mark_positions(page);
    let points = Fixed { micros: POINTS_PER_INCH };
    "<?xml version=\"1.0\" encoding=\"UTF-8\"?>\n<svg xmlns=\"http://www.w3.org/2000/svg\"\n     width=\""@
        + shortest_text(page.width_mm.micros as int) + "mm\" height=\""@ + shortest_text(
        page.height_mm.micros as int,
    ) + "mm\"\n     viewBox=\"0 0 "@ + fixed_text(
        drawing_units(page.width_mm, points).micros as int,
        0,
    ) + " "@ + fixed_text(drawing_units(page.height_mm, points).micros as int, 0)
        + "\">\n  <title>Brother ScanNCut Registration Marks - "@ + shortest_text(
        page.width_mm.micros as int,
    ) + "mm \u{d7} "@ + shortest_text(page.height_mm.micros as int)
        + "mm</title>\n  <g id=\"registration_marks\">\n"@ + placed_mark(marks[0], "R1"@) + "\n"@
        + placed_mark(marks[1], "R2"@) + "\n"@ + placed_mark(marks[2], "R3"@) + "\n"@
        + placed_mark(marks[3], "R4"@) + "\n  </g>\n</svg>"@
}

/// Appends the mark with the identifier `id` at `position`.
fn place_mark(out: &mut String, position: &MarkPosition, id: &str)
    ensures
        final(out)@ == old(out)@ + placed_mark(*position, id@),
{
    let at = position.to_svg_coords(Fixed { micros: POINTS_PER_INCH });
    let mark = generate_mark_svg(at.0, at.1, id);
    out.append(mark.as_str());
}

/// Draws a page with its four registration marks.
pub fn generate_registration_marks_svg(page: &PageSize) -> (r: String)
    ensures
        r@ == registration_marks_svg(*page),
{
    let points: Fixed = Fixed { micros: POINTS_PER_INCH };
    let width_pt: Fixed = to_drawing_units(page.width_mm, points);
    let height_pt: Fixed = to_drawing_units(page.height_mm, points);
    let positions = calculate_mark_positions(page);
    let mut out = String::from_str(
        "<?xml version=\"1.0\" encoding=\"UTF-8\"?>\n<svg xmlns=\"http://www.w3.org/2000/svg\"\n     width=\"",
    );
    push_shortest(&mut out, page.width_mm);
    out.append("mm\" height=\"");
    push_shortest(&mut out, page.height_mm);
    out.append("mm\"\n     viewBox=\"0 0 ");
    push_fixed(&mut out, width_pt, 0);
    out.append(" ");
    push_fixed(&mut out, height_pt, 0);
    out.append("\">\n  <title>Brother ScanNCut Registration Marks - ");
    push_shortest(&mut out, page.width_mm);
    out.append("mm \u{d7} ");
    push_shortest(&mut out, page.height_mm);
    out.append("mm</title>\n  <g id=\"registration_marks\">\n");
    place_mark(&mut out, &positions[0], "R1");
    out.append("\n");
    place_mark(&mut out, &positions[1], "R2");
    out.append("\n");
    place_mark(&mut out, &positions[2], "R3");
    out.append("\n");
    place_mark(&mut out, &positions[3], "R4");
    out.append("\n  </g>\n</svg>");
    out
}

/// The side of the square that one mark is drawn in, in points: the height
/// of its white ground.
pub open spec fn single_mark_size() -> Fixed {
    drawing_units(Fixed { micros: dimensions::BG_HEIGHT_MM }, Fixed { micros: POINTS_PER_INCH })
}

/// Half of `v`, rounded.
pub open spec fn half(v: Fixed) -> Fixed {
    Fixed { micros: div_round(v.micros as int, 2) as i64 }
}

/// One mark alone, centred in a square drawing. The side of the square is
/// written in points, rounded to a whole number.
pub open spec fn single_mark_svg() -> Seq<char> {
    let side = fixed_text(single_mark_size().micros as int, 0);
    "<svg xmlns=\"http://www.w3.org/2000/svg\" width=\""@ + side + "\" height=\""@ + side
        + "\" viewBox=\"0 0 "@ + side + " "@ + side + "\">\n"@ + mark_svg(
        half(single_mark_size()),
        half(single_mark_size()),
        "mark"@,
    ) + "\n</svg>"@
}

/// Draws one registration mark alone, for embedding.
pub fn generate_single_mark_svg() -> (r: String)
    ensures
        r@ == single_mark_svg(),
{
    let size: Fixed = to_drawing_units(
        Fixed { micros: dimensions::BG_HEIGHT_MM },
        Fixed { micros: POINTS_PER_INCH },
    );
    let center: Fixed = Fixed { micros: div_round_exec(size.micros as i128, 2) as i64 };
    let mark = generate_mark_svg(center, center, "mark");
    let mut out = String::from_str("<svg xmlns=\"http://www.w3.org/2000/svg\" width=\"");
    push_fixed(&mut out, size, 0);
    out.append("\" height=\"");
    push_fixed(&mut out, size, 0);
    out.append("\" viewBox=\"0 0 ");
    push_fixed(&mut out, size, 0);
    out.append(" ");
    push_fixed(&mut out, size, 0);
    out.append("\">\n");
    out.append(mark.as_str());
    out.append("\n</svg>");
    out
}

} // verus!
