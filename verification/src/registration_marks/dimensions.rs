//! The sizes of a registration mark, in millionths of a millimetre.

use vstd::prelude::*;

verus! {

/// Width of the white ground (16 mm).
pub const BG_WIDTH_MM: i64 = 16_000_000;

/// Height of the white ground (18 mm).
pub const BG_HEIGHT_MM: i64 = 18_000_000;

/// Radius of the dot in the centre (0.99 mm).
pub const CENTER_DOT_RADIUS_MM: i64 = 990_000;

/// Outer radius of the inner ring (3 mm).
pub const INNER_RING_OUTER_MM: i64 = 3_000_000;

/// Inner radius of the inner ring (2 mm).
pub const INNER_RING_INNER_MM: i64 = 2_000_000;

/// Outer radius of the outer ring (5 mm).
pub const OUTER_RING_OUTER_MM: i64 = 5_000_000;

/// Inner radius of the outer ring (4 mm).
pub const OUTER_RING_INNER_MM: i64 = 4_000_000;

/// Width of the bar (10 mm).
pub const BAR_WIDTH_MM: i64 = 10_000_000;

/// Height of the bar (1 mm).
pub const BAR_HEIGHT_MM: i64 = 1_000_000;

/// Distance of a mark's centre from the left and right edges of the page
/// (12 mm).
pub const X_INSET_MM: i64 = 12_000_000;

/// Distance of a mark's centre from the top and bottom edges of the page
/// (13.98 mm).
pub const Y_INSET_MM: i64 = 13_980_000;

} // verus!
