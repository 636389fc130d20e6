//! Integer line rasterization.
//!
//! The rasterized line between two lattice points is what the line-drawing
//! crate's Bresenham iterator emits; this module gives that point sequence
//! a name and the facts the drawing code needs: it starts at the start
//! point, ends at the end point, has one point per unit of the longer axis
//! span, and never leaves the endpoints' bounding box.

use vstd::prelude::*;
use vstd::math::{abs, max, min};

verus! {

/// A coordinate magnitude up to which the rasterizer's internal arithmetic
/// cannot overflow.
pub const RASTER_COORD_LIMIT: i32 = 536870911;

/// The lattice points of the rasterized line from `(x0, y0)` to `(x1, y1)`,
/// in emission order: a function of the endpoints alone.
pub uninterp spec fn line_points(x0: i32, y0: i32, x1: i32, y1: i32) -> Seq<(i32, i32)>;

/// Relies on line_drawing's `Bresenham` iterator. Its documentation and
/// source show: the walk starts at the start point, includes both endpoints,
/// emits one point per step of the driving axis (so `1 + max(|dx|, |dy|)`
/// points in all), and in octant space moves monotonically from start to
/// end, so every point stays inside the endpoints' bounding box.
#[verifier::external_body]
pub(crate) fn bresenham_points(x0: i32, y0: i32, x1: i32, y1: i32) -> (r: Vec<(i32, i32)>)
    requires
        -RASTER_COORD_LIMIT <= x0 <= RASTER_COORD_LIMIT,
        -RASTER_COORD_LIMIT <= y0 <= RASTER_COORD_LIMIT,
        -RASTER_COORD_LIMIT <= x1 <= RASTER_COORD_LIMIT,
        -RASTER_COORD_LIMIT <= y1 <= RASTER_COORD_LIMIT,
    ensures
        r@ == line_points(x0, y0, x1, y1),
        r@.len() == 1 + max(abs(x1 - x0) as int, abs(y1 - y0) as int),
        r@[0] == (x0, y0),
        r@[r@.len() - 1] == (x1, y1),
        forall|k: int|
            0 <= k < r@.len() ==> {
                &&& min(x0 as int, x1 as int) <= (#[trigger] r@[k]).0 <= max(x0 as int, x1 as int)
                &&& min(y0 as int, y1 as int) <= r@[k].1 <= max(y0 as int, y1 as int)
            },
{
    line_drawing::Bresenham::new((x0, y0), (x1, y1)).collect()
}

} // verus!
