//! Changes of coordinate system.

use vstd::prelude::*;
use crate::geometry::{Point2, COORD_LIMIT};

verus! {

/// Translates the world coordinate system, which has Y pointing up and the
/// origin at the centre, to the screen coordinate system, which has Y pointing
/// down and the origin at the top left.
pub fn world_to_screen_coords(screen_width: i64, screen_height: i64, point: Point2) -> (r: Point2)
    requires
        0 <= screen_width <= COORD_LIMIT,
        0 <= screen_height <= COORD_LIMIT,
        point.in_range(),
    ensures
        r.x == point.x + screen_width / 2,
        r.y == screen_height - (point.y + screen_height / 2),
{
    let x = point.x + screen_width / 2;
    let y = screen_height - (point.y + screen_height / 2);
    Point2::new(x, y)
}

} // verus!
