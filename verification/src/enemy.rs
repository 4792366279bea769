//! Where enemies appear.

use crate::geometry::Vector;
use crate::window::{WINDOWHEIGHT, WINDOWWIDTH};
use rand::Rng;
use vstd::prelude::*;

verus! {

/// Enemies keep this distance from the left and the top edge of the window
/// when they appear.
pub const SPAWN_MARGIN: i64 = 40;

/// The point that lies `from_right` to the left of the window's right edge
/// and `from_top` below its top edge.
pub open spec fn spawn_location_spec(from_right: int, from_top: int) -> Vector {
    Vector { x: (WINDOWWIDTH / 2 - from_right) as i64, y: (WINDOWHEIGHT / 2 - from_top) as i64 }
}

/// A place where an enemy may appear: anywhere in the window but for a
/// margin along each edge.
pub open spec fn is_spawn_location(location: Vector) -> bool {
    &&& SPAWN_MARGIN - WINDOWWIDTH / 2 <= location.x <= WINDOWWIDTH / 2 - SPAWN_MARGIN
    &&& SPAWN_MARGIN - WINDOWHEIGHT / 2 <= location.y <= WINDOWHEIGHT / 2 - SPAWN_MARGIN
}

/// Calls `Rng::gen_range` of rand on the thread's generator, with the range
/// `low..=high`. Not proved: that the number drawn lies within the range.
/// Which number it is depends on chance.
#[verifier::external_body]
fn random_in_range(low: i64, high: i64) -> (drawn: i64)
    requires
        low <= high,
    ensures
        low <= drawn <= high,
{
    rand::thread_rng().gen_range(low..=high)
}

/// Turns two distances, drawn from the right and from the top edge of the
/// window, into a point of the world.
pub fn spawn_location(from_right: i64, from_top: i64) -> (location: Vector)
    requires
        SPAWN_MARGIN <= from_right <= WINDOWWIDTH - SPAWN_MARGIN,
        SPAWN_MARGIN <= from_top <= WINDOWHEIGHT - SPAWN_MARGIN,
    ensures
        location == spawn_location_spec(from_right as int, from_top as int),
        is_spawn_location(location),
{
    let half_width: i64 = (WINDOWWIDTH / 2) as i64;
    let half_height: i64 = (WINDOWHEIGHT / 2) as i64;
    Vector { x: half_width - from_right, y: half_height - from_top }
}

/// Picks at random the place where the next enemy appears.
pub fn spawn_enemy_location() -> (location: Vector)
    ensures
        is_spawn_location(location),
{
    let width: i64 = WINDOWWIDTH as i64;
    let height: i64 = WINDOWHEIGHT as i64;
    let from_right = random_in_range(SPAWN_MARGIN, width - SPAWN_MARGIN);
    let from_top = random_in_range(SPAWN_MARGIN, height - SPAWN_MARGIN);
    spawn_location(from_right, from_top)
}

} // verus!
