//! The playing field. The origin of the world lies at the centre of the
//! window, x grows to the right and y grows upwards.

use vstd::prelude::*;

verus! {

/// Height of the window in pixels.
pub const WINDOWHEIGHT: i16 = 1000;

/// Width of the window in pixels.
pub const WINDOWWIDTH: i16 = 1200;

/// Half of a length, rounded towards zero.
pub open spec fn half(length: int) -> int {
    if length >= 0 {
        length / 2
    } else {
        -((-length) / 2)
    }
}

/// The edge of the screen is half of the total size away from the centre.
/// A negative size gives the edge on the negative side.
pub fn get_edge_of_screen(window_size: i16) -> (edge: i16)
    ensures
        edge == half(window_size as int),
{
    window_size / 2
}

} // verus!
