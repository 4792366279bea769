//! Where the blocks of the wall around the playing field stand.
//!
//! The wall runs along the four edges of the window. Each corner holds a
//! block of its own; between the corners the edges are filled with blocks
//! side by side.

use crate::geometry::Vector;
use crate::window::{get_edge_of_screen, half, WINDOWHEIGHT, WINDOWWIDTH};
use vstd::prelude::*;

verus! {

/// Side length of a wall block. The window's width and height are multiples
/// of it, so that the corner blocks end at the edge of the screen.
pub const BLOCKSIZE: i16 = 40;

/// How many blocks fit along an edge of the given length between the two
/// corner blocks.
pub open spec fn blocks_between_corners(window_size: int) -> int {
    window_size / (BLOCKSIZE as int) - 2
}

/// The centre of block `k` along an edge of the given length, counted from
/// `1` at the block next to the corner on the negative side.
pub open spec fn block_center(k: int, window_size: int) -> int {
    k * BLOCKSIZE - half(window_size) + BLOCKSIZE / 2
}

/// The centre line of the blocks that stand along the edge on the positive
/// side.
pub open spec fn far_line(window_size: int) -> int {
    half(window_size) - BLOCKSIZE / 2
}

/// The centre line of the blocks that stand along the edge on the negative
/// side.
pub open spec fn near_line(window_size: int) -> int {
    half(-window_size) + BLOCKSIZE / 2
}

/// The blocks of the right edge from bottom to top, then those of the left
/// edge from bottom to top.
pub open spec fn vertical_spawn_locations() -> Seq<Vector> {
    let count = blocks_between_corners(WINDOWHEIGHT as int);
    Seq::new(
        (2 * count) as nat,
        |i: int|
            if i < count {
                Vector {
                    x: far_line(WINDOWWIDTH as int) as i64,
                    y: block_center(i + 1, WINDOWHEIGHT as int) as i64,
                }
            } else {
                Vector {
                    x: near_line(WINDOWWIDTH as int) as i64,
                    y: block_center(i - count + 1, WINDOWHEIGHT as int) as i64,
                }
            },
    )
}

/// The blocks of the bottom edge from left to right, then those of the top
/// edge from left to right.
pub open spec fn horizontal_spawn_locations() -> Seq<Vector> {
    let count = blocks_between_corners(WINDOWWIDTH as int);
    Seq::new(
        (2 * count) as nat,
        |i: int|
            if i < count {
                Vector {
                    x: block_center(i + 1, WINDOWWIDTH as int) as i64,
                    y: near_line(WINDOWHEIGHT as int) as i64,
                }
            } else {
                Vector {
                    x: block_center(i - count + 1, WINDOWWIDTH as int) as i64,
                    y: far_line(WINDOWHEIGHT as int) as i64,
                }
            },
    )
}

/// The four corner blocks: top left, top right, bottom left, bottom right.
pub open spec fn corner_spawn_locations() -> Seq<Vector> {
    let left = near_line(WINDOWWIDTH as int) as i64;
    let right = far_line(WINDOWWIDTH as int) as i64;
    let bottom = near_line(WINDOWHEIGHT as int) as i64;
    let top = far_line(WINDOWHEIGHT as int) as i64;
    seq![
        Vector { x: left, y: top },
        Vector { x: right, y: top },
        Vector { x: left, y: bottom },
        Vector { x: right, y: bottom },
    ]
}

/// The centres of the blocks along one edge of the given length, without
/// the corners.
fn block_positions(window_size: i16) -> (positions: Vec<i16>)
    requires
        window_size == WINDOWHEIGHT || window_size == WINDOWWIDTH,
    ensures
        positions@.len() == blocks_between_corners(window_size as int),
        forall|i: int|
            0 <= i < positions@.len() ==> #[trigger] positions@[i] as int == block_center(
                i + 1,
                window_size as int,
            ),
{
    let blocks: i16 = window_size / BLOCKSIZE - 2;
    let edge: i16 = get_edge_of_screen(window_size);
    let mut positions: Vec<i16> = Vec::new();
    let mut k: i16 = 1;
    while k <= blocks
        invariant
            window_size == WINDOWHEIGHT || window_size == WINDOWWIDTH,
            blocks == blocks_between_corners(window_size as int),
            edge == half(window_size as int),
            1 <= k <= blocks + 1,
            positions@.len() == k - 1,
            forall|i: int|
                0 <= i < positions@.len() ==> #[trigger] positions@[i] as int == block_center(
                    i + 1,
                    window_size as int,
                ),
        decreases blocks + 1 - k,
    {
        positions.push(k * BLOCKSIZE - edge + BLOCKSIZE / 2);
        k += 1;
    }
    positions
}

/// Places the blocks of the vertical walls: the right wall first, then the
/// left one, each without its corners.
pub fn create_vertical_spawn_locations() -> (locations: Vec<Vector>)
    ensures
        locations@ == vertical_spawn_locations(),
{
    let vertical_block_positions = block_positions(WINDOWHEIGHT);
    let right: i16 = get_edge_of_screen(WINDOWWIDTH) - BLOCKSIZE / 2;
    let left: i16 = get_edge_of_screen(-WINDOWWIDTH) + BLOCKSIZE / 2;
    let count: usize = vertical_block_positions.len();
    let mut vertical_blocks: Vec<Vector> = Vec::new();
    let mut i: usize = 0;
    while i < count
        invariant
            count == vertical_block_positions@.len(),
            i <= count,
            vertical_blocks@.len() == i,
            forall|j: int|
                0 <= j < i ==> #[trigger] vertical_blocks@[j] == (Vector {
                    x: right as i64,
                    y: vertical_block_positions@[j] as i64,
                }),
        decreases count - i,
    {
        vertical_blocks.push(Vector { x: right as i64, y: vertical_block_positions[i] as i64 });
        i += 1;
    }
    let mut i: usize = 0;
    while i < count
        invariant
            count == vertical_block_positions@.len(),
            i <= count,
            vertical_blocks@.len() == count + i,
            forall|j: int|
                0 <= j < count ==> #[trigger] vertical_blocks@[j] == (Vector {
                    x: right as i64,
                    y: vertical_block_positions@[j] as i64,
                }),
            forall|j: int|
                count <= j < count + i ==> #[trigger] vertical_blocks@[j] == (Vector {
                    x: left as i64,
                    y: vertical_block_positions@[j - count] as i64,
                }),
        decreases count - i,
    {
        vertical_blocks.push(Vector { x: left as i64, y: vertical_block_positions[i] as i64 });
        i += 1;
    }
    assert(vertical_blocks@ =~= vertical_spawn_locations());
    vertical_blocks
}

/// Places the blocks of the horizontal walls: the bottom wall first, then
/// the top one, each without its corners.
pub fn create_horizontal_spawn_locations() -> (locations: Vec<Vector>)
    ensures
        locations@ == horizontal_spawn_locations(),
{
    // The corners are their own blocks, so they are left out here.
    let horizontal_block_positions = block_positions(WINDOWWIDTH);
    let top: i16 = get_edge_of_screen(WINDOWHEIGHT) - BLOCKSIZE / 2;
    let bottom: i16 = get_edge_of_screen(-WINDOWHEIGHT) + BLOCKSIZE / 2;
    let count: usize = horizontal_block_positions.len();
    let mut horizontal_blocks: Vec<Vector> = Vec::new();
    let mut i: usize = 0;
    while i < count
        invariant
            count == horizontal_block_positions@.len(),
            i <= count,
            horizontal_blocks@.len() == i,
            forall|j: int|
                0 <= j < i ==> #[trigger] horizontal_blocks@[j] == (Vector {
                    x: horizontal_block_positions@[j] as i64,
                    y: bottom as i64,
                }),
        decreases count - i,
    {
        horizontal_blocks.push(
            Vector { x: horizontal_block_positions[i] as i64, y: bottom as i64 },
        );
        i += 1;
    }
    let mut i: usize = 0;
    while i < count
        invariant
            count == horizontal_block_positions@.len(),
            i <= count,
            horizontal_blocks@.len() == count + i,
            forall|j: int|
                0 <= j < count ==> #[trigger] horizontal_blocks@[j] == (Vector {
                    x: horizontal_block_positions@[j] as i64,
                    y: bottom as i64,
                }),
            forall|j: int|
                count <= j < count + i ==> #[trigger] horizontal_blocks@[j] == (Vector {
                    x: horizontal_block_positions@[j - count] as i64,
                    y: top as i64,
                }),
        decreases count - i,
    {
        horizontal_blocks.push(Vector { x: horizontal_block_positions[i] as i64, y: top as i64 });
        i += 1;
    }
    assert(horizontal_blocks@ =~= horizontal_spawn_locations());
    horizontal_blocks
}

/// Places the four corner blocks.
pub fn create_corner_spawn_locations() -> (locations: Vec<Vector>)
    ensures
        locations@ == corner_spawn_locations(),
{
    let left: i16 = get_edge_of_screen(-WINDOWWIDTH) + BLOCKSIZE / 2;
    let right: i16 = get_edge_of_screen(WINDOWWIDTH) - BLOCKSIZE / 2;
    let bottom: i16 = get_edge_of_screen(-WINDOWHEIGHT) + BLOCKSIZE / 2;
    let top: i16 = get_edge_of_screen(WINDOWHEIGHT) - BLOCKSIZE / 2;
    let mut corners: Vec<Vector> = Vec::new();
    corners.push(Vector { x: left as i64, y: top as i64 });
    corners.push(Vector { x: right as i64, y: top as i64 });
    corners.push(Vector { x: left as i64, y: bottom as i64 });
    corners.push(Vector { x: right as i64, y: bottom as i64 });
    assert(corners@ =~= corner_spawn_locations());
    corners
}

} // verus!
