//! Axis-aligned rectangles on an integer grid, and the overlap test that
//! reports which side of a rectangle another one has run into.
//!
//! A rectangle is given by the position of its centre and by its full width
//! and height. Its edges lie half an extent away from the centre, the half
//! being rounded down, so a rectangle of width `w` centred at `x` spans
//! `x - w / 2 ..= x + w / 2`.

use vstd::prelude::*;

verus! {

/// A point or a displacement in world units.
#[derive(Clone, Copy, Debug, PartialEq, Eq, Structural)]
pub struct Vector {
    pub x: i64,
    pub y: i64,
}

/// Full width and height of a rectangle.
#[derive(Clone, Copy, Debug, PartialEq, Eq, Structural)]
pub struct Extent {
    pub width: u32,
    pub height: u32,
}

/// The side of a rectangle that another rectangle has collided with.
///
/// `Inside` is reported when no single side can be told: on both axes one
/// rectangle spans the other, or they share an edge coordinate.
#[derive(Clone, Copy, Debug, PartialEq, Eq, Structural)]
pub enum CollisionSide {
    Left,
    Right,
    Top,
    Bottom,
    Inside,
}

impl Vector {
    pub fn new(x: i64, y: i64) -> (v: Vector)
        ensures
            v == (Vector { x, y }),
    {
        Vector { x, y }
    }
}

impl Extent {
    pub fn new(width: u32, height: u32) -> (e: Extent)
        ensures
            e == (Extent { width, height }),
    {
        Extent { width, height }
    }

    /// Distance from the centre to the left and to the right edge.
    pub open spec fn half_width(self) -> int {
        self.width as int / 2
    }

    /// Distance from the centre to the bottom and to the top edge.
    pub open spec fn half_height(self) -> int {
        self.height as int / 2
    }
}

impl CollisionSide {
    /// The side that the other rectangle sees when the two swap roles.
    pub open spec fn opposite(self) -> CollisionSide {
        match self {
            CollisionSide::Left => CollisionSide::Right,
            CollisionSide::Right => CollisionSide::Left,
            CollisionSide::Top => CollisionSide::Bottom,
            CollisionSide::Bottom => CollisionSide::Top,
            CollisionSide::Inside => CollisionSide::Inside,
        }
    }
}

/// The value is one that an `i64` can hold.
pub open spec fn fits_i64(value: int) -> bool {
    i64::MIN <= value <= i64::MAX
}

pub open spec fn left_edge(center: Vector, size: Extent) -> int {
    center.x - size.half_width()
}

pub open spec fn right_edge(center: Vector, size: Extent) -> int {
    center.x + size.half_width()
}

pub open spec fn bottom_edge(center: Vector, size: Extent) -> int {
    center.y - size.half_height()
}

pub open spec fn top_edge(center: Vector, size: Extent) -> int {
    center.y + size.half_height()
}

/// The two rectangles share interior points: on each axis the interval of one
/// begins strictly before the other's ends.
pub open spec fn intersects(a_pos: Vector, a_size: Extent, b_pos: Vector, b_size: Extent) -> bool {
    &&& left_edge(a_pos, a_size) < right_edge(b_pos, b_size)
    &&& right_edge(a_pos, a_size) > left_edge(b_pos, b_size)
    &&& bottom_edge(a_pos, a_size) < top_edge(b_pos, b_size)
    &&& top_edge(a_pos, a_size) > bottom_edge(b_pos, b_size)
}

/// How the interval `a_min..a_max` lies across the interval `b_min..b_max`:
/// `-1` when it sticks out at the low end only, `1` when it sticks out at the
/// high end only, `0` otherwise.
pub open spec fn axis_side(a_min: int, a_max: int, b_min: int, b_max: int) -> int {
    if a_min < b_min && a_max > b_min && a_max < b_max {
        -1
    } else if a_min > b_min && a_min < b_max && a_max > b_max {
        1
    } else {
        0
    }
}

/// How far `a` reaches into `b` on the side that `axis_side` names.
pub open spec fn axis_depth(a_min: int, a_max: int, b_min: int, b_max: int) -> int {
    if axis_side(a_min, a_max, b_min, b_max) < 0 {
        a_max - b_min
    } else {
        b_max - a_min
    }
}

pub open spec fn horizontal_side(
    a_pos: Vector,
    a_size: Extent,
    b_pos: Vector,
    b_size: Extent,
) -> int {
    axis_side(
        left_edge(a_pos, a_size),
        right_edge(a_pos, a_size),
        left_edge(b_pos, b_size),
        right_edge(b_pos, b_size),
    )
}

pub open spec fn horizontal_depth(
    a_pos: Vector,
    a_size: Extent,
    b_pos: Vector,
    b_size: Extent,
) -> int {
    axis_depth(
        left_edge(a_pos, a_size),
        right_edge(a_pos, a_size),
        left_edge(b_pos, b_size),
        right_edge(b_pos, b_size),
    )
}

pub open spec fn vertical_side(a_pos: Vector, a_size: Extent, b_pos: Vector, b_size: Extent) -> int {
    axis_side(
        bottom_edge(a_pos, a_size),
        top_edge(a_pos, a_size),
        bottom_edge(b_pos, b_size),
        top_edge(b_pos, b_size),
    )
}

pub open spec fn vertical_depth(
    a_pos: Vector,
    a_size: Extent,
    b_pos: Vector,
    b_size: Extent,
) -> int {
    axis_depth(
        bottom_edge(a_pos, a_size),
        top_edge(a_pos, a_size),
        bottom_edge(b_pos, b_size),
        top_edge(b_pos, b_size),
    )
}

/// The side of `b` that `a` has collided with, or `None` when the two do not
/// intersect.
///
/// On each axis `a` names a side of `b` only when it sticks out of `b` at
/// exactly one end. Where both axes name a side, the one with the strictly
/// smaller penetration is taken, the horizontal one on a tie. Where neither
/// does, the answer is `Inside`.
pub open spec fn overlap_spec(
    a_pos: Vector,
    a_size: Extent,
    b_pos: Vector,
    b_size: Extent,
) -> Option<CollisionSide> {
    if !intersects(a_pos, a_size, b_pos, b_size) {
        None
    } else {
        let h = horizontal_side(a_pos, a_size, b_pos, b_size);
        let v = vertical_side(a_pos, a_size, b_pos, b_size);
        let vertical_wins = v != 0 && (h == 0 || vertical_depth(a_pos, a_size, b_pos, b_size)
            < horizontal_depth(a_pos, a_size, b_pos, b_size));
        Some(
            if vertical_wins {
                if v < 0 {
                    CollisionSide::Bottom
                } else {
                    CollisionSide::Top
                }
            } else if h < 0 {
                CollisionSide::Left
            } else if h > 0 {
                CollisionSide::Right
            } else {
                CollisionSide::Inside
            },
        )
    }
}

/// Side and depth of one axis, `0` and no depth when no side can be told.
fn classify_axis(a_min: i128, a_max: i128, b_min: i128, b_max: i128) -> (r: (i8, i128))
    requires
        i64::MIN - u32::MAX <= a_min <= a_max <= i64::MAX + u32::MAX,
        i64::MIN - u32::MAX <= b_min <= b_max <= i64::MAX + u32::MAX,
    ensures
        r.0 as int == axis_side(a_min as int, a_max as int, b_min as int, b_max as int),
        r.0 != 0 ==> r.1 as int == axis_depth(
            a_min as int,
            a_max as int,
            b_min as int,
            b_max as int,
        ),
{
    if a_min < b_min && a_max > b_min && a_max < b_max {
        (-1, a_max - b_min)
    } else if a_min > b_min && a_min < b_max && a_max > b_max {
        (1, b_max - a_min)
    } else {
        (0, 0)
    }
}

/// Tests two rectangles, each given by centre and size, for intersection and
/// names the side of `b` that `a` has run into.
pub fn overlap(a_pos: Vector, a_size: Extent, b_pos: Vector, b_size: Extent) -> (hit: Option<
    CollisionSide,
>)
    ensures
        hit == overlap_spec(a_pos, a_size, b_pos, b_size),
{
    let a_left: i128 = a_pos.x as i128 - (a_size.width / 2) as i128;
    let a_right: i128 = a_pos.x as i128 + (a_size.width / 2) as i128;
    let a_bottom: i128 = a_pos.y as i128 - (a_size.height / 2) as i128;
    let a_top: i128 = a_pos.y as i128 + (a_size.height / 2) as i128;
    let b_left: i128 = b_pos.x as i128 - (b_size.width / 2) as i128;
    let b_right: i128 = b_pos.x as i128 + (b_size.width / 2) as i128;
    let b_bottom: i128 = b_pos.y as i128 - (b_size.height / 2) as i128;
    let b_top: i128 = b_pos.y as i128 + (b_size.height / 2) as i128;

    if a_left < b_right && a_right > b_left && a_bottom < b_top && a_top > b_bottom {
        let (h, h_depth) = classify_axis(a_left, a_right, b_left, b_right);
        let (v, v_depth) = classify_axis(a_bottom, a_top, b_bottom, b_top);
        if v != 0 && (h == 0 || v_depth < h_depth) {
            if v < 0 {
                Some(CollisionSide::Bottom)
            } else {
                Some(CollisionSide::Top)
            }
        } else if h < 0 {
            Some(CollisionSide::Left)
        } else if h > 0 {
            Some(CollisionSide::Right)
        } else {
            Some(CollisionSide::Inside)
        }
    } else {
        None
    }
}

/// Swapping the two rectangles never changes whether they intersect, and
/// turns the reported side into the opposite one: `Left` into `Right`, `Top`
/// into `Bottom`, and `Inside` into itself.
pub proof fn lemma_overlap_symmetric(a_pos: Vector, a_size: Extent, b_pos: Vector, b_size: Extent)
    ensures
        overlap_spec(a_pos, a_size, b_pos, b_size) is None <==> overlap_spec(
            b_pos,
            b_size,
            a_pos,
            a_size,
        ) is None,
        overlap_spec(a_pos, a_size, b_pos, b_size) matches Some(side) ==> overlap_spec(
            b_pos,
            b_size,
            a_pos,
            a_size,
        ) == Some(side.opposite()),
{
}

} // verus!
