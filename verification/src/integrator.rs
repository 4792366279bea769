//! Linear motion over one fixed timestep.

use crate::collider::{ColliderInfo, Movement};
use crate::geometry::{fits_i64, Vector};
use vstd::prelude::*;

verus! {

/// The length of a tick in seconds, as the fraction
/// `numerator / denominator`.
#[derive(Clone, Copy, Debug, PartialEq, Eq, Structural)]
pub struct Timestep {
    pub numerator: u32,
    pub denominator: u32,
}

/// How far a velocity carries along one axis within a tick:
/// `velocity * numerator / denominator`, rounded towards zero.
pub open spec fn displacement(velocity: int, dt: Timestep) -> int {
    if velocity >= 0 {
        (velocity * dt.numerator) / (dt.denominator as int)
    } else {
        -((-velocity * dt.numerator) / (dt.denominator as int))
    }
}

/// An `i64` can hold both coordinates of the position after the tick.
pub open spec fn can_advance(position: Vector, velocity: Vector, dt: Timestep) -> bool {
    &&& fits_i64(position.x + displacement(velocity.x as int, dt))
    &&& fits_i64(position.y + displacement(velocity.y as int, dt))
}

/// The position after one tick at the given velocity.
pub open spec fn advanced(position: Vector, velocity: Vector, dt: Timestep) -> Vector {
    Vector {
        x: (position.x + displacement(velocity.x as int, dt)) as i64,
        y: (position.y + displacement(velocity.y as int, dt)) as i64,
    }
}

/// An `i64` can hold the position of the collider after the tick.
pub open spec fn can_move(collider: ColliderInfo, dt: Timestep) -> bool {
    collider.movement matches Some(movement) ==> can_advance(
        collider.position,
        movement.velocity,
        dt,
    )
}

/// The collider after one tick: a moving one has advanced, a static one is
/// as before.
pub open spec fn moved(collider: ColliderInfo, dt: Timestep) -> ColliderInfo {
    match collider.movement {
        Some(movement) => ColliderInfo {
            position: advanced(collider.position, movement.velocity, dt),
            ..collider
        },
        None => collider,
    }
}

/// Every collider after one tick.
pub open spec fn moved_all(colliders: Seq<ColliderInfo>, dt: Timestep) -> Seq<ColliderInfo> {
    colliders.map_values(|collider: ColliderInfo| moved(collider, dt))
}

/// The distance covered along one axis within a tick.
pub fn displace(velocity: i64, dt: Timestep) -> (distance: i128)
    requires
        dt.denominator > 0,
    ensures
        distance == displacement(velocity as int, dt),
        -0x8000_0000_0000_0000_0000_0000 <= distance <= 0x8000_0000_0000_0000_0000_0000,
{
    let wide_velocity: i128 = velocity as i128;
    let wide_numerator: i128 = dt.numerator as i128;
    let wide_denominator: i128 = dt.denominator as i128;
    proof {
        lemma_product_bounds(wide_velocity as int, wide_numerator as int);
        lemma_displacement_bounds(velocity as int, dt);
        assert(-wide_velocity * wide_numerator == -(wide_velocity * wide_numerator))
            by (nonlinear_arith);
    }
    let product: i128 = wide_velocity * wide_numerator;
    product / wide_denominator
}

/// Moves a position by one tick of the given velocity.
pub fn advance(position: Vector, velocity: Vector, dt: Timestep) -> (next: Vector)
    requires
        dt.denominator > 0,
        can_advance(position, velocity, dt),
    ensures
        next == advanced(position, velocity, dt),
        next.x == position.x + displacement(velocity.x as int, dt),
        next.y == position.y + displacement(velocity.y as int, dt),
{
    let next_x: i128 = position.x as i128 + displace(velocity.x, dt);
    let next_y: i128 = position.y as i128 + displace(velocity.y, dt);
    Vector { x: next_x as i64, y: next_y as i64 }
}

/// Moves a position by one tick of the given velocity where the timestep is
/// a fraction and an `i64` can hold the outcome, and tells by `None` where
/// not.
pub fn try_advance(position: Vector, velocity: Vector, dt: Timestep) -> (next: Option<Vector>)
    ensures
        next is Some <==> dt.denominator > 0 && can_advance(position, velocity, dt),
        next matches Some(reached) ==> reached == advanced(position, velocity, dt),
{
    if dt.denominator == 0 {
        return None;
    }
    let next_x: i128 = position.x as i128 + displace(velocity.x, dt);
    let next_y: i128 = position.y as i128 + displace(velocity.y, dt);
    if next_x < i64::MIN as i128 || next_x > i64::MAX as i128 || next_y < i64::MIN as i128
        || next_y > i64::MAX as i128 {
        return None;
    }
    Some(Vector { x: next_x as i64, y: next_y as i64 })
}

/// Advances every moving collider by its velocity times the timestep. Static
/// colliders stay where they are.
pub fn move_transforms(colliders: &mut Vec<ColliderInfo>, dt: Timestep)
    requires
        dt.denominator > 0,
        forall|i: int| 0 <= i < old(colliders)@.len() ==> can_move(#[trigger] old(colliders)@[i], dt),
    ensures
        final(colliders)@ == moved_all(old(colliders)@, dt),
{
    let mut i: usize = 0;
    while i < colliders.len()
        invariant
            dt.denominator > 0,
            i <= colliders.len(),
            colliders@.len() == old(colliders)@.len(),
            forall|j: int|
                0 <= j < old(colliders)@.len() ==> can_move(#[trigger] old(colliders)@[j], dt),
            forall|j: int| 0 <= j < i ==> colliders@[j] == moved(old(colliders)@[j], dt),
            forall|j: int| i <= j < colliders@.len() ==> colliders@[j] == old(colliders)@[j],
        decreases colliders.len() - i,
    {
        let collider = colliders[i];
        match collider.movement {
            Some(Movement { velocity }) => {
                let position = advance(collider.position, velocity, dt);
                colliders[i] = ColliderInfo { position, ..collider };
            },
            None => {},
        }
        i += 1;
    }
    assert(colliders@ =~= moved_all(old(colliders)@, dt));
}

/// The product of an `i64` and a `u32` lies well within an `i128`.
proof fn lemma_product_bounds(velocity: int, numerator: int)
    requires
        i64::MIN <= velocity <= i64::MAX,
        0 <= numerator <= u32::MAX,
    ensures
        -0x8000_0000_0000_0000_0000_0000 <= velocity * numerator <= 0x8000_0000_0000_0000_0000_0000,
        velocity >= 0 ==> velocity * numerator >= 0,
        velocity <= 0 ==> velocity * numerator <= 0,
{
    assert(velocity * numerator <= 0x8000_0000_0000_0000 * 0x1_0000_0000) by (nonlinear_arith)
        requires
            velocity <= 0x8000_0000_0000_0000,
            0 <= numerator <= 0x1_0000_0000,
    ;
    assert(velocity * numerator >= -0x8000_0000_0000_0000 * 0x1_0000_0000) by (nonlinear_arith)
        requires
            velocity >= -0x8000_0000_0000_0000,
            0 <= numerator <= 0x1_0000_0000,
    ;
    assert(velocity >= 0 ==> velocity * numerator >= 0) by (nonlinear_arith)
        requires
            0 <= numerator,
    ;
    assert(velocity <= 0 ==> velocity * numerator <= 0) by (nonlinear_arith)
        requires
            0 <= numerator,
    ;
}

/// A displacement has the sign of the velocity and is no longer than the
/// velocity times the numerator.
pub proof fn lemma_displacement_bounds(velocity: int, dt: Timestep)
    requires
        dt.denominator > 0,
    ensures
        velocity >= 0 ==> 0 <= displacement(velocity, dt) <= velocity * dt.numerator,
        velocity <= 0 ==> velocity * dt.numerator <= displacement(velocity, dt) <= 0,
{
    let n = dt.numerator as int;
    let d = dt.denominator as int;
    if velocity >= 0 {
        let p = velocity * n;
        assert(p >= 0) by (nonlinear_arith)
            requires
                p == velocity * n,
                velocity >= 0,
                n >= 0,
        ;
        assert(0 <= p / d <= p) by (nonlinear_arith)
            requires
                p >= 0,
                d > 0,
        ;
    } else {
        let p = -velocity * n;
        assert(p >= 0 && p == -(velocity * n)) by (nonlinear_arith)
            requires
                p == -velocity * n,
                velocity < 0,
                n >= 0,
        ;
        assert(0 <= p / d <= p) by (nonlinear_arith)
            requires
                p >= 0,
                d > 0,
        ;
    }
}

} // verus!
