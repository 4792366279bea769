//! The player's ammunition and the velocity that the movement keys ask for.

use crate::collider::Movement;
use crate::geometry::Vector;
use vstd::prelude::*;

verus! {

/// Rounds that a new player carries.
pub const STARTING_AMMO: u8 = 3;

/// The most rounds a player can carry.
pub const MAX_AMMO: u8 = 10;

/// Speed of the player along each axis on which a key is held.
pub const PLAYER_SPEED: i64 = 400;

#[derive(Clone, Copy, Debug, PartialEq, Eq, Structural)]
pub struct Player {
    /// Rounds left to shoot.
    pub ammo: u8,
}

/// The direction along one axis that two opposing keys ask for: `-1`, `0`
/// or `1`. Both keys together cancel out.
pub open spec fn axis(negative: bool, positive: bool) -> int {
    (if positive { 1int } else { 0int }) - (if negative { 1int } else { 0int })
}

impl Player {
    /// A player with the starting ammunition.
    pub fn new() -> (player: Player)
        ensures
            player.ammo == STARTING_AMMO,
    {
        Player { ammo: STARTING_AMMO }
    }

    /// Fires one round if any is left, and tells whether a shot was fired.
    pub fn shoot(&mut self) -> (fired: bool)
        ensures
            fired == (old(self).ammo > 0),
            fired ==> final(self).ammo == old(self).ammo - 1,
            !fired ==> final(self).ammo == old(self).ammo,
    {
        // The player cannot shoot without ammunition.
        if self.ammo > 0 {
            self.ammo -= 1;
            true
        } else {
            false
        }
    }

    /// Picks up one round. A player never carries more than `MAX_AMMO`.
    pub fn collect_ammo(&mut self)
        ensures
            old(self).ammo < MAX_AMMO ==> final(self).ammo == old(self).ammo + 1,
            old(self).ammo >= MAX_AMMO ==> final(self).ammo == MAX_AMMO,
    {
        if self.ammo >= MAX_AMMO {
            self.ammo = MAX_AMMO;
        } else {
            self.ammo += 1;
        }
    }
}

/// The velocity that the held movement keys give the player.
pub fn player_keyboard_input(up: bool, down: bool, left: bool, right: bool) -> (movement: Movement)
    ensures
        movement.velocity.x == axis(left, right) * PLAYER_SPEED,
        movement.velocity.y == axis(down, up) * PLAYER_SPEED,
{
    // If left is pressed the axis is -1, right 1, both cancel out.
    let x_axis: i64 = if right { 1 } else { 0 } - if left { 1 } else { 0 };
    let y_axis: i64 = if up { 1 } else { 0 } - if down { 1 } else { 0 };
    Movement { velocity: Vector { x: x_axis * PLAYER_SPEED, y: y_axis * PLAYER_SPEED } }
}

} // verus!
