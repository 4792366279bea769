//! What the engine knows of an entity during one tick, and what it reports
//! when two entities collide.

use crate::geometry::{left_edge, right_edge, CollisionSide, Extent, Vector};
use vstd::prelude::*;

verus! {

/// How a moving entity responds when it runs into a static one.
#[derive(Clone, Copy, Debug, PartialEq, Eq, Structural)]
pub enum ColliderType {
    /// Reverse the velocity component that points into the obstacle.
    Reflect,
    /// Put the entity back so that it touches the obstacle without entering it.
    Stop,
    /// Take part in collisions without ever responding to them.
    Nothing,
}

/// Velocity of an entity, in world units per second. An entity that carries
/// one is moving; an entity without is static.
#[derive(Clone, Copy, Debug, PartialEq, Eq, Structural)]
pub struct Movement {
    pub velocity: Vector,
}

/// One entity as the collision pass sees it for the length of a tick.
#[derive(Clone, Copy, Debug, PartialEq, Eq)]
pub struct ColliderInfo {
    /// Centre of the entity's rectangle.
    pub position: Vector,
    /// Size of the entity's rectangle.
    pub extent: Extent,
    pub policy: ColliderType,
    pub movement: Option<Movement>,
    /// The host's identifier of the entity.
    pub entity_id: u64,
}

/// A moving entity has run into a static one.
#[derive(Clone, Copy, Debug, PartialEq, Eq, Structural)]
pub struct CollisionEvent {
    pub moving_entity: u64,
    pub static_entity: u64,
    /// The side of the static entity that was hit.
    pub side: CollisionSide,
    /// The policy of the moving entity.
    pub policy: ColliderType,
}

impl ColliderInfo {
    /// Where the entity's rectangle begins on the x-axis.
    pub open spec fn interval_start(self) -> int {
        left_edge(self.position, self.extent)
    }

    /// Where the entity's rectangle ends on the x-axis.
    pub open spec fn interval_end(self) -> int {
        right_edge(self.position, self.extent)
    }

    pub open spec fn is_moving(self) -> bool {
        self.movement is Some
    }

    /// The x-coordinate of the left edge.
    pub fn start_of_interval(&self) -> (start: i128)
        ensures
            start == self.interval_start(),
    {
        self.position.x as i128 - (self.extent.width / 2) as i128
    }

    /// The x-coordinate of the right edge.
    pub fn end_of_interval(&self) -> (end: i128)
        ensures
            end == self.interval_end(),
    {
        self.position.x as i128 + (self.extent.width / 2) as i128
    }
}

} // verus!
