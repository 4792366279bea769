//! The view of the host's entities that a tick works on.
//!
//! The host hands over what it knows of each entity. The entities that carry
//! a collision policy take part in the collision pass; of these the snapshot
//! holds position, extent, policy, velocity and id, in the order in which
//! the host listed them. It is taken once per tick, before any response, so
//! that no collision of the tick sees the outcome of another.

use crate::collider::{ColliderInfo, ColliderType, Movement};
use crate::geometry::{Extent, Vector};
use vstd::prelude::*;

verus! {

/// What the host knows of one entity. Any of the parts may be missing.
#[derive(Clone, Copy, Debug, PartialEq, Eq)]
pub struct EntityView {
    pub entity_id: u64,
    pub position: Option<Vector>,
    pub extent: Option<Extent>,
    pub policy: Option<ColliderType>,
    pub movement: Option<Movement>,
}

impl EntityView {
    /// The entity takes part in the collision pass.
    pub open spec fn participates(self) -> bool {
        self.policy is Some
    }

    /// An entity that takes part has a position and an extent.
    pub open spec fn is_complete(self) -> bool {
        self.participates() ==> self.position is Some && self.extent is Some
    }

    /// The snapshot entry of an entity that takes part.
    pub open spec fn collider(self) -> ColliderInfo {
        ColliderInfo {
            position: self.position->0,
            extent: self.extent->0,
            policy: self.policy->0,
            movement: self.movement,
            entity_id: self.entity_id,
        }
    }
}

/// Every entity that takes part has a position and an extent.
pub open spec fn all_complete(entities: Seq<EntityView>) -> bool {
    forall|i: int| 0 <= i < entities.len() ==> (#[trigger] entities[i]).is_complete()
}

/// The snapshot entries of the entities that take part, in the order of the
/// entities.
pub open spec fn snapshot_of(entities: Seq<EntityView>) -> Seq<ColliderInfo>
    decreases entities.len(),
{
    if entities.len() == 0 {
        Seq::empty()
    } else {
        let earlier = snapshot_of(entities.drop_last());
        if entities.last().participates() {
            earlier.push(entities.last().collider())
        } else {
            earlier
        }
    }
}

/// Tells whether every entity with a collision policy also has a position
/// and an extent, as `collect_colliders` demands.
pub fn check_complete(entities: &Vec<EntityView>) -> (complete: bool)
    ensures
        complete == all_complete(entities@),
{
    let mut i: usize = 0;
    while i < entities.len()
        invariant
            i <= entities.len(),
            forall|j: int| 0 <= j < i ==> (#[trigger] entities@[j]).is_complete(),
        decreases entities.len() - i,
    {
        let entity = entities[i];
        if entity.policy.is_some() && (entity.position.is_none() || entity.extent.is_none()) {
            return false;
        }
        i += 1;
    }
    true
}

/// Takes the snapshot of a tick: one entry for each entity that carries a
/// collision policy. An entity with a policy but without position or extent
/// is a fault of the host and must not be handed in.
pub fn collect_colliders(entities: &Vec<EntityView>) -> (colliders: Vec<ColliderInfo>)
    requires
        all_complete(entities@),
    ensures
        colliders@ == snapshot_of(entities@),
{
    let mut colliders: Vec<ColliderInfo> = Vec::new();
    let mut i: usize = 0;
    while i < entities.len()
        invariant
            i <= entities.len(),
            all_complete(entities@),
            colliders@ == snapshot_of(entities@.take(i as int)),
        decreases entities.len() - i,
    {
        assert(entities@.take(i + 1).drop_last() == entities@.take(i as int));
        let entity = entities[i];
        assert(entity == entities@[i as int] && entity.is_complete());
        match (entity.policy, entity.position, entity.extent) {
            (Some(policy), Some(position), Some(extent)) => {
                colliders.push(
                    ColliderInfo {
                        position,
                        extent,
                        policy,
                        movement: entity.movement,
                        entity_id: entity.entity_id,
                    },
                );
            },
            _ => {},
        }
        i += 1;
    }
    assert(entities@.take(i as int) == entities@);
    colliders
}

} // verus!
