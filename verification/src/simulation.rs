//! One tick of the engine from start to end: move, detect, respond.

use crate::broad_phase::{same_run, sorted_by_interval};
use crate::collider::{ColliderInfo, ColliderType, CollisionEvent};
use crate::completeness::{lemma_sweep_events_contains, raises};
use crate::integrator::{
    lemma_displacement_bounds,
    move_transforms,
    moved,
    moved_all,
    Timestep,
};
use crate::narrow_phase::{detect_collisions, sweep_events};
use crate::response::{
    can_resolve,
    lemma_entity_index_in_range,
    lemma_nothing_events_are_inert,
    lemma_resolved_len,
    lemma_unnamed_entities_stay,
    moving_index,
    resolve_collisions,
    resolved,
    static_index,
};
use vstd::prelude::*;

verus! {

/// Positions and velocities of a world that `step` advances lie within this
/// distance of the origin on both axes.
pub const WORLD_LIMIT: i64 = 0x4000_0000;

/// The collider lies within the world and moves no faster than the world is
/// wide per second.
pub open spec fn in_world(collider: ColliderInfo) -> bool {
    &&& -WORLD_LIMIT <= collider.position.x <= WORLD_LIMIT
    &&& -WORLD_LIMIT <= collider.position.y <= WORLD_LIMIT
    &&& collider.movement matches Some(movement) ==> {
        &&& -WORLD_LIMIT <= movement.velocity.x <= WORLD_LIMIT
        &&& -WORLD_LIMIT <= movement.velocity.y <= WORLD_LIMIT
    }
}

/// Every collider lies within the world.
pub open spec fn all_in_world(colliders: Seq<ColliderInfo>) -> bool {
    forall|i: int| 0 <= i < colliders.len() ==> in_world(#[trigger] colliders[i])
}

/// What one tick does. All moving colliders advance; `snapshot` holds the
/// advanced colliders sorted by x-interval; `events` are the collisions that
/// sort and sweep finds in the snapshot; `after` is the snapshot with the
/// events answered.
pub open spec fn is_tick(
    before: Seq<ColliderInfo>,
    dt: Timestep,
    snapshot: Seq<ColliderInfo>,
    events: Seq<CollisionEvent>,
    after: Seq<ColliderInfo>,
) -> bool {
    &&& snapshot.to_multiset() == moved_all(before, dt).to_multiset()
    &&& sorted_by_interval(snapshot)
    &&& events == sweep_events(snapshot)
    &&& after == resolved(snapshot, events)
}

/// Far enough from the ends of the `i64` range that any response to any
/// collision can be written down.
spec fn within_reach(collider: ColliderInfo) -> bool {
    &&& -0x4000_0000_4000_0000 <= collider.position.x <= 0x4000_0000_4000_0000
    &&& -0x4000_0000_4000_0000 <= collider.position.y <= 0x4000_0000_4000_0000
    &&& collider.movement matches Some(movement) ==> {
        &&& -WORLD_LIMIT <= movement.velocity.x <= WORLD_LIMIT
        &&& -WORLD_LIMIT <= movement.velocity.y <= WORLD_LIMIT
    }
}

/// Tells whether a collider lies within the world.
pub fn is_in_world(collider: &ColliderInfo) -> (inside: bool)
    ensures
        inside == in_world(*collider),
{
    let position_inside = -WORLD_LIMIT <= collider.position.x && collider.position.x <= WORLD_LIMIT
        && -WORLD_LIMIT <= collider.position.y && collider.position.y <= WORLD_LIMIT;
    match collider.movement {
        Some(movement) => position_inside && -WORLD_LIMIT <= movement.velocity.x
            && movement.velocity.x <= WORLD_LIMIT && -WORLD_LIMIT <= movement.velocity.y
            && movement.velocity.y <= WORLD_LIMIT,
        None => position_inside,
    }
}

/// Runs one tick: advances every moving collider by its velocity times the
/// timestep, finds the collisions among the advanced colliders, answers each
/// by the policy of the moving entity, and hands the events back to the host.
/// The colliders are left sorted by x-interval.
pub fn step(colliders: &mut Vec<ColliderInfo>, dt: Timestep) -> (events: Vec<CollisionEvent>)
    requires
        dt.denominator > 0,
        all_in_world(old(colliders)@),
    ensures
        exists|snapshot: Seq<ColliderInfo>| #[trigger]
            is_tick(old(colliders)@, dt, snapshot, events@, final(colliders)@),
        final(colliders)@.len() == old(colliders)@.len(),
{
    proof {
        assert forall|i: int| 0 <= i < colliders@.len() implies crate::integrator::can_move(
            #[trigger] colliders@[i],
            dt,
        ) by {
            lemma_in_world_moves_within_reach(colliders@[i], dt);
        }
    }
    move_transforms(colliders, dt);
    let ghost advanced = colliders@;
    let events = detect_collisions(colliders);
    let ghost snapshot = colliders@;
    proof {
        assert forall|i: int| 0 <= i < snapshot.len() implies within_reach(
            #[trigger] snapshot[i],
        ) by {
            let c = snapshot[i];
            snapshot.to_multiset_ensures();
            advanced.to_multiset_ensures();
            assert(snapshot.contains(c));
            assert(snapshot.to_multiset().count(c) > 0);
            assert(advanced.to_multiset().count(c) > 0);
            assert(advanced.contains(c));
            let j = choose|j: int| 0 <= j < advanced.len() && advanced[j] == c;
            lemma_in_world_moves_within_reach(old(colliders)@[j], dt);
        }
        lemma_within_reach_can_resolve(snapshot, events@);
    }
    resolve_collisions(colliders, &events);
    proof {
        lemma_resolved_len(snapshot, events@);
        snapshot.to_multiset_ensures();
        advanced.to_multiset_ensures();
    }
    assert(is_tick(old(colliders)@, dt, snapshot, events@, colliders@));
    events
}

/// Runs one tick as `step` does where the timestep is a fraction and every
/// collider lies within the world. Where not, nothing is changed and the
/// answer is `None`.
pub fn try_step(colliders: &mut Vec<ColliderInfo>, dt: Timestep) -> (events: Option<
    Vec<CollisionEvent>,
>)
    ensures
        events is Some <==> dt.denominator > 0 && all_in_world(old(colliders)@),
        events is None ==> final(colliders)@ == old(colliders)@,
        events is Some ==> exists|snapshot: Seq<ColliderInfo>| #[trigger]
            is_tick(old(colliders)@, dt, snapshot, events->0@, final(colliders)@),
        final(colliders)@.len() == old(colliders)@.len(),
{
    if dt.denominator == 0 {
        return None;
    }
    let mut i: usize = 0;
    while i < colliders.len()
        invariant
            i <= colliders.len(),
            colliders@ == old(colliders)@,
            forall|j: int| 0 <= j < i ==> in_world(#[trigger] colliders@[j]),
        decreases colliders.len() - i,
    {
        if !is_in_world(&colliders[i]) {
            return None;
        }
        i += 1;
    }
    let found = step(colliders, dt);
    let ghost events = found@;
    let answer = Some(found);
    assert(answer->0@ == events);
    answer
}

/// A collider of the world can make its move, and after the move every
/// response can still be written down.
proof fn lemma_in_world_moves_within_reach(collider: ColliderInfo, dt: Timestep)
    requires
        dt.denominator > 0,
        in_world(collider),
    ensures
        crate::integrator::can_move(collider, dt),
        within_reach(moved(collider, dt)),
{
    if let Some(movement) = collider.movement {
        lemma_axis_within_reach(collider.position.x, movement.velocity.x, dt);
        lemma_axis_within_reach(collider.position.y, movement.velocity.y, dt);
    }
}

proof fn lemma_axis_within_reach(position: i64, velocity: i64, dt: Timestep)
    requires
        dt.denominator > 0,
        -WORLD_LIMIT <= position <= WORLD_LIMIT,
        -WORLD_LIMIT <= velocity <= WORLD_LIMIT,
    ensures
        -0x4000_0000_4000_0000 <= position + crate::integrator::displacement(velocity as int, dt)
            <= 0x4000_0000_4000_0000,
{
    let n = dt.numerator as int;
    let v = velocity as int;
    lemma_displacement_bounds(v, dt);
    assert(-0x4000_0000 * 0x1_0000_0000 <= v * n <= 0x4000_0000 * 0x1_0000_0000)
        by (nonlinear_arith)
        requires
            -0x4000_0000 <= v <= 0x4000_0000,
            0 <= n <= 0x1_0000_0000,
    ;
}

/// Among colliders that are all within reach, every event can be answered.
proof fn lemma_within_reach_can_resolve(snapshot: Seq<ColliderInfo>, events: Seq<CollisionEvent>)
    requires
        forall|i: int| 0 <= i < snapshot.len() ==> within_reach(#[trigger] snapshot[i]),
    ensures
        can_resolve(snapshot, events),
{
    assert forall|k: int|
        0 <= k < events.len() && crate::response::event_applies(
            snapshot,
            #[trigger] events[k],
        ) implies crate::response::can_respond(
        events[k],
        snapshot[moving_index(snapshot, events[k])],
        snapshot[static_index(snapshot, events[k])],
    ) by {
        lemma_entity_index_in_range(snapshot, events[k].moving_entity, 0);
        lemma_entity_index_in_range(snapshot, events[k].static_entity, 0);
        assert(within_reach(snapshot[moving_index(snapshot, events[k])]));
        assert(within_reach(snapshot[static_index(snapshot, events[k])]));
    }
}

/// An entity with the policy `Nothing` is never touched by the responses of
/// a tick, in however many collisions it is involved: if every collider that
/// carries the entity's id has that policy, each of them is the same after
/// the events of the tick have been answered as before.
pub proof fn lemma_nothing_policy_is_inert(snapshot: Seq<ColliderInfo>, place: int)
    requires
        0 <= place < snapshot.len(),
        forall|j: int|
            0 <= j < snapshot.len() && (#[trigger] snapshot[j]).entity_id
                == snapshot[place].entity_id ==> snapshot[j].policy == ColliderType::Nothing,
    ensures
        resolved(snapshot, sweep_events(snapshot))[place] == snapshot[place],
{
    let events = sweep_events(snapshot);
    assert forall|k: int|
        0 <= k < events.len() && (#[trigger] events[k]).moving_entity
            == snapshot[place].entity_id implies events[k].policy == ColliderType::Nothing by {
        let event = events[k];
        assert(events.contains(event));
        lemma_sweep_events_contains(snapshot, event);
        let (i, j) = choose|i: int, j: int| #[trigger]
            raises(snapshot, i, j, event) && same_run(snapshot, i, j);
        assert(raises(snapshot, i, j, event));
    }
    lemma_nothing_events_are_inert(snapshot, events, place);
}

/// A static entity is never touched by the responses of a tick: a collider
/// without movement, whose id no moving collider shares, is the same after
/// the events of the tick have been answered as before.
pub proof fn lemma_static_entities_stay(snapshot: Seq<ColliderInfo>, place: int)
    requires
        0 <= place < snapshot.len(),
        forall|j: int|
            0 <= j < snapshot.len() && (#[trigger] snapshot[j]).entity_id
                == snapshot[place].entity_id ==> !snapshot[j].is_moving(),
    ensures
        resolved(snapshot, sweep_events(snapshot))[place] == snapshot[place],
{
    let events = sweep_events(snapshot);
    assert forall|k: int| 0 <= k < events.len() implies (#[trigger] events[k]).moving_entity
        != snapshot[place].entity_id by {
        let event = events[k];
        assert(events.contains(event));
        lemma_sweep_events_contains(snapshot, event);
        let (i, j) = choose|i: int, j: int| #[trigger]
            raises(snapshot, i, j, event) && same_run(snapshot, i, j);
        assert(raises(snapshot, i, j, event));
    }
    lemma_unnamed_entities_stay(snapshot, events, place);
}

} // verus!
