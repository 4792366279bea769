//! What a collision does to the moving entity: nothing, a stop flush against
//! the obstacle, or a reflection of its velocity.
//!
//! Every response of a tick is worked out from the colliders as collision
//! detection saw them. An entity that collides more than once in a tick keeps
//! the response to its last event, so that resolving a collision again never
//! moves an entity further and never turns a velocity back.

use crate::collider::{ColliderInfo, ColliderType, CollisionEvent, Movement};
use crate::geometry::{
    bottom_edge,
    fits_i64,
    left_edge,
    right_edge,
    top_edge,
    CollisionSide,
    Extent,
    Vector,
};
use vstd::prelude::*;

verus! {

/// The velocity component that a hit on `side` reverses has a negative that
/// an `i64` can hold.
pub open spec fn can_reflect(side: CollisionSide, velocity: Vector) -> bool {
    match side {
        CollisionSide::Left | CollisionSide::Right => velocity.x > i64::MIN,
        CollisionSide::Top | CollisionSide::Bottom => velocity.y > i64::MIN,
        CollisionSide::Inside => true,
    }
}

/// The velocity after a hit on `side`: a hit on the left or right side
/// reverses the x-component, a hit on the top or bottom side the y-component.
pub open spec fn reflected(side: CollisionSide, velocity: Vector) -> Vector {
    match side {
        CollisionSide::Left | CollisionSide::Right => Vector {
            x: (-velocity.x) as i64,
            y: velocity.y,
        },
        CollisionSide::Top | CollisionSide::Bottom => Vector {
            x: velocity.x,
            y: (-velocity.y) as i64,
        },
        CollisionSide::Inside => velocity,
    }
}

/// The coordinate at which the centre of the moving rectangle must stand, on
/// the axis across the side that was hit, so that the two rectangles touch.
pub open spec fn flush_coordinate(
    side: CollisionSide,
    moving_extent: Extent,
    static_position: Vector,
    static_extent: Extent,
) -> int {
    match side {
        CollisionSide::Left => left_edge(static_position, static_extent)
            - moving_extent.half_width(),
        CollisionSide::Right => right_edge(static_position, static_extent)
            + moving_extent.half_width(),
        CollisionSide::Top => top_edge(static_position, static_extent)
            + moving_extent.half_height(),
        CollisionSide::Bottom => bottom_edge(static_position, static_extent)
            - moving_extent.half_height(),
        CollisionSide::Inside => 0,
    }
}

/// An `i64` can hold the coordinate that a stop on `side` assigns.
pub open spec fn can_stop(
    side: CollisionSide,
    moving_extent: Extent,
    static_position: Vector,
    static_extent: Extent,
) -> bool {
    side != CollisionSide::Inside ==> fits_i64(
        flush_coordinate(side, moving_extent, static_position, static_extent),
    )
}

/// The position of the moving entity after a stop: the coordinate across the
/// side that was hit becomes the flush coordinate, the other one stays.
pub open spec fn stopped(
    side: CollisionSide,
    moving_position: Vector,
    moving_extent: Extent,
    static_position: Vector,
    static_extent: Extent,
) -> Vector {
    let flush = flush_coordinate(side, moving_extent, static_position, static_extent) as i64;
    match side {
        CollisionSide::Left | CollisionSide::Right => Vector { x: flush, y: moving_position.y },
        CollisionSide::Top | CollisionSide::Bottom => Vector { x: moving_position.x, y: flush },
        CollisionSide::Inside => moving_position,
    }
}

/// An `i64` can hold every number that the response to `event` assigns.
pub open spec fn can_respond(event: CollisionEvent, moving: ColliderInfo, fixed: ColliderInfo) -> bool {
    match event.policy {
        ColliderType::Nothing => true,
        ColliderType::Stop => can_stop(event.side, moving.extent, fixed.position, fixed.extent),
        ColliderType::Reflect => moving.movement is Some ==> can_reflect(
            event.side,
            moving.movement->0.velocity,
        ),
    }
}

/// The moving entity after the response that the policy of `event` asks for.
pub open spec fn response(event: CollisionEvent, moving: ColliderInfo, fixed: ColliderInfo) -> ColliderInfo {
    match event.policy {
        ColliderType::Nothing => moving,
        ColliderType::Stop => ColliderInfo {
            position: stopped(
                event.side,
                moving.position,
                moving.extent,
                fixed.position,
                fixed.extent,
            ),
            ..moving
        },
        ColliderType::Reflect => match moving.movement {
            Some(movement) => ColliderInfo {
                movement: Some(Movement { velocity: reflected(event.side, movement.velocity) }),
                ..moving
            },
            None => moving,
        },
    }
}

/// The place of the first collider at or after place `from` that belongs to
/// entity `id`.
pub open spec fn entity_index_from(colliders: Seq<ColliderInfo>, id: u64, from: int) -> Option<int>
    decreases colliders.len() - from,
{
    if from < 0 || from >= colliders.len() {
        None
    } else if colliders[from].entity_id == id {
        Some(from)
    } else {
        entity_index_from(colliders, id, from + 1)
    }
}

/// The place of the first collider that belongs to entity `id`.
pub open spec fn entity_index(colliders: Seq<ColliderInfo>, id: u64) -> Option<int> {
    entity_index_from(colliders, id, 0)
}

/// Both entities of the event are among the colliders.
pub open spec fn event_applies(snapshot: Seq<ColliderInfo>, event: CollisionEvent) -> bool {
    entity_index(snapshot, event.moving_entity) is Some && entity_index(
        snapshot,
        event.static_entity,
    ) is Some
}

/// The place of the collider that the event moves.
pub open spec fn moving_index(snapshot: Seq<ColliderInfo>, event: CollisionEvent) -> int {
    entity_index(snapshot, event.moving_entity)->0
}

/// The place of the collider that the event's moving entity has run into.
pub open spec fn static_index(snapshot: Seq<ColliderInfo>, event: CollisionEvent) -> int {
    entity_index(snapshot, event.static_entity)->0
}

/// The collider that the event moves, after the response.
pub open spec fn event_response(snapshot: Seq<ColliderInfo>, event: CollisionEvent) -> ColliderInfo {
    response(
        event,
        snapshot[moving_index(snapshot, event)],
        snapshot[static_index(snapshot, event)],
    )
}

/// An `i64` can hold every number that the responses to the events assign.
pub open spec fn can_resolve(snapshot: Seq<ColliderInfo>, events: Seq<CollisionEvent>) -> bool {
    forall|k: int|
        0 <= k < events.len() && event_applies(snapshot, #[trigger] events[k]) ==> can_respond(
            events[k],
            snapshot[moving_index(snapshot, events[k])],
            snapshot[static_index(snapshot, events[k])],
        )
}

/// The colliders after the events of a tick have been answered, one after
/// the other. Each response starts from the snapshot, so a later event of an
/// entity replaces the response to an earlier one. An event that names an
/// entity that is not among the colliders changes nothing.
pub open spec fn resolved(snapshot: Seq<ColliderInfo>, events: Seq<CollisionEvent>) -> Seq<
    ColliderInfo,
>
    decreases events.len(),
{
    if events.len() == 0 {
        snapshot
    } else {
        let earlier = resolved(snapshot, events.drop_last());
        let event = events.last();
        if event_applies(snapshot, event) {
            earlier.update(moving_index(snapshot, event), event_response(snapshot, event))
        } else {
            earlier
        }
    }
}

/// Reverses the velocity component that points across the side that was hit.
/// The position is left alone, so the reflection shows from the next tick on.
pub fn reflect_entity(side: CollisionSide, movement: &mut Movement)
    requires
        can_reflect(side, old(movement).velocity),
    ensures
        final(movement).velocity == reflected(side, old(movement).velocity),
        side == CollisionSide::Left || side == CollisionSide::Right ==> {
            &&& final(movement).velocity.x == -old(movement).velocity.x
            &&& final(movement).velocity.y == old(movement).velocity.y
        },
        side == CollisionSide::Top || side == CollisionSide::Bottom ==> {
            &&& final(movement).velocity.y == -old(movement).velocity.y
            &&& final(movement).velocity.x == old(movement).velocity.x
        },
        side == CollisionSide::Inside ==> *final(movement) == *old(movement),
{
    let velocity = movement.velocity;
    match side {
        CollisionSide::Left => {
            movement.velocity = Vector { x: -velocity.x, y: velocity.y };
        },
        CollisionSide::Right => {
            movement.velocity = Vector { x: -velocity.x, y: velocity.y };
        },
        CollisionSide::Top => {
            movement.velocity = Vector { x: velocity.x, y: -velocity.y };
        },
        CollisionSide::Bottom => {
            movement.velocity = Vector { x: velocity.x, y: -velocity.y };
        },
        CollisionSide::Inside => {},
    }
}

/// Puts the moving entity back so that its face on the side of the collision
/// lies on the face of the static entity that it hit. The other coordinate
/// stays, and a collision `Inside` moves nothing.
pub fn stop_moving_entity(
    side: CollisionSide,
    moving_position: &mut Vector,
    moving_extent: Extent,
    static_position: Vector,
    static_extent: Extent,
)
    requires
        can_stop(side, moving_extent, static_position, static_extent),
    ensures
        *final(moving_position) == stopped(
            side,
            *old(moving_position),
            moving_extent,
            static_position,
            static_extent,
        ),
        side == CollisionSide::Left ==> {
            &&& right_edge(*final(moving_position), moving_extent) == left_edge(
                static_position,
                static_extent,
            )
            &&& final(moving_position).y == old(moving_position).y
        },
        side == CollisionSide::Right ==> {
            &&& left_edge(*final(moving_position), moving_extent) == right_edge(
                static_position,
                static_extent,
            )
            &&& final(moving_position).y == old(moving_position).y
        },
        side == CollisionSide::Top ==> {
            &&& bottom_edge(*final(moving_position), moving_extent) == top_edge(
                static_position,
                static_extent,
            )
            &&& final(moving_position).x == old(moving_position).x
        },
        side == CollisionSide::Bottom ==> {
            &&& top_edge(*final(moving_position), moving_extent) == bottom_edge(
                static_position,
                static_extent,
            )
            &&& final(moving_position).x == old(moving_position).x
        },
        side == CollisionSide::Inside ==> *final(moving_position) == *old(moving_position),
{
    let moving_half_width: i128 = (moving_extent.width / 2) as i128;
    let moving_half_height: i128 = (moving_extent.height / 2) as i128;
    let static_half_width: i128 = (static_extent.width / 2) as i128;
    let static_half_height: i128 = (static_extent.height / 2) as i128;
    match side {
        CollisionSide::Left => {
            let one_x_pos: i128 = static_position.x as i128 - static_half_width;
            moving_position.x = (one_x_pos - moving_half_width) as i64;
        },
        CollisionSide::Right => {
            let one_x_pos: i128 = static_position.x as i128 + static_half_width;
            moving_position.x = (one_x_pos + moving_half_width) as i64;
        },
        CollisionSide::Top => {
            let one_y_pos: i128 = static_position.y as i128 + static_half_height;
            moving_position.y = (one_y_pos + moving_half_height) as i64;
        },
        CollisionSide::Bottom => {
            let one_y_pos: i128 = static_position.y as i128 - static_half_height;
            moving_position.y = (one_y_pos - moving_half_height) as i64;
        },
        CollisionSide::Inside => {},
    }
}

/// Answers one event on behalf of the moving entity, by the policy that the
/// event carries.
pub fn respond(event: &CollisionEvent, moving: &mut ColliderInfo, fixed: &ColliderInfo)
    requires
        can_respond(*event, *old(moving), *fixed),
    ensures
        *final(moving) == response(*event, *old(moving), *fixed),
        event.policy == ColliderType::Nothing ==> *final(moving) == *old(moving),
{
    match event.policy {
        ColliderType::Reflect => {
            match moving.movement {
                Some(movement) => {
                    let mut turned = movement;
                    reflect_entity(event.side, &mut turned);
                    moving.movement = Some(turned);
                },
                None => {},
            }
        },
        ColliderType::Stop => {
            let mut position = moving.position;
            stop_moving_entity(
                event.side,
                &mut position,
                moving.extent,
                fixed.position,
                fixed.extent,
            );
            moving.position = position;
        },
        ColliderType::Nothing => {},
    }
}

/// Looks an entity up among the colliders.
pub fn find_entity(colliders: &Vec<ColliderInfo>, id: u64) -> (place: Option<usize>)
    ensures
        match place {
            Some(i) => entity_index(colliders@, id) == Some(i as int),
            None => entity_index(colliders@, id) is None,
        },
{
    let mut i: usize = 0;
    while i < colliders.len()
        invariant
            i <= colliders.len(),
            entity_index(colliders@, id) == entity_index_from(colliders@, id, i as int),
        decreases colliders.len() - i,
    {
        if colliders[i].entity_id == id {
            return Some(i);
        }
        i += 1;
    }
    None
}

/// Answers the events of a tick. Each response is worked out from the
/// colliders as they are handed in; on return each moving entity carries the
/// response to its last event.
pub fn resolve_collisions(colliders: &mut Vec<ColliderInfo>, events: &Vec<CollisionEvent>)
    requires
        can_resolve(old(colliders)@, events@),
    ensures
        final(colliders)@ == resolved(old(colliders)@, events@),
{
    let mut snapshot: Vec<ColliderInfo> = Vec::new();
    let mut i: usize = 0;
    while i < colliders.len()
        invariant
            i <= colliders.len(),
            colliders@ == old(colliders)@,
            snapshot@ == colliders@.take(i as int),
        decreases colliders.len() - i,
    {
        snapshot.push(colliders[i]);
        i += 1;
    }
    assert(snapshot@ == old(colliders)@);

    let mut k: usize = 0;
    while k < events.len()
        invariant
            k <= events.len(),
            snapshot@ == old(colliders)@,
            can_resolve(snapshot@, events@),
            colliders@.len() == snapshot@.len(),
            colliders@ == resolved(snapshot@, events@.take(k as int)),
        decreases events.len() - k,
    {
        assert(events@.take(k + 1).drop_last() == events@.take(k as int));
        let event = events[k];
        let moving_place = find_entity(&snapshot, event.moving_entity);
        let static_place = find_entity(&snapshot, event.static_entity);
        match (moving_place, static_place) {
            (Some(m), Some(s)) => {
                proof {
                    lemma_entity_index_in_range(snapshot@, event.moving_entity, 0);
                    lemma_entity_index_in_range(snapshot@, event.static_entity, 0);
                }
                let mut moving = snapshot[m];
                respond(&event, &mut moving, &snapshot[s]);
                colliders[m] = moving;
            },
            _ => {},
        }
        k += 1;
        proof {
            lemma_resolved_len(snapshot@, events@.take(k as int));
        }
    }
    assert(events@.take(k as int) == events@);
}

/// A place that the search reports lies among the colliders, at or after the
/// place where the search began.
pub proof fn lemma_entity_index_in_range(colliders: Seq<ColliderInfo>, id: u64, from: int)
    requires
        0 <= from,
    ensures
        entity_index_from(colliders, id, from) matches Some(i) ==> from <= i < colliders.len()
            && colliders[i].entity_id == id,
    decreases colliders.len() - from,
{
    if from < colliders.len() && colliders[from].entity_id != id {
        lemma_entity_index_in_range(colliders, id, from + 1);
    }
}

/// Answering events neither adds nor removes a collider.
pub proof fn lemma_resolved_len(snapshot: Seq<ColliderInfo>, events: Seq<CollisionEvent>)
    ensures
        resolved(snapshot, events).len() == snapshot.len(),
    decreases events.len(),
{
    if events.len() > 0 {
        lemma_resolved_len(snapshot, events.drop_last());
        if event_applies(snapshot, events.last()) {
            lemma_entity_index_in_range(snapshot, events.last().moving_entity, 0);
        }
    }
}

/// Two reflections off the same side, one after the other, give the velocity
/// back as it was.
pub proof fn lemma_reflect_twice_restores(side: CollisionSide, velocity: Vector)
    requires
        can_reflect(side, velocity),
    ensures
        can_reflect(side, reflected(side, velocity)),
        reflected(side, reflected(side, velocity)) == velocity,
{
}

/// An entity whose events all carry the policy `Nothing` comes out of the
/// dispatcher as it went in, however many events name it.
pub proof fn lemma_nothing_events_are_inert(
    snapshot: Seq<ColliderInfo>,
    events: Seq<CollisionEvent>,
    place: int,
)
    requires
        0 <= place < snapshot.len(),
        forall|k: int|
            0 <= k < events.len() && (#[trigger] events[k]).moving_entity
                == snapshot[place].entity_id ==> events[k].policy == ColliderType::Nothing,
    ensures
        resolved(snapshot, events)[place] == snapshot[place],
    decreases events.len(),
{
    if events.len() > 0 {
        let front = events.drop_last();
        let event = events.last();
        assert forall|k: int|
            0 <= k < front.len() && (#[trigger] front[k]).moving_entity
                == snapshot[place].entity_id implies front[k].policy == ColliderType::Nothing by {
            assert(front[k] == events[k]);
        }
        lemma_nothing_events_are_inert(snapshot, front, place);
        lemma_resolved_len(snapshot, front);
        if event_applies(snapshot, event) {
            lemma_entity_index_in_range(snapshot, event.moving_entity, 0);
            assert(event == events[events.len() - 1]);
        }
    }
}

/// An entity that no event names as the moving one comes out of the
/// dispatcher as it went in.
pub proof fn lemma_unnamed_entities_stay(
    snapshot: Seq<ColliderInfo>,
    events: Seq<CollisionEvent>,
    place: int,
)
    requires
        0 <= place < snapshot.len(),
        forall|k: int|
            0 <= k < events.len() ==> (#[trigger] events[k]).moving_entity
                != snapshot[place].entity_id,
    ensures
        resolved(snapshot, events)[place] == snapshot[place],
{
    lemma_nothing_events_are_inert(snapshot, events, place);
}

/// Answering the same collision again, from where the first answer left the
/// entity, moves it no further.
pub proof fn lemma_responding_again_moves_no_further(
    event: CollisionEvent,
    moving: ColliderInfo,
    fixed: ColliderInfo,
)
    ensures
        response(event, response(event, moving, fixed), fixed).position == response(
            event,
            moving,
            fixed,
        ).position,
{
}

} // verus!
