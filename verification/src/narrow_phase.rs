//! The exact test on the candidates that the broad phase leaves: every pair
//! of one moving and one static entity within a cluster is tested for
//! overlap, and each hit becomes a collision event.

use crate::broad_phase::{sort_and_sweep, sorted_by_interval, sweep_clusters};
use crate::collider::{ColliderInfo, CollisionEvent};
use crate::geometry::{overlap, overlap_spec};
use itertools::Itertools;
use vstd::prelude::*;

verus! {

/// The event that a moving entity raises against a static one, if their
/// rectangles intersect.
pub open spec fn determine_collision_spec(
    moving: ColliderInfo,
    fixed: ColliderInfo,
) -> Option<CollisionEvent> {
    match overlap_spec(moving.position, moving.extent, fixed.position, fixed.extent) {
        Some(side) => Some(
            CollisionEvent {
                moving_entity: moving.entity_id,
                static_entity: fixed.entity_id,
                side,
                policy: moving.policy,
            },
        ),
        None => None,
    }
}

/// The event of a pair in either order. Two moving entities raise none, nor
/// do two static ones.
pub open spec fn aabb_collisions_spec(one: ColliderInfo, two: ColliderInfo) -> Option<
    CollisionEvent,
> {
    if one.is_moving() && !two.is_moving() {
        determine_collision_spec(one, two)
    } else if !one.is_moving() && two.is_moving() {
        determine_collision_spec(two, one)
    } else {
        None
    }
}

/// The pairs that entry `i` forms with each later entry, nearest first.
pub open spec fn pairs_with(entries: Seq<ColliderInfo>, i: int) -> Seq<
    (ColliderInfo, ColliderInfo),
> {
    Seq::new((entries.len() - i - 1) as nat, |k: int| (entries[i], entries[i + 1 + k]))
}

/// The pairs of an earlier and a later entry whose earlier entry stands at
/// index `i` or after it, ordered by the index of the earlier entry, then by
/// that of the later one.
pub open spec fn combinations_from(entries: Seq<ColliderInfo>, i: int) -> Seq<
    (ColliderInfo, ColliderInfo),
>
    decreases entries.len() - i,
{
    if i < 0 || i >= entries.len() {
        Seq::empty()
    } else {
        pairs_with(entries, i) + combinations_from(entries, i + 1)
    }
}

/// Every pair of an earlier and a later entry, once.
pub open spec fn combinations(entries: Seq<ColliderInfo>) -> Seq<(ColliderInfo, ColliderInfo)> {
    combinations_from(entries, 0)
}

/// The events of a row of pairs, in the order of the pairs.
pub open spec fn pair_events(pairs: Seq<(ColliderInfo, ColliderInfo)>) -> Seq<CollisionEvent>
    decreases pairs.len(),
{
    if pairs.len() == 0 {
        Seq::empty()
    } else {
        let earlier = pair_events(pairs.drop_last());
        match aabb_collisions_spec(pairs.last().0, pairs.last().1) {
            Some(event) => earlier.push(event),
            None => earlier,
        }
    }
}

/// The events among the entries of one cluster: every pair is tested.
pub open spec fn cluster_events(cluster: Seq<ColliderInfo>) -> Seq<CollisionEvent> {
    pair_events(combinations(cluster))
}

/// The events of a row of clusters, cluster after cluster.
pub open spec fn clusters_events(clusters: Seq<Seq<ColliderInfo>>) -> Seq<CollisionEvent>
    decreases clusters.len(),
{
    if clusters.len() == 0 {
        Seq::empty()
    } else {
        clusters_events(clusters.drop_last()) + cluster_events(clusters.last())
    }
}

/// The events that sort and sweep finds in a sorted row of colliders.
pub open spec fn sweep_events(sorted: Seq<ColliderInfo>) -> Seq<CollisionEvent> {
    clusters_events(sweep_clusters(sorted))
}

/// Tests a moving entity against a static one and reports the side of the
/// static entity that was hit. The positions are those of the snapshot: the
/// moving entity stands where the move of this tick has put it. Which of the
/// two is moving is the caller's word: the movement fields are not read.
pub fn determine_collision(
    moving_collider_info: &ColliderInfo,
    static_collider_info: &ColliderInfo,
) -> (event: Option<CollisionEvent>)
    ensures
        event == determine_collision_spec(*moving_collider_info, *static_collider_info),
{
    match overlap(
        moving_collider_info.position,
        moving_collider_info.extent,
        static_collider_info.position,
        static_collider_info.extent,
    ) {
        Some(side) => Some(
            CollisionEvent {
                moving_entity: moving_collider_info.entity_id,
                static_entity: static_collider_info.entity_id,
                side,
                policy: moving_collider_info.policy,
            },
        ),
        None => None,
    }
}

/// Tests a pair of candidates. Only a pair of one moving and one static
/// entity can collide.
pub fn aabb_collisions(possibly_colliding_entities: (&ColliderInfo, &ColliderInfo)) -> (event:
    Option<CollisionEvent>)
    ensures
        event == aabb_collisions_spec(
            *possibly_colliding_entities.0,
            *possibly_colliding_entities.1,
        ),
{
    let a_movement = possibly_colliding_entities.0.movement;
    let b_movement = possibly_colliding_entities.1.movement;

    match (a_movement, b_movement) {
        (Some(_a_movement), Some(_b_movement)) => None,
        (Some(_movement), None) => determine_collision(
            possibly_colliding_entities.0,
            possibly_colliding_entities.1,
        ),
        (None, Some(_movement)) => determine_collision(
            possibly_colliding_entities.1,
            possibly_colliding_entities.0,
        ),
        (None, None) => None,
    }
}

/// Calls `Itertools::tuple_combinations` of itertools on the entries of a
/// slice, for tuples of two. Not proved: that it yields every pair of an
/// earlier and a later entry exactly once, ordered by the place of the earlier
/// entry and then by the place of the later one.
#[verifier::external_body]
fn tuple_combinations(entries: &[ColliderInfo]) -> (pairs: Vec<(ColliderInfo, ColliderInfo)>)
    ensures
        pairs@ == combinations(entries@),
{
    entries.iter().copied().tuple_combinations::<(ColliderInfo, ColliderInfo)>().collect()
}

/// Tests every pair of a cluster and collects the events.
pub fn cluster_collisions(cluster: &[ColliderInfo]) -> (events: Vec<CollisionEvent>)
    ensures
        events@ == cluster_events(cluster@),
{
    let pairs = tuple_combinations(cluster);
    let mut events: Vec<CollisionEvent> = Vec::new();
    let mut k: usize = 0;
    while k < pairs.len()
        invariant
            k <= pairs.len(),
            events@ == pair_events(pairs@.take(k as int)),
        decreases pairs.len() - k,
    {
        assert(pairs@.take(k + 1).drop_last() == pairs@.take(k as int));
        match aabb_collisions((&pairs[k].0, &pairs[k].1)) {
            Some(event) => {
                events.push(event);
            },
            None => {},
        }
        k += 1;
    }
    assert(pairs@.take(k as int) == pairs@);
    events
}

/// Finds the collisions of a tick. The colliders are sorted in place by
/// x-interval, and the clusters of the sorted row are searched one after
/// the other.
pub fn detect_collisions(collider_infos: &mut Vec<ColliderInfo>) -> (events: Vec<CollisionEvent>)
    ensures
        final(collider_infos)@.to_multiset() == old(collider_infos)@.to_multiset(),
        sorted_by_interval(final(collider_infos)@),
        events@ == sweep_events(final(collider_infos)@),
{
    let clusters = sort_and_sweep(collider_infos);
    let mut events: Vec<CollisionEvent> = Vec::new();
    let mut k: usize = 0;
    while k < clusters.len()
        invariant
            k <= clusters.len(),
            events@ == clusters_events(crate::broad_phase::slice_views(clusters@).take(k as int)),
        decreases clusters.len() - k,
    {
        let ghost views = crate::broad_phase::slice_views(clusters@);
        assert(views.take(k + 1).drop_last() == views.take(k as int));
        let mut found = cluster_collisions(clusters[k]);
        events.append(&mut found);
        k += 1;
    }
    assert(crate::broad_phase::slice_views(clusters@).take(k as int)
        == crate::broad_phase::slice_views(clusters@));
    events
}

} // verus!
