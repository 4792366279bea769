//! What sort and sweep finds, held against a test of every pair.
//!
//! A run of the sorted row ends wherever an interval starts behind the end
//! of its left neighbour. A wide interval can reach over a short neighbour
//! and into an interval on the far side of it; the run then ends between the
//! two, and a collision between them goes unseen. The statements here say
//! exactly which collisions are found, and that all are found whenever no
//! two colliding entries lie in different runs.

use crate::broad_phase::{
    cluster_ending_at,
    interval_before,
    is_cluster_end,
    lemma_clusters_upto_contains,
    lemma_run_end,
    lemma_run_start_bounds,
    lemma_run_start_within_run,
    run_end,
    run_start,
    same_run,
    sorted_by_interval,
    sweep_clusters,
    touching,
};
use crate::collider::{ColliderInfo, CollisionEvent};
use crate::narrow_phase::{
    aabb_collisions_spec,
    cluster_events,
    clusters_events,
    combinations,
    combinations_from,
    pair_events,
    pairs_with,
    sweep_events,
};
use vstd::prelude::*;
use vstd::seq_lib::{lemma_seq_concat_contains_all_elements, lemma_seq_contains_after_push};

verus! {

/// Entries `i` and `j` of the row, `i` before `j`, raise `event`.
pub open spec fn raises(row: Seq<ColliderInfo>, i: int, j: int, event: CollisionEvent) -> bool {
    0 <= i < j < row.len() && aabb_collisions_spec(row[i], row[j]) == Some(event)
}

/// Some two entries of the row raise `event`.
pub open spec fn raised_among(row: Seq<ColliderInfo>, event: CollisionEvent) -> bool {
    exists|i: int, j: int| #[trigger] raises(row, i, j, event)
}

/// Some two entries of one run of the row raise `event`.
pub open spec fn raised_within_run(row: Seq<ColliderInfo>, event: CollisionEvent) -> bool {
    exists|i: int, j: int| #[trigger] raises(row, i, j, event) && same_run(row, i, j)
}

/// Whenever two entries of the row collide, no run ends between them.
pub open spec fn collisions_within_runs(row: Seq<ColliderInfo>) -> bool {
    forall|i: int, j: int|
        0 <= i < j < row.len() && aabb_collisions_spec(row[i], row[j]) is Some
            ==> #[trigger] same_run(row, i, j)
}

/// Along the row no interval ends before an earlier one does.
pub open spec fn ends_in_order(row: Seq<ColliderInfo>) -> bool {
    forall|i: int, j: int|
        0 <= i < j < row.len() ==> (#[trigger] row[i]).interval_end() <= (
        #[trigger] row[j]).interval_end()
}

/// No two entries of the row belong to the same entity.
pub open spec fn distinct_entities(row: Seq<ColliderInfo>) -> bool {
    forall|i: int, j: int|
        0 <= i < j < row.len() ==> (#[trigger] row[i]).entity_id != (#[trigger] row[j]).entity_id
}

/// A pair raises the same event in either order.
pub proof fn lemma_aabb_collisions_symmetric(one: ColliderInfo, two: ColliderInfo)
    ensures
        aabb_collisions_spec(one, two) == aabb_collisions_spec(two, one),
{
}

proof fn lemma_pairs_with_contains(
    entries: Seq<ColliderInfo>,
    i: int,
    pair: (ColliderInfo, ColliderInfo),
)
    requires
        0 <= i < entries.len(),
    ensures
        pairs_with(entries, i).contains(pair) <==> (entries[i] == pair.0 && exists|q: int|
            i < q < entries.len() && #[trigger] entries[q] == pair.1),
{
    let row = pairs_with(entries, i);
    if row.contains(pair) {
        let k = choose|k: int| 0 <= k < row.len() && row[k] == pair;
        assert(entries[i + 1 + k] == pair.1);
    }
    if entries[i] == pair.0 && exists|q: int|
        i < q < entries.len() && #[trigger] entries[q] == pair.1 {
        let q = choose|q: int| i < q < entries.len() && #[trigger] entries[q] == pair.1;
        assert(row[q - i - 1] == pair);
    }
}

/// Two entries stand at places `p` before `q`, `p` no earlier than `from`.
spec fn stand_at(
    entries: Seq<ColliderInfo>,
    from: int,
    p: int,
    q: int,
    pair: (ColliderInfo, ColliderInfo),
) -> bool {
    from <= p < q < entries.len() && entries[p] == pair.0 && entries[q] == pair.1
}

proof fn lemma_combinations_from_contains(
    entries: Seq<ColliderInfo>,
    from: int,
    pair: (ColliderInfo, ColliderInfo),
)
    requires
        0 <= from,
    ensures
        combinations_from(entries, from).contains(pair) <==> exists|p: int, q: int| #[trigger]
            stand_at(entries, from, p, q, pair),
    decreases entries.len() - from,
{
    if from < entries.len() {
        let head = pairs_with(entries, from);
        let tail = combinations_from(entries, from + 1);
        lemma_combinations_from_contains(entries, from + 1, pair);
        lemma_pairs_with_contains(entries, from, pair);
        lemma_seq_concat_contains_all_elements(head, tail, pair);
        if combinations_from(entries, from).contains(pair) {
            if head.contains(pair) {
                let q = choose|q: int| from < q < entries.len() && #[trigger] entries[q] == pair.1;
                assert(stand_at(entries, from, from, q, pair));
            } else {
                let (p, q) = choose|p: int, q: int| #[trigger]
                    stand_at(entries, from + 1, p, q, pair);
                assert(stand_at(entries, from, p, q, pair));
            }
        }
        if exists|p: int, q: int| #[trigger] stand_at(entries, from, p, q, pair) {
            let (p, q) = choose|p: int, q: int| #[trigger] stand_at(entries, from, p, q, pair);
            if p == from {
                assert(entries[q] == pair.1);
            } else {
                assert(stand_at(entries, from + 1, p, q, pair));
            }
        }
    }
}

/// The pair at place `k` raises `event`.
spec fn pair_raises(pairs: Seq<(ColliderInfo, ColliderInfo)>, k: int, event: CollisionEvent) -> bool {
    0 <= k < pairs.len() && aabb_collisions_spec(pairs[k].0, pairs[k].1) == Some(event)
}

proof fn lemma_pair_events_contains(pairs: Seq<(ColliderInfo, ColliderInfo)>, event: CollisionEvent)
    ensures
        pair_events(pairs).contains(event) <==> exists|k: int| #[trigger]
            pair_raises(pairs, k, event),
    decreases pairs.len(),
{
    if pairs.len() > 0 {
        let front = pairs.drop_last();
        let last = pairs.len() - 1;
        lemma_pair_events_contains(front, event);
        if let Some(raised) = aabb_collisions_spec(pairs.last().0, pairs.last().1) {
            lemma_seq_contains_after_push(pair_events(front), raised, event);
        }
        if pair_events(pairs).contains(event) {
            if pair_events(front).contains(event) {
                let k = choose|k: int| #[trigger] pair_raises(front, k, event);
                assert(pair_raises(pairs, k, event));
            } else {
                assert(pair_raises(pairs, last, event));
            }
        }
        if exists|k: int| #[trigger] pair_raises(pairs, k, event) {
            let k = choose|k: int| #[trigger] pair_raises(pairs, k, event);
            if k < last {
                assert(pair_raises(front, k, event));
            }
        }
    }
}

/// Testing every pair of a row finds exactly the events that two of its
/// entries raise.
pub proof fn lemma_cluster_events_contains(row: Seq<ColliderInfo>, event: CollisionEvent)
    ensures
        cluster_events(row).contains(event) <==> raised_among(row, event),
{
    let pairs = combinations(row);
    lemma_pair_events_contains(pairs, event);
    if cluster_events(row).contains(event) {
        let k = choose|k: int| #[trigger] pair_raises(pairs, k, event);
        assert(pairs.contains(pairs[k]));
        lemma_combinations_from_contains(row, 0, pairs[k]);
        let (p, q) = choose|p: int, q: int| #[trigger] stand_at(row, 0, p, q, pairs[k]);
        assert(raises(row, p, q, event));
    }
    if raised_among(row, event) {
        let (i, j) = choose|i: int, j: int| #[trigger] raises(row, i, j, event);
        let pair = (row[i], row[j]);
        assert(stand_at(row, 0, i, j, pair));
        lemma_combinations_from_contains(row, 0, pair);
        let k = choose|k: int| 0 <= k < pairs.len() && pairs[k] == pair;
        assert(pair_raises(pairs, k, event));
    }
}

/// Cluster `k` holds two entries that raise `event`.
spec fn cluster_raises(clusters: Seq<Seq<ColliderInfo>>, k: int, event: CollisionEvent) -> bool {
    0 <= k < clusters.len() && raised_among(clusters[k], event)
}

proof fn lemma_clusters_events_contains(clusters: Seq<Seq<ColliderInfo>>, event: CollisionEvent)
    ensures
        clusters_events(clusters).contains(event) <==> exists|k: int| #[trigger]
            cluster_raises(clusters, k, event),
    decreases clusters.len(),
{
    if clusters.len() > 0 {
        let front = clusters.drop_last();
        let last = clusters.len() - 1;
        lemma_clusters_events_contains(front, event);
        lemma_cluster_events_contains(clusters.last(), event);
        lemma_seq_concat_contains_all_elements(
            clusters_events(front),
            cluster_events(clusters.last()),
            event,
        );
        if clusters_events(clusters).contains(event) {
            if clusters_events(front).contains(event) {
                let k = choose|k: int| #[trigger] cluster_raises(front, k, event);
                assert(cluster_raises(clusters, k, event));
            } else {
                assert(cluster_raises(clusters, last, event));
            }
        }
        if exists|k: int| #[trigger] cluster_raises(clusters, k, event) {
            let k = choose|k: int| #[trigger] cluster_raises(clusters, k, event);
            if k < last {
                assert(cluster_raises(front, k, event));
            }
        }
    }
}

/// Sort and sweep finds exactly the events that two entries of one run
/// raise.
pub proof fn lemma_sweep_events_contains(row: Seq<ColliderInfo>, event: CollisionEvent)
    ensures
        sweep_events(row).contains(event) <==> raised_within_run(row, event),
{
    let clusters = sweep_clusters(row);
    let n = row.len() as int;
    lemma_clusters_events_contains(clusters, event);
    if sweep_events(row).contains(event) {
        let k = choose|k: int| #[trigger] cluster_raises(clusters, k, event);
        let cluster = clusters[k];
        assert(clusters.contains(cluster));
        lemma_clusters_upto_contains(row, n, cluster);
        let end = choose|end: int|
            1 <= end <= n && #[trigger] is_cluster_end(row, end) && cluster == cluster_ending_at(
                row,
                end,
            );
        let start = run_start(row, end - 1);
        lemma_run_start_bounds(row, end - 1);
        let (p, q) = choose|p: int, q: int| #[trigger] raises(cluster, p, q, event);
        assert(cluster[p] == row[start + p]);
        assert(cluster[q] == row[start + q]);
        lemma_run_start_within_run(row, start + q, end - 1);
        assert(raises(row, start + p, start + q, event) && same_run(row, start + p, start + q));
    }
    if raised_within_run(row, event) {
        let (i, j) = choose|i: int, j: int| #[trigger]
            raises(row, i, j, event) && same_run(row, i, j);
        let end = run_end(row, j);
        lemma_run_end(row, j);
        let start = run_start(row, end - 1);
        let cluster = cluster_ending_at(row, end);
        assert(is_cluster_end(row, end));
        lemma_clusters_upto_contains(row, n, cluster);
        let k = choose|k: int| 0 <= k < clusters.len() && clusters[k] == cluster;
        lemma_run_start_bounds(row, j);
        assert(cluster[i - start] == row[i]);
        assert(cluster[j - start] == row[j]);
        assert(raises(cluster, i - start, j - start, event));
        assert(cluster_raises(clusters, k, event));
    }
}

/// Sort and sweep reports no collision that a test of every pair would not
/// report.
pub proof fn lemma_sweep_finds_only_collisions(row: Seq<ColliderInfo>)
    ensures
        sweep_events(row).to_set().subset_of(cluster_events(row).to_set()),
{
    assert forall|event: CollisionEvent|
        sweep_events(row).to_set().contains(event) implies cluster_events(row).to_set().contains(
        event,
    ) by {
        lemma_sweep_events_contains(row, event);
        lemma_cluster_events_contains(row, event);
        let (i, j) = choose|i: int, j: int| #[trigger]
            raises(row, i, j, event) && same_run(row, i, j);
        assert(raises(row, i, j, event));
    }
}

/// The events that a test of every pair finds do not depend on the order of
/// the colliders.
pub proof fn lemma_events_of_rearranged_row(one: Seq<ColliderInfo>, other: Seq<ColliderInfo>)
    requires
        one.to_multiset() == other.to_multiset(),
    ensures
        cluster_events(one).to_set() == cluster_events(other).to_set(),
{
    assert forall|event: CollisionEvent|
        cluster_events(one).to_set().contains(event) == cluster_events(other).to_set().contains(
            event,
        ) by {
        lemma_cluster_events_contains(one, event);
        lemma_cluster_events_contains(other, event);
        if raised_among(one, event) {
            lemma_raised_among_rearranged(one, other, event);
        }
        if raised_among(other, event) {
            lemma_raised_among_rearranged(other, one, event);
        }
    }
    assert(cluster_events(one).to_set() =~= cluster_events(other).to_set());
}

proof fn lemma_raised_among_rearranged(
    one: Seq<ColliderInfo>,
    other: Seq<ColliderInfo>,
    event: CollisionEvent,
)
    requires
        one.to_multiset() == other.to_multiset(),
        raised_among(one, event),
    ensures
        raised_among(other, event),
{
    let (i, j) = choose|i: int, j: int| #[trigger] raises(one, i, j, event);
    let first = one[i];
    let second = one[j];
    one.to_multiset_ensures();
    other.to_multiset_ensures();
    assert(one.contains(first) && one.contains(second));
    assert(one.to_multiset().count(first) > 0 && one.to_multiset().count(second) > 0);
    assert(other.to_multiset().count(first) > 0 && other.to_multiset().count(second) > 0);
    assert(other.contains(first) && other.contains(second));
    let p = choose|p: int| 0 <= p < other.len() && other[p] == first;
    let q = choose|q: int| 0 <= q < other.len() && other[q] == second;
    lemma_aabb_collisions_symmetric(first, second);
    if p < q {
        assert(raises(other, p, q, event));
    } else {
        assert(raises(other, q, p, event));
    }
}

/// Broad-phase completeness. Let `sorted` be the colliders of a tick in the
/// order that sorting by x-interval gave them. If no two colliding entries of
/// `sorted` lie in different runs, sort and sweep finds the same set of
/// collisions as a test of every pair of colliders. Pairs of two moving or
/// of two static entities raise no event either way.
pub proof fn lemma_sweep_finds_all_collisions(
    colliders: Seq<ColliderInfo>,
    sorted: Seq<ColliderInfo>,
)
    requires
        sorted.to_multiset() == colliders.to_multiset(),
        sorted_by_interval(sorted),
        collisions_within_runs(sorted),
    ensures
        sweep_events(sorted).to_set() == cluster_events(colliders).to_set(),
{
    lemma_events_of_rearranged_row(sorted, colliders);
    assert forall|event: CollisionEvent|
        sweep_events(sorted).to_set().contains(event) == cluster_events(sorted).to_set().contains(
            event,
        ) by {
        lemma_sweep_events_contains(sorted, event);
        lemma_cluster_events_contains(sorted, event);
        if raised_among(sorted, event) {
            let (i, j) = choose|i: int, j: int| #[trigger] raises(sorted, i, j, event);
            assert(same_run(sorted, i, j));
            assert(raises(sorted, i, j, event) && same_run(sorted, i, j));
        }
        if raised_within_run(sorted, event) {
            let (i, j) = choose|i: int, j: int| #[trigger]
                raises(sorted, i, j, event) && same_run(sorted, i, j);
            assert(raises(sorted, i, j, event));
        }
    }
    assert(sweep_events(sorted).to_set() =~= cluster_events(sorted).to_set());
}

/// A collision between two entries that lie in different runs is not found,
/// provided that every entry of the row belongs to an entity of its own.
pub proof fn lemma_split_collision_is_missed(
    row: Seq<ColliderInfo>,
    i: int,
    j: int,
    event: CollisionEvent,
)
    requires
        distinct_entities(row),
        raises(row, i, j, event),
        !same_run(row, i, j),
    ensures
        !sweep_events(row).contains(event),
        cluster_events(row).contains(event),
{
    lemma_sweep_events_contains(row, event);
    lemma_cluster_events_contains(row, event);
    if raised_within_run(row, event) {
        let (p, q) = choose|p: int, q: int| #[trigger]
            raises(row, p, q, event) && same_run(row, p, q);
        assert(row[p].entity_id == row[i].entity_id || row[p].entity_id == row[j].entity_id);
        assert(row[q].entity_id == row[i].entity_id || row[q].entity_id == row[j].entity_id);
        assert(p == i || p == j);
        assert(q == i || q == j);
    }
}

/// In a sorted row whose intervals also end in order, so that none reaches
/// past a later one, no two colliding entries lie in different runs.
pub proof fn lemma_ends_in_order_keep_collisions_together(sorted: Seq<ColliderInfo>)
    requires
        sorted_by_interval(sorted),
        ends_in_order(sorted),
    ensures
        collisions_within_runs(sorted),
{
    assert forall|i: int, j: int|
        0 <= i < j < sorted.len() && aabb_collisions_spec(
            sorted[i],
            sorted[j],
        ) is Some implies #[trigger] same_run(sorted, i, j) by {
        lemma_aabb_collisions_symmetric(sorted[i], sorted[j]);
        assert(sorted[j].interval_start() < sorted[i].interval_end());
        lemma_reaching_back_is_same_run(sorted, i, j);
    }
}

proof fn lemma_reaching_back_is_same_run(sorted: Seq<ColliderInfo>, i: int, j: int)
    requires
        sorted_by_interval(sorted),
        ends_in_order(sorted),
        0 <= i <= j < sorted.len(),
        sorted[j].interval_start() <= sorted[i].interval_end(),
    ensures
        same_run(sorted, i, j),
    decreases j - i,
{
    if i < j {
        assert(!interval_before(sorted[j], sorted[j - 1]));
        assert(i < j - 1 ==> sorted[i].interval_end() <= sorted[j - 1].interval_end());
        assert(touching(sorted[j - 1], sorted[j]));
        lemma_reaching_back_is_same_run(sorted, i, j - 1);
    } else {
        lemma_run_start_bounds(sorted, j);
    }
}

} // verus!
