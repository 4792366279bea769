//! Sort and sweep: orders the colliders of a tick by the interval they cover
//! on the x-axis and cuts the sorted row into runs of touching intervals.
//! Only entities of one run are candidates for a collision.

use crate::collider::ColliderInfo;
use std::cmp::Ordering;
use vstd::prelude::*;
use vstd::slice::slice_subrange;

verus! {

/// `one` comes strictly before `two`: its interval starts further left, or
/// starts at the same place and ends further left.
pub open spec fn interval_before(one: ColliderInfo, two: ColliderInfo) -> bool {
    ||| one.interval_start() < two.interval_start()
    ||| (one.interval_start() == two.interval_start() && one.interval_end() < two.interval_end())
}

/// No entry comes strictly before an earlier one.
pub open spec fn sorted_by_interval(colliders: Seq<ColliderInfo>) -> bool {
    forall|i: int, j: int|
        0 <= i < j < colliders.len() ==> !interval_before(
            #[trigger] colliders[j],
            #[trigger] colliders[i],
        )
}

/// The second interval starts no later than the first one ends.
pub open spec fn touching(one: ColliderInfo, two: ColliderInfo) -> bool {
    two.interval_start() <= one.interval_end()
}

/// A run of touching intervals ends just before index `k`: either the row
/// ends there, or entry `k` starts after entry `k - 1` has ended.
pub open spec fn run_ends_at(colliders: Seq<ColliderInfo>, k: int) -> bool {
    k == colliders.len() || !touching(colliders[k - 1], colliders[k])
}

/// The index at which the run that holds entry `i` begins.
pub open spec fn run_start(colliders: Seq<ColliderInfo>, i: int) -> int
    decreases i,
{
    if i <= 0 {
        0
    } else if touching(colliders[i - 1], colliders[i]) {
        run_start(colliders, i - 1)
    } else {
        i
    }
}

/// The runs that end at or before index `n`, in the order of the row,
/// without the runs of a single entry.
pub open spec fn clusters_upto(colliders: Seq<ColliderInfo>, n: int) -> Seq<Seq<ColliderInfo>>
    decreases n,
{
    if n <= 0 {
        Seq::empty()
    } else {
        let earlier = clusters_upto(colliders, n - 1);
        let start = run_start(colliders, n - 1);
        if run_ends_at(colliders, n) && n - start != 1 {
            earlier.push(colliders.subrange(start, n))
        } else {
            earlier
        }
    }
}

/// All maximal runs of touching intervals that hold at least two entries.
pub open spec fn sweep_clusters(colliders: Seq<ColliderInfo>) -> Seq<Seq<ColliderInfo>> {
    clusters_upto(colliders, colliders.len() as int)
}

/// Entries `i` and `j`, `i` no later than `j`, lie in one run: no run ends
/// between them.
pub open spec fn same_run(colliders: Seq<ColliderInfo>, i: int, j: int) -> bool {
    run_start(colliders, j) <= i
}

/// The index just behind the run that holds entry `i`.
pub open spec fn run_end(colliders: Seq<ColliderInfo>, i: int) -> int
    decreases colliders.len() - i,
{
    if i + 1 >= colliders.len() {
        colliders.len() as int
    } else if touching(colliders[i], colliders[i + 1]) {
        run_end(colliders, i + 1)
    } else {
        i + 1
    }
}

/// A run that holds at least two entries ends just before index `end`.
pub open spec fn is_cluster_end(colliders: Seq<ColliderInfo>, end: int) -> bool {
    &&& 1 <= end <= colliders.len()
    &&& run_ends_at(colliders, end)
    &&& end - run_start(colliders, end - 1) != 1
}

/// The run that ends just before index `end`.
pub open spec fn cluster_ending_at(colliders: Seq<ColliderInfo>, end: int) -> Seq<ColliderInfo> {
    colliders.subrange(run_start(colliders, end - 1), end)
}

/// What each slice of a list of slices holds.
pub open spec fn slice_views(slices: Seq<&[ColliderInfo]>) -> Seq<Seq<ColliderInfo>> {
    slices.map_values(|slice: &[ColliderInfo]| slice@)
}

/// Orders two colliders by interval start, then by interval end.
pub fn interval_ordering(col_info1: &ColliderInfo, col_info2: &ColliderInfo) -> (order: Ordering)
    ensures
        order == Ordering::Less <==> interval_before(*col_info1, *col_info2),
        order == Ordering::Greater <==> interval_before(*col_info2, *col_info1),
        order == Ordering::Equal <==> col_info1.interval_start() == col_info2.interval_start()
            && col_info1.interval_end() == col_info2.interval_end(),
{
    let interval1_start = col_info1.start_of_interval();
    let interval2_start = col_info2.start_of_interval();
    let interval1_end = col_info1.end_of_interval();
    let interval2_end = col_info2.end_of_interval();

    if interval1_start < interval2_start {
        return Ordering::Less;
    }
    if interval1_start > interval2_start {
        return Ordering::Greater;
    }
    // start values are equal

    if interval1_end < interval2_end {
        return Ordering::Less;
    }
    if interval1_end > interval2_end {
        return Ordering::Greater;
    }
    Ordering::Equal
}

/// Whether two neighbours of the sorted row belong to one run.
pub fn group_by_helper(collider_info_one: &ColliderInfo, collider_info_two: &ColliderInfo) -> (same:
    bool)
    ensures
        same == touching(*collider_info_one, *collider_info_two),
{
    let interval_one_end = collider_info_one.end_of_interval();
    let interval_two_start = collider_info_two.start_of_interval();
    interval_two_start <= interval_one_end
}

/// Sorts in place with `<[T]>::sort_unstable_by` of std, comparing by
/// `interval_ordering`. Not proved: that afterwards the vector holds the same
/// entries as before, each as often as before, and that no entry comes
/// strictly before an earlier one. Entries that compare equal may end up in
/// any order.
#[verifier::external_body]
fn sort_by_interval(collider_infos: &mut Vec<ColliderInfo>)
    ensures
        final(collider_infos)@.to_multiset() == old(collider_infos)@.to_multiset(),
        sorted_by_interval(final(collider_infos)@),
{
    collider_infos.sort_unstable_by(|one, two| interval_ordering(one, two));
}

/// Sorts the colliders by x-interval and returns the runs of touching
/// intervals that hold more than one entry, in the order of the sorted row.
pub fn sort_and_sweep<'a>(collider_infos: &'a mut Vec<ColliderInfo>) -> (clusters: Vec<
    &'a [ColliderInfo],
>)
    ensures
        final(collider_infos)@.to_multiset() == old(collider_infos)@.to_multiset(),
        sorted_by_interval(final(collider_infos)@),
        slice_views(clusters@) == sweep_clusters(final(collider_infos)@),
{
    sort_by_interval(collider_infos);
    let sorted: &'a [ColliderInfo] = collider_infos.as_slice();
    let mut clusters: Vec<&'a [ColliderInfo]> = Vec::new();
    let n: usize = sorted.len();
    let mut start: usize = 0;
    let mut end: usize = 0;
    while end < n
        invariant
            n == sorted@.len(),
            start <= end <= n,
            end < n ==> start == run_start(sorted@, end as int),
            slice_views(clusters@) == clusters_upto(sorted@, end as int),
        decreases n - end,
    {
        let next: usize = end + 1;
        let run_ends = next == n || !group_by_helper(&sorted[end], &sorted[next]);
        if run_ends {
            if next - start != 1 {
                let ghost before = clusters@;
                let run = slice_subrange(sorted, start, next);
                clusters.push(run);
                assert(slice_views(clusters@) == slice_views(before).push(run@));
            }
            start = next;
        }
        end = next;
    }
    clusters
}

/// A run begins at or before each of its entries.
pub proof fn lemma_run_start_bounds(colliders: Seq<ColliderInfo>, i: int)
    requires
        0 <= i,
    ensures
        0 <= run_start(colliders, i) <= i,
    decreases i,
{
    if i > 0 && touching(colliders[i - 1], colliders[i]) {
        lemma_run_start_bounds(colliders, i - 1);
    }
}

/// All entries of a run have the same run start.
pub proof fn lemma_run_start_within_run(colliders: Seq<ColliderInfo>, i: int, j: int)
    requires
        0 <= i <= j,
        same_run(colliders, i, j),
    ensures
        run_start(colliders, i) == run_start(colliders, j),
    decreases j,
{
    if i < j {
        lemma_run_start_within_run(colliders, i, j - 1);
    }
}

/// The run of entry `i` ends behind `i`, at a place where a run does end, and
/// its last entry has the run start of `i`.
pub proof fn lemma_run_end(colliders: Seq<ColliderInfo>, i: int)
    requires
        0 <= i < colliders.len(),
    ensures
        i < run_end(colliders, i) <= colliders.len(),
        run_ends_at(colliders, run_end(colliders, i)),
        run_start(colliders, run_end(colliders, i) - 1) == run_start(colliders, i),
    decreases colliders.len() - i,
{
    if i + 1 < colliders.len() && touching(colliders[i], colliders[i + 1]) {
        lemma_run_end(colliders, i + 1);
    }
}

/// The clusters found up to index `n` are the runs of two or more entries
/// that end at or before `n`.
pub proof fn lemma_clusters_upto_contains(
    colliders: Seq<ColliderInfo>,
    n: int,
    cluster: Seq<ColliderInfo>,
)
    requires
        0 <= n <= colliders.len(),
    ensures
        clusters_upto(colliders, n).contains(cluster) <==> exists|end: int|
            1 <= end <= n && #[trigger] is_cluster_end(colliders, end) && cluster
                == cluster_ending_at(colliders, end),
    decreases n,
{
    if n > 0 {
        lemma_clusters_upto_contains(colliders, n - 1, cluster);
        let earlier = clusters_upto(colliders, n - 1);
        if is_cluster_end(colliders, n) {
            let last = cluster_ending_at(colliders, n);
            vstd::seq_lib::lemma_seq_contains_after_push(earlier, last, cluster);
        }
        if clusters_upto(colliders, n).contains(cluster) {
            if earlier.contains(cluster) {
                let end = choose|end: int|
                    1 <= end <= n - 1 && #[trigger] is_cluster_end(colliders, end) && cluster
                        == cluster_ending_at(colliders, end);
                assert(1 <= end <= n && is_cluster_end(colliders, end));
            } else {
                assert(is_cluster_end(colliders, n));
            }
        }
    }
}

} // verus!
