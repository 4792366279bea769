use arcade_physics::broad_phase::{group_by_helper, interval_ordering, sort_and_sweep};
use arcade_physics::collider::{ColliderInfo, ColliderType};
use arcade_physics::geometry::{Extent, Vector};
use std::cmp::Ordering;

fn span(id: u64, x: i64, width: u32) -> ColliderInfo {
    ColliderInfo {
        position: Vector { x, y: 0 },
        extent: Extent { width, height: 10 },
        policy: ColliderType::Nothing,
        movement: None,
        entity_id: id,
    }
}

fn ids(cluster: &[ColliderInfo]) -> Vec<u64> {
    cluster.iter().map(|c| c.entity_id).collect()
}

#[test]
fn interval_bounds_are_half_a_width_from_the_centre() {
    let c = span(1, 50, 20);
    assert_eq!(c.start_of_interval(), 40);
    assert_eq!(c.end_of_interval(), 60);
    let odd = span(2, -3, 7);
    assert_eq!(odd.start_of_interval(), -6);
    assert_eq!(odd.end_of_interval(), 0);
    let far = span(3, i64::MIN, u32::MAX);
    assert_eq!(far.start_of_interval(), i64::MIN as i128 - 2147483647);
}

#[test]
fn interval_ordering_goes_by_start_first() {
    assert_eq!(interval_ordering(&span(1, 0, 10), &span(2, 5, 10)), Ordering::Less);
    assert_eq!(interval_ordering(&span(1, 5, 10), &span(2, 0, 10)), Ordering::Greater);
    // Starts at -5 and 0: the wider one starts first although it ends last.
    assert_eq!(interval_ordering(&span(1, 5, 20), &span(2, 5, 10)), Ordering::Less);
}

#[test]
fn interval_ordering_goes_by_end_on_equal_starts() {
    // Both start at 0; they end at 10 and at 20.
    assert_eq!(interval_ordering(&span(1, 5, 10), &span(2, 10, 20)), Ordering::Less);
    assert_eq!(interval_ordering(&span(1, 10, 20), &span(2, 5, 10)), Ordering::Greater);
}

#[test]
fn interval_ordering_of_equal_intervals_is_equal() {
    let mut one = span(1, 5, 10);
    one.position.y = 77;
    assert_eq!(interval_ordering(&one, &span(2, 5, 10)), Ordering::Equal);
    // Widths 10 and 11 have the same half.
    assert_eq!(interval_ordering(&span(1, 5, 10), &span(2, 5, 11)), Ordering::Equal);
}

#[test]
fn group_by_helper_joins_touching_intervals() {
    // 0..10 and 10..20 share the point 10.
    assert!(group_by_helper(&span(1, 5, 10), &span(2, 15, 10)));
    // 0..10 and 11..21 do not meet.
    assert!(!group_by_helper(&span(1, 5, 10), &span(2, 16, 10)));
    assert!(group_by_helper(&span(1, 5, 10), &span(2, 5, 10)));
    assert!(group_by_helper(&span(1, 5, 10), &span(2, -50, 10)));
}

#[test]
fn sort_and_sweep_sorts_in_place() {
    let mut colliders = vec![span(1, 90, 10), span(2, 10, 10), span(3, 50, 10), span(4, 30, 4)];
    let clusters = sort_and_sweep(&mut colliders);
    assert!(clusters.is_empty());
    assert_eq!(ids(&colliders), vec![2, 4, 3, 1]);
}

#[test]
fn sort_and_sweep_groups_overlapping_intervals() {
    let mut colliders = vec![
        span(5, 100, 10),
        span(1, 0, 10),
        span(4, 96, 10),
        span(2, 8, 10),
        span(3, 50, 10),
        span(6, 104, 10),
    ];
    let clusters = sort_and_sweep(&mut colliders);
    let found: Vec<Vec<u64>> = clusters.iter().map(|c| ids(c)).collect();
    assert_eq!(found, vec![vec![1, 2], vec![4, 5, 6]]);
}

#[test]
fn sort_and_sweep_discards_runs_of_one() {
    let mut colliders = vec![span(1, 0, 10), span(2, 100, 10), span(3, 200, 10)];
    let clusters = sort_and_sweep(&mut colliders);
    assert!(clusters.is_empty());
    assert_eq!(colliders.len(), 3);
}

#[test]
fn sort_and_sweep_of_nothing_and_of_one() {
    let mut none: Vec<ColliderInfo> = Vec::new();
    assert!(sort_and_sweep(&mut none).is_empty());
    let mut one = vec![span(1, 0, 10)];
    assert!(sort_and_sweep(&mut one).is_empty());
}

#[test]
fn sort_and_sweep_keeps_one_run_together() {
    let mut colliders = vec![span(3, 20, 10), span(2, 10, 10), span(1, 0, 10)];
    let clusters = sort_and_sweep(&mut colliders);
    let found: Vec<Vec<u64>> = clusters.iter().map(|c| ids(c)).collect();
    assert_eq!(found, vec![vec![1, 2, 3]]);
}

#[test]
fn sort_and_sweep_ends_a_run_behind_a_short_neighbour() {
    // The wide interval -50..50 reaches the last one, 20..30, but the run
    // ends between its short neighbour -49..-47 and the last one.
    let mut colliders = vec![span(3, 25, 10), span(1, 0, 100), span(2, -48, 2)];
    let clusters = sort_and_sweep(&mut colliders);
    let found: Vec<Vec<u64>> = clusters.iter().map(|c| ids(c)).collect();
    assert_eq!(found, vec![vec![1, 2]]);
}

#[test]
fn sort_and_sweep_orders_equal_starts_by_end() {
    let mut colliders = vec![span(1, 10, 20), span(2, 5, 10), span(3, 2, 4)];
    let clusters = sort_and_sweep(&mut colliders);
    // All three start at 0 and end at 20, 10 and 4.
    let found: Vec<Vec<u64>> = clusters.iter().map(|c| ids(c)).collect();
    assert_eq!(found, vec![vec![3, 2, 1]]);
}
