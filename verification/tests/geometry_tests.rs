use arcade_physics::geometry::{overlap, CollisionSide, Extent, Vector};

fn rect(x: i64, y: i64, w: u32, h: u32) -> (Vector, Extent) {
    (Vector::new(x, y), Extent::new(w, h))
}

fn hit(a: (i64, i64, u32, u32), b: (i64, i64, u32, u32)) -> Option<CollisionSide> {
    let (a_pos, a_size) = rect(a.0, a.1, a.2, a.3);
    let (b_pos, b_size) = rect(b.0, b.1, b.2, b.3);
    overlap(a_pos, a_size, b_pos, b_size)
}

fn opposite(side: CollisionSide) -> CollisionSide {
    match side {
        CollisionSide::Left => CollisionSide::Right,
        CollisionSide::Right => CollisionSide::Left,
        CollisionSide::Top => CollisionSide::Bottom,
        CollisionSide::Bottom => CollisionSide::Top,
        CollisionSide::Inside => CollisionSide::Inside,
    }
}

#[test]
fn constructors_keep_their_arguments() {
    assert_eq!(Vector::new(3, -4), Vector { x: 3, y: -4 });
    assert_eq!(Extent::new(5, 6), Extent { width: 5, height: 6 });
}

#[test]
fn overlap_of_separate_rectangles_is_none() {
    assert_eq!(hit((0, 0, 4, 4), (10, 0, 4, 4)), None);
    assert_eq!(hit((0, 0, 4, 4), (0, 10, 4, 4)), None);
    assert_eq!(hit((0, 0, 4, 4), (-10, -10, 4, 4)), None);
}

#[test]
fn overlap_of_rectangles_that_share_an_edge_is_none() {
    assert_eq!(hit((0, 0, 4, 4), (4, 0, 4, 4)), None);
    assert_eq!(hit((0, 0, 4, 4), (0, 4, 4, 4)), None);
    assert_eq!(hit((0, 0, 4, 4), (-4, 0, 4, 4)), None);
    assert_eq!(hit((0, 0, 4, 4), (0, -4, 4, 4)), None);
}

#[test]
fn overlap_names_the_side_of_the_second_rectangle() {
    assert_eq!(hit((6, 4, 4, 4), (4, 4, 4, 4)), Some(CollisionSide::Right));
    assert_eq!(hit((2, 4, 4, 4), (4, 4, 4, 4)), Some(CollisionSide::Left));
    assert_eq!(hit((4, 6, 4, 4), (4, 4, 4, 4)), Some(CollisionSide::Top));
    assert_eq!(hit((4, 2, 4, 4), (4, 4, 4, 4)), Some(CollisionSide::Bottom));
}

#[test]
fn overlap_reports_inside_when_one_rectangle_spans_the_other() {
    assert_eq!(hit((2, 2, 2, 2), (2, 2, 2, 2)), Some(CollisionSide::Inside));
    assert_eq!(hit((4, 4, 4, 4), (4, 4, 2, 2)), Some(CollisionSide::Inside));
    assert_eq!(hit((4, 4, 2, 2), (4, 4, 4, 4)), Some(CollisionSide::Inside));
}

#[test]
fn overlap_prefers_the_horizontal_side_on_equal_depth() {
    assert_eq!(hit((2, 2, 4, 4), (4, 4, 4, 4)), Some(CollisionSide::Left));
    assert_eq!(hit((2, 6, 4, 4), (4, 4, 4, 4)), Some(CollisionSide::Left));
    assert_eq!(hit((6, 2, 4, 4), (4, 4, 4, 4)), Some(CollisionSide::Right));
    assert_eq!(hit((6, 6, 4, 4), (4, 4, 4, 4)), Some(CollisionSide::Right));
}

#[test]
fn overlap_takes_the_side_of_least_penetration() {
    assert_eq!(hit((6, 6, 4, 4), (5, 4, 4, 4)), Some(CollisionSide::Top));
    assert_eq!(hit((6, 6, 4, 4), (4, 5, 4, 4)), Some(CollisionSide::Right));
    assert_eq!(hit((0, 0, 20, 20), (19, 5, 20, 20)), Some(CollisionSide::Left));
    assert_eq!(hit((0, 0, 20, 20), (5, -19, 20, 20)), Some(CollisionSide::Top));
}

#[test]
fn overlap_takes_the_only_axis_that_names_a_side() {
    // On the x-axis the first rectangle lies within the second.
    assert_eq!(hit((0, -3, 20, 20), (0, 10, 100, 20)), Some(CollisionSide::Bottom));
    assert_eq!(hit((0, 23, 20, 20), (0, 10, 100, 20)), Some(CollisionSide::Top));
    // On the y-axis the first rectangle spans the second.
    assert_eq!(hit((-8, 0, 20, 60), (10, 0, 20, 20)), Some(CollisionSide::Left));
}

#[test]
fn overlap_rounds_half_extents_down() {
    // Width 5 reaches 2 to either side of the centre.
    assert_eq!(hit((0, 0, 5, 5), (4, 0, 4, 4)), None);
    assert_eq!(hit((0, 0, 5, 5), (3, 0, 4, 4)), Some(CollisionSide::Left));
    assert_eq!(hit((0, 0, 1, 1), (0, 0, 4, 4)), Some(CollisionSide::Inside));
}

#[test]
fn overlap_with_an_empty_rectangle() {
    assert_eq!(hit((0, 0, 0, 0), (0, 0, 4, 4)), Some(CollisionSide::Inside));
    assert_eq!(hit((2, 0, 0, 0), (0, 0, 4, 4)), None);
    assert_eq!(hit((0, 0, 0, 0), (0, 0, 0, 0)), None);
}

#[test]
fn overlap_at_the_ends_of_the_number_range() {
    assert_eq!(hit((i64::MAX, i64::MAX, u32::MAX, u32::MAX), (i64::MIN, i64::MIN, u32::MAX, u32::MAX)), None);
    assert_eq!(
        hit((i64::MAX, 0, u32::MAX, 10), (i64::MAX - 10, 0, 8, 10)),
        Some(CollisionSide::Inside)
    );
    assert_eq!(
        hit((i64::MIN, 0, 10, 10), (i64::MIN + 4, 0, 10, 10)),
        Some(CollisionSide::Left)
    );
}

#[test]
fn overlap_is_symmetric_on_a_grid() {
    let sizes: Vec<(u32, u32)> = vec![(4, 4), (2, 8), (9, 3), (12, 12), (1, 1)];
    let mut hits: u32 = 0;
    let mut misses: u32 = 0;
    for (aw, ah) in sizes.iter().copied() {
        for (bw, bh) in sizes.iter().copied() {
            for ax in -8i64..=8 {
                for ay in -8i64..=8 {
                    let forward = hit((ax, ay, aw, ah), (0, 0, bw, bh));
                    let backward = hit((0, 0, bw, bh), (ax, ay, aw, ah));
                    assert_eq!(forward.is_none(), backward.is_none());
                    match forward {
                        Some(side) => {
                            hits += 1;
                            assert_eq!(backward, Some(opposite(side)));
                        }
                        None => {
                            misses += 1;
                        }
                    }
                }
            }
        }
    }
    assert!(hits > 0);
    assert!(misses > 0);
}

#[test]
fn overlap_sides_pair_up_when_the_rectangles_swap() {
    let table: Vec<(CollisionSide, CollisionSide)> = vec![
        (CollisionSide::Left, CollisionSide::Right),
        (CollisionSide::Right, CollisionSide::Left),
        (CollisionSide::Top, CollisionSide::Bottom),
        (CollisionSide::Bottom, CollisionSide::Top),
        (CollisionSide::Inside, CollisionSide::Inside),
    ];
    let samples: Vec<(i64, i64)> = vec![(-2, 0), (2, 0), (0, 2), (0, -2), (0, 0)];
    for ((dx, dy), (forward, backward)) in samples.iter().copied().zip(table.iter().copied()) {
        assert_eq!(hit((dx, dy, 4, 4), (0, 0, 4, 4)), Some(forward));
        assert_eq!(hit((0, 0, 4, 4), (dx, dy, 4, 4)), Some(backward));
    }
}
