use arcade_physics::collider::{ColliderInfo, ColliderType, CollisionEvent, Movement};
use arcade_physics::geometry::{CollisionSide, Extent, Vector};
use arcade_physics::integrator::Timestep;
use arcade_physics::simulation::{is_in_world, step, try_step, WORLD_LIMIT};

fn collider(id: u64, x: i64, y: i64, w: u32, h: u32, policy: ColliderType, velocity: Option<(i64, i64)>) -> ColliderInfo {
    ColliderInfo {
        position: Vector { x, y },
        extent: Extent { width: w, height: h },
        policy,
        movement: velocity.map(|(vx, vy)| Movement { velocity: Vector { x: vx, y: vy } }),
        entity_id: id,
    }
}

fn of_entity(colliders: &[ColliderInfo], id: u64) -> ColliderInfo {
    let found: Vec<ColliderInfo> = colliders.iter().copied().filter(|c| c.entity_id == id).collect();
    assert_eq!(found.len(), 1);
    found[0]
}

#[test]
fn wall_stop() {
    let mut colliders = vec![
        collider(1, 0, 0, 20, 20, ColliderType::Stop, Some((100, 0))),
        collider(2, 20, 0, 20, 20, ColliderType::Stop, None),
    ];
    let events = step(&mut colliders, Timestep { numerator: 1, denominator: 10 });
    assert_eq!(
        events,
        vec![CollisionEvent {
            moving_entity: 1,
            static_entity: 2,
            side: CollisionSide::Left,
            policy: ColliderType::Stop,
        }]
    );
    let mover = of_entity(&colliders, 1);
    // The mover's right edge lies on the wall's left edge.
    assert_eq!(mover.position, Vector { x: 0, y: 0 });
    assert_eq!(mover.position.x + 10, 20 - 10);
    assert_eq!(mover.movement, Some(Movement { velocity: Vector { x: 100, y: 0 } }));
    assert_eq!(of_entity(&colliders, 2), collider(2, 20, 0, 20, 20, ColliderType::Stop, None));
}

#[test]
fn bullet_reflect_off_wall() {
    let mut colliders = vec![
        collider(1, 0, 2, 20, 20, ColliderType::Reflect, Some((0, -400))),
        collider(2, 0, 10, 100, 20, ColliderType::Nothing, None),
    ];
    let events = step(&mut colliders, Timestep { numerator: 1, denominator: 80 });
    assert_eq!(
        events,
        vec![CollisionEvent {
            moving_entity: 1,
            static_entity: 2,
            side: CollisionSide::Bottom,
            policy: ColliderType::Reflect,
        }]
    );
    let bullet = of_entity(&colliders, 1);
    assert_eq!(bullet.movement, Some(Movement { velocity: Vector { x: 0, y: 400 } }));
    // The position is where the move of this tick has put it.
    assert_eq!(bullet.position, Vector { x: 0, y: -3 });
}

#[test]
fn step_without_contact_only_moves() {
    let mut colliders = vec![
        collider(1, 0, 0, 20, 20, ColliderType::Stop, Some((100, -50))),
        collider(2, 200, 0, 20, 20, ColliderType::Stop, None),
    ];
    let events = step(&mut colliders, Timestep { numerator: 1, denominator: 10 });
    assert!(events.is_empty());
    assert_eq!(of_entity(&colliders, 1).position, Vector { x: 10, y: -5 });
    assert_eq!(of_entity(&colliders, 2).position, Vector { x: 200, y: 0 });
}

#[test]
fn step_leaves_the_colliders_sorted_by_interval() {
    let mut colliders = vec![
        collider(1, 300, 0, 20, 20, ColliderType::Stop, None),
        collider(2, 100, 0, 20, 20, ColliderType::Stop, Some((-1000, 0))),
        collider(3, 50, 0, 20, 20, ColliderType::Stop, None),
    ];
    step(&mut colliders, Timestep { numerator: 1, denominator: 10 });
    let order: Vec<u64> = colliders.iter().map(|c| c.entity_id).collect();
    assert_eq!(order, vec![2, 3, 1]);
}

#[test]
fn step_never_touches_an_entity_with_policy_nothing() {
    let mut colliders = vec![
        collider(1, 0, 0, 20, 20, ColliderType::Nothing, Some((100, 0))),
        collider(2, 20, 0, 20, 20, ColliderType::Stop, None),
        collider(3, 15, 5, 20, 20, ColliderType::Reflect, None),
        collider(4, 12, -5, 20, 20, ColliderType::Nothing, None),
    ];
    let events = step(&mut colliders, Timestep { numerator: 1, denominator: 10 });
    assert_eq!(events.len(), 3);
    assert!(events.iter().all(|e| e.moving_entity == 1 && e.policy == ColliderType::Nothing));
    // Moved by the integrator, untouched by the responses.
    assert_eq!(of_entity(&colliders, 1), collider(1, 10, 0, 20, 20, ColliderType::Nothing, Some((100, 0))));
    assert_eq!(of_entity(&colliders, 2), collider(2, 20, 0, 20, 20, ColliderType::Stop, None));
    assert_eq!(of_entity(&colliders, 3), collider(3, 15, 5, 20, 20, ColliderType::Reflect, None));
    assert_eq!(of_entity(&colliders, 4), collider(4, 12, -5, 20, 20, ColliderType::Nothing, None));
}

#[test]
fn step_skips_two_moving_entities() {
    let mut colliders = vec![
        collider(1, 0, 0, 20, 20, ColliderType::Stop, Some((10, 0))),
        collider(2, 5, 0, 20, 20, ColliderType::Stop, Some((-10, 0))),
    ];
    let events = step(&mut colliders, Timestep { numerator: 1, denominator: 10 });
    assert!(events.is_empty());
    assert_eq!(of_entity(&colliders, 1).position, Vector { x: 1, y: 0 });
    assert_eq!(of_entity(&colliders, 2).position, Vector { x: 4, y: 0 });
}

#[test]
fn step_again_after_a_stop_stops_at_the_same_place() {
    let mut colliders = vec![
        collider(1, 0, 0, 20, 20, ColliderType::Stop, Some((100, 0))),
        collider(2, 20, 0, 20, 20, ColliderType::Stop, None),
    ];
    let dt = Timestep { numerator: 1, denominator: 10 };
    step(&mut colliders, dt);
    let first = of_entity(&colliders, 1);
    step(&mut colliders, dt);
    assert_eq!(of_entity(&colliders, 1), first);
}

#[test]
fn step_reflects_back_and_forth_over_two_ticks() {
    let mut colliders = vec![
        collider(1, 0, 2, 20, 20, ColliderType::Reflect, Some((0, -80))),
        collider(2, 0, 10, 100, 20, ColliderType::Nothing, None),
    ];
    let dt = Timestep { numerator: 1, denominator: 80 };
    step(&mut colliders, dt);
    assert_eq!(of_entity(&colliders, 1).movement, Some(Movement { velocity: Vector { x: 0, y: 80 } }));
    step(&mut colliders, dt);
    assert_eq!(of_entity(&colliders, 1).movement, Some(Movement { velocity: Vector { x: 0, y: -80 } }));
}

#[test]
fn step_at_the_limit_of_the_world() {
    let mut colliders = vec![
        collider(1, WORLD_LIMIT, -WORLD_LIMIT, u32::MAX, u32::MAX, ColliderType::Stop, Some((WORLD_LIMIT, -WORLD_LIMIT))),
        collider(2, -WORLD_LIMIT, WORLD_LIMIT, u32::MAX, u32::MAX, ColliderType::Stop, None),
    ];
    let events = step(&mut colliders, Timestep { numerator: u32::MAX, denominator: 1 });
    assert!(events.is_empty());
    let far: i64 = WORLD_LIMIT + WORLD_LIMIT * (u32::MAX as i64);
    assert_eq!(of_entity(&colliders, 1).position, Vector { x: far, y: -far });
}

#[test]
fn is_in_world_checks_position_and_velocity() {
    assert!(is_in_world(&collider(1, WORLD_LIMIT, -WORLD_LIMIT, 1, 1, ColliderType::Stop, None)));
    assert!(is_in_world(&collider(1, 0, 0, u32::MAX, u32::MAX, ColliderType::Stop, Some((WORLD_LIMIT, -WORLD_LIMIT)))));
    assert!(!is_in_world(&collider(1, WORLD_LIMIT + 1, 0, 1, 1, ColliderType::Stop, None)));
    assert!(!is_in_world(&collider(1, 0, -WORLD_LIMIT - 1, 1, 1, ColliderType::Stop, None)));
    assert!(!is_in_world(&collider(1, 0, 0, 1, 1, ColliderType::Stop, Some((WORLD_LIMIT + 1, 0)))));
    assert!(!is_in_world(&collider(1, 0, 0, 1, 1, ColliderType::Stop, Some((0, -WORLD_LIMIT - 1)))));
    assert_eq!(WORLD_LIMIT, 1 << 30);
}

#[test]
fn try_step_runs_a_tick_within_the_world() {
    let mut colliders = vec![
        collider(1, 0, 0, 20, 20, ColliderType::Stop, Some((100, 0))),
        collider(2, 20, 0, 20, 20, ColliderType::Stop, None),
    ];
    let events = try_step(&mut colliders, Timestep { numerator: 1, denominator: 10 });
    assert_eq!(events.map(|found| found.len()), Some(1));
    assert_eq!(of_entity(&colliders, 1).position, Vector { x: 0, y: 0 });
}

#[test]
fn try_step_refuses_a_collider_outside_the_world() {
    let before = vec![
        collider(2, 20, 0, 20, 20, ColliderType::Stop, None),
        collider(1, 0, WORLD_LIMIT + 1, 20, 20, ColliderType::Stop, Some((100, 0))),
    ];
    let mut colliders = before.clone();
    assert_eq!(try_step(&mut colliders, Timestep { numerator: 1, denominator: 10 }), None);
    assert_eq!(colliders, before);
}

#[test]
fn try_step_refuses_a_timestep_without_denominator() {
    let before = vec![
        collider(2, 20, 0, 20, 20, ColliderType::Stop, None),
        collider(1, 0, 0, 20, 20, ColliderType::Stop, Some((100, 0))),
    ];
    let mut colliders = before.clone();
    assert_eq!(try_step(&mut colliders, Timestep { numerator: 1, denominator: 0 }), None);
    assert_eq!(colliders, before);
}
