use arcade_physics::collider::Movement;
use arcade_physics::enemy::{spawn_enemy_location, spawn_location, SPAWN_MARGIN};
use arcade_physics::geometry::Vector;
use arcade_physics::player::{player_keyboard_input, Player, MAX_AMMO, PLAYER_SPEED, STARTING_AMMO};
use arcade_physics::score::Score;
use arcade_physics::walls::{
    create_corner_spawn_locations, create_horizontal_spawn_locations,
    create_vertical_spawn_locations, BLOCKSIZE,
};
use arcade_physics::window::{get_edge_of_screen, WINDOWHEIGHT, WINDOWWIDTH};

#[test]
fn edge_of_screen_is_half_the_size() {
    assert_eq!(get_edge_of_screen(WINDOWWIDTH), 600);
    assert_eq!(get_edge_of_screen(WINDOWHEIGHT), 500);
    assert_eq!(get_edge_of_screen(-WINDOWWIDTH), -600);
    assert_eq!(get_edge_of_screen(7), 3);
    assert_eq!(get_edge_of_screen(-7), -3);
    assert_eq!(get_edge_of_screen(0), 0);
    assert_eq!(get_edge_of_screen(i16::MIN), -16384);
}

#[test]
fn vertical_walls_run_up_the_right_then_the_left_edge() {
    let blocks = create_vertical_spawn_locations();
    assert_eq!(blocks.len(), 46);
    assert_eq!(blocks[0], Vector { x: 580, y: -440 });
    assert_eq!(blocks[1], Vector { x: 580, y: -400 });
    assert_eq!(blocks[22], Vector { x: 580, y: 440 });
    assert_eq!(blocks[23], Vector { x: -580, y: -440 });
    assert_eq!(blocks[45], Vector { x: -580, y: 440 });
    for (i, block) in blocks.iter().enumerate() {
        let k: i64 = (i % 23) as i64 + 1;
        assert_eq!(block.y, k * 40 - 500 + 20);
        assert_eq!(block.x, if i < 23 { 580 } else { -580 });
    }
}

#[test]
fn horizontal_walls_run_along_the_bottom_then_the_top_edge() {
    let blocks = create_horizontal_spawn_locations();
    assert_eq!(blocks.len(), 56);
    assert_eq!(blocks[0], Vector { x: -540, y: -480 });
    assert_eq!(blocks[27], Vector { x: 540, y: -480 });
    assert_eq!(blocks[28], Vector { x: -540, y: 480 });
    assert_eq!(blocks[55], Vector { x: 540, y: 480 });
    for (i, block) in blocks.iter().enumerate() {
        let k: i64 = (i % 28) as i64 + 1;
        assert_eq!(block.x, k * 40 - 600 + 20);
        assert_eq!(block.y, if i < 28 { -480 } else { 480 });
    }
}

#[test]
fn corner_blocks_fill_the_corners_of_the_window() {
    assert_eq!(
        create_corner_spawn_locations(),
        vec![
            Vector { x: -580, y: 480 },
            Vector { x: 580, y: 480 },
            Vector { x: -580, y: -480 },
            Vector { x: 580, y: -480 },
        ]
    );
}

#[test]
fn wall_blocks_leave_the_corners_free() {
    let corners = create_corner_spawn_locations();
    let vertical = create_vertical_spawn_locations();
    let horizontal = create_horizontal_spawn_locations();
    assert!(vertical.iter().all(|block| !corners.contains(block)));
    assert!(horizontal.iter().all(|block| !corners.contains(block)));
    assert_eq!(BLOCKSIZE, 40);
}

#[test]
fn a_new_player_has_the_starting_ammo() {
    assert_eq!(Player::new(), Player { ammo: 3 });
    assert_eq!(STARTING_AMMO, 3);
}

#[test]
fn shooting_takes_one_round() {
    let mut player = Player { ammo: 2 };
    assert!(player.shoot());
    assert_eq!(player.ammo, 1);
    assert!(player.shoot());
    assert_eq!(player.ammo, 0);
}

#[test]
fn shooting_without_ammo_does_nothing() {
    let mut player = Player { ammo: 0 };
    assert!(!player.shoot());
    assert_eq!(player.ammo, 0);
}

#[test]
fn collecting_ammo_adds_one_round_up_to_the_cap() {
    let mut player = Player { ammo: 8 };
    player.collect_ammo();
    assert_eq!(player.ammo, 9);
    player.collect_ammo();
    assert_eq!(player.ammo, 10);
    player.collect_ammo();
    assert_eq!(player.ammo, 10);
    assert_eq!(MAX_AMMO, 10);
}

#[test]
fn collecting_ammo_above_the_cap_falls_back_to_the_cap() {
    let mut player = Player { ammo: 255 };
    player.collect_ammo();
    assert_eq!(player.ammo, 10);
}

#[test]
fn keyboard_input_gives_the_velocity() {
    let still = Movement { velocity: Vector { x: 0, y: 0 } };
    assert_eq!(player_keyboard_input(false, false, false, false), still);
    assert_eq!(player_keyboard_input(true, false, false, false).velocity, Vector { x: 0, y: 400 });
    assert_eq!(player_keyboard_input(false, true, false, false).velocity, Vector { x: 0, y: -400 });
    assert_eq!(player_keyboard_input(false, false, true, false).velocity, Vector { x: -400, y: 0 });
    assert_eq!(player_keyboard_input(false, false, false, true).velocity, Vector { x: 400, y: 0 });
    assert_eq!(player_keyboard_input(true, false, false, true).velocity, Vector { x: 400, y: 400 });
    assert_eq!(PLAYER_SPEED, 400);
}

#[test]
fn opposing_keys_cancel_out() {
    assert_eq!(player_keyboard_input(true, true, false, false).velocity, Vector { x: 0, y: 0 });
    assert_eq!(player_keyboard_input(false, false, true, true).velocity, Vector { x: 0, y: 0 });
    assert_eq!(player_keyboard_input(true, true, true, true).velocity, Vector { x: 0, y: 0 });
}

#[test]
fn spawn_location_counts_from_the_right_and_the_top() {
    assert_eq!(spawn_location(40, 40), Vector { x: 560, y: 460 });
    assert_eq!(spawn_location(1160, 960), Vector { x: -560, y: -460 });
    assert_eq!(spawn_location(600, 500), Vector { x: 0, y: 0 });
    assert_eq!(SPAWN_MARGIN, 40);
}

#[test]
fn enemies_spawn_within_the_margins() {
    let mut xs: Vec<i64> = Vec::new();
    let mut ys: Vec<i64> = Vec::new();
    for _ in 0..200 {
        let location = spawn_enemy_location();
        assert!(-560 <= location.x && location.x <= 560);
        assert!(-460 <= location.y && location.y <= 460);
        xs.push(location.x);
        ys.push(location.y);
    }
    // The draws differ: neither bound of the range is handed back each time.
    xs.sort();
    xs.dedup();
    ys.sort();
    ys.dedup();
    assert!(xs.len() > 1);
    assert!(ys.len() > 1);
}

#[test]
fn the_score_counts_dead_enemies() {
    let mut score = Score::new();
    assert_eq!(score, Score { value: 0 });
    score.enemy_died();
    score.enemy_died();
    assert_eq!(score.value, 2);
    let mut high = Score { value: u32::MAX - 1 };
    high.enemy_died();
    assert_eq!(high.value, u32::MAX);
}
