use rusty_platformer::config::{ACCELERATION, FALL_GRAVITY, GRAVITY, JUMP_SPEED, WALK_SPEED, PhysicsConfig};
use rusty_platformer::geometry::Vec2;
use rusty_platformer::map::{TileMap, TileType};
use rusty_platformer::moving_object::MovingObject;

fn v(x: i64, y: i64) -> Vec2 {
    Vec2::new(x, y)
}

fn grid(rows: &[&str], tile_size: i64) -> TileMap {
    let tiles: Vec<Vec<TileType>> = rows
        .iter()
        .map(|r| {
            r.chars()
                .map(|c| match c {
                    'B' => TileType::Block,
                    'O' => TileType::OneWay,
                    _ => TileType::Empty,
                })
                .collect()
        })
        .collect();
    let width = tiles[0].len() as i64;
    let height = tiles.len() as i64;
    TileMap::new(tiles, v(0, 0), width, height, tile_size)
}

fn body(x: i64, y: i64, w: i64, h: i64) -> MovingObject {
    MovingObject::new(v(x, y), v(w, h), v(0, 1080), ACCELERATION, WALK_SPEED, JUMP_SPEED, "body".to_string(), PhysicsConfig::standard())
}

#[test]
fn new_body_is_at_rest_under_gravity() {
    let b = body(50, 300, 50, 50);
    assert_eq!(b.position, v(50, 300));
    assert_eq!(b.aabb.half_size, v(25, 25));
    assert_eq!(b.aabb.center, v(75, 325));
    assert_eq!(b.aabb_offset, v(25, 25));
    assert_eq!(b.speed, v(0, 0));
    assert_eq!(b.acceleration, v(0, GRAVITY));
    assert!(b.on_ground && b.was_on_ground);
    assert!(b.all_colliding_objects.is_empty());
    assert!(b.areas.is_empty());
    assert!(b.is_wf());
}

#[test]
fn falling_body_lands_on_block_below() {
    let map = grid(&["EE", "BE"], 40);
    let mut b = body(0, 0, 50, 50);
    b.speed = v(0, 500);
    assert!(b.can_step(16));
    b.update_physics(16, &map);
    assert!(b.on_ground);
    assert_eq!(b.speed.y, 0);
    assert_eq!(b.position.y, 40 - 50);
    assert_eq!(b.position.x, 0);
    assert_eq!(b.old_position, v(0, 0));
    assert_eq!(b.old_speed, v(0, 500));
}

#[test]
fn no_tunnelling_through_a_block_row() {
    // a one-tile-thick floor of blocks at row 2, its top at y = 80
    let map = grid(&["EEEE", "EEEE", "BBBB", "EEEE", "EEEE"], 40);
    let dt = 16;
    for speed in 1..=(40 * 1000 / dt) {
        let step = speed * dt / 1000;
        for bottom in [79, 80 - step, 80 - step / 2] {
            let mut b = body(50, bottom - 20, 20, 20);
            b.acceleration = v(0, 0);
            b.speed = v(0, speed);
            b.on_ground = false;
            assert!(b.can_step(dt));
            b.update_physics(dt, &map);
            assert!(b.on_ground, "speed {} from bottom {}", speed, bottom);
            assert_eq!(b.position.y, 80 - 20, "speed {} from bottom {}", speed, bottom);
            assert_eq!(b.speed.y, 0);
        }
    }
}

#[test]
fn body_above_empty_space_keeps_falling() {
    let map = grid(&["EEEE", "EEEE", "EEEE", "EEEE"], 40);
    let mut b = body(50, 10, 20, 20);
    b.speed = v(0, 100);
    b.update_physics(16, &map);
    assert!(!b.on_ground);
    assert!(b.was_on_ground);
    assert_eq!(b.speed.y, 106);
    assert_eq!(b.position.y, 11);
}

#[test]
fn map_bottom_is_a_floor() {
    let map = grid(&["EE", "EE"], 40);
    let mut b = body(10, 60, 10, 10);
    b.speed = v(0, 1000);
    b.update_physics(16, &map);
    assert!(b.on_ground);
    // the bottom of the body rests on the bottom of the map
    assert_eq!(b.position.y, 80 - 10);
    assert_eq!(b.speed.y, 0);
}

#[test]
fn one_way_platform_then_drop() {
    let map = grid(&["EEEE", "EEEE", "OOOO", "EEEE", "EEEE", "EEEE"], 40);
    // standing on the platform top at y = 80
    let mut b = body(50, 60, 20, 20);
    b.speed = v(0, 10);
    b.update_physics(16, &map);
    assert!(b.on_ground);
    assert!(b.on_one_way_platform);
    assert_eq!(b.position.y, 60);
    b.drop();
    assert!(!b.on_one_way_platform);
    assert_eq!(b.position.y, 75);
    b.update_physics(16, &map);
    assert!(!b.on_ground);
    for _ in 0..30 {
        b.update_physics(16, &map);
        assert!(!b.on_ground);
    }
    assert!(b.position.y > 80);
}

#[test]
fn one_way_platform_ignored_from_far_above() {
    let map = grid(&["EEEE", "EEEE", "OOOO", "EEEE"], 40);
    // the foot sensor reaches the platform's row but stays 17 units above it
    let mut b = body(50, 42, 20, 20);
    b.acceleration = v(0, 0);
    b.speed = v(0, 62);
    b.update_physics(16, &map);
    assert_eq!(b.position.y, 42);
    assert!(!b.on_ground);
}

#[test]
fn ceiling_stops_a_rising_body() {
    let map = grid(&["BBBB", "EEEE", "EEEE", "EEEE"], 40);
    // the head's row is rounded to the nearest tile edge: a head at y = 36
    // still counts as below row 0
    let mut slow = body(50, 45, 20, 20);
    slow.acceleration = v(0, 0);
    slow.speed = v(0, -500);
    slow.update_physics(16, &map);
    assert_eq!(slow.position.y, 37);
    assert_eq!(slow.speed.y, -500);
    let mut b = body(50, 45, 20, 20);
    b.acceleration = v(0, 0);
    b.speed = v(0, -2000);
    b.update_physics(16, &map);
    assert_eq!(b.position.y, 40);
    assert_eq!(b.speed.y, 0);
}

#[test]
fn walls_stop_horizontal_motion() {
    let map = grid(&["BEEEEB", "BEEEEB", "BEEEEB", "BBBBBB"], 40);
    let mut r = body(178, 60, 20, 20);
    r.acceleration = v(0, 0);
    r.speed = v(200, 0);
    r.update_physics(16, &map);
    assert!(r.pushes_right_wall);
    assert_eq!(r.position.x, 200 - 20);
    assert_eq!(r.speed.x, 0);

    let mut l = body(43, 60, 20, 20);
    l.acceleration = v(0, 0);
    l.speed = v(-200, 0);
    l.update_physics(16, &map);
    assert!(l.pushes_left_wall);
    assert_eq!(l.position.x, 40);
    assert_eq!(l.speed.x, 0);

    let mut free = body(100, 60, 20, 20);
    free.acceleration = v(0, 0);
    free.speed = v(100, 0);
    free.pushes_right_wall = true;
    free.update_physics(16, &map);
    assert!(!free.pushes_right_wall);
    assert!(free.pushed_right_wall);
    assert_eq!(free.position.x, 101);
}

#[test]
fn horizontal_speed_is_limited_and_friction_applies() {
    let map = grid(&["EEEEEEEEEE", "EEEEEEEEEE", "EEEEEEEEEE", "BBBBBBBBBB"], 40);
    let mut b = body(100, 90, 20, 20);
    b.speed = v(190, 0);
    b.acceleration = v(ACCELERATION, 0);
    b.update_physics(16, &map);
    assert_eq!(b.speed.x, WALK_SPEED);
    assert_eq!(b.acceleration.x, -140);
    assert_eq!(b.position.x, 103);
    b.speed = v(-300, 0);
    b.acceleration = v(0, 0);
    b.update_physics(16, &map);
    assert_eq!(b.speed.x, -WALK_SPEED);
}

#[test]
fn control_operations() {
    let mut b = body(0, 0, 10, 10);
    b.speed = v(30, 40);
    b.stop();
    assert_eq!(b.speed, v(0, 0));
    b.jump();
    assert_eq!(b.speed, v(0, -JUMP_SPEED));
    b.jump();
    assert_eq!(b.speed, v(0, -2 * JUMP_SPEED));
    b.move_right(100);
    assert_eq!(b.acceleration, v(ACCELERATION, GRAVITY));
    b.move_left(70);
    assert_eq!(b.acceleration, v(-700, GRAVITY));
    // still rising: gravity stays
    b.falling();
    assert_eq!(b.acceleration.y, GRAVITY);
    b.speed = v(0, 0);
    b.falling();
    assert_eq!(b.acceleration.y, FALL_GRAVITY);
    b.stop_falling();
    assert_eq!(b.acceleration.y, GRAVITY);
    // not on a platform: drop does nothing
    b.drop();
    assert_eq!(b.position, v(0, 0));
    b.move_object(10, -10);
    assert_eq!(b.position, v(12, -12));
}

#[test]
fn step_limits_are_checked() {
    let mut b = body(0, 0, 10, 10);
    assert!(b.can_step(16));
    assert!(!b.can_step(-1));
    assert!(!b.can_step(1001));
    b.speed = v(0, 0x1_0000_0000);
    b.acceleration = v(0, 1000);
    assert!(!b.can_step(16));
}

#[test]
fn landing_on_a_platform_uses_the_new_foot_height() {
    // platform top at y = 72; the foot ends 5 units below it
    let map = grid(&["EEEE", "EEEE", "EEEE", "OOOO", "EEEE", "EEEE"], 24);
    let mut b = body(24, 35, 20, 20);
    b.acceleration = v(0, 0);
    b.speed = v(0, 210);
    b.on_ground = false;
    b.update_physics(100, &map);
    assert!(b.on_ground);
    assert!(b.on_one_way_platform);
    assert_eq!(b.position.y, 72 - 20);
    assert_eq!(b.speed.y, 0);
}

#[test]
fn block_under_the_far_edge_only_is_found() {
    // the body spans x = 20 ..= 50; only column 2 (x = 48 ..< 72) holds a block
    let map = grid(&["EEEE", "EEEE", "EEEE", "EEBE", "EEEE"], 24);
    let mut b = body(20, 40, 30, 30);
    b.acceleration = v(0, 0);
    b.speed = v(0, 300);
    b.on_ground = false;
    b.update_physics(16, &map);
    assert!(b.on_ground);
    assert_eq!(b.position.y, 72 - 30);
}

#[test]
fn wall_beside_the_lower_edge_only_is_found() {
    // a block in column 3 only at row 2 (y = 48 ..< 72), beside the body's
    // lowest units (the body spans y = 30 ..= 60)
    let map = grid(&["EEEEE", "EEEEE", "EEEBE", "EEEEE", "BBBBB"], 24);
    let mut b = body(40, 30, 30, 30);
    b.acceleration = v(0, 0);
    b.speed = v(200, 0);
    b.update_physics(16, &map);
    assert!(b.pushes_right_wall);
    assert_eq!(b.position.x, 72 - 30);
}

#[test]
fn each_body_has_its_own_tuning() {
    let map = grid(&["EEEEEEEEEE", "EEEEEEEEEE", "EEEEEEEEEE", "BBBBBBBBBB"], 40);
    let light = PhysicsConfig::new(100, 500, 1, 2);
    let mut b = MovingObject::new(v(100, 40), v(20, 20), v(0, 1080), ACCELERATION, WALK_SPEED, JUMP_SPEED, "light".to_string(), light);
    assert_eq!(b.acceleration, v(0, 100));
    b.speed = v(100, 0);
    b.on_ground = false;
    b.update_physics(100, &map);
    assert_eq!(b.speed, v(100, 10));
    // half the horizontal speed, against it
    assert_eq!(b.acceleration.x, -50);
    b.falling();
    assert_eq!(b.acceleration.y, 500);
    b.stop_falling();
    assert_eq!(b.acceleration.y, 100);
    assert!(PhysicsConfig::standard().is_wf());
    assert!(!PhysicsConfig::new(100, 500, 3, 2).is_wf());
}

#[test]
fn body_on_the_last_block_row_does_not_sink_into_it() {
    // the map's bottom row is all blocks, its top at y = 24
    let map = grid(&["EEE", "BBB"], 24);
    let mut b = body(0, 0, 24, 24);
    b.acceleration = v(0, 0);
    b.speed = v(0, 1500);
    b.update_physics(16, &map);
    assert!(b.on_ground);
    assert_eq!(b.position.y, 0);
    assert_eq!(b.speed.y, 0);
}
