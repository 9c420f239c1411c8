use rusty_platformer::camera::{Background, Camera};
use rusty_platformer::config::{ACCELERATION, JUMP_SPEED, WALK_SPEED, PhysicsConfig};
use rusty_platformer::geometry::Vec2;
use rusty_platformer::map::{TileMap, TileType};
use rusty_platformer::moving_object::MovingObject;

fn v(x: i64, y: i64) -> Vec2 {
    Vec2::new(x, y)
}

fn setup(player_x: i64, speed_x: i64) -> (Vec<MovingObject>, TileMap, Background) {
    let mut player = MovingObject::new(v(player_x, 300), v(50, 50), v(0, 1080), ACCELERATION, WALK_SPEED, JUMP_SPEED, "p".to_string(), PhysicsConfig::standard());
    player.speed = v(speed_x, 0);
    let enemy = MovingObject::new(v(300, 300), v(50, 50), v(0, 1080), ACCELERATION, WALK_SPEED, JUMP_SPEED, "e".to_string(), PhysicsConfig::standard());
    let map = TileMap::new(vec![vec![TileType::Empty; 4]; 4], v(0, 0), 4, 4, 24);
    (vec![player, enemy], map, Background::new(2, 1000))
}

#[test]
fn background_size() {
    let b = Background::new(2, 1000);
    assert_eq!(b.combined_width, 2000);
    assert_eq!((b.x, b.y), (0, 0));
}

#[test]
fn player_inside_window_scrolls_nothing() {
    let mut cam = Camera::new(460, 660);
    let (mut objs, mut map, mut bg) = setup(500, 200);
    assert!(cam.can_update(&objs, 0, &map, &bg, 16));
    cam.update(&mut objs, 0, &mut map, &mut bg, 16);
    assert_eq!(objs[0].position, v(500, 300));
    assert_eq!(objs[1].position, v(300, 300));
    assert_eq!(bg.x, 0);
    assert_eq!(map.position, v(0, 0));
}

#[test]
fn right_edge_scrolls_the_level() {
    let mut cam = Camera::new(460, 660);
    let (mut objs, mut map, mut bg) = setup(670, 200);
    cam.update(&mut objs, 0, &mut map, &mut bg, 16);
    // 200 units per second over 16 ms is 3 units
    assert_eq!(objs[0].position, v(660, 300));
    assert_eq!(bg.x, -3);
    // the tile layer and the other bodies move six fifths as far, toward zero
    assert_eq!(map.position, v(-3, 0));
    assert_eq!(objs[1].position, v(297, 300));
}

#[test]
fn left_edge_at_the_start_does_not_scroll() {
    let mut cam = Camera::new(460, 660);
    let (mut objs, mut map, mut bg) = setup(450, -200);
    cam.update(&mut objs, 0, &mut map, &mut bg, 16);
    assert_eq!(objs[0].position, v(450, 300));
    assert_eq!(bg.x, 0);
}

#[test]
fn left_edge_scrolls_back_until_the_start() {
    let mut cam = Camera::new(460, 660);
    let (mut objs, mut map, mut bg) = setup(450, -200);
    bg.x = -10;
    cam.update(&mut objs, 0, &mut map, &mut bg, 16);
    assert_eq!(objs[0].position, v(460, 300));
    assert_eq!(bg.x, -7);
    assert_eq!(map.position, v(3, 0));
    assert_eq!(objs[1].position, v(303, 300));
    // a scroll past the start stops the backdrop there
    let (mut objs2, mut map2, mut bg2) = setup(450, -200);
    bg2.x = -2;
    cam.update(&mut objs2, 0, &mut map2, &mut bg2, 16);
    assert_eq!(bg2.x, 0);
    assert_eq!(objs2[0].position, v(460, 300));
    assert_eq!(objs2[1].position, v(300, 300));
    assert_eq!(map2.position, v(0, 0));
}

#[test]
fn right_edge_stops_at_the_middle() {
    let mut cam = Camera::new(460, 660);
    let (mut objs, mut map, mut bg) = setup(700, 200);
    bg.x = -1000;
    cam.update(&mut objs, 0, &mut map, &mut bg, 16);
    assert_eq!(objs[0].position, v(700, 300));
    assert_eq!(bg.x, -1000);
}

#[test]
fn camera_condition_is_checked() {
    let cam = Camera::new(660, 460);
    let (objs, map, bg) = setup(500, 0);
    assert!(!cam.can_update(&objs, 0, &map, &bg, 16));
    let ok = Camera::new(460, 660);
    assert!(!ok.can_update(&objs, 2, &map, &bg, 16));
    assert!(ok.can_update(&objs, 1, &map, &bg, 16));
}
