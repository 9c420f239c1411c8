use rusty_platformer::character::{Animation, Character, CharacterState};
use rusty_platformer::config::{ACCELERATION, FALL_GRAVITY, GRAVITY, JUMP_SPEED, WALK_SPEED, PhysicsConfig};
use rusty_platformer::geometry::Vec2;
use rusty_platformer::map::{TileMap, TileType};
use rusty_platformer::moving_object::MovingObject;

fn v(x: i64, y: i64) -> Vec2 {
    Vec2::new(x, y)
}

fn floor_map() -> TileMap {
    let mut tiles = vec![vec![TileType::Empty; 10]; 4];
    tiles[3] = vec![TileType::Block; 10];
    TileMap::new(tiles, v(0, 0), 10, 4, 40)
}

fn standing_body() -> MovingObject {
    // its feet on the floor row, whose top is at y = 120
    MovingObject::new(v(100, 100), v(20, 20), v(0, 1080), ACCELERATION, WALK_SPEED, JUMP_SPEED, "p".to_string(), PhysicsConfig::standard())
}

#[test]
fn new_character_stands_idle() {
    let c = Character::new(50, 50);
    assert_eq!(c.current_state, CharacterState::Stand);
    assert_eq!(c.current_animator, Animation::Idle);
    assert!(!c.pressed_left && !c.pressed_right && !c.pressed_jump && !c.pressed_drop);
    assert!(!c.turned_back);
}

#[test]
fn standing_character_starts_walking() {
    let map = floor_map();
    let mut c = Character::new(20, 20);
    let mut b = standing_body();
    c.pressed_right = true;
    assert!(c.character_update(16, &map, &mut b));
    assert_eq!(c.current_state, CharacterState::Walk);
    assert_eq!(c.current_animator, Animation::Idle);
    // walking itself starts on the next tick
    assert!(c.character_update(16, &map, &mut b));
    assert_eq!(c.current_animator, Animation::Run);
    assert!(!c.turned_back);
    assert!(b.speed.x > 0);
    c.pressed_right = false;
    c.pressed_left = true;
    c.character_update(16, &map, &mut b);
    assert!(c.turned_back);
    c.pressed_left = false;
    c.character_update(16, &map, &mut b);
    assert_eq!(c.current_state, CharacterState::Stand);
}

#[test]
fn jump_then_land() {
    let map = floor_map();
    let mut c = Character::new(20, 20);
    let mut b = standing_body();
    c.pressed_jump = true;
    assert!(c.character_update(16, &map, &mut b));
    assert_eq!(c.current_state, CharacterState::Jump);
    assert_eq!(b.speed.y, -JUMP_SPEED + GRAVITY * 16 / 1000);
    assert!(b.position.y < 100);
    c.pressed_jump = false;
    c.character_update(16, &map, &mut b);
    assert_eq!(c.current_animator, Animation::Jumping);
    // still rising: gravity is not raised yet
    assert_eq!(b.acceleration.y, GRAVITY);
    let mut ticks = 0;
    while c.current_state == CharacterState::Jump && ticks < 500 {
        c.character_update(16, &map, &mut b);
        ticks += 1;
    }
    assert_eq!(c.current_state, CharacterState::Stand);
    assert_eq!(b.acceleration.y, GRAVITY);
    assert_eq!(b.position.y, 100);
    assert!(b.on_ground);
}

#[test]
fn falling_fast_after_the_apex() {
    let map = floor_map();
    let mut c = Character::new(20, 20);
    let mut b = standing_body();
    b.position = v(100, 40);
    b.on_ground = false;
    c.current_state = CharacterState::Jump;
    c.pressed_left = true;
    c.character_update(16, &map, &mut b);
    assert_eq!(b.acceleration.y, FALL_GRAVITY);
    assert!(c.turned_back);
    assert!(b.speed.x < 0);
}

#[test]
fn walking_into_a_wall_stops() {
    let map = floor_map();
    let mut c = Character::new(20, 20);
    let mut b = standing_body();
    c.current_state = CharacterState::Walk;
    c.pressed_right = true;
    b.pushes_right_wall = true;
    b.speed = v(50, 0);
    c.character_update(16, &map, &mut b);
    assert_eq!(b.speed.x, 0);
}
