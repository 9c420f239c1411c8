use rusty_platformer::animator::Animator;
use rusty_platformer::character::{Animation, Enemy};
use rusty_platformer::config::{ACCELERATION, JUMP_SPEED, WALK_SPEED, PhysicsConfig};
use rusty_platformer::geometry::Vec2;
use rusty_platformer::map::{TileMap, TileType};
use rusty_platformer::moving_object::MovingObject;

#[test]
fn frames_advance_after_the_interval_and_wrap() {
    let mut a = Animator::new(3, 100);
    assert_eq!((a.current_sprite, a.time_since_last), (0, 0));
    a.next(60);
    assert_eq!((a.current_sprite, a.time_since_last), (0, 60));
    a.next(40);
    assert_eq!((a.current_sprite, a.time_since_last), (1, 0));
    a.next(100);
    assert_eq!(a.current_sprite, 2);
    a.next(250);
    assert_eq!((a.current_sprite, a.time_since_last), (0, 0));
}

#[test]
fn single_frame_stays() {
    let mut a = Animator::new(1, 10);
    a.next(10);
    assert_eq!(a.current_sprite, 0);
}

#[test]
fn enemy_stands_and_falls() {
    let map = TileMap::new(vec![vec![TileType::Empty; 4]; 4], Vec2::new(0, 0), 4, 4, 40);
    let mut body = MovingObject::new(Vec2::new(40, 0), Vec2::new(20, 20), Vec2::new(0, 1080), ACCELERATION, WALK_SPEED, JUMP_SPEED, "e".to_string(), PhysicsConfig::standard());
    body.speed = Vec2::new(0, 500);
    let mut e = Enemy::new(20, 20);
    assert!(e.character_update(16, &map, &mut body));
    assert_eq!(e.current_animator, Animation::Idle);
    assert_eq!(body.position.y, 8);
    assert_eq!(body.speed.y, 506);
    body.speed = Vec2::new(0, 0x1_0000_0000);
    assert!(!e.character_update(16, &map, &mut body));
    assert_eq!(body.position.y, 8);
}
