use rusty_platformer::collider::{Collider, ColliderError};
use rusty_platformer::config::{ACCELERATION, JUMP_SPEED, WALK_SPEED, PhysicsConfig};
use rusty_platformer::geometry::Vec2;
use rusty_platformer::map::{AreaIndex, TileMap, TileType};
use rusty_platformer::moving_object::{CollisionData, MovingObject};

fn v(x: i64, y: i64) -> Vec2 {
    Vec2::new(x, y)
}

fn level() -> TileMap {
    let tiles = vec![vec![TileType::Empty; 120]; 32];
    TileMap::new(tiles, v(0, 0), 120, 32, 24)
}

/// A body whose box is centered at `(x, y)`.
fn centered(x: i64, y: i64, half: i64, id: &str) -> MovingObject {
    MovingObject::new(v(x - half, y - half), v(2 * half, 2 * half), v(0, 1080), ACCELERATION, WALK_SPEED, JUMP_SPEED, id.to_string(), PhysicsConfig::standard())
}

fn place_all(collider: &mut Collider, bodies: &mut Vec<MovingObject>, map: &TileMap) {
    for i in 0..bodies.len() {
        bodies[i].all_colliding_objects.clear();
        collider.update_areas(i, &mut bodies[i], map);
    }
}

fn a(x: i64, y: i64) -> AreaIndex {
    AreaIndex { x, y }
}

#[test]
fn collider_rejects_uneven_levels() {
    assert_eq!(Collider::new(8, 8, 121, 32).err(), Some(ColliderError::WrongLevelWidth));
    assert_eq!(Collider::new(8, 8, 120, 33).err(), Some(ColliderError::WrongLevelHeight));
    assert_eq!(Collider::new(7, 7, 120, 33).err(), Some(ColliderError::WrongLevelWidth));
    let c = Collider::new(8, 8, 120, 32).ok().unwrap();
    assert_eq!(c.horizontal_area_count, 15);
    assert_eq!(c.vertical_area_count, 4);
    assert_eq!(c.objects_in_area.len(), 60);
    assert!(c.objects_in_area.iter().all(|b| b.is_empty()));
}

#[test]
fn bodies_are_bucketed_by_footprint() {
    let map = level();
    let mut c = Collider::new(8, 8, 120, 32).ok().unwrap();
    // one cell is 8 * 24 = 192 units wide
    let mut bodies = vec![centered(100, 100, 25, "inside"), centered(190, 100, 25, "across x"), centered(190, 190, 25, "corner")];
    place_all(&mut c, &mut bodies, &map);
    assert_eq!(bodies[0].areas, vec![a(0, 0)]);
    assert_eq!(bodies[1].areas, vec![a(0, 0), a(1, 0)]);
    assert_eq!(bodies[2].areas, vec![a(0, 0), a(0, 1), a(1, 0), a(1, 1)]);
    assert_eq!(c.objects_in_area[0], vec![0, 1, 2]);
    assert_eq!(c.objects_in_area[1], vec![1, 2]);
    assert_eq!(c.objects_in_area[15], vec![2]);
    assert_eq!(c.objects_in_area[16], vec![2]);

    // moving the corner body fully into cell (1, 1) takes it out of the others
    bodies[2].aabb.center = v(300, 300);
    c.update_areas(2, &mut bodies[2], &map);
    assert_eq!(bodies[2].areas, vec![a(1, 1)]);
    assert_eq!(c.objects_in_area[0], vec![0, 1]);
    assert_eq!(c.objects_in_area[1], vec![1]);
    assert_eq!(c.objects_in_area[15], Vec::<usize>::new());
    assert_eq!(c.objects_in_area[16], vec![2]);

    // placing again without moving changes nothing
    c.update_areas(2, &mut bodies[2], &map);
    assert_eq!(bodies[2].areas, vec![a(1, 1)]);
    assert_eq!(c.objects_in_area[16], vec![2]);
}

#[test]
fn overlapping_bodies_record_each_other() {
    let map = level();
    let mut c = Collider::new(8, 8, 120, 32).ok().unwrap();
    let mut bodies = vec![centered(100, 100, 25, "a"), centered(140, 100, 25, "b"), centered(100, 160, 25, "c")];
    place_all(&mut c, &mut bodies, &map);
    c.check_collisions(&mut bodies);
    let ab = bodies[0].all_colliding_objects.get(&1).copied().unwrap();
    let ba = bodies[1].all_colliding_objects.get(&0).copied().unwrap();
    assert_eq!(ab.other_key, 1);
    assert_eq!(ba.other_key, 0);
    assert_eq!(ab.overlap, v(-10, 0));
    assert_eq!(ba.overlap, v(10, 0));
    assert_eq!(ab.pos1, bodies[0].position);
    assert_eq!(ab.pos2, bodies[1].position);
    assert_eq!(ba.pos1, bodies[1].position);
    assert_eq!(ba.speed2, bodies[0].speed);
    // the third body shares the cell but is 60 units below: no records
    assert!(bodies[2].all_colliding_objects.is_empty());
    assert_eq!(bodies[0].all_colliding_objects.len(), 1);
    assert_eq!(bodies[1].all_colliding_objects.len(), 1);
}

#[test]
fn touching_bodies_collide() {
    let map = level();
    let mut c = Collider::new(8, 8, 120, 32).ok().unwrap();
    let mut bodies = vec![centered(100, 100, 25, "a"), centered(150, 100, 25, "b")];
    place_all(&mut c, &mut bodies, &map);
    c.check_collisions(&mut bodies);
    assert_eq!(bodies[0].all_colliding_objects.get(&1).unwrap().overlap, v(0, 0));
    assert_eq!(bodies[1].all_colliding_objects.get(&0).unwrap().overlap, v(0, 0));
}

#[test]
fn second_pass_adds_nothing() {
    let map = level();
    let mut c = Collider::new(8, 8, 120, 32).ok().unwrap();
    // both straddle the same four cells
    let mut bodies = vec![centered(190, 190, 25, "a"), centered(180, 200, 25, "b")];
    place_all(&mut c, &mut bodies, &map);
    c.check_collisions(&mut bodies);
    let first = *bodies[0].all_colliding_objects.get(&1).unwrap();
    assert_eq!(first.overlap, v(40, -40));
    // the bodies move, but the records of this tick stay as they were
    bodies[0].position = v(1, 1);
    c.check_collisions(&mut bodies);
    assert_eq!(bodies[0].all_colliding_objects.len(), 1);
    assert_eq!(bodies[1].all_colliding_objects.len(), 1);
    assert_eq!(*bodies[0].all_colliding_objects.get(&1).unwrap(), first);
}

#[test]
fn straddling_bodies_meet_in_a_shared_cell() {
    let map = level();
    let mut c = Collider::new(8, 8, 120, 32).ok().unwrap();
    // the cell edge is at x = 192
    let mut bodies = vec![centered(180, 100, 25, "a"), centered(210, 100, 25, "b")];
    place_all(&mut c, &mut bodies, &map);
    assert_eq!(bodies[0].areas, vec![a(0, 0), a(1, 0)]);
    assert_eq!(bodies[1].areas, vec![a(0, 0), a(1, 0)]);
    c.check_collisions(&mut bodies);
    assert!(bodies[0].all_colliding_objects.contains_key(&1));
    assert!(bodies[1].all_colliding_objects.contains_key(&0));
    assert_eq!(bodies[0].all_colliding_objects.len(), 1);
}

#[test]
fn distant_bodies_do_not_collide() {
    let map = level();
    let mut c = Collider::new(8, 8, 120, 32).ok().unwrap();
    let mut bodies = vec![centered(100, 100, 25, "a"), centered(300, 100, 25, "b")];
    place_all(&mut c, &mut bodies, &map);
    c.check_collisions(&mut bodies);
    assert!(bodies[0].all_colliding_objects.is_empty());
    assert!(bodies[1].all_colliding_objects.is_empty());
}

#[test]
fn one_sided_records_are_completed_and_kept() {
    let map = level();
    let mut c = Collider::new(8, 8, 120, 32).ok().unwrap();
    let mut bodies = vec![centered(100, 100, 25, "a"), centered(140, 100, 25, "b")];
    place_all(&mut c, &mut bodies, &map);
    // a stale record held by the first body only
    let stale = CollisionData {
        other_key: 1,
        overlap: v(7, 7),
        speed1: v(0, 0),
        speed2: v(0, 0),
        old_pos1: v(0, 0),
        old_pos2: v(0, 0),
        pos1: v(0, 0),
        pos2: v(0, 0),
    };
    bodies[0].all_colliding_objects.insert(1, stale);
    c.check_collisions(&mut bodies);
    assert_eq!(*bodies[0].all_colliding_objects.get(&1).unwrap(), stale);
    assert_eq!(bodies[1].all_colliding_objects.get(&0).unwrap().overlap, v(10, 0));
    // a second pass changes nothing
    c.check_collisions(&mut bodies);
    assert_eq!(*bodies[0].all_colliding_objects.get(&1).unwrap(), stale);
    assert_eq!(bodies[1].all_colliding_objects.len(), 1);
}

#[test]
fn existing_record_of_the_second_body_is_not_replaced() {
    let map = level();
    let mut c = Collider::new(8, 8, 120, 32).ok().unwrap();
    let mut bodies = vec![centered(100, 100, 25, "a"), centered(140, 100, 25, "b")];
    place_all(&mut c, &mut bodies, &map);
    let mut kept = CollisionData {
        other_key: 0,
        overlap: v(3, 3),
        speed1: v(1, 1),
        speed2: v(1, 1),
        old_pos1: v(1, 1),
        old_pos2: v(1, 1),
        pos1: v(1, 1),
        pos2: v(1, 1),
    };
    kept.other_key = 0;
    bodies[1].all_colliding_objects.insert(0, kept);
    c.check_collisions(&mut bodies);
    assert_eq!(*bodies[1].all_colliding_objects.get(&0).unwrap(), kept);
    assert_eq!(bodies[0].all_colliding_objects.get(&1).unwrap().overlap, v(-10, 0));
}

#[test]
fn stored_areas_become_the_footprint() {
    let map = level();
    let mut c = Collider::new(8, 8, 120, 32).ok().unwrap();
    let mut bodies = vec![centered(190, 100, 25, "a")];
    assert_eq!(bodies[0].aabb.center, v(190, 100));
    // cells recorded twice, and one no longer covered
    bodies[0].areas = vec![a(0, 0), a(0, 0), a(3, 2)];
    c.update_areas(0, &mut bodies[0], &map);
    assert_eq!(bodies[0].areas, vec![a(0, 0), a(1, 0)]);
    assert_eq!(c.objects_in_area[1], vec![0]);
}
