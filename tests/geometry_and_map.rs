use rusty_platformer::aabb::AABB;
use rusty_platformer::geometry::{floor_div, lerp_i64, trunc_div, Vec2};
use rusty_platformer::map::{TileMap, TileType};
use rusty_platformer::map_loader::MapLoader;

const B: TileType = TileType::Block;
const E: TileType = TileType::Empty;
const O: TileType = TileType::OneWay;

fn v(x: i64, y: i64) -> Vec2 {
    Vec2::new(x, y)
}

fn small_map() -> TileMap {
    let tiles = vec![vec![E, E, E], vec![O, E, B]];
    TileMap::new(tiles, v(10, 20), 3, 2, 24)
}

#[test]
fn outside_tiles_are_obstacles() {
    let m = small_map();
    for (x, y) in [(-1, 0), (3, 0), (0, -1), (0, 2), (100, 100), (-5, 1)] {
        assert!(m.is_obstacle(x, y));
        assert!(!m.is_ground(x, y));
        assert!(!m.is_one_way_platform(x, y));
        assert!(!m.is_empty(x, y));
        assert_eq!(m.get_tile(x, y), TileType::Block);
    }
}

#[test]
fn inside_tiles_are_classified() {
    let m = small_map();
    assert!(m.is_empty(0, 0));
    assert!(!m.is_obstacle(0, 0));
    assert!(!m.is_ground(0, 0));
    assert!(m.is_one_way_platform(0, 1));
    assert!(m.is_ground(0, 1));
    assert!(!m.is_obstacle(0, 1));
    assert!(m.is_obstacle(2, 1));
    assert!(m.is_ground(2, 1));
    assert_eq!(m.get_tile(2, 1), TileType::Block);
    assert_eq!(m.get_tile(0, 1), TileType::OneWay);
}

#[test]
fn world_points_map_to_tiles() {
    let m = small_map();
    let t = m.get_map_tile_in_point(v(10, 20));
    assert_eq!((t.x, t.y), (0, 0));
    let t = m.get_map_tile_in_point(v(33, 43));
    assert_eq!((t.x, t.y), (0, 0));
    let t = m.get_map_tile_in_point(v(34, 44));
    assert_eq!((t.x, t.y), (1, 1));
    // floor, not truncation, left of the origin
    let t = m.get_map_tile_in_point(v(9, 19));
    assert_eq!((t.x, t.y), (-1, -1));
    assert_eq!(m.get_map_tile_x_at_point(58), 2);
    // rows are rounded to the nearest tile edge
    assert_eq!(m.get_map_tile_y_at_point(31), 0);
    assert_eq!(m.get_map_tile_y_at_point(32), 1);
    assert_eq!(m.get_map_tile_position(2, 1), v(58, 44));
    assert_eq!(m.get_map_tile_position(-1, 0), v(-14, 20));
}

#[test]
fn map_scrolls_with_parallax() {
    let mut m = small_map();
    m.move_object(10, -5);
    assert_eq!(m.position, v(22, 14));
    m.move_object(-3, 0);
    // -3 * 6 / 5 = -3.6, rounded toward zero
    assert_eq!(m.position, v(19, 14));
}

#[test]
fn aabb_overlap_inclusive_boundary() {
    let a = AABB::new(v(0, 0), v(10, 10));
    let touching = AABB::new(v(20, 0), v(10, 10));
    let apart = AABB::new(v(21, 0), v(10, 10));
    assert!(a.overlaps(touching));
    assert!(!a.overlaps(apart));
    assert!(!a.overlaps(AABB::new(v(0, 21), v(10, 10))));
}

#[test]
fn aabb_signed_penetration() {
    let a = AABB::new(v(100, 100), v(25, 25));
    let b = AABB::new(v(140, 110), v(25, 25));
    let (hit, p) = a.overlaps_signed(&b);
    assert!(hit);
    assert_eq!(p, v(-10, -40));
    let (hit_back, q) = b.overlaps_signed(&a);
    assert!(hit_back);
    assert_eq!(q, v(10, 40));
}

#[test]
fn aabb_signed_degenerate_reports_nothing() {
    let a = AABB::new(v(0, 0), v(0, 10));
    let b = AABB::new(v(0, 0), v(10, 10));
    assert!(a.overlaps(b));
    assert_eq!(a.overlaps_signed(&b), (false, v(0, 0)));
    assert_eq!(b.overlaps_signed(&a), (false, v(0, 0)));
    let apart = AABB::new(v(50, 0), v(10, 10));
    assert_eq!(b.overlaps_signed(&apart), (false, v(0, 0)));
}

#[test]
fn aabb_signed_agrees_with_plain_on_examples() {
    let boxes = [
        AABB::new(v(0, 0), v(5, 5)),
        AABB::new(v(9, 3), v(4, 2)),
        AABB::new(v(10, 0), v(5, 5)),
        AABB::new(v(-30, 7), v(3, 9)),
        AABB::new(v(0, 0), v(5, 5)),
    ];
    for a in boxes.iter() {
        for b in boxes.iter() {
            let (hit, p) = a.overlaps_signed(b);
            assert_eq!(hit, a.overlaps(*b));
            let (hit_back, q) = b.overlaps_signed(a);
            assert_eq!(hit, hit_back);
            assert_eq!((p.x, p.y), (-q.x, -q.y));
        }
    }
}

#[test]
fn rounding_helpers() {
    assert_eq!(floor_div(-7, 2), -4);
    assert_eq!(floor_div(7, 2), 3);
    assert_eq!(trunc_div(-7, 2), -3);
    assert_eq!(trunc_div(7, 2), 3);
    // halfway points round away from zero
    assert_eq!(lerp_i64(0, 3, 1, 2), 2);
    assert_eq!(lerp_i64(0, -3, 1, 2), -2);
    assert_eq!(lerp_i64(10, 20, 0, 4), 10);
    assert_eq!(lerp_i64(10, 20, 4, 4), 20);
    assert_eq!(lerp_i64(10, 20, 1, 3), 13);
}

#[test]
fn parse_map_rows() {
    let loader = MapLoader::new("assets".to_string());
    assert_eq!(loader.assets_path, "assets");
    let rows = loader.parse_map("EOB\nB?E\n\nO".as_bytes());
    assert_eq!(rows, vec![vec![E, O, B], vec![B, E], vec![], vec![O]]);
    assert!(loader.parse_map(b"").is_empty());
    assert_eq!(loader.parse_map(b"EE\r\nBB\n"), vec![vec![E, E], vec![B, B]]);
}
