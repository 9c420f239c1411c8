//! A moving body: kinematic state, contact flags and the swept resolution
//! of its motion against the tile grid.
use vstd::prelude::*;
use std::collections::HashMap;
use crate::aabb::AABB;
use crate::config::{PhysicsConfig, MILLIS, ONE_WAY_THRESHOLD};
use crate::geometry::{div_trunc, lemma_mul_mono, max, min, trunc_div, Vec2, COORD_MAX};
use crate::map::{lemma_index_bounds, lemma_tile_edge_fits, lemma_tile_edges, AreaIndex, TileMap};
use crate::sweep::{
    ceiling_rows, ceiling_rows_exec, ground_rows, ground_rows_exec, left_cols, left_cols_exec,
    right_cols, right_cols_exec,
};

verus! {

/// What one body records of a collision with another during a tick.
#[derive(Clone, Copy, Debug, PartialEq, Eq, Structural)]
pub struct CollisionData {
    /// Index of the other body.
    pub other_key: usize,
    /// Push-out vector of this body out of the other.
    pub overlap: Vec2,
    pub speed1: Vec2,
    pub speed2: Vec2,
    pub old_pos1: Vec2,
    pub old_pos2: Vec2,
    pub pos1: Vec2,
    pub pos2: Vec2,
}

/// A body that moves through the level. `position` is its top-left corner;
/// `aabb` is its box as of the start of the last physics step.
pub struct MovingObject {
    pub object_id: String,
    pub old_position: Vec2,
    pub position: Vec2,
    pub old_speed: Vec2,
    pub speed: Vec2,
    pub acceleration: Vec2,
    pub aabb: AABB,
    pub aabb_offset: Vec2,
    pub pushed_right_wall: bool,
    pub pushes_right_wall: bool,
    pub pushed_left_wall: bool,
    pub pushes_left_wall: bool,
    pub was_on_ground: bool,
    pub on_ground: bool,
    pub was_at_ceiling: bool,
    pub at_ceiling: bool,
    pub on_one_way_platform: bool,
    /// Broad-phase cells the body was last placed in.
    pub areas: Vec<AreaIndex>,
    /// Collisions of this tick, keyed by the other body's index.
    pub all_colliding_objects: HashMap<usize, CollisionData>,
    pub bounds: Vec2,
    pub accelerate: i64,
    pub max_speed: i64,
    pub jump_speed: i64,
    pub one_way_platform_tsh: i64,
    /// Gravity and friction of this body.
    pub physics: PhysicsConfig,
}

/// Largest magnitude of a position during the resolution of one step.
pub const STEP_MAX: i64 = 3 * COORD_MAX;

/// Body state in the middle of a physics step: the tentative position may
/// have left the stored range by a little.
pub open spec fn in_step(o: MovingObject) -> bool {
    &&& o.position.bounded(STEP_MAX as int)
    &&& o.old_position.bounded(COORD_MAX as int)
    &&& o.speed.bounded(COORD_MAX as int)
    &&& 0 <= o.aabb.half_size.x <= COORD_MAX
    &&& 0 <= o.aabb.half_size.y <= COORD_MAX
    &&& 0 <= o.one_way_platform_tsh <= COORD_MAX
}

/// Ground under the body's feet in the last move: the row and whether it
/// is a one-way platform.
pub open spec fn ground_probe(o: MovingObject, m: TileMap) -> Option<(int, bool)> {
    let hx = o.aabb.half_size.x as int;
    let hy = o.aabb.half_size.y as int;
    let ox = o.old_position.x + 2 * hx + 1;
    let oy = o.old_position.y + 2 * hy + 1;
    let nx = o.position.x + 2 * hx + 1;
    let ny = o.position.y + 2 * hy + 1;
    let end = m.row_near(ny);
    let beg = min(m.row_near(oy), end);
    ground_rows(m, beg, beg, end, ox, oy, nx, ny, max(end - beg, 1), 2 * hx + 2, o.one_way_platform_tsh as int)
}

/// Row of a block met by the body's head in the last move.
pub open spec fn ceiling_probe(o: MovingObject, m: TileMap) -> Option<int> {
    let hx = o.aabb.half_size.x as int;
    let ox = o.old_position.x + 2 * hx + 1;
    let nx = o.position.x + 2 * hx + 1;
    let end = m.row_near(o.position.y - 1);
    let beg = max(m.row_near(o.old_position.y - 1), end);
    ceiling_rows(m, beg, beg, end, ox, nx, max(beg - end, 1), 2 * hx + 1)
}

/// Column of a block met by the body's right side in the last move.
pub open spec fn right_probe(o: MovingObject, m: TileMap) -> Option<int> {
    let hx = o.aabb.half_size.x as int;
    let hy = o.aabb.half_size.y as int;
    let end = m.column_of(o.position.x + 2 * hx + 1);
    let beg = min(m.column_of(o.old_position.x + 2 * hx + 1), end);
    let oy = o.old_position.y + 2 * hy + 1;
    let ny = o.position.y + 2 * hy + 1;
    right_cols(m, beg, beg, end, oy, ny, max(end - beg, 1), 2 * hy + 2)
}

/// Column of a block met by the body's left side in the last move.
pub open spec fn left_probe(o: MovingObject, m: TileMap) -> Option<int> {
    let hy = o.aabb.half_size.y as int;
    let end = m.column_of(o.position.x - 1);
    let beg = max(m.column_of(o.old_position.x - 1), end);
    let oy = o.old_position.y + 2 * hy + 1;
    let ny = o.position.y + 2 * hy + 1;
    left_cols(m, beg, beg, end, oy, ny, max(beg - end, 1), 2 * hy + 2)
}


/// The body after `stop`.
pub open spec fn stopped(o: MovingObject) -> MovingObject {
    MovingObject { speed: Vec2 { x: 0, y: 0 }, ..o }
}

/// The body after `jump`.
pub open spec fn jumped(o: MovingObject) -> MovingObject {
    MovingObject { speed: Vec2 { x: o.speed.x, y: (o.speed.y - o.jump_speed) as i64 }, ..o }
}

/// The body after `move_left(factor)`.
pub open spec fn moved_left(o: MovingObject, factor: int) -> MovingObject {
    MovingObject { acceleration: Vec2 { x: (-(o.accelerate * factor / 100)) as i64, y: o.acceleration.y }, ..o }
}

/// The body after `move_right(factor)`.
pub open spec fn moved_right(o: MovingObject, factor: int) -> MovingObject {
    MovingObject { acceleration: Vec2 { x: (o.accelerate * factor / 100) as i64, y: o.acceleration.y }, ..o }
}

/// The body after `drop`.
pub open spec fn dropped(o: MovingObject) -> MovingObject {
    if o.on_one_way_platform {
        MovingObject {
            position: Vec2 { x: o.position.x, y: (o.position.y + o.one_way_platform_tsh) as i64 },
            on_one_way_platform: false,
            ..o
        }
    } else {
        o
    }
}

/// The body after `falling` (`fast`) or `stop_falling`.
pub open spec fn with_gravity(o: MovingObject, fast: bool) -> MovingObject {
    if o.speed.y >= 0 {
        MovingObject { acceleration: Vec2 { x: o.acceleration.x, y: if fast { o.physics.fall_gravity } else { o.physics.gravity } }, ..o }
    } else {
        o
    }
}

/// Top edge of a tile row.
pub open spec fn row_top(m: TileMap, row: int) -> int {
    row * m.tile_size + m.position.y
}

/// Left edge of a tile column.
pub open spec fn column_left(m: TileMap, col: int) -> int {
    col * m.tile_size + m.position.x
}

/// Bottom edge of the map.
pub open spec fn floor_of(m: TileMap) -> int {
    m.height * m.tile_size + m.position.y
}

/// Steps 1 to 6 of a tick: snapshots, integration of the speed with the
/// horizontal limit, friction, contact snapshots, the pre-move box, and the
/// tentative move. `dt` is in milliseconds.
pub open spec fn integrate(o: MovingObject, dt: int) -> MovingObject {
    let cx = o.speed.x + div_trunc(o.acceleration.x * dt, MILLIS as int);
    let vx = if cx > o.max_speed {
        o.max_speed as int
    } else if cx < -o.max_speed {
        -o.max_speed
    } else {
        cx
    };
    let vy = o.speed.y + div_trunc(o.acceleration.y * dt, MILLIS as int);
    MovingObject {
        old_position: o.position,
        old_speed: o.speed,
        speed: Vec2 { x: vx as i64, y: vy as i64 },
        acceleration: Vec2 {
            x: div_trunc(-vx * o.physics.friction_num, o.physics.friction_den as int) as i64,
            y: o.acceleration.y,
        },
        was_on_ground: o.on_ground,
        pushed_right_wall: o.pushes_right_wall,
        pushed_left_wall: o.pushes_left_wall,
        was_at_ceiling: o.at_ceiling,
        aabb: AABB {
            center: Vec2 {
                x: (o.position.x + o.aabb_offset.x) as i64,
                y: (o.position.y + o.aabb_offset.y) as i64,
            },
            half_size: o.aabb.half_size,
        },
        position: Vec2 {
            x: (o.position.x + div_trunc(vx * dt, MILLIS as int)) as i64,
            y: (o.position.y + div_trunc(vy * dt, MILLIS as int)) as i64,
        },
        ..o
    }
}

/// Left-wall resolution: only a body moving left is stopped at the wall.
pub open spec fn resolve_left(o: MovingObject, m: TileMap) -> MovingObject {
    match left_probe(o, m) {
        Some(col) => if o.speed.x < 0 {
            MovingObject {
                position: Vec2 { x: (column_left(m, col) + m.tile_size) as i64, y: o.position.y },
                speed: Vec2 { x: 0, y: o.speed.y },
                pushes_left_wall: true,
                ..o
            }
        } else {
            MovingObject { pushes_left_wall: false, ..o }
        },
        None => MovingObject { pushes_left_wall: false, ..o },
    }
}

/// Right-wall resolution: only a body moving right is stopped at the wall.
pub open spec fn resolve_right(o: MovingObject, m: TileMap) -> MovingObject {
    match right_probe(o, m) {
        Some(col) => if o.speed.x > 0 {
            MovingObject {
                position: Vec2 {
                    x: (column_left(m, col) - 2 * o.aabb.half_size.x) as i64,
                    y: o.position.y,
                },
                speed: Vec2 { x: 0, y: o.speed.y },
                pushes_right_wall: true,
                ..o
            }
        } else {
            MovingObject { pushes_right_wall: false, ..o }
        },
        None => MovingObject { pushes_right_wall: false, ..o },
    }
}

/// Ground resolution. A body whose bottom passed the bottom of the map
/// stands on the map's edge. Otherwise the ground probe runs, and records whether it met
/// a one-way platform; a falling body that met ground stands on it.
pub open spec fn resolve_ground(o: MovingObject, m: TileMap) -> MovingObject {
    if o.position.y + 2 * o.aabb.half_size.y > floor_of(m) {
        MovingObject {
            position: Vec2 { x: o.position.x, y: (floor_of(m) - 2 * o.aabb.half_size.y) as i64 },
            speed: Vec2 { x: o.speed.x, y: 0 },
            on_ground: true,
            ..o
        }
    } else {
        match ground_probe(o, m) {
            Some((row, one_way)) => if o.speed.y > 0 {
                MovingObject {
                    position: Vec2 {
                        x: o.position.x,
                        y: (row_top(m, row) - 2 * o.aabb.half_size.y) as i64,
                    },
                    speed: Vec2 { x: o.speed.x, y: 0 },
                    on_ground: true,
                    on_one_way_platform: one_way,
                    ..o
                }
            } else {
                MovingObject { on_ground: false, on_one_way_platform: one_way, ..o }
            },
            None => MovingObject { on_ground: false, ..o },
        }
    }
}

/// Ceiling resolution: a rising body that met a block stops under it.
pub open spec fn resolve_ceiling(o: MovingObject, m: TileMap) -> MovingObject {
    match ceiling_probe(o, m) {
        Some(row) => if o.speed.y < 0 {
            MovingObject {
                position: Vec2 { x: o.position.x, y: (row_top(m, row) + m.tile_size) as i64 },
                speed: Vec2 { x: o.speed.x, y: 0 },
                ..o
            }
        } else {
            o
        },
        None => o,
    }
}

/// One physics tick of `dt` milliseconds.
pub open spec fn physics_step(o: MovingObject, dt: int, m: TileMap) -> MovingObject {
    resolve_ceiling(resolve_ground(resolve_right(resolve_left(integrate(o, dt), m), m), m), m)
}

fn in_range(v: Vec2, lim: i64) -> (r: bool)
    requires
        lim >= 0,
    ensures
        r == v.bounded(lim as int),
{
    -lim <= v.x && v.x <= lim && -lim <= v.y && v.y <= lim
}

/// `factor` percent of a non-negative rate, rounded down.
fn percent_of(rate: i64, factor: i64) -> (r: i64)
    requires
        0 <= rate <= COORD_MAX,
        0 <= factor <= 100,
    ensures
        r == rate * factor / 100,
        0 <= r <= COORD_MAX,
{
    assert(0 <= rate * factor <= COORD_MAX * 100) by (nonlinear_arith)
        requires
            0 <= rate <= COORD_MAX,
            0 <= factor <= 100,
    ;
    proof {
        crate::geometry::lemma_div_between(rate * factor, 100, 0, COORD_MAX as int);
    }
    rate * factor / 100
}

/// The friction on a body moving at `v`: `-v * num / den`, rounded toward
/// zero.
fn friction_of(v: i64, num: i64, den: i64) -> (r: i64)
    requires
        -COORD_MAX <= v <= COORD_MAX,
        0 <= num <= den,
        0 < den <= MILLIS,
    ensures
        r == div_trunc(-v * num, den as int),
{
    assert(-COORD_MAX * MILLIS <= -v * num <= COORD_MAX * MILLIS) by (nonlinear_arith)
        requires
            -COORD_MAX <= v <= COORD_MAX,
            0 <= num <= MILLIS,
    ;
    trunc_div(-v * num, den)
}

/// What a rate `v` per second amounts to over `dt` milliseconds, rounded
/// toward zero.
fn scale_by_time(v: i64, dt: i64) -> (r: i64)
    requires
        -2 * COORD_MAX <= v <= 2 * COORD_MAX,
        0 <= dt <= MILLIS,
    ensures
        r == div_trunc(v * dt, MILLIS as int),
        -2 * COORD_MAX <= r <= 2 * COORD_MAX,
{
    assert(-2 * COORD_MAX * MILLIS <= v * dt <= 2 * COORD_MAX * MILLIS) by (nonlinear_arith)
        requires
            -2 * COORD_MAX <= v <= 2 * COORD_MAX,
            0 <= dt <= MILLIS,
    ;
    let r = trunc_div(v * dt, MILLIS);
    proof {
        crate::geometry::lemma_div_bounded(v * dt, MILLIS as int);
        crate::geometry::lemma_div_bounded(-(v * dt), MILLIS as int);
        if v * dt >= 0 {
            crate::geometry::lemma_div_between(v * dt, MILLIS as int, 0, 2 * COORD_MAX);
        } else {
            crate::geometry::lemma_div_between(-(v * dt), MILLIS as int, 0, 2 * COORD_MAX);
        }
    }
    r
}

impl MovingObject {
    /// A body with its top-left corner at `position` and the given size, its
    /// box centered on it, standing, at rest, under the gravity of
    /// `physics`.
    pub fn new(
        position: Vec2,
        size: Vec2,
        bounds: Vec2,
        accelerate: i64,
        max_speed: i64,
        jump_speed: i64,
        object_id: String,
        physics: PhysicsConfig,
    ) -> (r: MovingObject)
        requires
            physics.wf(),
            position.bounded(COORD_MAX as int),
            0 <= size.x <= 2 * COORD_MAX,
            0 <= size.y <= 2 * COORD_MAX,
            0 <= accelerate <= COORD_MAX,
            0 <= max_speed <= COORD_MAX,
            0 <= jump_speed <= COORD_MAX,
        ensures
            r.wf(),
            r.object_id@ == object_id@,
            r.position == position,
            r.old_position == (Vec2 { x: 0, y: 0 }),
            r.speed == (Vec2 { x: 0, y: 0 }),
            r.old_speed == (Vec2 { x: 0, y: 0 }),
            r.acceleration == (Vec2 { x: 0, y: physics.gravity }),
            r.physics == physics,
            r.aabb.center.x == position.x + size.x / 2,
            r.aabb.center.y == position.y + size.y / 2,
            r.aabb.half_size.x == size.x / 2,
            r.aabb.half_size.y == size.y / 2,
            r.aabb_offset == r.aabb.half_size,
            r.on_ground && r.was_on_ground,
            !r.pushes_left_wall && !r.pushed_left_wall,
            !r.pushes_right_wall && !r.pushed_right_wall,
            !r.at_ceiling && !r.was_at_ceiling && !r.on_one_way_platform,
            r.areas@.len() == 0,
            r.all_colliding_objects@ == Map::<usize, CollisionData>::empty(),
            r.bounds == bounds,
            r.accelerate == accelerate,
            r.max_speed == max_speed,
            r.jump_speed == jump_speed,
            r.one_way_platform_tsh == ONE_WAY_THRESHOLD,
    {
        let half = Vec2 { x: size.x / 2, y: size.y / 2 };
        MovingObject {
            object_id,
            position,
            old_position: Vec2 { x: 0, y: 0 },
            acceleration: Vec2 { x: 0, y: physics.gravity },
            physics,
            speed: Vec2 { x: 0, y: 0 },
            old_speed: Vec2 { x: 0, y: 0 },
            pushed_right_wall: false,
            pushes_right_wall: false,
            pushed_left_wall: false,
            pushes_left_wall: false,
            was_on_ground: true,
            on_ground: true,
            was_at_ceiling: false,
            at_ceiling: false,
            on_one_way_platform: false,
            aabb: AABB::new(Vec2 { x: position.x + half.x, y: position.y + half.y }, half),
            aabb_offset: half,
            bounds,
            accelerate,
            max_speed,
            jump_speed,
            one_way_platform_tsh: ONE_WAY_THRESHOLD,
            areas: Vec::new(),
            all_colliding_objects: HashMap::new(),
        }
    }

    /// Whether the stored state is in range, as `wf` says.
    pub fn is_wf(&self) -> (r: bool)
        ensures
            r == self.wf(),
    {
        let c = COORD_MAX;
        in_range(self.position, c) && in_range(self.old_position, c) && in_range(self.speed, c)
            && in_range(self.old_speed, c) && in_range(self.acceleration, c) && in_range(
            self.aabb.center,
            2 * c,
        ) && 0 <= self.aabb.half_size.x && self.aabb.half_size.x <= c && 0
            <= self.aabb.half_size.y && self.aabb.half_size.y <= c && self.aabb_offset
            == self.aabb.half_size && 0 <= self.accelerate && self.accelerate <= c && 0
            <= self.max_speed && self.max_speed <= c && 0 <= self.jump_speed && self.jump_speed
            <= c && 0 <= self.one_way_platform_tsh && self.one_way_platform_tsh <= c
            && self.physics.is_wf()
    }

    /// Whether `update_physics` may be called with `delta`: the state is in
    /// range and the step keeps speed and tentative position in range.
    pub fn can_step(&self, delta: i64) -> (r: bool)
        ensures
            r == (self.wf() && 0 <= delta <= MILLIS && self.step_fits(delta as int)),
    {
        if !self.is_wf() || delta < 0 || delta > MILLIS {
            return false;
        }
        let cx = self.speed.x + scale_by_time(self.acceleration.x, delta);
        let vy = self.speed.y + scale_by_time(self.acceleration.y, delta);
        let vx = if cx > self.max_speed {
            self.max_speed
        } else if cx < -self.max_speed {
            -self.max_speed
        } else {
            cx
        };
        if vy < -COORD_MAX || vy > COORD_MAX {
            return false;
        }
        let px = self.position.x + scale_by_time(vx, delta);
        let py = self.position.y + scale_by_time(vy, delta);
        -COORD_MAX <= px && px <= COORD_MAX && -COORD_MAX <= py && py <= COORD_MAX
    }

    /// Stops the body: both speed components become zero.
    pub fn stop(&mut self)
        ensures
            *final(self) == stopped(*old(self)),
    {
        self.speed = Vec2 { x: 0, y: 0 };
    }

    /// Adds an upward impulse of `jump_speed`, on the ground or not.
    pub fn jump(&mut self)
        requires
            i64::MIN <= old(self).speed.y - old(self).jump_speed <= i64::MAX,
        ensures
            *final(self) == jumped(*old(self)),
    {
        self.speed = Vec2 { x: self.speed.x, y: self.speed.y - self.jump_speed };
    }

    /// Accelerates to the left at `factor` percent of the body's rate; the
    /// horizontal acceleration is replaced, not added to.
    pub fn move_left(&mut self, factor: i64)
        requires
            0 <= old(self).accelerate <= COORD_MAX,
            0 <= factor <= 100,
        ensures
            *final(self) == moved_left(*old(self), factor as int),
    {
        let a = percent_of(self.accelerate, factor);
        self.acceleration = Vec2 { x: -a, y: self.acceleration.y };
    }

    /// Accelerates to the right at `factor` percent of the body's rate; the
    /// horizontal acceleration is replaced, not added to.
    pub fn move_right(&mut self, factor: i64)
        requires
            0 <= old(self).accelerate <= COORD_MAX,
            0 <= factor <= 100,
        ensures
            *final(self) == moved_right(*old(self), factor as int),
    {
        let a = percent_of(self.accelerate, factor);
        self.acceleration = Vec2 { x: a, y: self.acceleration.y };
    }

    /// On a one-way platform, moves the body down past the platform's
    /// threshold and leaves the platform, so that it falls through.
    pub fn drop(&mut self)
        requires
            i64::MIN <= old(self).position.y + old(self).one_way_platform_tsh <= i64::MAX,
        ensures
            *final(self) == dropped(*old(self)),
            old(self).on_one_way_platform ==> {
                &&& final(self).position.x == old(self).position.x
                &&& final(self).position.y == old(self).position.y + old(self).one_way_platform_tsh
                &&& !final(self).on_one_way_platform
            },
            !old(self).on_one_way_platform ==> *final(self) == *old(self),
            final(self).speed == old(self).speed,
            final(self).acceleration == old(self).acceleration,
            final(self).on_ground == old(self).on_ground,
    {
        if self.on_one_way_platform {
            self.position = Vec2 {
                x: self.position.x,
                y: self.position.y + self.one_way_platform_tsh,
            };
            self.on_one_way_platform = false;
        }
    }

    /// Unless the body is still rising, falls fast: gravity becomes
    /// the body's fast-fall gravity.
    pub fn falling(&mut self)
        ensures
            *final(self) == with_gravity(*old(self), true),
    {
        if self.speed.y >= 0 {
            self.acceleration.y = self.physics.fall_gravity;
        }
    }

    /// Unless the body is still rising, restores normal gravity.
    pub fn stop_falling(&mut self)
        ensures
            *final(self) == with_gravity(*old(self), false),
    {
        if self.speed.y >= 0 {
            self.acceleration.y = self.physics.gravity;
        }
    }

    /// Moves the body with the scrolling tile layer: by `(x, y)` scaled by
    /// the layer's parallax factor of six fifths, rounded toward zero.
    pub fn move_object(&mut self, x: i64, y: i64)
        requires
            -COORD_MAX <= x <= COORD_MAX,
            -COORD_MAX <= y <= COORD_MAX,
            old(self).position.bounded(COORD_MAX as int),
        ensures
            *final(self) == (MovingObject {
                position: Vec2 {
                    x: (old(self).position.x + div_trunc(x * 6, 5)) as i64,
                    y: (old(self).position.y + div_trunc(y * 6, 5)) as i64,
                },
                ..*old(self)
            }),
    {
        let dx = trunc_div(x * 6, 5);
        let dy = trunc_div(y * 6, 5);
        proof {
            crate::geometry::lemma_div_bounded(x * 6, 5);
            crate::geometry::lemma_div_bounded(-(x * 6), 5);
            crate::geometry::lemma_div_bounded(y * 6, 5);
            crate::geometry::lemma_div_bounded(-(y * 6), 5);
        }
        self.position = Vec2 { x: self.position.x + dx, y: self.position.y + dy };
    }

    /// Corner sensors of the body at `position`, each pushed one unit out:
    /// bottom-right, bottom-left, top-right and top-left.
    fn get_sensors(&self, position: Vec2) -> (r: (Vec2, Vec2, Vec2, Vec2))
        requires
            position.bounded(STEP_MAX as int),
            0 <= self.aabb.half_size.x <= COORD_MAX,
            0 <= self.aabb.half_size.y <= COORD_MAX,
        ensures
            r.0.x == position.x + 2 * self.aabb.half_size.x + 1,
            r.0.y == position.y + 2 * self.aabb.half_size.y + 1,
            r.1.x == position.x - 1,
            r.1.y == r.0.y,
            r.2.x == r.0.x,
            r.2.y == position.y - 1,
            r.3.x == r.1.x,
            r.3.y == r.2.y,
    {
        let hx = self.aabb.half_size.x;
        let hy = self.aabb.half_size.y;
        let bottom_right = Vec2 { x: position.x + 2 * hx + 1, y: position.y + 2 * hy + 1 };
        let top_right = Vec2 { x: bottom_right.x, y: position.y - 1 };
        let bottom_left = Vec2 { x: bottom_right.x - 2 * hx - 2, y: bottom_right.y };
        let top_left = Vec2 { x: bottom_left.x, y: top_right.y };
        (bottom_right, bottom_left, top_right, top_left)
    }


    fn handle_left_side_collision(&mut self, map: &TileMap)
        requires
            in_step(*old(self)),
            map.wf(),
        ensures
            *final(self) == resolve_left(*old(self), *map),
            final(self).position.x == old(self).position.x || (old(self).position.x
                <= final(self).position.x <= max(old(self).old_position.x as int, old(self).position.x as int) - 1 + map.tile_size),
    {
        let (collides, wall_x) = self.collides_left_side(map);
        if collides && self.speed.x < 0 {
            self.position.x = wall_x;
            self.speed.x = 0;
            self.pushes_left_wall = true;
            return;
        }
        self.pushes_left_wall = false;
    }

    fn handle_right_side_collision(&mut self, map: &TileMap)
        requires
            in_step(*old(self)),
            map.wf(),
        ensures
            *final(self) == resolve_right(*old(self), *map),
            final(self).position.x == old(self).position.x || (min(old(self).old_position.x as int, old(self).position.x as int) + 1 - map.tile_size
                < final(self).position.x <= old(self).position.x + 1),
    {
        let (collides, wall_x) = self.collides_right_side(map);
        if collides && self.speed.x > 0 {
            self.position.x = wall_x - 2 * self.aabb.half_size.x;
            self.speed.x = 0;
            self.pushes_right_wall = true;
            return;
        }
        self.pushes_right_wall = false;
    }

    #[verifier::rlimit(100)]
    #[verifier::spinoff_prover]
    fn check_ground_collision(&mut self, map: &TileMap)
        requires
            in_step(*old(self)),
            map.wf(),
        ensures
            *final(self) == resolve_ground(*old(self), *map),
            final(self).position.y == old(self).position.y || final(self).position.y == floor_of(*map) - 2 * old(self).aabb.half_size.y || (min(old(self).old_position.y as int, old(self).position.y as int) + 1 - map.tile_size
                < final(self).position.y <= old(self).position.y + 1 + map.tile_size / 2),
    {
        let floor_y = map.height * map.tile_size + map.position.y;
        let height = 2 * self.aabb.half_size.y;
        if self.position.y + height > floor_y {
            self.position.y = floor_y - height;
            self.speed.y = 0;
            self.on_ground = true;
            return;
        }
        let ghost before = *self;
        let (has_ground, ground_y) = self.has_ground(map);
        assert(self.position == before.position && self.speed == before.speed);
        if self.speed.y > 0 && has_ground {
            self.position.y = ground_y - 2 * self.aabb.half_size.y;
            self.speed.y = 0;
            self.on_ground = true;
        } else {
            self.on_ground = false;
        }
    }

    fn check_ceiling_collision(&mut self, map: &TileMap)
        requires
            in_step(*old(self)),
            map.wf(),
        ensures
            *final(self) == resolve_ceiling(*old(self), *map),
    {
        let (has_ceiling, ceiling_y) = self.has_ceiling(map);
        if self.speed.y < 0 && has_ceiling {
            self.position.y = ceiling_y;
            self.speed.y = 0;
        }
    }

    /// Sets the speed, holding its horizontal part within the walking limit.
    fn limit_walk_speed(&mut self, calculated_speed: Vec2)
        requires
            0 <= old(self).max_speed,
        ensures
            final(self).speed.y == calculated_speed.y,
            final(self).speed.x == (if calculated_speed.x > old(self).max_speed {
                old(self).max_speed as int
            } else if calculated_speed.x < -old(self).max_speed {
                -old(self).max_speed
            } else {
                calculated_speed.x as int
            }),
            *final(self) == (MovingObject { speed: final(self).speed, ..*old(self) }),
    {
        if calculated_speed.x > self.max_speed {
            self.speed = Vec2 { x: self.max_speed, y: calculated_speed.y };
        } else if calculated_speed.x < -self.max_speed {
            self.speed = Vec2 { x: -self.max_speed, y: calculated_speed.y };
        } else {
            self.speed = calculated_speed;
        }
    }

    /// Advances the body by `delta` milliseconds: integrates speed and
    /// position, then resolves the move against the left wall, the right
    /// wall, the ground and the ceiling, in that order.
    #[verifier::spinoff_prover]
    pub fn update_physics(&mut self, delta: i64, map: &TileMap)
        requires
            old(self).wf(),
            map.wf(),
            0 <= delta <= MILLIS,
            old(self).step_fits(delta as int),
        ensures
            *final(self) == physics_step(*old(self), delta as int, *map),
    {
        self.old_position = self.position;
        self.old_speed = self.speed;
        let cx = self.speed.x + scale_by_time(self.acceleration.x, delta);
        let cy = self.speed.y + scale_by_time(self.acceleration.y, delta);
        self.limit_walk_speed(Vec2 { x: cx, y: cy });
        self.acceleration.x = friction_of(self.speed.x, self.physics.friction_num, self.physics.friction_den);
        self.was_on_ground = self.on_ground;
        self.pushed_right_wall = self.pushes_right_wall;
        self.pushed_left_wall = self.pushes_left_wall;
        self.was_at_ceiling = self.at_ceiling;
        self.aabb.center = Vec2 {
            x: self.position.x + self.aabb_offset.x,
            y: self.position.y + self.aabb_offset.y,
        };
        let dx = scale_by_time(self.speed.x, delta);
        let dy = scale_by_time(self.speed.y, delta);
        self.position = Vec2 { x: self.position.x + dx, y: self.position.y + dy };
        assert(*self == integrate(*old(self), delta as int));
        self.handle_left_side_collision(map);
        self.handle_right_side_collision(map);
        self.check_ground_collision(map);
        self.check_ceiling_collision(map);
    }

    /// Sweeps the feet from the old position to the new one. On ground,
    /// returns `(true, y)` with `y` the top of the ground row, and records
    /// whether that ground is a one-way platform.
    #[verifier::rlimit(40)]
    #[verifier::spinoff_prover]
    pub fn has_ground(&mut self, map: &TileMap) -> (r: (bool, i64))
        requires
            in_step(*old(self)),
            map.wf(),
        ensures
            match ground_probe(*old(self), *map) {
                Some((row, one_way)) => {
                    &&& r == (true, row_top(*map, row) as i64)
                    &&& *final(self) == (MovingObject { on_one_way_platform: one_way, ..*old(self) })
                },
                None => r == (false, 0i64) && *final(self) == *old(self),
            },
            match ground_probe(*old(self), *map) {
                Some((row, _)) => {
                    let hy = old(self).aabb.half_size.y;
                    &&& row_top(*map, row) <= old(self).position.y + 2 * hy + 1 + map.tile_size / 2
                    &&& row_top(*map, row) > min(old(self).old_position.y as int, old(self).position.y as int) + 2 * hy + 1 - map.tile_size
                },
                None => true,
            },
    {
        let (new_br, _, _, _) = self.get_sensors(self.position);
        let (old_br, _, _, _) = self.get_sensors(self.old_position);
        let end = map.get_map_tile_y_at_point(new_br.y);
        let old_row = map.get_map_tile_y_at_point(old_br.y);
        proof {
            lemma_index_bounds(*map, new_br.y as int);
            lemma_index_bounds(*map, old_br.y as int);
        }
        let beg = if old_row < end {
            old_row
        } else {
            end
        };
        let dist = if end - beg > 1 {
            end - beg
        } else {
            1
        };
        let reach = 2 * self.aabb.half_size.x + 2;
        match ground_rows_exec(map, beg, end, old_br.x, old_br.y, new_br.x, new_br.y, dist, reach, self.one_way_platform_tsh) {
            Some((row, one_way)) => {
                proof {
                    lemma_tile_edge_fits(row as int, map.tile_size as int);
                    lemma_mul_mono(row as int, end as int, map.tile_size as int);
                    lemma_mul_mono(beg as int, row as int, map.tile_size as int);
                    lemma_tile_edges(*map, new_br.y as int);
                    lemma_tile_edges(*map, old_br.y as int);
                }
                self.on_one_way_platform = one_way;
                (true, row * map.tile_size + map.position.y)
            },
            None => (false, 0),
        }
    }

    /// Sweeps the head from the old position to the new one. On a block,
    /// returns `(true, y)` with `y` the bottom of the block row.
    pub fn has_ceiling(&self, map: &TileMap) -> (r: (bool, i64))
        requires
            in_step(*self),
            map.wf(),
        ensures
            match ceiling_probe(*self, *map) {
                Some(row) => {
                    &&& r == (true, (row_top(*map, row) + map.tile_size) as i64)
                    &&& row_top(*map, row) + map.tile_size > self.position.y - 1
                    &&& row_top(*map, row) + map.tile_size <= max(self.old_position.y as int, self.position.y as int) - 1 + map.tile_size / 2 + map.tile_size
                },
                None => r == (false, 0i64),
            },
    {
        let (_, _, new_tr, _) = self.get_sensors(self.position);
        let (_, _, old_tr, _) = self.get_sensors(self.old_position);
        let end = map.get_map_tile_y_at_point(new_tr.y);
        let old_row = map.get_map_tile_y_at_point(old_tr.y);
        proof {
            lemma_index_bounds(*map, new_tr.y as int);
            lemma_index_bounds(*map, old_tr.y as int);
        }
        let beg = if old_row > end {
            old_row
        } else {
            end
        };
        let dist = if beg - end > 1 {
            beg - end
        } else {
            1
        };
        let reach = 2 * self.aabb.half_size.x + 1;
        match ceiling_rows_exec(map, beg, end, old_tr.x, new_tr.x, dist, reach) {
            Some(row) => {
                proof {
                    lemma_tile_edge_fits(row as int, map.tile_size as int);
                    lemma_mul_mono(end as int, row as int, map.tile_size as int);
                    lemma_mul_mono(row as int, beg as int, map.tile_size as int);
                    lemma_tile_edges(*map, new_tr.y as int);
                    lemma_tile_edges(*map, old_tr.y as int);
                }
                (true, row * map.tile_size + map.tile_size + map.position.y)
            },
            None => (false, 0),
        }
    }

    /// Sweeps the left side from the old position to the new one. On a
    /// block, returns `(true, x)` with `x` the right edge of its column.
    pub fn collides_left_side(&self, map: &TileMap) -> (r: (bool, i64))
        requires
            in_step(*self),
            map.wf(),
        ensures
            match left_probe(*self, *map) {
                Some(col) => {
                    &&& r == (true, (column_left(*map, col) + map.tile_size) as i64)
                    &&& column_left(*map, col) + map.tile_size >= self.position.x
                    &&& column_left(*map, col) + map.tile_size <= max(self.old_position.x as int, self.position.x as int) - 1 + map.tile_size
                },
                None => r == (false, 0i64),
            },
    {
        let (_, new_bl, _, _) = self.get_sensors(self.position);
        let (_, old_bl, _, _) = self.get_sensors(self.old_position);
        let end = map.get_map_tile_x_at_point(new_bl.x);
        let old_col = map.get_map_tile_x_at_point(old_bl.x);
        proof {
            lemma_index_bounds(*map, new_bl.x as int);
            lemma_index_bounds(*map, old_bl.x as int);
        }
        let beg = if old_col > end {
            old_col
        } else {
            end
        };
        let dist = if beg - end > 1 {
            beg - end
        } else {
            1
        };
        let height = 2 * self.aabb.half_size.y + 2;
        match left_cols_exec(map, beg, end, old_bl.y, new_bl.y, dist, height) {
            Some(col) => {
                proof {
                    lemma_tile_edge_fits(col as int, map.tile_size as int);
                    lemma_mul_mono(end as int, col as int, map.tile_size as int);
                    lemma_mul_mono(col as int, beg as int, map.tile_size as int);
                    lemma_tile_edges(*map, new_bl.x as int);
                    lemma_tile_edges(*map, old_bl.x as int);
                }
                (true, col * map.tile_size + map.tile_size + map.position.x)
            },
            None => (false, 0),
        }
    }

    /// Sweeps the right side from the old position to the new one. On a
    /// block, returns `(true, x)` with `x` the left edge of its column.
    pub fn collides_right_side(&self, map: &TileMap) -> (r: (bool, i64))
        requires
            in_step(*self),
            map.wf(),
        ensures
            match right_probe(*self, *map) {
                Some(col) => {
                    let hx = self.aabb.half_size.x;
                    &&& r == (true, column_left(*map, col) as i64)
                    &&& column_left(*map, col) <= self.position.x + 2 * hx + 1
                    &&& column_left(*map, col) > min(self.old_position.x as int, self.position.x as int) + 2 * hx + 1 - map.tile_size
                },
                None => r == (false, 0i64),
            },
    {
        let (new_br, _, _, _) = self.get_sensors(self.position);
        let (old_br, _, _, _) = self.get_sensors(self.old_position);
        let end = map.get_map_tile_x_at_point(new_br.x);
        let old_col = map.get_map_tile_x_at_point(old_br.x);
        proof {
            lemma_index_bounds(*map, new_br.x as int);
            lemma_index_bounds(*map, old_br.x as int);
        }
        let beg = if old_col < end {
            old_col
        } else {
            end
        };
        let dist = if end - beg > 1 {
            end - beg
        } else {
            1
        };
        let height = 2 * self.aabb.half_size.y + 2;
        match right_cols_exec(map, beg, end, old_br.y, new_br.y, dist, height) {
            Some(col) => {
                proof {
                    lemma_tile_edge_fits(col as int, map.tile_size as int);
                    lemma_mul_mono(col as int, end as int, map.tile_size as int);
                    lemma_mul_mono(beg as int, col as int, map.tile_size as int);
                    lemma_tile_edges(*map, new_br.x as int);
                    lemma_tile_edges(*map, old_br.x as int);
                }
                (true, col * map.tile_size + map.position.x)
            },
            None => (false, 0),
        }
    }

    /// Stored state lies in the range where a step cannot overflow.
    pub open spec fn wf(&self) -> bool {
        &&& self.position.bounded(COORD_MAX as int)
        &&& self.old_position.bounded(COORD_MAX as int)
        &&& self.speed.bounded(COORD_MAX as int)
        &&& self.old_speed.bounded(COORD_MAX as int)
        &&& self.acceleration.bounded(COORD_MAX as int)
        &&& self.aabb.wf()
        &&& self.aabb_offset == self.aabb.half_size
        &&& 0 <= self.accelerate <= COORD_MAX
        &&& 0 <= self.max_speed <= COORD_MAX
        &&& 0 <= self.jump_speed <= COORD_MAX
        &&& 0 <= self.one_way_platform_tsh <= COORD_MAX
        &&& self.physics.wf()
    }

    /// The speed and tentative position of a step of `dt` milliseconds stay
    /// in the stored range.
    pub open spec fn step_fits(&self, dt: int) -> bool {
        let s = integrate(*self, dt);
        s.speed.y == self.speed.y + div_trunc(self.acceleration.y * dt, MILLIS as int)
            && s.position.x == self.position.x + div_trunc(s.speed.x * dt, MILLIS as int)
            && s.position.y == self.position.y + div_trunc(s.speed.y * dt, MILLIS as int)
            && s.speed.bounded(COORD_MAX as int) && s.position.bounded(COORD_MAX as int)
    }
}

} // verus!
