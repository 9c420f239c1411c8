//! Side scrolling: the camera keeps the player within a horizontal window
//! and moves the level past it instead.
use vstd::prelude::*;
use crate::config::MILLIS;
use crate::geometry::{div_trunc, trunc_div, Vec2, COORD_MAX};
use crate::map::TileMap;
use crate::moving_object::MovingObject;

verus! {

/// The scrolling backdrop: a picture `width` wide, repeated `repeat` times.
pub struct Background {
    pub x: i64,
    pub y: i64,
    pub repeat: i8,
    pub width: i64,
    pub left: bool,
    pub right: bool,
    pub combined_width: i64,
}

/// The window `[min, max]` of horizontal positions the player may take on
/// screen.
pub struct Camera {
    pub min: i64,
    pub max: i64,
}

/// How far the player's horizontal speed carries the level in `dt`
/// milliseconds.
pub open spec fn scroll(o: MovingObject, dt: int) -> int {
    div_trunc(o.speed.x * dt, MILLIS as int)
}

/// A body moved with the tile layer by `dx`.
pub open spec fn shifted(o: MovingObject, dx: int) -> MovingObject {
    MovingObject { position: Vec2 { x: (o.position.x + div_trunc(dx * 6, 5)) as i64, y: o.position.y }, ..o }
}

/// The bodies after a scroll by `dx`: the player held at `x`, every other
/// body moved with the tile layer.
pub open spec fn scrolled(objs: Seq<MovingObject>, player: int, x: int, dx: int) -> Seq<MovingObject> {
    Seq::new(
        objs.len(),
        |i: int|
            if i == player {
                MovingObject { position: Vec2 { x: x as i64, y: objs[i].position.y }, ..objs[i] }
            } else {
                shifted(objs[i], dx)
            },
    )
}

impl Background {
    pub fn new(repeat: i8, width: i64) -> (r: Background)
        requires
            0 <= width <= COORD_MAX,
            0 <= repeat,
        ensures
            r.x == 0 && r.y == 0 && !r.left && !r.right,
            r.repeat == repeat,
            r.width == width,
            r.combined_width == width * repeat,
    {
        assert(0 <= width * repeat <= COORD_MAX * 127) by (nonlinear_arith)
            requires
                0 <= width <= COORD_MAX,
                0 <= repeat <= 127,
        ;
        Background { x: 0, y: 0, repeat, width, left: false, right: false, combined_width: width * repeat as i64 }
    }

    pub fn move_object(&mut self, x: i64, y: i64)
        requires
            i64::MIN <= old(self).x + x <= i64::MAX,
            i64::MIN <= old(self).y + y <= i64::MAX,
        ensures
            final(self).x == old(self).x + x,
            final(self).y == old(self).y + y,
            final(self).repeat == old(self).repeat,
            final(self).width == old(self).width,
            final(self).combined_width == old(self).combined_width,
            final(self).left == old(self).left,
            final(self).right == old(self).right,
    {
        self.x = self.x + x;
        self.y = self.y + y;
    }
}

impl Camera {
    pub fn new(min: i64, max: i64) -> (r: Camera)
        ensures
            r.min == min,
            r.max == max,
    {
        Camera { min, max }
    }

    /// Whether `update` may be called: the window is proper, the bodies and
    /// the backdrop lie in range, and the tile layer stays in range when it
    /// scrolls with the player.
    pub open spec fn can_update_spec(&self, objs: Seq<MovingObject>, player: int, map: TileMap, bg: Background, dt: int) -> bool {
        &&& -COORD_MAX <= self.min < self.max <= COORD_MAX
        &&& 0 <= player < objs.len()
        &&& map.wf()
        &&& 0 <= dt <= MILLIS
        &&& forall|i: int| 0 <= i < objs.len() ==> (#[trigger] objs[i]).position.bounded(COORD_MAX as int)
        &&& objs[player].speed.bounded(COORD_MAX as int)
        &&& -COORD_MAX <= bg.x <= COORD_MAX
        &&& 0 <= bg.combined_width
        &&& -COORD_MAX <= map.position.x + div_trunc(-scroll(objs[player], dt) * 6, 5) <= COORD_MAX
    }

    /// Tests the condition of `update`.
    pub fn can_update(&self, objects: &Vec<MovingObject>, player: usize, map: &TileMap, background: &Background, delta: i64) -> (r: bool)
        requires
            map.wf(),
        ensures
            r == self.can_update_spec(objects@, player as int, *map, *background, delta as int),
    {
        if self.min >= self.max || self.min < -COORD_MAX || self.max > COORD_MAX || player >= objects.len() || delta < 0 || delta > MILLIS {
            return false;
        }
        let mut i: usize = 0;
        while i < objects.len()
            invariant
                i <= objects@.len(),
                forall|q: int| 0 <= q < i ==> (#[trigger] objects@[q]).position.bounded(COORD_MAX as int),
            decreases objects@.len() - i,
        {
            let p = objects[i].position;
            if p.x < -COORD_MAX || p.x > COORD_MAX || p.y < -COORD_MAX || p.y > COORD_MAX {
                return false;
            }
            i = i + 1;
        }
        let speed = objects[player].speed;
        if speed.x < -COORD_MAX || speed.x > COORD_MAX || speed.y < -COORD_MAX || speed.y > COORD_MAX {
            return false;
        }
        if background.x < -COORD_MAX || background.x > COORD_MAX || background.combined_width < 0 {
            return false;
        }
        let move_x = scale_speed(speed.x, delta);
        let shift = trunc_div(-move_x * 6, 5);
        let x = map.position.x + shift;
        -COORD_MAX <= x && x <= COORD_MAX
    }

    /// Keeps the player inside the window. When the player reaches the left
    /// edge and the backdrop is not at its start, or the right edge and the
    /// backdrop is not at its middle, the player is held at that edge and
    /// the level scrolls by the player's motion instead: the backdrop by it,
    /// the tile layer and the other bodies by it with the layer's parallax.
    /// At the left edge, a scroll that would pass the backdrop's start stops
    /// the backdrop at its start and moves nothing else.
    #[verifier::rlimit(60)]
    #[verifier::spinoff_prover]
    pub fn update(&mut self, objects: &mut Vec<MovingObject>, player: usize, map: &mut TileMap, background: &mut Background, delta: i64)
        requires
            old(self).can_update_spec(old(objects)@, player as int, *old(map), *old(background), delta as int),
        ensures
            *final(self) == *old(self),
            ({
                let o = old(objects)@;
                let p = o[player as int];
                let mx = scroll(p, delta as int);
                let bx = old(background).x;
                let left = p.position.x <= old(self).min && bx < 0;
                let right = p.position.x >= old(self).max && bx > -(old(background).combined_width / 2);
                &&& left && bx - mx >= 0 ==> {
                    &&& final(objects)@ == o.update(player as int, MovingObject { position: Vec2 { x: old(self).min, y: p.position.y }, ..p })
                    &&& final(background).x == 0
                    &&& *final(map) == *old(map)
                }
                &&& (left && bx - mx < 0) || right ==> {
                    &&& final(objects)@ == scrolled(o, player as int, if left { old(self).min as int } else { old(self).max as int }, -mx)
                    &&& final(background).x == bx - mx
                    &&& final(map).position.x == old(map).position.x + div_trunc(-mx * 6, 5)
                    &&& final(map).position.y == old(map).position.y
                    &&& final(map).tiles == old(map).tiles
                    &&& final(map).width == old(map).width
                    &&& final(map).height == old(map).height
                    &&& final(map).tile_size == old(map).tile_size
                }
                &&& !left && !right ==> final(objects)@ == o && final(background).x == bx && *final(map) == *old(map)
            }),
            final(background).y == old(background).y,
            final(background).combined_width == old(background).combined_width,
            final(background).repeat == old(background).repeat,
            final(background).width == old(background).width,
            final(background).left == old(background).left,
            final(background).right == old(background).right,
            final(map).wf(),
    {
        let ghost o = objects@;
        let position_x = objects[player].position.x;
        if position_x <= self.min {
            if background.x >= 0 {
                return;
            }
            objects[player].position = Vec2 { x: self.min, y: objects[player].position.y };
            let move_x = scale_speed(objects[player].speed.x, delta);
            if background.x - move_x >= 0 {
                background.x = 0;
                return;
            }
            self.scroll_level(objects, player, map, background, move_x);
            assert(objects@ =~= scrolled(o, player as int, self.min as int, -move_x));
            return;
        }
        if position_x >= self.max {
            if background.x <= -(background.combined_width / 2) {
                return;
            }
            objects[player].position = Vec2 { x: self.max, y: objects[player].position.y };
            let move_x = scale_speed(objects[player].speed.x, delta);
            self.scroll_level(objects, player, map, background, move_x);
            assert(objects@ =~= scrolled(o, player as int, self.max as int, -move_x));
        }
    }

    /// Moves the backdrop by `-move_x`, and the tile layer and every body
    /// but the player with the layer.
    fn scroll_level(&self, objects: &mut Vec<MovingObject>, player: usize, map: &mut TileMap, background: &mut Background, move_x: i64)
        requires
            player < old(objects)@.len(),
            old(map).wf(),
            -COORD_MAX <= move_x <= COORD_MAX,
            -COORD_MAX <= old(background).x <= COORD_MAX,
            forall|i: int| 0 <= i < old(objects)@.len() ==> (#[trigger] old(objects)@[i]).position.bounded(COORD_MAX as int),
            -COORD_MAX <= old(map).position.x + div_trunc(-move_x * 6, 5) <= COORD_MAX,
        ensures
            final(objects)@ == scrolled(old(objects)@, player as int, old(objects)@[player as int].position.x as int, -move_x),
            final(background).x == old(background).x - move_x,
            final(background).y == old(background).y,
            final(background).combined_width == old(background).combined_width,
            final(map).wf(),
            final(map).position.x == old(map).position.x + div_trunc(-move_x * 6, 5),
            final(map).position.y == old(map).position.y,
            final(map).tiles == old(map).tiles,
            final(map).width == old(map).width,
            final(map).height == old(map).height,
            final(map).tile_size == old(map).tile_size,
            final(background).repeat == old(background).repeat,
            final(background).width == old(background).width,
            final(background).left == old(background).left,
            final(background).right == old(background).right,
    {
        background.move_object(-move_x, 0);
        map.move_object(-move_x, 0);
        let ghost o = objects@;
        let n = objects.len();
        let mut i: usize = 0;
        while i < n
            invariant
                n == o.len(),
                objects@.len() == n,
                player < n,
                i <= n,
                -COORD_MAX <= move_x <= COORD_MAX,
                forall|q: int| 0 <= q < n ==> (#[trigger] o[q]).position.bounded(COORD_MAX as int),
                forall|q: int| 0 <= q < i ==> #[trigger] objects@[q] == scrolled(o, player as int, o[player as int].position.x as int, -move_x)[q],
                forall|q: int| i <= q < n ==> #[trigger] objects@[q] == o[q],
            decreases n - i,
        {
            if i != player {
                objects[i].move_object(-move_x, 0);
            }
            i = i + 1;
        }
        assert(objects@ =~= scrolled(o, player as int, o[player as int].position.x as int, -move_x));
    }
}

/// What `speed` per second amounts to over `dt` milliseconds.
fn scale_speed(speed: i64, dt: i64) -> (r: i64)
    requires
        -COORD_MAX <= speed <= COORD_MAX,
        0 <= dt <= MILLIS,
    ensures
        r == div_trunc(speed * dt, MILLIS as int),
        -COORD_MAX <= r <= COORD_MAX,
{
    assert(-COORD_MAX * MILLIS <= speed * dt <= COORD_MAX * MILLIS) by (nonlinear_arith)
        requires
            -COORD_MAX <= speed <= COORD_MAX,
            0 <= dt <= MILLIS,
    ;
    proof {
        if speed * dt >= 0 {
            crate::geometry::lemma_div_between(speed * dt, MILLIS as int, 0, COORD_MAX as int);
        } else {
            crate::geometry::lemma_div_between(-(speed * dt), MILLIS as int, 0, COORD_MAX as int);
        }
    }
    trunc_div(speed * dt, MILLIS)
}

} // verus!
