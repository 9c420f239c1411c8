//! A falling body lands on the blocks under it instead of passing through
//! them, as long as it falls at most one tile per tick; it stands on a
//! one-way platform it lands on, and falls through after dropping.
use vstd::prelude::*;
use crate::geometry::{lerp_round, max, min};
use crate::map::{TileMap, TileType};
use crate::moving_object::{
    dropped, floor_of, ground_probe, integrate, physics_step, resolve_ceiling, resolve_ground,
    resolve_left, resolve_right, row_top, MovingObject,
};
use crate::sweep::{ground_hit, ground_rows, next_sample};

verus! {

/// The columns `lo ..= hi` lie in the grid and every tile of `row` in them
/// is `t`.
pub open spec fn row_is(m: TileMap, row: int, lo: int, hi: int, t: TileType) -> bool {
    &&& 0 <= row < m.height
    &&& 0 <= lo && hi < m.width
    &&& forall|x: int| lo <= x <= hi ==> #[trigger] m.tiles@[row]@[x] == t
}

/// The columns `lo ..= hi` lie in the grid and no tile of `row` in them is
/// a block.
pub open spec fn row_without_block(m: TileMap, row: int, lo: int, hi: int) -> bool {
    &&& 0 <= row < m.height
    &&& 0 <= lo && hi < m.width
    &&& forall|x: int| lo <= x <= hi ==> #[trigger] m.tiles@[row]@[x] != TileType::Block
}

/// Every tile in the columns `lo ..= hi` of the rows `from ..< to` is
/// empty.
pub open spec fn clear_rows(m: TileMap, from: int, to: int, lo: int, hi: int) -> bool {
    forall|y: int, x: int| from <= y < to && lo <= x <= hi ==> #[trigger] m.tiles@[y]@[x] == TileType::Empty
}

/// The first and last columns under a body at horizontal position `x`.
pub open spec fn first_column(m: TileMap, o: MovingObject) -> int {
    m.column_of(o.position.x as int)
}

pub open spec fn last_column(m: TileMap, o: MovingObject) -> int {
    m.column_of(o.position.x + 2 * o.aabb.half_size.x)
}

/// Interpolating between two equal ends gives that end.
proof fn lemma_lerp_same(a: int, num: int, den: int)
    requires
        0 <= num <= den,
        0 < den,
    ensures
        lerp_round(a, a, num, den) == a,
{
    crate::geometry::lemma_lerp_between(a, a, num, den);
}

/// Floor division by a positive divisor keeps the order.
proof fn lemma_column_mono(m: TileMap, a: int, b: int)
    requires
        m.wf(),
        a <= b,
    ensures
        m.column_of(a) <= m.column_of(b),
{
    vstd::arithmetic::div_mod::lemma_div_is_ordered(a - m.position.x, b - m.position.x, m.tile_size as int);
}

/// Along a row with neither a block nor a platform within reach of the
/// foot in the sampled columns, nothing is found.
proof fn lemma_row_misses(m: TileMap, row: int, c: int, right: int, foot: int, threshold: int, lo: int, hi: int)
    requires
        m.wf(),
        row_without_block(m, row, lo, hi),
        foot - row_top(m, row) >= threshold || row_is(m, row, lo, hi, TileType::Empty),
        lo <= m.column_of(c),
        m.column_of(right - 1) <= hi,
    ensures
        ground_hit(m, row, c, right, right, foot, threshold) is None,
    decreases max(right - c, 0),
{
    if c < right {
        lemma_column_mono(m, c, right - 1);
        let col = m.column_of(c);
        assert(m.tiles@[row]@[col] != TileType::Block);
        if row_is(m, row, lo, hi, TileType::Empty) {
            assert(m.tiles@[row]@[col] == TileType::Empty);
        }
        if c < right - 1 {
            let next = next_sample(c, right, m.tile_size as int);
            lemma_column_mono(m, c, next);
            lemma_row_misses(m, row, next, right, foot, threshold, lo, hi);
        }
    }
}

/// A clear row is a row without blocks.
proof fn lemma_clear_row(m: TileMap, row: int, lo: int, hi: int)
    requires
        0 <= row < m.height,
        0 <= lo && hi < m.width,
        clear_rows(m, row, row + 1, lo, hi),
    ensures
        row_is(m, row, lo, hi, TileType::Empty),
        row_without_block(m, row, lo, hi),
{
    assert forall|x: int| lo <= x <= hi implies #[trigger] m.tiles@[row]@[x] == TileType::Empty by {
        assert(m.tiles@[row]@[x] == TileType::Empty);
    }
}

/// A falling sweep reports no row above the one it starts from.
proof fn lemma_rows_from(m: TileMap, row: int, beg: int, end: int, ox: int, oy: int, ny: int, dist: int, reach: int, threshold: int)
    ensures
        ground_rows(m, row, beg, end, ox, oy, ox, ny, dist, reach, threshold) matches Some((x, _)) ==> x >= row,
    decreases end - row + 1,
{
    if row <= end {
        lemma_rows_from(m, row + 1, beg, end, ox, oy, ny, dist, reach, threshold);
    }
}

/// The rows `row ..< r` are clear under the body and row `r` holds `t`
/// under it, a block or a platform within reach of the foot: a falling
/// sweep whose sensor does not move sideways finds ground at `r`.
proof fn lemma_rows_reach(
    m: TileMap,
    row: int,
    beg: int,
    end: int,
    ox: int,
    oy: int,
    ny: int,
    dist: int,
    reach: int,
    threshold: int,
    r: int,
    lo: int,
    hi: int,
    t: TileType,
)
    requires
        m.wf(),
        0 <= beg <= row <= r <= end,
        end - beg <= dist,
        0 < dist,
        row_is(m, r, lo, hi, t),
        t == TileType::Block || (t == TileType::OneWay && oy <= ny && ny - row_top(m, r) < threshold && oy > row_top(m, r)),
        clear_rows(m, row, r, lo, hi),
        reach >= 2,
        lo <= m.column_of(ox - reach + 1),
        m.column_of(ox - 1) <= hi,
    ensures
        ground_rows(m, row, beg, end, ox, oy, ox, ny, dist, reach, threshold) == Some((r, t == TileType::OneWay)),
    decreases r - row,
{
    lemma_lerp_same(ox, row - beg, dist);
    crate::geometry::lemma_lerp_between(oy, ny, row - beg, dist);
    let sx = lerp_round(ox, ox, row - beg, dist);
    lemma_column_mono(m, sx - reach + 1, sx - 1);
    if row < r {
        lemma_clear_row(m, row, lo, hi);
        lemma_row_misses(m, row, sx - reach + 1, sx, lerp_round(oy, ny, row - beg, dist), threshold, lo, hi);
        lemma_rows_reach(m, row + 1, beg, end, ox, oy, ny, dist, reach, threshold, r, lo, hi, t);
    } else {
        let col = m.column_of(sx - reach + 1);
        assert(m.tiles@[r]@[col] == t);
    }
}

/// The rows from `row` to `end` give nothing: row `r`, if among them, has
/// no block and only platforms beyond the foot's reach, and the rows after
/// it are clear.
proof fn lemma_rows_none(
    m: TileMap,
    row: int,
    beg: int,
    end: int,
    ox: int,
    oy: int,
    ny: int,
    dist: int,
    reach: int,
    threshold: int,
    r: int,
    lo: int,
    hi: int,
)
    requires
        m.wf(),
        r <= row,
        beg <= row,
        end < m.height,
        end - beg <= dist,
        0 < dist,
        row_without_block(m, r, lo, hi),
        oy <= ny,
        oy - row_top(m, r) > threshold,
        clear_rows(m, r + 1, end + 1, lo, hi),
        reach >= 2,
        lo <= m.column_of(ox - reach + 1),
        m.column_of(ox - 1) <= hi,
    ensures
        ground_rows(m, row, beg, end, ox, oy, ox, ny, dist, reach, threshold) is None,
    decreases end - row + 1,
{
    if row <= end {
        lemma_lerp_same(ox, row - beg, dist);
        crate::geometry::lemma_lerp_between(oy, ny, row - beg, dist);
        let sx = lerp_round(ox, ox, row - beg, dist);
        lemma_column_mono(m, sx - reach + 1, sx - 1);
        if row == r {
            lemma_row_misses(m, r, sx - reach + 1, sx, lerp_round(oy, ny, row - beg, dist), threshold, lo, hi);
        } else {
            lemma_clear_row(m, row, lo, hi);
            lemma_row_misses(m, row, sx - reach + 1, sx, lerp_round(oy, ny, row - beg, dist), threshold, lo, hi);
        }
        lemma_rows_none(m, row + 1, beg, end, ox, oy, ny, dist, reach, threshold, r, lo, hi);
    }
}

/// The parts of a tick before the ground resolution leave a body that
/// moves straight down where the integration put it.
proof fn lemma_straight_fall(o: MovingObject, dt: int, m: TileMap)
    requires
        o.wf(),
        o.step_fits(dt),
        0 <= dt <= 1000,
        o.speed.x == 0,
        o.acceleration.x == 0,
    ensures
        ({
            let s = integrate(o, dt);
            let g = resolve_right(resolve_left(s, m), m);
            &&& g.position == s.position
            &&& g.position.x == o.position.x
            &&& g.speed == s.speed
            &&& g.old_position == o.position
            &&& g.aabb.half_size == o.aabb.half_size
            &&& g.one_way_platform_tsh == o.one_way_platform_tsh
            &&& g.on_one_way_platform == o.on_one_way_platform
            &&& s.speed.y >= 0 ==> s.position.y >= o.position.y
        }),
{
    let s = integrate(o, dt);
    assert(s.speed.x == 0);
    if s.speed.y >= 0 {
        crate::geometry::lemma_div_bounded(s.speed.y * dt, 1000);
        assert(s.speed.y * dt >= 0) by (nonlinear_arith)
            requires
                s.speed.y >= 0,
                dt >= 0,
        ;
    } else {
        assert(s.speed.y * dt <= 0) by (nonlinear_arith)
            requires
                s.speed.y < 0,
                dt >= 0,
        ;
        crate::geometry::lemma_div_bounded(-(s.speed.y * dt), 1000);
    }
}

/// A sensor at or below the top of row `r` rounds to row `r` or below.
proof fn lemma_row_near_below(m: TileMap, v: int, r: int)
    requires
        m.wf(),
        row_top(m, r) <= v,
    ensures
        m.row_near(v) >= r,
{
    let ts = m.tile_size as int;
    let k = m.row_near(v);
    crate::map::lemma_tile_edges(m, v);
    if k < r {
        assert(k * ts + ts <= r * ts) by (nonlinear_arith)
            requires
                k + 1 <= r,
                ts > 0,
        ;
    }
}

/// Where a sensor `v` at or just below the top of row `r` lies: in row `r`
/// when within half a tile.
proof fn lemma_row_near_at(m: TileMap, v: int, r: int)
    requires
        m.wf(),
        m.tile_size >= 3,
        row_top(m, r) <= v,
    ensures
        m.row_near(v) >= r,
        v <= row_top(m, r) + 1 ==> m.row_near(v) == r,
{
    let ts = m.tile_size as int;
    let k = m.row_near(v);
    crate::map::lemma_tile_edges(m, v);
    assert(2 * (ts / 2) <= ts) by {
        vstd::arithmetic::div_mod::lemma_fundamental_div_mod(ts, 2);
    }
    if k < r {
        assert(k * ts + ts <= r * ts) by (nonlinear_arith)
            requires
                k + 1 <= r,
                ts > 0,
        ;
    }
    if v <= row_top(m, r) + 1 && k > r {
        assert(r * ts + ts <= k * ts) by (nonlinear_arith)
            requires
                k >= r + 1,
                ts > 0,
        ;
    }
}

/// A sensor `v` above the top of row `r`, within one unit, rounds to row
/// `r` or above.
proof fn lemma_row_near_above(m: TileMap, v: int, r: int)
    requires
        m.wf(),
        m.tile_size >= 3,
        v <= row_top(m, r) + 1,
        m.position.y <= v,
    ensures
        0 <= m.row_near(v) <= r,
{
    let ts = m.tile_size as int;
    let k = m.row_near(v);
    crate::map::lemma_tile_edges(m, v);
    assert(2 * (ts / 2) <= ts) by {
        vstd::arithmetic::div_mod::lemma_fundamental_div_mod(ts, 2);
    }
    vstd::arithmetic::div_mod::lemma_div_pos_is_pos(v - m.position.y + ts / 2, ts);
    if k > r {
        assert(r * ts + ts <= k * ts) by (nonlinear_arith)
            requires
                k >= r + 1,
                ts > 0,
        ;
    }
}

/// A body that falls straight down, at most one tile in this tick, from
/// above a row whose tiles under the body are blocks, with the tiles above
/// them clear, onto or past the row's top, stands on the row afterwards:
/// on the ground, at rest vertically, its bottom on the row's top.
pub proof fn lemma_no_tunnelling(o: MovingObject, dt: int, m: TileMap, r: int)
    requires
        o.wf(),
        m.wf(),
        0 <= dt <= 1000,
        o.step_fits(dt),
        o.speed.x == 0,
        o.acceleration.x == 0,
        m.tile_size >= 3,
        row_is(m, r, first_column(m, o), last_column(m, o), TileType::Block),
        clear_rows(m, 0, r, first_column(m, o), last_column(m, o)),
        integrate(o, dt).speed.y > 0,
        m.position.y <= o.position.y + 2 * o.aabb.half_size.y <= row_top(m, r),
        integrate(o, dt).position.y + 2 * o.aabb.half_size.y >= row_top(m, r),
        integrate(o, dt).position.y - o.position.y <= m.tile_size,
    ensures
        physics_step(o, dt, m).on_ground,
        physics_step(o, dt, m).speed.y == 0,
        physics_step(o, dt, m).position.y == row_top(m, r) - 2 * o.aabb.half_size.y,
        physics_step(o, dt, m).position.x == o.position.x,
{
    lemma_straight_fall(o, dt, m);
    let s = integrate(o, dt);
    let g = resolve_right(resolve_left(s, m), m);
    let hx = o.aabb.half_size.x as int;
    let hy = o.aabb.half_size.y as int;
    let oy = o.position.y + 2 * hy + 1;
    let ny = s.position.y + 2 * hy + 1;
    lemma_row_near_above(m, oy, r);
    lemma_row_near_at(m, ny, r);
    let end = m.row_near(ny);
    let beg = min(m.row_near(oy), end);
    let ox = o.position.x + 2 * hx + 1;
    lemma_rows_reach(m, beg, beg, end, ox, oy, ny, max(end - beg, 1), 2 * hx + 2, o.one_way_platform_tsh as int, r, first_column(m, o), last_column(m, o), TileType::Block);
    let ts = m.tile_size as int;
    assert(r * ts + ts <= m.height * ts) by (nonlinear_arith)
        requires
            r + 1 <= m.height,
            ts > 0,
    ;
    assert(g.position.y + 2 * hy <= floor_of(m));
    assert(ground_probe(g, m) == Some((r, false)));
    let d = resolve_ground(g, m);
    assert(d.speed.y == 0 && d.on_ground && d.position.y == row_top(m, r) - 2 * hy);
    assert(physics_step(o, dt, m) == resolve_ceiling(d, m));
}

/// A body standing on a row whose tiles under it are one-way platforms,
/// with the tiles above them clear, that falls straight down so little
/// that its foot sensor stays within the platform threshold of the row's
/// top, stands on the platform after the tick and knows it is a one-way
/// platform.
pub proof fn lemma_stands_on_platform(o: MovingObject, dt: int, m: TileMap, r: int)
    requires
        o.wf(),
        m.wf(),
        0 <= dt <= 1000,
        o.step_fits(dt),
        o.speed.x == 0,
        o.acceleration.x == 0,
        m.tile_size >= 3,
        row_is(m, r, first_column(m, o), last_column(m, o), TileType::OneWay),
        clear_rows(m, 0, r, first_column(m, o), last_column(m, o)),
        o.one_way_platform_tsh <= m.tile_size,
        integrate(o, dt).speed.y > 0,
        o.position.y + 2 * o.aabb.half_size.y == row_top(m, r),
        row_top(m, r) >= m.position.y,
        integrate(o, dt).position.y + 2 * o.aabb.half_size.y + 1 - row_top(m, r) < o.one_way_platform_tsh,
    ensures
        physics_step(o, dt, m).on_ground,
        physics_step(o, dt, m).on_one_way_platform,
        physics_step(o, dt, m).speed.y == 0,
        physics_step(o, dt, m).position.y == row_top(m, r) - 2 * o.aabb.half_size.y,
{
    lemma_straight_fall(o, dt, m);
    let s = integrate(o, dt);
    let g = resolve_right(resolve_left(s, m), m);
    let ts = m.tile_size as int;
    let hx = o.aabb.half_size.x as int;
    let hy = o.aabb.half_size.y as int;
    assert(r * ts + ts <= m.height * ts) by (nonlinear_arith)
        requires
            r + 1 <= m.height,
            ts > 0,
    ;
    let oy = o.position.y + 2 * hy + 1;
    let ny = s.position.y + 2 * hy + 1;
    lemma_row_near_above(m, oy, r);
    lemma_row_near_at(m, oy, r);
    lemma_row_near_at(m, ny, r);
    let end = m.row_near(ny);
    let beg = min(m.row_near(oy), end);
    let ox = o.position.x + 2 * hx + 1;
    lemma_rows_reach(m, beg, beg, end, ox, oy, ny, max(end - beg, 1), 2 * hx + 2, o.one_way_platform_tsh as int, r, first_column(m, o), last_column(m, o), TileType::OneWay);
    assert(ground_probe(g, m) == Some((r, true)));
    let d = resolve_ground(g, m);
    assert(d.speed.y == 0 && d.on_ground && d.on_one_way_platform && d.position.y == row_top(m, r) - 2 * hy);
    assert(physics_step(o, dt, m) == resolve_ceiling(d, m));
}

/// After a drop from a one-way platform, with no block in the platform's
/// row under the body and nothing under the body in the rows below it that
/// the next tick's sweep visits, that sweep ending inside the map, a body
/// that moves straight down, or not at all, is neither on the ground nor on
/// a one-way platform after the next tick: it falls through.
pub proof fn lemma_drop_leaves_platform(o0: MovingObject, dt: int, m: TileMap, r: int)
    requires
        o0.wf(),
        o0.on_one_way_platform,
        o0.position.y + 2 * o0.aabb.half_size.y == row_top(m, r),
        dropped(o0).wf(),
        m.wf(),
        0 <= dt <= 1000,
        dropped(o0).step_fits(dt),
        o0.speed.x == 0,
        o0.acceleration.x == 0,
        row_without_block(m, r, first_column(m, o0), last_column(m, o0)),
        clear_rows(m, r + 1, m.row_near(integrate(dropped(o0), dt).position.y + 2 * o0.aabb.half_size.y + 1) + 1, first_column(m, o0), last_column(m, o0)),
        integrate(dropped(o0), dt).speed.y >= 0,
        m.row_near(integrate(dropped(o0), dt).position.y + 2 * o0.aabb.half_size.y + 1) < m.height,
    ensures
        !physics_step(dropped(o0), dt, m).on_ground,
        !physics_step(dropped(o0), dt, m).on_one_way_platform,
{
    let o = dropped(o0);
    assert(o.position.x == o0.position.x && o.aabb == o0.aabb && !o.on_one_way_platform);
    assert(o.position.y == o0.position.y + o0.one_way_platform_tsh);
    lemma_straight_fall(o, dt, m);
    let s = integrate(o, dt);
    let g = resolve_right(resolve_left(s, m), m);
    let hx = o.aabb.half_size.x as int;
    let hy = o.aabb.half_size.y as int;
    let oy = o.position.y + 2 * hy + 1;
    let ny = s.position.y + 2 * hy + 1;
    let end = m.row_near(ny);
    let beg = min(m.row_near(oy), end);
    let ox = o.position.x + 2 * hx + 1;
    let ts = m.tile_size as int;
    lemma_row_near_below(m, oy, r);
    vstd::arithmetic::div_mod::lemma_div_is_ordered(oy - m.position.y + ts / 2, ny - m.position.y + ts / 2, ts);
    // the sweep of the next tick stays inside the map: no floor
    crate::map::lemma_tile_edges(m, ny);
    assert(2 * (ts / 2) <= ts) by {
        vstd::arithmetic::div_mod::lemma_fundamental_div_mod(ts, 2);
    }
    assert(end * ts + ts <= m.height * ts) by (nonlinear_arith)
        requires
            end + 1 <= m.height,
            ts > 0,
    ;
    assert(g.position.y + 2 * hy < floor_of(m));
    lemma_rows_none(m, beg, beg, end, ox, oy, ny, max(end - beg, 1), 2 * hx + 2, o.one_way_platform_tsh as int, r, first_column(m, o0), last_column(m, o0));
    assert(ground_probe(g, m) is None);
    let d = resolve_ground(g, m);
    assert(!d.on_ground && !d.on_one_way_platform);
    assert(physics_step(o, dt, m) == resolve_ceiling(d, m));
}

} // verus!
