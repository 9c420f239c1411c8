//! Swept sensor sampling against the tile grid.
//!
//! A sensor point of a moving body is followed from where it was to where
//! it is, one tile row (or column) at a time, so that a fast body cannot
//! pass through a thin obstacle between two ticks. At each crossed row the
//! sensor is placed by rounded interpolation, and the tiles along the
//! body's edge are tested; the first obstructing tile, in the direction of
//! travel, decides.
use vstd::prelude::*;
use crate::geometry::{abs, lerp_i64, lerp_round, max, min, COORD_MAX, LERP_MAX};
use crate::map::{lemma_index_bounds, lemma_tile_edge_fits, TileMap, MAX_TILE_SIZE, WORLD_MAX};

verus! {

/// The sample after `c` along an edge that ends before `right`: one tile
/// further, but never past the edge's last point `right - 1`.
pub open spec fn next_sample(c: int, right: int, step: int) -> int {
    if c + step < right - 1 {
        c + step
    } else {
        right - 1
    }
}

/// Along the foot edge of `row`, the tiles under the sample points `c`,
/// then one tile further each time, and last the edge's end `right - 1`
/// (each point held at most `limit`): `Some(false)` at the first block,
/// `Some(true)` at the first one-way platform whose top is within
/// `threshold` of `foot`, else `None`.
pub open spec fn ground_hit(
    m: TileMap,
    row: int,
    c: int,
    right: int,
    limit: int,
    foot: int,
    threshold: int,
) -> Option<bool>
    decreases max(right - c, 0),
{
    if c >= right || m.tile_size <= 0 {
        None
    } else {
        let col = m.column_of(min(c, limit));
        let ground_y = row * m.tile_size + m.position.y;
        if m.obstacle_at(col, row) {
            Some(false)
        } else if m.one_way_at(col, row) && abs(foot - ground_y) < threshold {
            Some(true)
        } else if c >= right - 1 {
            None
        } else {
            ground_hit(m, row, next_sample(c, right, m.tile_size as int), right, limit, foot, threshold)
        }
    }
}

/// Along the head edge of `row`, whether a tile under the sample points
/// from `c` to `right - 1` (each held at most `limit`) is a block.
pub open spec fn ceiling_hit(m: TileMap, row: int, c: int, right: int, limit: int) -> bool
    decreases max(right - c, 0),
{
    if c >= right || m.tile_size <= 0 {
        false
    } else if m.obstacle_at(m.column_of(min(c, limit)), row) {
        true
    } else if c >= right - 1 {
        false
    } else {
        ceiling_hit(m, row, next_sample(c, right, m.tile_size as int), right, limit)
    }
}

/// Along the side edge in column `col`, whether the row just above one of
/// the sample points from `y` to `bottom - 1` is a block.
pub open spec fn wall_hit(m: TileMap, col: int, y: int, bottom: int) -> bool
    decreases max(bottom - y, 0),
{
    if y >= bottom || m.tile_size <= 0 {
        false
    } else if m.obstacle_at(col, m.row_near(y) - 1) {
        true
    } else if y >= bottom - 1 {
        false
    } else {
        wall_hit(m, col, next_sample(y, bottom, m.tile_size as int), bottom)
    }
}

/// Falling sweep over the rows `row ..= end`, top to bottom, of a sweep that
/// starts at row `beg`. The bottom-right sensor moves from `(ox, oy)` to
/// `(nx, ny)`; at `row` it stands at `(row - beg) / dist` of that way;
/// `reach` is the distance from the right sensor back to the left one.
/// Gives the first row that holds ground and whether that ground is a
/// one-way platform.
pub open spec fn ground_rows(
    m: TileMap,
    row: int,
    beg: int,
    end: int,
    ox: int,
    oy: int,
    nx: int,
    ny: int,
    dist: int,
    reach: int,
    threshold: int,
) -> Option<(int, bool)>
    decreases end - row + 1,
{
    if row > end {
        None
    } else {
        let sx = lerp_round(ox, nx, row - beg, dist);
        let sy = lerp_round(oy, ny, row - beg, dist);
        match ground_hit(m, row, sx - reach + 1, sx, nx, sy, threshold) {
            Some(one_way) => Some((row, one_way)),
            None => ground_rows(m, row + 1, beg, end, ox, oy, nx, ny, dist, reach, threshold),
        }
    }
}

/// Rising sweep over the rows `row` down to `end` of a sweep that starts at
/// row `beg`, with the top-right sensor moving from `(ox, _)` to
/// `(nx, _)`, at `(beg - row) / dist` of that way at `row`; gives the first
/// row that holds a block.
pub open spec fn ceiling_rows(
    m: TileMap,
    row: int,
    beg: int,
    end: int,
    ox: int,
    nx: int,
    dist: int,
    reach: int,
) -> Option<int>
    decreases row - end + 1,
{
    if row < end {
        None
    } else {
        let sx = lerp_round(ox, nx, beg - row, dist);
        if ceiling_hit(m, row, sx - reach + 1, sx, nx) {
            Some(row)
        } else {
            ceiling_rows(m, row - 1, beg, end, ox, nx, dist, reach)
        }
    }
}

/// Sweep to the right over the columns `col ..= end` of a sweep that starts
/// at column `beg`, with the bottom sensor's height moving from `oy` to
/// `ny`, at `(col - beg) / dist` of that way at `col`; `height` is the
/// distance from the bottom sensor up to the top one. Gives the first
/// column with a block along the body's side.
pub open spec fn right_cols(
    m: TileMap,
    col: int,
    beg: int,
    end: int,
    oy: int,
    ny: int,
    dist: int,
    height: int,
) -> Option<int>
    decreases end - col + 1,
{
    if col > end {
        None
    } else {
        let bottom = lerp_round(oy, ny, col - beg, dist);
        if wall_hit(m, col, bottom - height, bottom) {
            Some(col)
        } else {
            right_cols(m, col + 1, beg, end, oy, ny, dist, height)
        }
    }
}

/// Sweep to the left over the columns `col` down to `end` of a sweep that
/// starts at column `beg`, at `(beg - col) / dist` of the way at `col`.
pub open spec fn left_cols(
    m: TileMap,
    col: int,
    beg: int,
    end: int,
    oy: int,
    ny: int,
    dist: int,
    height: int,
) -> Option<int>
    decreases col - end + 1,
{
    if col < end {
        None
    } else {
        let bottom = lerp_round(oy, ny, beg - col, dist);
        if wall_hit(m, col, bottom - height, bottom) {
            Some(col)
        } else {
            left_cols(m, col - 1, beg, end, oy, ny, dist, height)
        }
    }
}

/// A coordinate that a sweep may sample.
pub open spec fn in_sweep(v: int) -> bool {
    -WORLD_MAX <= v <= WORLD_MAX
}

/// A tile index that a sweep may visit.
pub open spec fn index_ok(i: int) -> bool {
    -3 * WORLD_MAX <= i <= 3 * WORLD_MAX
}

pub fn ground_hit_exec(
    m: &TileMap,
    row: i64,
    c0: i64,
    right: i64,
    limit: i64,
    foot: i64,
    threshold: i64,
) -> (r: Option<bool>)
    requires
        m.wf(),
        index_ok(row as int),
        -2 * WORLD_MAX <= c0 <= WORLD_MAX,
        in_sweep(right as int),
        in_sweep(limit as int),
        in_sweep(foot as int),
        0 <= threshold <= COORD_MAX,
    ensures
        r == ground_hit(*m, row as int, c0 as int, right as int, limit as int, foot as int, threshold as int),
{
    proof {
        lemma_tile_edge_fits(row as int, m.tile_size as int);
    }
    let ground_y = row * m.tile_size + m.position.y;
    let mut c = c0;
    while c < right
        invariant
            m.wf(),
            -2 * WORLD_MAX <= c0 <= c <= WORLD_MAX + m.tile_size,
            in_sweep(right as int),
            in_sweep(limit as int),
            in_sweep(foot as int),
            -4 * WORLD_MAX * MAX_TILE_SIZE <= row * m.tile_size <= 4 * WORLD_MAX * MAX_TILE_SIZE,
            ground_y == row * m.tile_size + m.position.y,
            ground_hit(*m, row as int, c0 as int, right as int, limit as int, foot as int, threshold as int)
                == ground_hit(*m, row as int, c as int, right as int, limit as int, foot as int, threshold as int),
        decreases max(right - c, 0),
    {
        let x = if c < limit {
            c
        } else {
            limit
        };
        let col = m.get_map_tile_x_at_point(x);
        if m.is_obstacle(col, row) {
            return Some(false);
        }
        if m.is_one_way_platform(col, row) {
            let gap = if foot >= ground_y {
                foot - ground_y
            } else {
                ground_y - foot
            };
            if gap < threshold {
                return Some(true);
            }
        }
        if c >= right - 1 {
            return None;
        }
        c = if c + m.tile_size < right - 1 {
            c + m.tile_size
        } else {
            right - 1
        };
    }
    None
}

pub fn ceiling_hit_exec(m: &TileMap, row: i64, c0: i64, right: i64, limit: i64) -> (r: bool)
    requires
        m.wf(),
        -2 * WORLD_MAX <= c0 <= WORLD_MAX,
        in_sweep(right as int),
        in_sweep(limit as int),
    ensures
        r == ceiling_hit(*m, row as int, c0 as int, right as int, limit as int),
{
    let mut c = c0;
    while c < right
        invariant
            m.wf(),
            -2 * WORLD_MAX <= c0 <= c <= WORLD_MAX + m.tile_size,
            in_sweep(right as int),
            in_sweep(limit as int),
            ceiling_hit(*m, row as int, c0 as int, right as int, limit as int) == ceiling_hit(
                *m,
                row as int,
                c as int,
                right as int,
                limit as int,
            ),
        decreases max(right - c, 0),
    {
        let x = if c < limit {
            c
        } else {
            limit
        };
        let col = m.get_map_tile_x_at_point(x);
        if m.is_obstacle(col, row) {
            return true;
        }
        if c >= right - 1 {
            return false;
        }
        c = if c + m.tile_size < right - 1 {
            c + m.tile_size
        } else {
            right - 1
        };
    }
    false
}

pub fn wall_hit_exec(m: &TileMap, col: i64, y0: i64, bottom: i64) -> (r: bool)
    requires
        m.wf(),
        -2 * WORLD_MAX <= y0 <= WORLD_MAX,
        in_sweep(bottom as int),
    ensures
        r == wall_hit(*m, col as int, y0 as int, bottom as int),
{
    let mut y = y0;
    while y < bottom
        invariant
            m.wf(),
            -2 * WORLD_MAX <= y0 <= y <= WORLD_MAX + m.tile_size,
            in_sweep(bottom as int),
            wall_hit(*m, col as int, y0 as int, bottom as int) == wall_hit(
                *m,
                col as int,
                y as int,
                bottom as int,
            ),
        decreases max(bottom - y, 0),
    {
        let row = m.get_map_tile_y_at_point(y);
        proof {
            lemma_index_bounds(*m, y as int);
        }
        if m.is_obstacle(col, row - 1) {
            return true;
        }
        if y >= bottom - 1 {
            return false;
        }
        y = if y + m.tile_size < bottom - 1 {
            y + m.tile_size
        } else {
            bottom - 1
        };
    }
    false
}

pub fn ground_rows_exec(
    m: &TileMap,
    beg: i64,
    end: i64,
    ox: i64,
    oy: i64,
    nx: i64,
    ny: i64,
    dist: i64,
    reach: i64,
    threshold: i64,
) -> (r: Option<(i64, bool)>)
    requires
        m.wf(),
        index_ok(beg as int),
        index_ok(end as int),
        beg <= end,
        end - beg <= dist,
        1 <= dist <= LERP_MAX,
        in_sweep(ox as int),
        in_sweep(oy as int),
        in_sweep(nx as int),
        in_sweep(ny as int),
        1 <= reach <= 2 * COORD_MAX + 2,
        0 <= threshold <= COORD_MAX,
    ensures
        match r {
            Some((row, one_way)) => {
                &&& ground_rows(*m, beg as int, beg as int, end as int, ox as int, oy as int, nx as int, ny as int, dist as int, reach as int, threshold as int)
                    == Some((row as int, one_way))
                &&& beg <= row <= end
            },
            None => ground_rows(*m, beg as int, beg as int, end as int, ox as int, oy as int, nx as int, ny as int, dist as int, reach as int, threshold as int)
                is None,
        },
{
    let mut row = beg;
    while row <= end
        invariant
            m.wf(),
            beg <= row <= end + 1,
            index_ok(beg as int),
            index_ok(end as int),
            end - beg <= dist,
            1 <= dist <= LERP_MAX,
            in_sweep(ox as int),
            in_sweep(oy as int),
            in_sweep(nx as int),
            in_sweep(ny as int),
            1 <= reach <= 2 * COORD_MAX + 2,
            0 <= threshold <= COORD_MAX,
            ground_rows(*m, beg as int, beg as int, end as int, ox as int, oy as int, nx as int, ny as int, dist as int, reach as int, threshold as int)
                == ground_rows(*m, row as int, beg as int, end as int, ox as int, oy as int, nx as int, ny as int, dist as int, reach as int, threshold as int),
        decreases end - row + 1,
    {
        let sx = lerp_i64(ox, nx, row - beg, dist);
        let sy = lerp_i64(oy, ny, row - beg, dist);
        match ground_hit_exec(m, row, sx - reach + 1, sx, nx, sy, threshold) {
            Some(one_way) => {
                return Some((row, one_way));
            },
            None => {},
        }
        row = row + 1;
    }
    None
}

pub fn ceiling_rows_exec(
    m: &TileMap,
    beg: i64,
    end: i64,
    ox: i64,
    nx: i64,
    dist: i64,
    reach: i64,
) -> (r: Option<i64>)
    requires
        m.wf(),
        index_ok(beg as int),
        index_ok(end as int),
        end <= beg,
        beg - end <= dist,
        1 <= dist <= LERP_MAX,
        in_sweep(ox as int),
        in_sweep(nx as int),
        1 <= reach <= 2 * COORD_MAX + 2,
    ensures
        match r {
            Some(row) => {
                &&& ceiling_rows(*m, beg as int, beg as int, end as int, ox as int, nx as int, dist as int, reach as int)
                    == Some(row as int)
                &&& end <= row <= beg
            },
            None => ceiling_rows(*m, beg as int, beg as int, end as int, ox as int, nx as int, dist as int, reach as int)
                is None,
        },
{
    let mut row = beg;
    while row >= end
        invariant
            m.wf(),
            end - 1 <= row <= beg,
            index_ok(end as int),
            index_ok(beg as int),
            beg - end <= dist,
            1 <= dist <= LERP_MAX,
            in_sweep(ox as int),
            in_sweep(nx as int),
            1 <= reach <= 2 * COORD_MAX + 2,
            ceiling_rows(*m, beg as int, beg as int, end as int, ox as int, nx as int, dist as int, reach as int)
                == ceiling_rows(*m, row as int, beg as int, end as int, ox as int, nx as int, dist as int, reach as int),
        decreases row - end + 1,
    {
        let sx = lerp_i64(ox, nx, beg - row, dist);
        if ceiling_hit_exec(m, row, sx - reach + 1, sx, nx) {
            return Some(row);
        }
        row = row - 1;
    }
    None
}

pub fn right_cols_exec(
    m: &TileMap,
    beg: i64,
    end: i64,
    oy: i64,
    ny: i64,
    dist: i64,
    height: i64,
) -> (r: Option<i64>)
    requires
        m.wf(),
        index_ok(beg as int),
        index_ok(end as int),
        beg <= end,
        end - beg <= dist,
        1 <= dist <= LERP_MAX,
        in_sweep(oy as int),
        in_sweep(ny as int),
        0 <= height <= 2 * COORD_MAX + 2,
    ensures
        match r {
            Some(col) => {
                &&& right_cols(*m, beg as int, beg as int, end as int, oy as int, ny as int, dist as int, height as int)
                    == Some(col as int)
                &&& beg <= col <= end
            },
            None => right_cols(*m, beg as int, beg as int, end as int, oy as int, ny as int, dist as int, height as int)
                is None,
        },
{
    let mut col = beg;
    while col <= end
        invariant
            m.wf(),
            beg <= col <= end + 1,
            index_ok(end as int),
            index_ok(beg as int),
            end - beg <= dist,
            1 <= dist <= LERP_MAX,
            in_sweep(oy as int),
            in_sweep(ny as int),
            0 <= height <= 2 * COORD_MAX + 2,
            right_cols(*m, beg as int, beg as int, end as int, oy as int, ny as int, dist as int, height as int)
                == right_cols(*m, col as int, beg as int, end as int, oy as int, ny as int, dist as int, height as int),
        decreases end - col + 1,
    {
        let bottom = lerp_i64(oy, ny, col - beg, dist);
        if wall_hit_exec(m, col, bottom - height, bottom) {
            return Some(col);
        }
        col = col + 1;
    }
    None
}

pub fn left_cols_exec(
    m: &TileMap,
    beg: i64,
    end: i64,
    oy: i64,
    ny: i64,
    dist: i64,
    height: i64,
) -> (r: Option<i64>)
    requires
        m.wf(),
        index_ok(beg as int),
        index_ok(end as int),
        end <= beg,
        beg - end <= dist,
        1 <= dist <= LERP_MAX,
        in_sweep(oy as int),
        in_sweep(ny as int),
        0 <= height <= 2 * COORD_MAX + 2,
    ensures
        match r {
            Some(col) => {
                &&& left_cols(*m, beg as int, beg as int, end as int, oy as int, ny as int, dist as int, height as int)
                    == Some(col as int)
                &&& end <= col <= beg
            },
            None => left_cols(*m, beg as int, beg as int, end as int, oy as int, ny as int, dist as int, height as int)
                is None,
        },
{
    let mut col = beg;
    while col >= end
        invariant
            m.wf(),
            end - 1 <= col <= beg,
            index_ok(end as int),
            index_ok(beg as int),
            beg - end <= dist,
            1 <= dist <= LERP_MAX,
            in_sweep(oy as int),
            in_sweep(ny as int),
            0 <= height <= 2 * COORD_MAX + 2,
            left_cols(*m, beg as int, beg as int, end as int, oy as int, ny as int, dist as int, height as int)
                == left_cols(*m, col as int, beg as int, end as int, oy as int, ny as int, dist as int, height as int),
        decreases col - end + 1,
    {
        let bottom = lerp_i64(oy, ny, beg - col, dist);
        if wall_hit_exec(m, col, bottom - height, bottom) {
            return Some(col);
        }
        col = col - 1;
    }
    None
}

} // verus!
