//! The static tile grid and conversions between world points and tiles.
use vstd::prelude::*;
use crate::geometry::{Vec2, COORD_MAX};

verus! {

/// Largest tile size, in world units.
pub const MAX_TILE_SIZE: i64 = 0x10_0000;

/// Largest magnitude of a world coordinate handed to a tile lookup.
pub const WORLD_MAX: i64 = 8 * COORD_MAX;

/// Classification of one tile.
#[derive(Clone, Copy, Debug, PartialEq, Eq, Structural)]
pub enum TileType {
    Empty,
    Block,
    OneWay,
}

/// Integer coordinate of a tile or of a broad-phase cell.
#[derive(Clone, Copy, Debug, PartialEq, Eq, Hash, Structural)]
pub struct AreaIndex {
    pub x: i64,
    pub y: i64,
}

/// A grid of tiles, `tiles[y][x]`, with a uniform tile size and a world
/// position of its top-left corner.
pub struct TileMap {
    pub tiles: Vec<Vec<TileType>>,
    pub position: Vec2,
    pub width: i64,
    pub height: i64,
    pub tile_size: i64,
}

/// Whether `(x, y)` is a tile of a `width` by `height` grid.
pub open spec fn in_grid(width: int, height: int, x: int, y: int) -> bool {
    0 <= x < width && 0 <= y < height
}

impl TileMap {
    /// The grid has `height` rows of `width` tiles and fits in the world.
    pub open spec fn wf(&self) -> bool {
        &&& self.tiles@.len() == self.height
        &&& forall|y: int| 0 <= y < self.height ==> (#[trigger] self.tiles@[y])@.len() == self.width
        &&& 0 <= self.width && 0 <= self.height
        &&& 0 < self.tile_size <= MAX_TILE_SIZE
        &&& self.width * self.tile_size <= COORD_MAX
        &&& self.height * self.tile_size <= COORD_MAX
        &&& self.position.bounded(COORD_MAX as int)
    }

    /// The tile at `(x, y)`; outside the grid every tile is a block.
    pub open spec fn tile_at(&self, x: int, y: int) -> TileType {
        if in_grid(self.width as int, self.height as int, x, y) {
            self.tiles@[y]@[x]
        } else {
            TileType::Block
        }
    }

    pub open spec fn obstacle_at(&self, x: int, y: int) -> bool {
        self.tile_at(x, y) == TileType::Block
    }

    pub open spec fn one_way_at(&self, x: int, y: int) -> bool {
        in_grid(self.width as int, self.height as int, x, y) && self.tiles@[y]@[x]
            == TileType::OneWay
    }

    pub open spec fn ground_at(&self, x: int, y: int) -> bool {
        in_grid(self.width as int, self.height as int, x, y) && self.tiles@[y]@[x]
            != TileType::Empty
    }

    pub open spec fn empty_at(&self, x: int, y: int) -> bool {
        in_grid(self.width as int, self.height as int, x, y) && self.tiles@[y]@[x]
            == TileType::Empty
    }

    /// Column of the tile that holds world coordinate `x`.
    pub open spec fn column_of(&self, x: int) -> int {
        (x - self.position.x) / (self.tile_size as int)
    }

    /// Row of the tile that holds world coordinate `y`.
    pub open spec fn row_of(&self, y: int) -> int {
        (y - self.position.y) / (self.tile_size as int)
    }

    /// Row at world coordinate `y`, rounded to the nearest tile boundary
    /// (the row whose top edge is closest to `y` from above or below).
    pub open spec fn row_near(&self, y: int) -> int {
        (y - self.position.y + self.tile_size / 2) / (self.tile_size as int)
    }

    pub fn new(tiles: Vec<Vec<TileType>>, position: Vec2, width: i64, height: i64, tile_size: i64) -> (r: TileMap)
        requires
            tiles@.len() == height,
            forall|y: int| 0 <= y < height ==> (#[trigger] tiles@[y])@.len() == width,
            0 <= width,
            0 <= height,
            0 < tile_size <= MAX_TILE_SIZE,
            width * tile_size <= COORD_MAX,
            height * tile_size <= COORD_MAX,
            position.bounded(COORD_MAX as int),
        ensures
            r.wf(),
            r.tiles@ == tiles@,
            r.position == position,
            r.width == width,
            r.height == height,
            r.tile_size == tile_size,
    {
        TileMap { tiles, position, width, height, tile_size }
    }

    /// The tile that holds a world point.
    pub fn get_map_tile_in_point(&self, point: Vec2) -> (r: AreaIndex)
        requires
            self.wf(),
            point.bounded(2 * WORLD_MAX),
        ensures
            r.x == self.column_of(point.x as int),
            r.y == self.row_of(point.y as int),
    {
        AreaIndex {
            x: crate::geometry::floor_div(point.x - self.position.x, self.tile_size),
            y: crate::geometry::floor_div(point.y - self.position.y, self.tile_size),
        }
    }

    pub fn get_map_tile_y_at_point(&self, y: i64) -> (r: i64)
        requires
            self.wf(),
            -2 * WORLD_MAX <= y <= 2 * WORLD_MAX,
        ensures
            r == self.row_near(y as int),
    {
        crate::geometry::floor_div(y - self.position.y + self.tile_size / 2, self.tile_size)
    }

    pub fn get_map_tile_x_at_point(&self, x: i64) -> (r: i64)
        requires
            self.wf(),
            -2 * WORLD_MAX <= x <= 2 * WORLD_MAX,
        ensures
            r == self.column_of(x as int),
    {
        crate::geometry::floor_div(x - self.position.x, self.tile_size)
    }

    /// World position of the top-left corner of a tile.
    pub fn get_map_tile_position(&self, tile_index_x: i64, tile_index_y: i64) -> (r: Vec2)
        requires
            self.wf(),
            -4 * WORLD_MAX <= tile_index_x <= 4 * WORLD_MAX,
            -4 * WORLD_MAX <= tile_index_y <= 4 * WORLD_MAX,
        ensures
            r.x == tile_index_x * self.tile_size + self.position.x,
            r.y == tile_index_y * self.tile_size + self.position.y,
    {
        proof {
            lemma_tile_edge_fits(tile_index_x as int, self.tile_size as int);
            lemma_tile_edge_fits(tile_index_y as int, self.tile_size as int);
        }
        Vec2 {
            x: tile_index_x * self.tile_size + self.position.x,
            y: tile_index_y * self.tile_size + self.position.y,
        }
    }

    fn stored_tile(&self, x: i64, y: i64) -> (r: TileType)
        requires
            self.wf(),
            in_grid(self.width as int, self.height as int, x as int, y as int),
        ensures
            r == self.tiles@[y as int]@[x as int],
    {
        let rows = self.tiles.len();
        assert(y < rows);
        let row = &self.tiles[y as usize];
        let cols = row.len();
        assert(x < cols);
        row[x as usize]
    }

    pub fn get_tile(&self, x: i64, y: i64) -> (r: TileType)
        requires
            self.wf(),
        ensures
            r == self.tile_at(x as int, y as int),
    {
        if x < 0 || x >= self.width || y < 0 || y >= self.height {
            return TileType::Block;
        }
        self.stored_tile(x, y)
    }

    /// Whether the tile blocks motion; everything outside the grid does.
    pub fn is_obstacle(&self, x: i64, y: i64) -> (r: bool)
        requires
            self.wf(),
        ensures
            r == self.obstacle_at(x as int, y as int),
    {
        if x < 0 || x >= self.width || y < 0 || y >= self.height {
            return true;
        }
        self.stored_tile(x, y) == TileType::Block
    }

    /// Whether the tile can be stood on; nothing outside the grid can.
    pub fn is_ground(&self, x: i64, y: i64) -> (r: bool)
        requires
            self.wf(),
        ensures
            r == self.ground_at(x as int, y as int),
    {
        if x < 0 || x >= self.width || y < 0 || y >= self.height {
            return false;
        }
        let t = self.stored_tile(x, y);
        t == TileType::OneWay || t == TileType::Block
    }

    pub fn is_one_way_platform(&self, x: i64, y: i64) -> (r: bool)
        requires
            self.wf(),
        ensures
            r == self.one_way_at(x as int, y as int),
    {
        if x < 0 || x >= self.width || y < 0 || y >= self.height {
            return false;
        }
        self.stored_tile(x, y) == TileType::OneWay
    }

    pub fn is_empty(&self, x: i64, y: i64) -> (r: bool)
        requires
            self.wf(),
        ensures
            r == self.empty_at(x as int, y as int),
    {
        if x < 0 || x >= self.width || y < 0 || y >= self.height {
            return false;
        }
        self.stored_tile(x, y) == TileType::Empty
    }

    /// Scrolls the map by `(x, y)` scaled by the tile layer's parallax
    /// factor of six fifths, rounded toward zero.
    pub fn move_object(&mut self, x: i64, y: i64)
        requires
            old(self).wf(),
            -COORD_MAX <= x <= COORD_MAX,
            -COORD_MAX <= y <= COORD_MAX,
            old(self).position.x + crate::geometry::div_trunc(x * 6, 5) <= COORD_MAX,
            old(self).position.x + crate::geometry::div_trunc(x * 6, 5) >= -COORD_MAX,
            old(self).position.y + crate::geometry::div_trunc(y * 6, 5) <= COORD_MAX,
            old(self).position.y + crate::geometry::div_trunc(y * 6, 5) >= -COORD_MAX,
        ensures
            final(self).wf(),
            final(self).tiles == old(self).tiles,
            final(self).width == old(self).width,
            final(self).height == old(self).height,
            final(self).tile_size == old(self).tile_size,
            final(self).position.x == old(self).position.x + crate::geometry::div_trunc(x * 6, 5),
            final(self).position.y == old(self).position.y + crate::geometry::div_trunc(y * 6, 5),
    {
        let dx = crate::geometry::trunc_div(x * 6, 5);
        let dy = crate::geometry::trunc_div(y * 6, 5);
        self.position = Vec2 { x: self.position.x + dx, y: self.position.y + dy };
    }
}

/// A tile edge `index * tile_size` fits comfortably in an `i64`.
pub proof fn lemma_tile_edge_fits(index: int, tile_size: int)
    requires
        -4 * WORLD_MAX <= index <= 4 * WORLD_MAX,
        0 < tile_size <= MAX_TILE_SIZE,
    ensures
        -4 * WORLD_MAX * MAX_TILE_SIZE <= index * tile_size <= 4 * WORLD_MAX * MAX_TILE_SIZE,
{
    assert(-4 * WORLD_MAX * MAX_TILE_SIZE <= index * tile_size <= 4 * WORLD_MAX * MAX_TILE_SIZE)
        by (nonlinear_arith)
        requires
            -4 * WORLD_MAX <= index <= 4 * WORLD_MAX,
            0 < tile_size <= MAX_TILE_SIZE,
    ;
}

/// Tile indices of coordinates in range stay small.
pub proof fn lemma_index_bounds(m: TileMap, v: int)
    requires
        m.wf(),
        -2 * WORLD_MAX <= v <= 2 * WORLD_MAX,
    ensures
        -3 * WORLD_MAX <= m.column_of(v) <= 3 * WORLD_MAX,
        -3 * WORLD_MAX <= m.row_of(v) <= 3 * WORLD_MAX,
        -3 * WORLD_MAX <= m.row_near(v) <= 3 * WORLD_MAX,
{
    crate::geometry::lemma_div_bounded(v - m.position.x, m.tile_size as int);
    crate::geometry::lemma_div_bounded(v - m.position.y, m.tile_size as int);
    crate::geometry::lemma_div_bounded(v - m.position.y + m.tile_size / 2, m.tile_size as int);
}

/// Where a coordinate lies relative to the edges of its tile.
pub proof fn lemma_tile_edges(m: TileMap, v: int)
    requires
        m.wf(),
    ensures
        m.column_of(v) * m.tile_size + m.position.x <= v,
        v < m.column_of(v) * m.tile_size + m.position.x + m.tile_size,
        m.row_of(v) * m.tile_size + m.position.y <= v,
        v < m.row_of(v) * m.tile_size + m.position.y + m.tile_size,
        m.row_near(v) * m.tile_size + m.position.y <= v + m.tile_size / 2,
        v + m.tile_size / 2 < m.row_near(v) * m.tile_size + m.position.y + m.tile_size,
{
    crate::geometry::lemma_floor_edge(v - m.position.x, m.tile_size as int);
    crate::geometry::lemma_floor_edge(v - m.position.y, m.tile_size as int);
    crate::geometry::lemma_floor_edge(v - m.position.y + m.tile_size / 2, m.tile_size as int);
}

/// Every tile outside the grid is an obstacle.
pub proof fn lemma_outside_is_obstacle(m: TileMap, x: int, y: int)
    requires
        m.wf(),
        !in_grid(m.width as int, m.height as int, x, y),
    ensures
        m.obstacle_at(x, y),
        !m.ground_at(x, y),
        !m.one_way_at(x, y),
        !m.empty_at(x, y),
{
}

} // verus!
