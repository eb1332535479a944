//! Tiles and the fixed-size grid that holds them.

use vstd::prelude::*;

verus! {

/// One cell of the dungeon grid.
#[derive(Clone, Copy, Debug, PartialEq, Eq, Structural)]
pub struct Tile {
    pub blocked: bool,
    pub block_sight: bool,
    pub explored: bool,
}

impl Tile {
    /// A floor tile: passable, transparent and not yet seen.
    pub fn empty() -> (t: Self)
        ensures
            t == floor_tile(),
    {
        Tile { blocked: false, explored: false, block_sight: false }
    }

    /// A wall tile: impassable, opaque and not yet seen.
    pub fn wall() -> (t: Self)
        ensures
            t == wall_tile(),
    {
        Tile { blocked: true, explored: false, block_sight: true }
    }
}

/// The floor tile as a specification value.
pub open spec fn floor_tile() -> Tile {
    Tile { blocked: false, block_sight: false, explored: false }
}

/// The wall tile as a specification value.
pub open spec fn wall_tile() -> Tile {
    Tile { blocked: true, block_sight: true, explored: false }
}

/// A grid of tiles stored column by column: `tiles[x][y]`.
pub struct TileMap {
    pub tiles: Vec<Vec<Tile>>,
}

impl TileMap {
    /// Number of columns.
    pub open spec fn width(&self) -> int {
        self.tiles@.len() as int
    }

    /// Number of rows, taken from the first column.
    pub open spec fn height(&self) -> int {
        if self.tiles@.len() == 0 {
            0
        } else {
            self.tiles@[0]@.len() as int
        }
    }

    /// Every column has the same length and both dimensions fit an `i32`.
    pub open spec fn wf(&self) -> bool {
        &&& self.width() <= i32::MAX
        &&& self.height() <= i32::MAX
        &&& forall|x: int| 0 <= x < self.width() ==> (#[trigger] self.tiles@[x])@.len() == self.height()
    }

    /// Whether `(x, y)` names a cell of the grid.
    pub open spec fn in_bounds(&self, x: int, y: int) -> bool {
        0 <= x < self.width() && 0 <= y < self.height()
    }

    /// The tile at `(x, y)`.
    pub open spec fn at(&self, x: int, y: int) -> Tile {
        self.tiles@[x]@[y]
    }

    /// Whether `(x, y)` lies on the outermost ring of the grid.
    pub open spec fn on_edge(&self, x: int, y: int) -> bool {
        x == 0 || y == 0 || x == self.width() - 1 || y == self.height() - 1
    }

    /// Every tile on the outermost ring of the grid blocks movement.
    pub open spec fn bordered(&self) -> bool {
        forall|x: int, y: int|
            self.in_bounds(x, y) && self.on_edge(x, y) ==> (#[trigger] self.at(x, y)).blocked
    }

    /// Whether the tile at `(x, y)` blocks movement.
    pub open spec fn blocked_at(&self, x: int, y: int) -> bool {
        self.at(x, y).blocked
    }

    /// A grid of the given size in which every tile is a wall.
    pub fn new(width: usize, height: usize) -> (m: Self)
        requires
            width <= i32::MAX,
            height <= i32::MAX,
        ensures
            m.wf(),
            m.width() == width,
            width > 0 ==> m.height() == height,
            forall|x: int, y: int| 0 <= x < width && 0 <= y < height ==> m.at(x, y) == wall_tile(),
    {
        let mut tiles: Vec<Vec<Tile>> = Vec::new();
        let mut x: usize = 0;
        while x < width
            invariant
                x <= width,
                tiles@.len() == x,
                forall|i: int| 0 <= i < x ==> (#[trigger] tiles@[i])@.len() == height,
                forall|i: int, j: int|
                    0 <= i < x && 0 <= j < height ==> (#[trigger] tiles@[i]@[j]) == wall_tile(),
            decreases width - x,
        {
            let mut column: Vec<Tile> = Vec::new();
            let mut y: usize = 0;
            while y < height
                invariant
                    y <= height,
                    column@.len() == y,
                    forall|j: int| 0 <= j < y ==> (#[trigger] column@[j]) == wall_tile(),
                decreases height - y,
            {
                column.push(Tile::wall());
                y += 1;
            }
            tiles.push(column);
            x += 1;
        }
        TileMap { tiles }
    }

    /// Reads the tile at `(x, y)`.
    pub fn get(&self, x: usize, y: usize) -> (t: Tile)
        requires
            self.wf(),
            self.in_bounds(x as int, y as int),
        ensures
            t == self.at(x as int, y as int),
    {
        self.tiles[x][y]
    }

    /// Tells whether the tile at `(x, y)` has ever been seen.
    pub fn is_explored(&self, x: i32, y: i32) -> (b: bool)
        requires
            self.wf(),
            self.in_bounds(x as int, y as int),
        ensures
            b == self.at(x as int, y as int).explored,
    {
        self.tiles[x as usize][y as usize].explored
    }

    /// Overwrites the tile at `(x, y)`.
    pub fn set(&mut self, x: usize, y: usize, t: Tile)
        requires
            old(self).wf(),
            old(self).in_bounds(x as int, y as int),
        ensures
            final(self).wf(),
            final(self).width() == old(self).width(),
            final(self).height() == old(self).height(),
            final(self).at(x as int, y as int) == t,
            forall|i: int, j: int|
                old(self).in_bounds(i, j) && !(i == x && j == y) ==> final(self).at(i, j)
                    == old(self).at(i, j),
    {
        self.tiles[x][y] = t;
    }
}

} // verus!
