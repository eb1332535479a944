//! The visibility tracker: what the single observer can see, and what it has ever seen.

use vstd::prelude::*;
use crate::tile::{Tile, TileMap};

verus! {

/// A grid of flags stored column by column: `cells[x][y]`.
pub struct Grid {
    pub cells: Vec<Vec<bool>>,
}

impl Grid {
    /// Number of columns.
    pub open spec fn width(&self) -> int {
        self.cells@.len() as int
    }

    /// Every column has `height` entries.
    pub open spec fn has_height(&self, height: int) -> bool {
        forall|x: int| 0 <= x < self.width() ==> (#[trigger] self.cells@[x])@.len() == height
    }

    /// The flag at `(x, y)`.
    pub open spec fn at(&self, x: int, y: int) -> bool {
        self.cells@[x]@[y]
    }

    /// A grid of the given size in which every flag is `value`.
    pub fn filled(width: usize, height: usize, value: bool) -> (g: Self)
        ensures
            g.width() == width,
            g.has_height(height as int),
            forall|x: int, y: int| 0 <= x < width && 0 <= y < height ==> g.at(x, y) == value,
    {
        let mut cells: Vec<Vec<bool>> = Vec::new();
        let mut x: usize = 0;
        while x < width
            invariant
                x <= width,
                cells@.len() == x,
                forall|i: int| 0 <= i < x ==> (#[trigger] cells@[i])@.len() == height,
                forall|i: int, j: int|
                    0 <= i < x && 0 <= j < height ==> (#[trigger] cells@[i]@[j]) == value,
            decreases width - x,
        {
            let mut column: Vec<bool> = Vec::new();
            let mut y: usize = 0;
            while y < height
                invariant
                    y <= height,
                    column@.len() == y,
                    forall|j: int| 0 <= j < y ==> (#[trigger] column@[j]) == value,
                decreases height - y,
            {
                column.push(value);
                y += 1;
            }
            cells.push(column);
            x += 1;
        }
        Grid { cells }
    }

    /// Overwrites the flag at `(x, y)`.
    pub fn set(&mut self, x: usize, y: usize, value: bool)
        requires
            x < old(self).width(),
            y < old(self).cells@[x as int]@.len(),
        ensures
            final(self).width() == old(self).width(),
            forall|i: int|
                0 <= i < old(self).width() ==> (#[trigger] final(self).cells@[i])@.len() == old(
                    self
                ).cells@[i]@.len(),
            forall|i: int, j: int|
                0 <= i < old(self).width() && 0 <= j < old(self).cells@[i]@.len()
                    ==> #[trigger] final(self).at(i, j) == if i == x && j == y {
                    value
                } else {
                    old(self).at(i, j)
                },
    {
        self.cells[x][y] = value;
    }
}

/// Per-tile transparency and walkability, fixed at setup, and the tiles visible right now.
pub struct FovMap {
    pub width: usize,
    pub height: usize,
    pub transparent: Grid,
    pub walkable: Grid,
    pub visible: Grid,
}

impl FovMap {
    /// The three grids have the tracker's dimensions.
    pub open spec fn wf(&self) -> bool {
        &&& self.width <= i32::MAX
        &&& self.height <= i32::MAX
        &&& self.transparent.width() == self.width
        &&& self.walkable.width() == self.width
        &&& self.visible.width() == self.width
        &&& self.transparent.has_height(self.height as int)
        &&& self.walkable.has_height(self.height as int)
        &&& self.visible.has_height(self.height as int)
    }

    /// Whether `(x, y)` names a cell of the tracker.
    pub open spec fn in_bounds(&self, x: int, y: int) -> bool {
        0 <= x < self.width && 0 <= y < self.height
    }

    /// Whether the tracker covers exactly the cells of `map`.
    pub open spec fn covers(&self, map: &TileMap) -> bool {
        self.width == map.width() && (self.width > 0 ==> self.height == map.height())
    }

    /// Whether `(x, y)` is visible to the observer.
    pub open spec fn sees(&self, x: int, y: int) -> bool {
        self.visible.at(x, y)
    }

    /// Whether the flags fixed at setup are those of `map`: a tile is transparent unless it
    /// blocks sight, and walkable unless it blocks movement.
    pub open spec fn derived_from(&self, map: &TileMap) -> bool {
        &&& self.covers(map)
        &&& forall|x: int, y: int|
            self.in_bounds(x, y) ==> #[trigger] self.transparent.at(x, y) == !map.at(
                x,
                y,
            ).block_sight
        &&& forall|x: int, y: int|
            self.in_bounds(x, y) ==> #[trigger] self.walkable.at(x, y) == !map.at(x, y).blocked
    }

    /// Derives transparency and walkability from `map`; nothing is visible yet.
    pub fn setup(map: &TileMap) -> (f: Self)
        requires
            map.wf(),
        ensures
            f.wf(),
            f.derived_from(map),
            forall|x: int, y: int| f.in_bounds(x, y) ==> !f.sees(x, y),
    {
        let width: usize = map.tiles.len();
        let height: usize = if width == 0 {
            0
        } else {
            map.tiles[0].len()
        };
        let mut f = FovMap {
            width,
            height,
            transparent: Grid::filled(width, height, false),
            walkable: Grid::filled(width, height, false),
            visible: Grid::filled(width, height, false),
        };
        let mut x: usize = 0;
        while x < width
            invariant
                map.wf(),
                x <= width,
                f.wf(),
                f.width == width,
                f.height == height,
                f.covers(map),
                width > 0 ==> height == map.height(),
                forall|i: int, j: int|
                    0 <= i < width && 0 <= j < height ==> !#[trigger] f.visible.at(i, j),
                forall|i: int, j: int|
                    0 <= i < x && 0 <= j < height ==> #[trigger] f.transparent.at(i, j) == !map.at(
                        i,
                        j,
                    ).block_sight,
                forall|i: int, j: int|
                    0 <= i < x && 0 <= j < height ==> #[trigger] f.walkable.at(i, j) == !map.at(
                        i,
                        j,
                    ).blocked,
            decreases width - x,
        {
            let mut y: usize = 0;
            while y < height
                invariant
                    map.wf(),
                    x < width,
                    y <= height,
                    f.wf(),
                    f.width == width,
                    f.height == height,
                    f.covers(map),
                    height == map.height(),
                    forall|i: int, j: int|
                    0 <= i < width && 0 <= j < height ==> !#[trigger] f.visible.at(i, j),
                    forall|i: int, j: int|
                        (0 <= i < x && 0 <= j < height) || (i == x && 0 <= j < y)
                            ==> #[trigger] f.transparent.at(i, j) == !map.at(i, j).block_sight,
                    forall|i: int, j: int|
                        (0 <= i < x && 0 <= j < height) || (i == x && 0 <= j < y)
                            ==> #[trigger] f.walkable.at(i, j) == !map.at(i, j).blocked,
                decreases height - y,
            {
                let t: Tile = map.get(x, y);
                f.transparent.set(x, y, !t.block_sight);
                f.walkable.set(x, y, !t.blocked);
                y += 1;
            }
            x += 1;
        }
        f
    }

    /// Tells whether `(x, y)` is visible to the observer.
    pub fn is_in_fov(&self, x: i32, y: i32) -> (b: bool)
        requires
            self.wf(),
            self.in_bounds(x as int, y as int),
        ensures
            b == self.sees(x as int, y as int),
    {
        self.visible.cells[x as usize][y as usize]
    }

    /// Tells whether light passes through `(x, y)`.
    pub fn is_transparent(&self, x: i32, y: i32) -> (b: bool)
        requires
            self.wf(),
            self.in_bounds(x as int, y as int),
        ensures
            b == self.transparent.at(x as int, y as int),
    {
        self.transparent.cells[x as usize][y as usize]
    }

    /// Tells whether `(x, y)` can be walked on, going by the terrain alone.
    pub fn is_walkable(&self, x: i32, y: i32) -> (b: bool)
        requires
            self.wf(),
            self.in_bounds(x as int, y as int),
        ensures
            b == self.walkable.at(x as int, y as int),
    {
        self.walkable.cells[x as usize][y as usize]
    }

    /// Records whether `(x, y)` is visible, as the field-of-view computation found it.
    pub fn set_in_fov(&mut self, x: i32, y: i32, visible: bool)
        requires
            old(self).wf(),
            old(self).in_bounds(x as int, y as int),
        ensures
            final(self).wf(),
            final(self).width == old(self).width,
            final(self).height == old(self).height,
            final(self).transparent == old(self).transparent,
            final(self).walkable == old(self).walkable,
            final(self).sees(x as int, y as int) == visible,
            forall|i: int, j: int|
                old(self).in_bounds(i, j) && !(i == x && j == y) ==> final(self).sees(i, j) == old(
                    self
                ).sees(i, j),
    {
        self.visible.set(x as usize, y as usize, visible);
    }
}

/// The tile once it has been seen, if `visible` holds; an explored tile stays explored.
pub open spec fn seen(t: Tile, visible: bool) -> Tile {
    Tile { explored: t.explored || visible, ..t }
}

/// Marks every tile that is visible right now as explored. A tile that was explored before
/// stays explored, whether it is visible or not; nothing else about a tile changes.
pub fn mark_explored(map: &mut TileMap, fov: &FovMap)
    requires
        old(map).wf(),
        fov.wf(),
        fov.covers(old(map)),
    ensures
        final(map).wf(),
        final(map).width() == old(map).width(),
        final(map).height() == old(map).height(),
        forall|x: int, y: int|
            old(map).in_bounds(x, y) ==> #[trigger] final(map).at(x, y) == seen(
                old(map).at(x, y),
                fov.sees(x, y),
            ),
        forall|x: int, y: int|
            old(map).in_bounds(x, y) && old(map).at(x, y).explored ==> (#[trigger] final(map).at(
                x,
                y,
            )).explored,
{
    let ghost before = *map;
    let width: usize = fov.width;
    let height: usize = fov.height;
    let mut x: usize = 0;
    while x < width
        invariant
            before.wf(),
            fov.wf(),
            fov.covers(&before),
            width == fov.width,
            height == fov.height,
            x <= width,
            map.wf(),
            map.width() == before.width(),
            map.height() == before.height(),
            forall|i: int, j: int|
                before.in_bounds(i, j) ==> #[trigger] map.at(i, j) == if i < x {
                    seen(before.at(i, j), fov.sees(i, j))
                } else {
                    before.at(i, j)
                },
        decreases width - x,
    {
        let mut y: usize = 0;
        while y < height
            invariant
                before.wf(),
                fov.wf(),
                fov.covers(&before),
                width == fov.width,
                height == fov.height,
                x < width,
                y <= height,
                map.wf(),
                map.width() == before.width(),
                map.height() == before.height(),
                forall|i: int, j: int|
                    before.in_bounds(i, j) ==> #[trigger] map.at(i, j) == if i < x || (i == x && j
                        < y) {
                        seen(before.at(i, j), fov.sees(i, j))
                    } else {
                        before.at(i, j)
                    },
            decreases height - y,
        {
            if fov.is_in_fov(x as i32, y as i32) {
                let t: Tile = map.get(x, y);
                map.set(x, y, Tile { explored: true, ..t });
            }
            y += 1;
        }
        x += 1;
    }
}

/// A tile that is explored stays explored, whatever is visible afterwards.
pub proof fn explored_stays(t: Tile, visible: bool, later: bool)
    ensures
        t.explored ==> seen(t, visible).explored,
        seen(t, visible).explored ==> seen(seen(t, visible), later).explored,
        visible ==> seen(t, visible).explored,
        seen(t, visible).blocked == t.blocked,
        seen(t, visible).block_sight == t.block_sight,
{
}

} // verus!
