//! Carving rooms and corridors out of solid rock.

use vstd::prelude::*;
use crate::rect::Rect;
use crate::tile::{floor_tile, Tile, TileMap};

verus! {

/// Whether `v` lies between `a` and `b`, whichever of the two is smaller.
pub open spec fn between(a: int, b: int, v: int) -> bool {
    (a <= v <= b) || (b <= v <= a)
}

/// `after` is `before` with exactly the cells of `region` turned into floor.
pub open spec fn carved(before: &TileMap, after: &TileMap, region: spec_fn(int, int) -> bool) -> bool {
    &&& after.wf()
    &&& after.width() == before.width()
    &&& after.height() == before.height()
    &&& forall|x: int, y: int|
        before.in_bounds(x, y) ==> #[trigger] after.at(x, y) == if region(x, y) {
            floor_tile()
        } else {
            before.at(x, y)
        }
}

/// The cells of a room that become floor: everything strictly inside its boundary.
pub open spec fn room_region(room: Rect) -> spec_fn(int, int) -> bool {
    |x: int, y: int| room.interior(x, y)
}

/// The cells of a horizontal corridor in row `y` between columns `x1` and `x2`.
pub open spec fn h_tunnel_region(x1: int, x2: int, y: int) -> spec_fn(int, int) -> bool {
    |i: int, j: int| j == y && between(x1, x2, i)
}

/// The cells of a vertical corridor in column `x` between rows `y1` and `y2`.
pub open spec fn v_tunnel_region(y1: int, y2: int, x: int) -> spec_fn(int, int) -> bool {
    |i: int, j: int| i == x && between(y1, y2, j)
}

/// Whether every interior cell of `room` is a cell of `map`.
pub open spec fn room_fits(room: Rect, map: &TileMap) -> bool {
    (room.x1 + 1 < room.x2 && room.y1 + 1 < room.y2) ==> (0 <= room.x1 + 1 && room.x2
        <= map.width() && 0 <= room.y1 + 1 && room.y2 <= map.height())
}

/// Turns the interior of `room` into floor; its boundary cells are left as they are.
pub fn create_room(room: Rect, map: &mut TileMap)
    requires
        old(map).wf(),
        room_fits(room, old(map)),
    ensures
        carved(old(map), final(map), room_region(room)),
{
    if room.x1 >= room.x2 || room.y1 >= room.y2 {
        return ;
    }
    if room.x1 + 1 >= room.x2 || room.y1 + 1 >= room.y2 {
        return ;
    }
    let ghost before = *map;
    let mut x: i32 = room.x1 + 1;
    while x < room.x2
        invariant
            before.wf(),
            room.x1 + 1 <= x <= room.x2,
            room.y1 + 1 < room.y2,
            0 <= room.x1 + 1 && room.x2 <= before.width(),
            0 <= room.y1 + 1 && room.y2 <= before.height(),
            carved(&before, map, |i: int, j: int| room.interior(i, j) && i < x),
        decreases room.x2 - x,
    {
        let mut y: i32 = room.y1 + 1;
        while y < room.y2
            invariant
                before.wf(),
                room.x1 + 1 <= x < room.x2,
                room.y1 + 1 <= y <= room.y2,
                0 <= room.x1 + 1 && room.x2 <= before.width(),
                0 <= room.y1 + 1 && room.y2 <= before.height(),
                carved(
                    &before,
                    map,
                    |i: int, j: int| room.interior(i, j) && (i < x || (i == x && j < y)),
                ),
            decreases room.y2 - y,
        {
            map.set(x as usize, y as usize, Tile::empty());
            y += 1;
        }
        x += 1;
    }
}

/// Carves a horizontal corridor in row `y` from column `x1` to column `x2`, both included.
pub fn create_h_tunnel(x1: i32, x2: i32, y: i32, map: &mut TileMap)
    requires
        old(map).wf(),
        old(map).in_bounds(x1 as int, y as int),
        old(map).in_bounds(x2 as int, y as int),
    ensures
        carved(old(map), final(map), h_tunnel_region(x1 as int, x2 as int, y as int)),
{
    let lo: i32 = if x1 <= x2 { x1 } else { x2 };
    let hi: i32 = if x1 <= x2 { x2 } else { x1 };
    let ghost before = *map;
    let mut x: i32 = lo;
    while x <= hi
        invariant
            before.wf(),
            0 <= lo <= x <= hi + 1,
            hi < before.width(),
            0 <= y < before.height(),
            carved(&before, map, |i: int, j: int| j == y && lo <= i < x),
        decreases hi + 1 - x,
    {
        map.set(x as usize, y as usize, Tile::empty());
        x += 1;
    }
}

/// Carves a vertical corridor in column `x` from row `y1` to row `y2`, both included.
pub fn create_v_tunnel(y1: i32, y2: i32, x: i32, map: &mut TileMap)
    requires
        old(map).wf(),
        old(map).in_bounds(x as int, y1 as int),
        old(map).in_bounds(x as int, y2 as int),
    ensures
        carved(old(map), final(map), v_tunnel_region(y1 as int, y2 as int, x as int)),
{
    let lo: i32 = if y1 <= y2 { y1 } else { y2 };
    let hi: i32 = if y1 <= y2 { y2 } else { y1 };
    let ghost before = *map;
    let mut y: i32 = lo;
    while y <= hi
        invariant
            before.wf(),
            0 <= lo <= y <= hi + 1,
            hi < before.height(),
            0 <= x < before.width(),
            carved(&before, map, |i: int, j: int| i == x && lo <= j < y),
        decreases hi + 1 - y,
    {
        map.set(x as usize, y as usize, Tile::empty());
        y += 1;
    }
}

} // verus!
