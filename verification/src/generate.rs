//! The dungeon generator: rooms that do not touch, joined in a chain by corridors.

use vstd::prelude::*;
use crate::carve::{between, carved, create_h_tunnel, create_v_tunnel};
use crate::movement::occupied;
use crate::object::ObjectView;
use crate::populate::is_spawn;
use crate::reach::{column_connected, connected, connected_trans, open_at, row_connected};
use crate::rect::Rect;
use crate::tile::{floor_tile, wall_tile, TileMap};

verus! {

/// The numbers that shape a level.
#[derive(Clone, Copy, Debug)]
pub struct MapConfig {
    pub width: i32,
    pub height: i32,
    pub max_rooms: i32,
    pub room_min_size: i32,
    pub room_max_size: i32,
    pub max_room_monsters: i32,
    pub max_room_items: i32,
}

impl MapConfig {
    /// A room has an interior, the largest room leaves a wall on every side of the map, and
    /// no count is negative.
    pub open spec fn valid(&self) -> bool {
        &&& 2 <= self.room_min_size <= self.room_max_size
        &&& self.room_max_size < self.width
        &&& self.room_max_size < self.height
        &&& 0 <= self.max_rooms
        &&& 0 <= self.max_room_monsters < i32::MAX
        &&& 0 <= self.max_room_items < i32::MAX
    }

    /// Whether `room` lies on the map, clear of its last column and row, with sides of the
    /// lengths that the configuration allows.
    pub open spec fn admits(&self, room: Rect) -> bool {
        &&& 0 <= room.x1
        &&& room.x2 < self.width
        &&& 0 <= room.y1
        &&& room.y2 < self.height
        &&& self.room_min_size <= room.x2 - room.x1 <= self.room_max_size
        &&& self.room_min_size <= room.y2 - room.y1 <= self.room_max_size
    }
}

/// Whether `room` intersects one of `rooms`.
pub open spec fn intersects_some(room: Rect, rooms: Seq<Rect>) -> bool {
    exists|i: int| 0 <= i < rooms.len() && #[trigger] room.spec_intersects(&rooms[i])
}

/// Whether no two of `rooms` intersect, touching counted as intersecting.
pub open spec fn disjoint_rooms(rooms: Seq<Rect>) -> bool {
    forall|i: int, j: int|
        0 <= i < j < rooms.len() ==> !#[trigger] rooms[i].spec_intersects(&rooms[j])
}

/// Whether `(x, y)` lies in the interior of one of `rooms`.
pub open spec fn in_some_room(rooms: Seq<Rect>, x: int, y: int) -> bool {
    exists|i: int| 0 <= i < rooms.len() && (#[trigger] rooms[i]).interior(x, y)
}

/// The cells of the corridor from `a` to `b`: along the row of `a` and then the column of
/// `b` if `horizontal_first` holds, along the column of `a` and then the row of `b` if not.
pub open spec fn on_corridor(
    a: (int, int),
    b: (int, int),
    horizontal_first: bool,
    x: int,
    y: int,
) -> bool {
    if horizontal_first {
        (y == a.1 && between(a.0, b.0, x)) || (x == b.0 && between(a.1, b.1, y))
    } else {
        (x == a.0 && between(a.1, b.1, y)) || (y == b.1 && between(a.0, b.0, x))
    }
}

/// The corridor from `a` to `b` as a region.
pub open spec fn corridor_region(a: (int, int), b: (int, int), horizontal_first: bool) -> spec_fn(
    int,
    int,
) -> bool {
    |x: int, y: int| on_corridor(a, b, horizontal_first, x, y)
}

/// A corridor whose cells are all open connects its two ends.
pub proof fn corridor_connects(map: &TileMap, a: (int, int), b: (int, int), horizontal_first: bool)
    requires
        forall|x: int, y: int| #[trigger]
            on_corridor(a, b, horizontal_first, x, y) ==> open_at(map, (x, y)),
    ensures
        connected(map, a, b),
{
    if horizontal_first {
        assert forall|x: int| #[trigger] between(a.0, b.0, x) implies open_at(map, (x, a.1)) by {
            assert(on_corridor(a, b, horizontal_first, x, a.1));
        }
        row_connected(map, a.0, b.0, a.1);
        assert forall|y: int| #[trigger] between(a.1, b.1, y) implies open_at(map, (b.0, y)) by {
            assert(on_corridor(a, b, horizontal_first, b.0, y));
        }
        column_connected(map, a.1, b.1, b.0);
        connected_trans(map, a, (b.0, a.1), b);
    } else {
        assert forall|y: int| #[trigger] between(a.1, b.1, y) implies open_at(map, (a.0, y)) by {
            assert(on_corridor(a, b, horizontal_first, a.0, y));
        }
        column_connected(map, a.1, b.1, a.0);
        assert forall|x: int| #[trigger] between(a.0, b.0, x) implies open_at(map, (x, b.1)) by {
            assert(on_corridor(a, b, horizontal_first, x, b.1));
        }
        row_connected(map, a.0, b.0, b.1);
        connected_trans(map, a, (a.0, b.1), b);
    }
}

/// Tells whether `room` intersects one of the rooms accepted so far.
pub fn intersects_any(room: &Rect, rooms: &Vec<Rect>) -> (b: bool)
    ensures
        b == intersects_some(*room, rooms@),
{
    let mut i: usize = 0;
    while i < rooms.len()
        invariant
            i <= rooms@.len(),
            forall|k: int| 0 <= k < i ==> !#[trigger] room.spec_intersects(&rooms@[k]),
        decreases rooms@.len() - i,
    {
        if room.intersects_with(&rooms[i]) {
            return true;
        }
        i += 1;
    }
    false
}

/// Carves the corridor from `prev` to `next`, with its bend where `horizontal_first` puts it.
pub fn connect_rooms(prev: (i32, i32), next: (i32, i32), horizontal_first: bool, map: &mut TileMap)
    requires
        old(map).wf(),
        old(map).in_bounds(prev.0 as int, prev.1 as int),
        old(map).in_bounds(next.0 as int, next.1 as int),
    ensures
        carved(
            old(map),
            final(map),
            corridor_region(
                (prev.0 as int, prev.1 as int),
                (next.0 as int, next.1 as int),
                horizontal_first,
            ),
        ),
{
    let (prev_x, prev_y) = prev;
    let (new_x, new_y) = next;
    if horizontal_first {
        create_h_tunnel(prev_x, new_x, prev_y, map);
        create_v_tunnel(prev_y, new_y, new_x, map);
    } else {
        create_v_tunnel(prev_y, new_y, prev_x, map);
        create_h_tunnel(prev_x, new_x, new_y, map);
    }
}

/// A generated level: the map, the rooms in the order in which they were accepted, for each
/// room after the first whether the corridor from its predecessor runs along the row
/// first, and the centre of the first room, where the player starts.
pub struct Level {
    pub map: TileMap,
    pub rooms: Vec<Rect>,
    pub bends: Vec<bool>,
    pub spawn: Option<(i32, i32)>,
}

/// Whether `(x, y)` lies on the corridor between one room and the next.
pub open spec fn on_some_corridor(rooms: Seq<Rect>, bends: Seq<bool>, x: int, y: int) -> bool {
    exists|i: int|
        0 <= i < bends.len() && #[trigger] on_corridor(
            rooms[i].spec_center(),
            rooms[i + 1].spec_center(),
            bends[i],
            x,
            y,
        )
}

/// Whether `(x, y)` was dug out: it lies inside a room or on a corridor.
pub open spec fn dug(rooms: Seq<Rect>, bends: Seq<bool>, x: int, y: int) -> bool {
    in_some_room(rooms, x, y) || on_some_corridor(rooms, bends, x, y)
}

/// Whether the map is floor exactly where something was dug out, and wall elsewhere.
pub open spec fn dug_exactly(map: &TileMap, rooms: Seq<Rect>, bends: Seq<bool>) -> bool {
    forall|x: int, y: int|
        map.in_bounds(x, y) ==> #[trigger] map.at(x, y) == if dug(rooms, bends, x, y) {
            floor_tile()
        } else {
            wall_tile()
        }
}

/// Whether the centre of every room can be reached from the centre of the first.
pub open spec fn rooms_connected(map: &TileMap, rooms: Seq<Rect>) -> bool {
    forall|i: int|
        0 <= i < rooms.len() ==> connected(
            map,
            rooms[0].spec_center(),
            (#[trigger] rooms[i]).spec_center(),
        )
}

impl Level {
    /// What holds of every generated level: the map has the configured size and a closed
    /// edge; every room is one that the configuration admits; no two rooms intersect or
    /// touch; there is one corridor for each room after the first; the map is floor exactly
    /// inside the rooms and on the corridors; and every room's centre can be reached from
    /// the first room's centre.
    pub open spec fn wf(&self, cfg: MapConfig) -> bool {
        &&& self.map.wf()
        &&& self.map.width() == cfg.width
        &&& self.map.height() == cfg.height
        &&& self.map.bordered()
        &&& forall|i: int| 0 <= i < self.rooms@.len() ==> cfg.admits(#[trigger] self.rooms@[i])
        &&& disjoint_rooms(self.rooms@)
        &&& self.bends@.len() == if self.rooms@.len() == 0 {
            0
        } else {
            self.rooms@.len() - 1
        }
        &&& dug_exactly(&self.map, self.rooms@, self.bends@)
        &&& rooms_connected(&self.map, self.rooms@)
        &&& self.spawn == if self.rooms@.len() == 0 {
            None::<(i32, i32)>
        } else {
            Some(
                (
                    self.rooms@[0].spec_center().0 as i32,
                    self.rooms@[0].spec_center().1 as i32,
                ),
            )
        }
    }
}

/// The centre of an admitted room lies in its interior, hence off the edge of the map.
pub proof fn center_inside(cfg: MapConfig, room: Rect)
    requires
        cfg.valid(),
        cfg.admits(room),
    ensures
        room.interior(room.spec_center().0, room.spec_center().1),
        0 < room.spec_center().0 < cfg.width - 1,
        0 < room.spec_center().1 < cfg.height - 1,
{
}

/// What was dug out lies off the edge of the map.
pub proof fn dug_off_edge(cfg: MapConfig, rooms: Seq<Rect>, bends: Seq<bool>, x: int, y: int)
    requires
        cfg.valid(),
        forall|i: int| 0 <= i < rooms.len() ==> cfg.admits(#[trigger] rooms[i]),
        bends.len() < rooms.len() || bends.len() == 0,
        dug(rooms, bends, x, y),
    ensures
        0 < x < cfg.width - 1,
        0 < y < cfg.height - 1,
{
    if in_some_room(rooms, x, y) {
        let i = choose|i: int| 0 <= i < rooms.len() && (#[trigger] rooms[i]).interior(x, y);
        assert(cfg.admits(rooms[i]));
    } else {
        let i = choose|i: int|
            0 <= i < bends.len() && #[trigger] on_corridor(
                rooms[i].spec_center(),
                rooms[i + 1].spec_center(),
                bends[i],
                x,
                y,
            );
        assert(cfg.admits(rooms[i]));
        assert(cfg.admits(rooms[i + 1]));
        center_inside(cfg, rooms[i]);
        center_inside(cfg, rooms[i + 1]);
    }
}

/// Whether entity `k` is a monster or a potion that stands inside one of `rooms`, on a tile
/// on which no blocking entity before it in the sequence stands, the player at index 0 left
/// aside.
pub open spec fn spawned_in(rooms: Seq<Rect>, objects: Seq<ObjectView>, k: int) -> bool {
    &&& is_spawn(objects[k])
    &&& in_some_room(rooms, objects[k].x as int, objects[k].y as int)
    &&& !occupied(objects.subrange(1, k), objects[k].x as int, objects[k].y as int)
}

/// Whether every entity from index `from` on is as [`spawned_in`] says.
pub open spec fn populated(rooms: Seq<Rect>, objects: Seq<ObjectView>, from: int) -> bool {
    forall|k: int| from <= k < objects.len() ==> #[trigger] spawned_in(rooms, objects, k)
}

/// One more room digs out its interior and nothing else.
pub proof fn dug_after_room(rooms: Seq<Rect>, bends: Seq<bool>, room: Rect, x: int, y: int)
    requires
        bends.len() < rooms.len() || bends.len() == 0,
    ensures
        dug(rooms.push(room), bends, x, y) == (dug(rooms, bends, x, y) || room.interior(x, y)),
{
    let more = rooms.push(room);
    if in_some_room(rooms, x, y) {
        let i = choose|i: int| 0 <= i < rooms.len() && (#[trigger] rooms[i]).interior(x, y);
        assert(more[i].interior(x, y));
    }
    if room.interior(x, y) {
        assert(more[rooms.len() as int].interior(x, y));
    }
    if in_some_room(more, x, y) {
        let i = choose|i: int| 0 <= i < more.len() && (#[trigger] more[i]).interior(x, y);
        if i < rooms.len() {
            assert(rooms[i].interior(x, y));
        }
    }
    if on_some_corridor(rooms, bends, x, y) {
        let i = choose|i: int|
            0 <= i < bends.len() && #[trigger] on_corridor(
                rooms[i].spec_center(),
                rooms[i + 1].spec_center(),
                bends[i],
                x,
                y,
            );
        assert(on_corridor(more[i].spec_center(), more[i + 1].spec_center(), bends[i], x, y));
    }
    if on_some_corridor(more, bends, x, y) {
        let i = choose|i: int|
            0 <= i < bends.len() && #[trigger] on_corridor(
                more[i].spec_center(),
                more[i + 1].spec_center(),
                bends[i],
                x,
                y,
            );
        assert(on_corridor(rooms[i].spec_center(), rooms[i + 1].spec_center(), bends[i], x, y));
    }
}

/// One more room with its corridor digs out its interior, that corridor, and nothing else.
pub proof fn dug_after_corridor(
    rooms: Seq<Rect>,
    bends: Seq<bool>,
    room: Rect,
    horizontal_first: bool,
    x: int,
    y: int,
)
    requires
        rooms.len() > 0,
        bends.len() == rooms.len() - 1,
    ensures
        dug(rooms.push(room), bends.push(horizontal_first), x, y) == (dug(rooms, bends, x, y)
            || room.interior(x, y) || on_corridor(
            rooms.last().spec_center(),
            room.spec_center(),
            horizontal_first,
            x,
            y,
        )),
{
    let more = rooms.push(room);
    let turns = bends.push(horizontal_first);
    dug_after_room(rooms, bends, room, x, y);
    if on_some_corridor(more, bends, x, y) {
        let i = choose|i: int|
            0 <= i < bends.len() && #[trigger] on_corridor(
                more[i].spec_center(),
                more[i + 1].spec_center(),
                bends[i],
                x,
                y,
            );
        assert(on_corridor(more[i].spec_center(), more[i + 1].spec_center(), turns[i], x, y));
    }
    if on_corridor(rooms.last().spec_center(), room.spec_center(), horizontal_first, x, y) {
        let i = bends.len() as int;
        assert(on_corridor(more[i].spec_center(), more[i + 1].spec_center(), turns[i], x, y));
    }
    if on_some_corridor(more, turns, x, y) {
        let i = choose|i: int|
            0 <= i < turns.len() && #[trigger] on_corridor(
                more[i].spec_center(),
                more[i + 1].spec_center(),
                turns[i],
                x,
                y,
            );
        if i < bends.len() {
            assert(on_corridor(more[i].spec_center(), more[i + 1].spec_center(), bends[i], x, y));
        }
    }
}

/// No two rooms of a generated level intersect or touch, in whichever order they are taken.
pub proof fn rooms_never_touch(level: &Level, cfg: MapConfig, i: int, j: int)
    requires
        level.wf(cfg),
        0 <= i < level.rooms@.len(),
        0 <= j < level.rooms@.len(),
        i != j,
    ensures
        !level.rooms@[i].spec_intersects(&level.rooms@[j]),
{
    if i < j {
        assert(!level.rooms@[i].spec_intersects(&level.rooms@[j]));
    } else {
        assert(!level.rooms@[j].spec_intersects(&level.rooms@[i]));
    }
}

/// The centre of every room of a generated level is an open tile that can be reached from
/// the centre of the first room over open tiles.
pub proof fn room_centers_reachable(level: &Level, cfg: MapConfig, i: int)
    requires
        cfg.valid(),
        level.wf(cfg),
        0 <= i < level.rooms@.len(),
    ensures
        open_at(&level.map, level.rooms@[i].spec_center()),
        connected(&level.map, level.rooms@[0].spec_center(), level.rooms@[i].spec_center()),
{
    let c = level.rooms@[i].spec_center();
    assert(cfg.admits(level.rooms@[i]));
    center_inside(cfg, level.rooms@[i]);
    assert(in_some_room(level.rooms@, c.0, c.1));
    assert(level.map.at(c.0, c.1) == floor_tile());
}

/// A level without rooms is solid rock, and no entity was spawned in it.
pub proof fn no_rooms_no_floor(level: &Level, cfg: MapConfig, objects: Seq<ObjectView>, from: int)
    requires
        level.wf(cfg),
        level.rooms@.len() == 0,
        0 <= from <= objects.len(),
        populated(level.rooms@, objects, from),
    ensures
        forall|x: int, y: int|
            level.map.in_bounds(x, y) ==> #[trigger] level.map.at(x, y) == wall_tile(),
        level.spawn is None,
        objects.len() == from,
{
    assert forall|x: int, y: int| level.map.in_bounds(x, y) implies #[trigger] level.map.at(x, y)
        == wall_tile() by {
        assert(!dug(level.rooms@, level.bends@, x, y));
    }
    if objects.len() > from {
        assert(spawned_in(level.rooms@, objects, from));
    }
}

} // verus!
