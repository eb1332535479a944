//! Run-time tests of what the tick relies on, for callers that cannot prove it.

use vstd::prelude::*;
use crate::ai::on_map;
use crate::event::{event_views, Event};
use crate::fov::{FovMap, Grid};
use crate::generate::MapConfig;
use crate::object::{views, Object};
use crate::registry::PLAYER;
use crate::schedule::{after_tick, roster_ok, tick, tick_events, world_ok};
use crate::tile::TileMap;
use crate::turn::{classify, command_fits, inventory_after_command, Command, PlayerAction};

verus! {

impl MapConfig {
    /// Tells whether the configuration is valid.
    pub fn is_valid(&self) -> (b: bool)
        ensures
            b == self.valid(),
    {
        2 <= self.room_min_size && self.room_min_size <= self.room_max_size && self.room_max_size
            < self.width && self.room_max_size < self.height && 0 <= self.max_rooms && 0
            <= self.max_room_monsters && self.max_room_monsters < i32::MAX && 0
            <= self.max_room_items && self.max_room_items < i32::MAX
    }
}

impl TileMap {
    /// Tells whether the map is well formed.
    pub fn is_wf(&self) -> (b: bool)
        ensures
            b == self.wf(),
    {
        let width: usize = self.tiles.len();
        if width > 0x7fff_ffff {
            return false;
        }
        if width == 0 {
            return true;
        }
        let height: usize = self.tiles[0].len();
        if height > 0x7fff_ffff {
            return false;
        }
        let mut x: usize = 0;
        while x < width
            invariant
                width == self.tiles@.len(),
                width > 0,
                height == self.height(),
                x <= width,
                forall|i: int| 0 <= i < x ==> (#[trigger] self.tiles@[i])@.len() == height,
            decreases width - x,
        {
            if self.tiles[x].len() != height {
                return false;
            }
            x += 1;
        }
        true
    }
}

impl Grid {
    /// Tells whether the grid has `width` columns of `height` entries each.
    pub fn has_size(&self, width: usize, height: usize) -> (b: bool)
        ensures
            b == (self.width() == width && self.has_height(height as int)),
    {
        if self.cells.len() != width {
            return false;
        }
        let mut x: usize = 0;
        while x < width
            invariant
                width == self.cells@.len(),
                x <= width,
                forall|i: int| 0 <= i < x ==> (#[trigger] self.cells@[i])@.len() == height,
            decreases width - x,
        {
            if self.cells[x].len() != height {
                return false;
            }
            x += 1;
        }
        true
    }
}

impl FovMap {
    /// Tells whether the tracker is well formed.
    pub fn is_wf(&self) -> (b: bool)
        ensures
            b == self.wf(),
    {
        self.width <= 0x7fff_ffff && self.height <= 0x7fff_ffff && self.transparent.has_size(
            self.width,
            self.height,
        ) && self.walkable.has_size(self.width, self.height) && self.visible.has_size(
            self.width,
            self.height,
        )
    }

    /// Tells whether the tracker covers exactly the cells of `map`.
    pub fn is_cover_of(&self, map: &TileMap) -> (b: bool)
        ensures
            b == self.covers(map),
    {
        if self.width != map.tiles.len() {
            return false;
        }
        if self.width == 0 {
            return true;
        }
        self.height == map.tiles[0].len()
    }
}

/// Tells whether the entity stands on a tile of the map.
pub fn is_on_map(object: &Object, map: &TileMap) -> (b: bool)
    requires
        map.wf(),
    ensures
        b == on_map(object@, map),
{
    let width: usize = map.tiles.len();
    if width == 0 {
        return false;
    }
    let height: usize = map.tiles[0].len();
    0 <= object.x && (object.x as usize) < width && 0 <= object.y && (object.y as usize) < height
}

/// Tells whether the registry is one that the pass over the monsters can work on.
pub fn roster_is_ok(map: &TileMap, objects: &Vec<Object>) -> (b: bool)
    requires
        map.wf(),
    ensures
        b == roster_ok(map, views(objects@)),
{
    if objects.len() == 0 {
        return false;
    }
    if objects[PLAYER].ai.is_some() || !is_on_map(&objects[PLAYER], map) {
        return false;
    }
    let mut i: usize = 0;
    while i < objects.len()
        invariant
            map.wf(),
            i <= objects@.len(),
            forall|k: int|
                0 <= k < i && (#[trigger] views(objects@)[k]).ai is Some ==> on_map(
                    views(objects@)[k],
                    map,
                ),
        decreases objects@.len() - i,
    {
        if objects[i].ai.is_some() && !is_on_map(&objects[i], map) {
            assert(views(objects@)[i as int].ai is Some);
            return false;
        }
        i += 1;
    }
    true
}

/// Tells whether map, tracker and registry are what a tick relies on.
pub fn world_is_ok(map: &TileMap, fov_map: &FovMap, objects: &Vec<Object>) -> (b: bool)
    ensures
        b == world_ok(map, fov_map, views(objects@)),
{
    map.is_wf() && fov_map.is_wf() && fov_map.is_cover_of(map) && roster_is_ok(map, objects)
        && objects[PLAYER].item.is_none()
}

/// Tells whether `command` can be carried out.
pub fn command_is_fit(command: Command, map: &TileMap, objects: &Vec<Object>) -> (b: bool)
    requires
        map.wf(),
        objects@.len() > 0,
    ensures
        b == command_fits(command, map, views(objects@)),
{
    if !objects[PLAYER].alive {
        return true;
    }
    match command {
        Command::Move(direction) => {
            let (dx, dy) = direction.delta();
            let x: i64 = objects[PLAYER].x as i64 + dx as i64;
            let y: i64 = objects[PLAYER].y as i64 + dy as i64;
            let width: usize = map.tiles.len();
            if width == 0 {
                return false;
            }
            let height: usize = map.tiles[0].len();
            0 <= x && x < width as i64 && 0 <= y && y < height as i64
        },
        _ => true,
    }
}

/// Runs one tick if map, tracker, registry and command allow it, and classifies it;
/// otherwise changes nothing and returns `None`.
pub fn checked_tick(
    command: Command,
    map: &TileMap,
    objects: &mut Vec<Object>,
    inventory: &mut Vec<Object>,
    fov_map: &FovMap,
    events: &mut Vec<Event>,
) -> (r: Option<PlayerAction>)
    ensures
        r is Some <==> world_ok(map, fov_map, views(old(objects)@)) && command_fits(
            command,
            map,
            views(old(objects)@),
        ),
        r is None ==> final(objects)@ == old(objects)@ && final(inventory)@ == old(inventory)@
            && final(events)@ == old(events)@,
        r is Some ==> {
            &&& r->0 == classify(command, old(objects)@[0].alive)
            &&& views(final(objects)@) == after_tick(
                command,
                map,
                fov_map,
                views(old(objects)@),
                views(old(inventory)@),
            )
            &&& views(final(inventory)@) == inventory_after_command(
                command,
                views(old(objects)@),
                views(old(inventory)@),
            )
            &&& event_views(final(events)@) == event_views(old(events)@) + tick_events(
                command,
                map,
                fov_map,
                views(old(objects)@),
                views(old(inventory)@),
            )
            &&& world_ok(map, fov_map, views(final(objects)@))
        },
{
    if world_is_ok(map, fov_map, objects) && command_is_fit(command, map, objects) {
        Some(tick(command, map, objects, inventory, fov_map, events))
    } else {
        None
    }
}

} // verus!
