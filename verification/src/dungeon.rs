//! Building a level room by room.

use vstd::prelude::*;
use crate::ai::on_map;
use crate::carve::{carved, create_room, room_region};
use crate::fov::FovMap;
use crate::generate::{center_inside, connect_rooms, corridor_connects, corridor_region};
use crate::generate::{disjoint_rooms, dug, dug_after_corridor, dug_after_room, dug_exactly};
use crate::generate::{dug_off_edge, in_some_room, intersects_any, intersects_some, on_corridor};
use crate::generate::{populated, rooms_connected, spawned_in, Level, MapConfig};
use crate::movement::{blocked, moved_to, occupied};
use crate::object::{views, Object, ObjectView};
use crate::populate::{all_placed_free, place_objects, placed_free};
use crate::random::{random_bool, random_range};
use crate::reach::{carving_opens_more, connected, connected_mono, connected_refl};
use crate::reach::{connected_trans, open_at, opens_more};
use crate::rect::Rect;
use crate::registry::PLAYER;
use crate::schedule::world_ok;
use crate::tile::{floor_tile, wall_tile, TileMap};

verus! {

/// A map that is floor exactly where something was dug out has a closed edge.
pub proof fn dug_map_is_bordered(cfg: MapConfig, map: &TileMap, rooms: Seq<Rect>, bends: Seq<bool>)
    requires
        cfg.valid(),
        map.width() == cfg.width,
        map.height() == cfg.height,
        forall|i: int| 0 <= i < rooms.len() ==> cfg.admits(#[trigger] rooms[i]),
        bends.len() < rooms.len() || bends.len() == 0,
        dug_exactly(map, rooms, bends),
    ensures
        map.bordered(),
{
    assert forall|x: int, y: int| map.in_bounds(x, y) && map.on_edge(x, y) implies (#[trigger] map.at(
        x,
        y,
    )).blocked by {
        if dug(rooms, bends, x, y) {
            dug_off_edge(cfg, rooms, bends, x, y);
        }
    }
}

/// Carving the interior of one more room keeps the map floor exactly where something was dug.
pub proof fn room_keeps_dug(
    before: &TileMap,
    after: &TileMap,
    rooms: Seq<Rect>,
    bends: Seq<bool>,
    room: Rect,
)
    requires
        bends.len() < rooms.len() || bends.len() == 0,
        dug_exactly(before, rooms, bends),
        carved(before, after, room_region(room)),
    ensures
        dug_exactly(after, rooms.push(room), bends),
{
    assert forall|x: int, y: int| after.in_bounds(x, y) implies #[trigger] after.at(x, y) == if dug(
        rooms.push(room),
        bends,
        x,
        y,
    ) {
        floor_tile()
    } else {
        wall_tile()
    } by {
        dug_after_room(rooms, bends, room, x, y);
        assert(before.in_bounds(x, y));
        assert(room_region(room)(x, y) == room.interior(x, y));
        assert(before.at(x, y) == if dug(rooms, bends, x, y) {
            floor_tile()
        } else {
            wall_tile()
        });
    }
}

/// Carving the corridor to one more room keeps the map floor exactly where something was dug.
pub proof fn corridor_keeps_dug(
    before: &TileMap,
    after: &TileMap,
    rooms: Seq<Rect>,
    bends: Seq<bool>,
    room: Rect,
    horizontal_first: bool,
)
    requires
        rooms.len() > 0,
        bends.len() == rooms.len() - 1,
        dug_exactly(before, rooms.push(room), bends),
        carved(
            before,
            after,
            corridor_region(rooms.last().spec_center(), room.spec_center(), horizontal_first),
        ),
    ensures
        dug_exactly(after, rooms.push(room), bends.push(horizontal_first)),
{
    let a = rooms.last().spec_center();
    let b = room.spec_center();
    assert forall|x: int, y: int| after.in_bounds(x, y) implies #[trigger] after.at(x, y) == if dug(
        rooms.push(room),
        bends.push(horizontal_first),
        x,
        y,
    ) {
        floor_tile()
    } else {
        wall_tile()
    } by {
        dug_after_room(rooms, bends, room, x, y);
        dug_after_corridor(rooms, bends, room, horizontal_first, x, y);
        assert(before.in_bounds(x, y));
        assert(corridor_region(a, b, horizontal_first)(x, y) == on_corridor(
            a,
            b,
            horizontal_first,
            x,
            y,
        ));
        assert(before.at(x, y) == if dug(rooms.push(room), bends, x, y) {
            floor_tile()
        } else {
            wall_tile()
        });
    }
}

/// What was placed free of every entity before it stays free of them when the player moves
/// and the room joins the accepted ones.
pub proof fn placed_is_spawned(
    room: Rect,
    map: &TileMap,
    rooms: Seq<Rect>,
    placed: Seq<ObjectView>,
    objects: Seq<ObjectView>,
    from: int,
)
    requires
        1 <= from <= placed.len(),
        all_placed_free(room, map, placed, from),
        objects.len() == placed.len(),
        forall|k: int| 1 <= k < placed.len() ==> objects[k] == placed[k],
    ensures
        forall|k: int|
            from <= k < objects.len() ==> #[trigger] spawned_in(rooms.push(room), objects, k),
{
    let more = rooms.push(room);
    assert forall|k: int| from <= k < objects.len() implies #[trigger] spawned_in(
        more,
        objects,
        k,
    ) by {
        assert(placed_free(room, map, placed, k));
        let x = objects[k].x as int;
        let y = objects[k].y as int;
        assert(more[rooms.len() as int].interior(x, y));
        let rest = objects.subrange(1, k);
        if occupied(rest, x, y) {
            let i = choose|i: int|
                0 <= i < rest.len() && (#[trigger] rest[i]).blocks && rest[i].is_at(x, y);
            assert(placed.take(k)[i + 1] == rest[i]);
            assert(occupied(placed.take(k), x, y));
        }
    }
}

/// An entity that was spawned in a room stays so when more rooms and entities follow.
pub proof fn spawned_stays(
    rooms: Seq<Rect>,
    room: Rect,
    before: Seq<ObjectView>,
    after: Seq<ObjectView>,
    k: int,
)
    requires
        1 <= k < before.len() <= after.len(),
        spawned_in(rooms, before, k),
        forall|j: int| 1 <= j < before.len() ==> after[j] == before[j],
    ensures
        spawned_in(rooms.push(room), after, k),
{
    let x = before[k].x as int;
    let y = before[k].y as int;
    let i = choose|i: int| 0 <= i < rooms.len() && (#[trigger] rooms[i]).interior(x, y);
    assert(rooms.push(room)[i].interior(x, y));
    assert(after.subrange(1, k) =~= before.subrange(1, k));
}

/// What adding `room` to a level does, whatever is drawn: the level stays well formed and
/// has `room` as its last room, with the bends of the earlier corridors unchanged; the
/// player stands at the centre of `room` if it is the first room and is unchanged
/// otherwise; the entities that followed the player are unchanged; and those that were
/// added, no more than the configuration allows, were spawned inside a room.
pub open spec fn room_added(
    cfg: MapConfig,
    before: &Level,
    after: &Level,
    objects: Seq<ObjectView>,
    grown: Seq<ObjectView>,
    room: Rect,
) -> bool {
    &&& after.wf(cfg)
    &&& after.rooms@ == before.rooms@.push(room)
    &&& before.bends@.is_prefix_of(after.bends@)
    &&& objects.len() <= grown.len() <= objects.len() + cfg.max_room_monsters
        + cfg.max_room_items
    &&& forall|k: int| 1 <= k < objects.len() ==> #[trigger] grown[k] == objects[k]
    &&& grown[0] == (if before.rooms@.len() == 0 {
        moved_to(objects[0], room.spec_center().0, room.spec_center().1)
    } else {
        objects[0]
    })
    &&& forall|k: int|
        objects.len() <= k < grown.len() ==> #[trigger] spawned_in(after.rooms@, grown, k)
}

/// Adds `new_room` to the level: carves its interior, populates it, and then either puts
/// the player at its centre, if it is the first room, or joins it to the room accepted just
/// before it by a corridor whose bend a coin decides.
pub fn accept_room(cfg: &MapConfig, level: &mut Level, objects: &mut Vec<Object>, new_room: Rect)
    requires
        cfg.valid(),
        old(level).wf(*cfg),
        cfg.admits(new_room),
        !intersects_some(new_room, old(level).rooms@),
        old(objects)@.len() > 0,
    ensures
        room_added(
            *cfg,
            old(level),
            final(level),
            views(old(objects)@),
            views(final(objects)@),
            new_room,
        ),
{
    let ghost rooms0 = level.rooms@;
    let ghost bends0 = level.bends@;
    let ghost map0 = level.map;
    let ghost objs0 = views(objects@);
    proof {
        center_inside(*cfg, new_room);
    }
    create_room(new_room, &mut level.map);
    let ghost map1 = level.map;
    proof {
        carving_opens_more(&map0, &map1, room_region(new_room));
        room_keeps_dug(&map0, &map1, rooms0, bends0, new_room);
    }
    place_objects(new_room, &level.map, objects, cfg.max_room_monsters, cfg.max_room_items);
    let ghost objs1 = views(objects@);
    proof {
        assert(objs1.len() == objects@.len());
        assert forall|k: int| 1 <= k < objs0.len() implies objs1[k] == objs0[k] by {
            assert(objs1.take(objs0.len() as int)[k] == objs1[k]);
        }
        assert(objs1[0] == objs0[0]) by {
            assert(objs1.take(objs0.len() as int)[0] == objs1[0]);
        }
    }
    let (new_x, new_y) = new_room.center();
    if level.rooms.is_empty() {
        objects[PLAYER].set_pos(new_x, new_y);
        level.spawn = Some((new_x, new_y));
        proof {
            assert(rooms0 =~= Seq::<Rect>::empty());
            let c = new_room.spec_center();
            assert(new_room.interior(c.0, c.1));
            assert(rooms0.push(new_room)[0].interior(c.0, c.1));
            assert(in_some_room(rooms0.push(new_room), c.0, c.1));
            assert(map1.at(c.0, c.1) == floor_tile());
            connected_refl(&map1, c);
        }
    } else {
        let (prev_x, prev_y) = level.rooms[level.rooms.len() - 1].center();
        let horizontal_first: bool = random_bool();
        proof {
            center_inside(*cfg, rooms0.last());
        }
        connect_rooms((prev_x, prev_y), (new_x, new_y), horizontal_first, &mut level.map);
        level.bends.push(horizontal_first);
        proof {
            let map2 = level.map;
            let a = rooms0.last().spec_center();
            let b = new_room.spec_center();
            carving_opens_more(&map1, &map2, corridor_region(a, b, horizontal_first));
            corridor_keeps_dug(&map1, &map2, rooms0, bends0, new_room, horizontal_first);
            assert forall|x: int, y: int| #[trigger]
                on_corridor(a, b, horizontal_first, x, y) implies open_at(&map2, (x, y)) by {
                dug_after_corridor(rooms0, bends0, new_room, horizontal_first, x, y);
                assert forall|i: int| 0 <= i < rooms0.push(new_room).len() implies cfg.admits(
                    #[trigger] rooms0.push(new_room)[i],
                ) by {
                    if i < rooms0.len() {
                        assert(cfg.admits(rooms0[i]));
                    }
                }
                dug_off_edge(
                    *cfg,
                    rooms0.push(new_room),
                    bends0.push(horizontal_first),
                    x,
                    y,
                );
                assert(map2.at(x, y) == floor_tile());
            }
            corridor_connects(&map2, a, b, horizontal_first);
            assert(opens_more(&map0, &map2)) by {
                assert forall|p: (int, int)| open_at(&map0, p) implies #[trigger] open_at(
                    &map2,
                    p,
                ) by {
                    assert(open_at(&map1, p));
                }
            }
            assert(connected(&map0, rooms0[0].spec_center(), a));
            connected_mono(&map0, &map2, rooms0[0].spec_center(), a);
            connected_trans(&map2, rooms0[0].spec_center(), a, b);
        }
    }
    level.rooms.push(new_room);
    proof {
        let rooms = level.rooms@;
        let bends = level.bends@;
        let map = level.map;
        let objs = views(objects@);
        assert(rooms == rooms0.push(new_room));
        assert forall|i: int| 0 <= i < rooms.len() implies cfg.admits(#[trigger] rooms[i]) by {
            if i < rooms0.len() {
                assert(cfg.admits(rooms0[i]));
            }
        }
        assert(disjoint_rooms(rooms)) by {
            assert forall|i: int, j: int| 0 <= i < j < rooms.len() implies !#[trigger] rooms[i].spec_intersects(
                &rooms[j],
            ) by {
                if j < rooms0.len() {
                    assert(!rooms0[i].spec_intersects(&rooms0[j]));
                } else {
                    assert(!new_room.spec_intersects(&rooms0[i]));
                }
            }
        }
        dug_map_is_bordered(*cfg, &map, rooms, bends);
        assert(opens_more(&map0, &map)) by {
            assert forall|p: (int, int)| open_at(&map0, p) implies #[trigger] open_at(&map, p) by {
                assert(open_at(&map1, p));
            }
        }
        assert(rooms_connected(&map, rooms)) by {
            assert forall|i: int| 0 <= i < rooms.len() implies connected(
                &map,
                rooms[0].spec_center(),
                (#[trigger] rooms[i]).spec_center(),
            ) by {
                if i < rooms0.len() {
                    assert(connected(&map0, rooms0[0].spec_center(), rooms0[i].spec_center()));
                    connected_mono(&map0, &map, rooms0[0].spec_center(), rooms0[i].spec_center());
                }
            }
        }
        assert(objs.len() == objs1.len());
        placed_is_spawned(new_room, &map1, rooms0, objs1, objs, objs0.len() as int);
        assert(bends0.is_prefix_of(bends)) by {
            assert(bends0 =~= bends.subrange(0, bends0.len() as int));
        }
        assert(objs0.len() == old(objects)@.len());
    }
}

/// Tries `candidate` as the next room. It is accepted exactly if it intersects none of the
/// rooms accepted so far, touching counted as intersecting; a candidate that is refused
/// leaves the level and the entities as they were.
pub fn try_room(cfg: &MapConfig, level: &mut Level, objects: &mut Vec<Object>, candidate: Rect) -> (accepted:
    bool)
    requires
        cfg.valid(),
        old(level).wf(*cfg),
        cfg.admits(candidate),
        old(objects)@.len() > 0,
    ensures
        accepted == !intersects_some(candidate, old(level).rooms@),
        !accepted ==> *final(level) == *old(level) && final(objects)@ == old(objects)@,
        accepted ==> room_added(
            *cfg,
            old(level),
            final(level),
            views(old(objects)@),
            views(final(objects)@),
            candidate,
        ),
{
    let failed: bool = intersects_any(&candidate, &level.rooms);
    if !failed {
        accept_room(cfg, level, objects, candidate);
    }
    !failed
}

/// Generates a level: starting from solid rock, `max_rooms` times a room of random size is
/// tried at a random place and accepted if it intersects no room accepted before. Whatever
/// is drawn, the level is well formed, the first room tried is accepted, the first entity
/// is the player, now at the centre of the first room if there is a room, the entities that
/// followed it are unchanged, and every entity added stands inside a room on a tile that no
/// blocking entity before it, the player left aside, occupies.
pub fn make_map(objects: &mut Vec<Object>, cfg: &MapConfig) -> (level: Level)
    requires
        cfg.valid(),
        old(objects)@.len() > 0,
    ensures
        level.wf(*cfg),
        level.rooms@.len() <= cfg.max_rooms,
        cfg.max_rooms > 0 ==> level.rooms@.len() >= 1,
        final(objects)@.len() >= old(objects)@.len(),
        forall|k: int|
            1 <= k < old(objects)@.len() ==> #[trigger] views(final(objects)@)[k] == views(
                old(objects)@,
            )[k],
        views(final(objects)@)[0] == (match level.spawn {
            Some(c) => moved_to(views(old(objects)@)[0], c.0 as int, c.1 as int),
            None => views(old(objects)@)[0],
        }),
        populated(level.rooms@, views(final(objects)@), old(objects)@.len() as int),
{
    let ghost objs0 = views(objects@);
    let mut level = Level {
        map: TileMap::new(cfg.width as usize, cfg.height as usize),
        rooms: Vec::new(),
        bends: Vec::new(),
        spawn: None,
    };
    proof {
        assert forall|x: int, y: int| level.map.in_bounds(x, y) implies #[trigger] level.map.at(
            x,
            y,
        ) == if dug(level.rooms@, level.bends@, x, y) {
            floor_tile()
        } else {
            wall_tile()
        } by {}
        dug_map_is_bordered(*cfg, &level.map, level.rooms@, level.bends@);
        assert(objs0.len() == objects@.len());
    }
    let mut attempt: i32 = 0;
    while attempt < cfg.max_rooms
        invariant
            cfg.valid(),
            0 <= attempt <= cfg.max_rooms,
            level.wf(*cfg),
            level.rooms@.len() <= attempt,
            attempt > 0 ==> level.rooms@.len() >= 1,
            objects@.len() >= objs0.len(),
            objs0.len() > 0,
            forall|k: int| 1 <= k < objs0.len() ==> #[trigger] views(objects@)[k] == objs0[k],
            views(objects@)[0] == (match level.spawn {
                Some(c) => moved_to(objs0[0], c.0 as int, c.1 as int),
                None => objs0[0],
            }),
            populated(level.rooms@, views(objects@), objs0.len() as int),
        decreases cfg.max_rooms - attempt,
    {
        let w: i32 = random_range(cfg.room_min_size, cfg.room_max_size + 1);
        let h: i32 = random_range(cfg.room_min_size, cfg.room_max_size + 1);
        let x: i32 = random_range(0, cfg.width - w);
        let y: i32 = random_range(0, cfg.height - h);
        let new_room: Rect = Rect::new(x, y, w, h);
        let ghost before = views(objects@);
        let ghost rooms0 = level.rooms@;
        proof {
            assert(before.len() == objects@.len());
        }
        let accepted: bool = try_room(cfg, &mut level, objects, new_room);
        proof {
            if accepted {
                let after = views(objects@);
                assert(after.len() == objects@.len());
                assert forall|k: int| objs0.len() <= k < after.len() implies #[trigger] spawned_in(
                    level.rooms@,
                    after,
                    k,
                ) by {
                    if k < before.len() {
                        assert(spawned_in(rooms0, before, k));
                        spawned_stays(rooms0, new_room, before, after, k);
                    }
                }
            }
        }
        attempt += 1;
    }
    level
}

/// A generated level with at least one room is what a tick relies on, together with a
/// tracker that covers its map and a registry in which a player who is neither a monster
/// nor an item stands where the level says and is followed only by what the generator
/// spawned.
pub proof fn generated_world_is_ok(
    level: &Level,
    cfg: MapConfig,
    fov: &FovMap,
    objects: Seq<ObjectView>,
)
    requires
        cfg.valid(),
        level.wf(cfg),
        level.rooms@.len() > 0,
        fov.wf(),
        fov.covers(&level.map),
        objects.len() > 0,
        objects[0].ai is None,
        objects[0].item is None,
        level.spawn == Some((objects[0].x, objects[0].y)),
        populated(level.rooms@, objects, 1),
    ensures
        world_ok(&level.map, fov, objects),
{
    assert(cfg.admits(level.rooms@[0]));
    center_inside(cfg, level.rooms@[0]);
    assert forall|i: int|
        0 <= i < objects.len() && (#[trigger] objects[i]).ai is Some implies on_map(
        objects[i],
        &level.map,
    ) by {
        assert(spawned_in(level.rooms@, objects, i));
        let x = objects[i].x as int;
        let y = objects[i].y as int;
        let r = choose|r: int|
            0 <= r < level.rooms@.len() && (#[trigger] level.rooms@[r]).interior(x, y);
        assert(cfg.admits(level.rooms@[r]));
    }
}

} // verus!
