//! Populating a room with monsters and items.

use vstd::prelude::*;
use crate::carve::room_fits;
use crate::color::{darker_green, desaturated_green, violet};
use crate::color::{spec_darker_green, spec_desaturated_green, spec_violet};
use crate::movement::{blocked, is_blocked};
use crate::object::{views, Ai, DeathCallBack, Fighter, Item, Object, ObjectView};
use crate::random::random_range;
use crate::rect::Rect;
use crate::tile::TileMap;

verus! {

/// Out of a hundred monsters, the number that are of the weaker kind.
pub const ORC_CHANCE: i32 = 80;

/// The weaker monster, standing at `(x, y)`.
pub open spec fn orc_view(x: i32, y: i32) -> ObjectView {
    ObjectView {
        x,
        y,
        glyph: 'o',
        color: spec_desaturated_green(),
        name: "orc"@,
        blocks: true,
        alive: true,
        fighter: Some(
            Fighter { max_hp: 10, hp: 10, defense: 0, power: 3, on_death: DeathCallBack::Monster },
        ),
        ai: Some(Ai),
        item: None,
    }
}

/// The stronger monster, standing at `(x, y)`.
pub open spec fn troll_view(x: i32, y: i32) -> ObjectView {
    ObjectView {
        x,
        y,
        glyph: 'T',
        color: spec_darker_green(),
        name: "troll"@,
        blocks: true,
        alive: true,
        fighter: Some(
            Fighter { max_hp: 16, hp: 16, defense: 1, power: 4, on_death: DeathCallBack::Monster },
        ),
        ai: Some(Ai),
        item: None,
    }
}

/// A healing potion, lying at `(x, y)`.
pub open spec fn potion_view(x: i32, y: i32) -> ObjectView {
    ObjectView {
        x,
        y,
        glyph: '!',
        color: spec_violet(),
        name: "healing potion"@,
        blocks: false,
        alive: false,
        fighter: None,
        ai: None,
        item: Some(Item::Heal),
    }
}

/// The monster that a roll out of a hundred gives: the weaker kind below [`ORC_CHANCE`].
pub open spec fn monster_view(x: i32, y: i32, roll: i32) -> ObjectView {
    if roll < ORC_CHANCE {
        orc_view(x, y)
    } else {
        troll_view(x, y)
    }
}

/// Whether `v` is something that the generator places: a monster or a potion, at its place.
pub open spec fn is_spawn(v: ObjectView) -> bool {
    v == orc_view(v.x, v.y) || v == troll_view(v.x, v.y) || v == potion_view(v.x, v.y)
}

/// Whether entity `k` was placed inside `room`, on a tile that neither the terrain nor any
/// entity before it in the sequence blocked.
pub open spec fn placed_free(room: Rect, map: &TileMap, objects: Seq<ObjectView>, k: int) -> bool {
    &&& is_spawn(objects[k])
    &&& room.interior(objects[k].x as int, objects[k].y as int)
    &&& !blocked(map, objects.take(k), objects[k].x as int, objects[k].y as int)
}

/// Whether every entity from index `from` on was placed as [`placed_free`] says.
pub open spec fn all_placed_free(
    room: Rect,
    map: &TileMap,
    objects: Seq<ObjectView>,
    from: int,
) -> bool {
    forall|k: int| from <= k < objects.len() ==> #[trigger] placed_free(room, map, objects, k)
}

/// Whether `v` is a monster of one of the two kinds, at its place.
pub open spec fn is_monster(v: ObjectView) -> bool {
    v == orc_view(v.x, v.y) || v == troll_view(v.x, v.y)
}

/// Whether the entities from index `from` on are monsters up to index `split` and potions
/// from there on, with no more of either than the limits allow.
pub open spec fn monsters_then_potions(
    objects: Seq<ObjectView>,
    from: int,
    split: int,
    max_monsters: int,
    max_items: int,
) -> bool {
    &&& from <= split <= objects.len()
    &&& split - from <= max_monsters
    &&& objects.len() - split <= max_items
    &&& forall|k: int| from <= k < split ==> is_monster(#[trigger] objects[k])
    &&& forall|k: int|
        split <= k < objects.len() ==> (#[trigger] objects[k]) == potion_view(
            objects[k].x,
            objects[k].y,
        )
}

/// The entities after an attempt to place `v`: it joins them unless its tile is blocked.
pub open spec fn after_placing(map: &TileMap, objects: Seq<ObjectView>, v: ObjectView) -> Seq<
    ObjectView,
> {
    if blocked(map, objects, v.x as int, v.y as int) {
        objects
    } else {
        objects.push(v)
    }
}

/// Creates the monster that `roll` selects.
pub fn spawn_monster(x: i32, y: i32, roll: i32) -> (o: Object)
    ensures
        o@ == monster_view(x, y, roll),
{
    let mut monster = if roll < ORC_CHANCE {
        let mut orc = Object::new(x, y, 'o', "orc", desaturated_green(), true);
        orc.fighter = Some(
            Fighter { max_hp: 10, hp: 10, defense: 0, power: 3, on_death: DeathCallBack::Monster },
        );
        orc.ai = Some(Ai);
        orc
    } else {
        let mut troll = Object::new(x, y, 'T', "troll", darker_green(), true);
        troll.fighter = Some(
            Fighter { max_hp: 16, hp: 16, defense: 1, power: 4, on_death: DeathCallBack::Monster },
        );
        troll.ai = Some(Ai);
        troll
    };
    monster.alive = true;
    monster
}

/// Creates a healing potion.
pub fn spawn_potion(x: i32, y: i32) -> (o: Object)
    ensures
        o@ == potion_view(x, y),
{
    let mut object = Object::new(x, y, '!', "healing potion", violet(), false);
    object.item = Some(Item::Heal);
    object
}

/// Places the monster that `roll` selects at `(x, y)`, unless that tile is blocked. A
/// monster that cannot be placed is dropped: there is no second attempt.
pub fn place_monster(x: i32, y: i32, roll: i32, map: &TileMap, objects: &mut Vec<Object>)
    requires
        map.wf(),
        map.in_bounds(x as int, y as int),
    ensures
        views(final(objects)@) == after_placing(
            map,
            views(old(objects)@),
            monster_view(x, y, roll),
        ),
{
    if !is_blocked(x, y, map, objects) {
        let monster: Object = spawn_monster(x, y, roll);
        objects.push(monster);
        assert(views(objects@) =~= views(old(objects)@).push(monster_view(x, y, roll)));
    }
}

/// Places a healing potion at `(x, y)`, unless that tile is blocked. A potion that cannot be
/// placed is dropped: there is no second attempt.
pub fn place_item(x: i32, y: i32, map: &TileMap, objects: &mut Vec<Object>)
    requires
        map.wf(),
        map.in_bounds(x as int, y as int),
    ensures
        views(final(objects)@) == after_placing(map, views(old(objects)@), potion_view(x, y)),
{
    if !is_blocked(x, y, map, objects) {
        let potion: Object = spawn_potion(x, y);
        objects.push(potion);
        assert(views(objects@) =~= views(old(objects)@).push(potion_view(x, y)));
    }
}

/// One more entity, placed as [`placed_free`] says, keeps the earlier ones so placed.
pub proof fn placing_keeps_placed(
    room: Rect,
    map: &TileMap,
    objects: Seq<ObjectView>,
    v: ObjectView,
    from: int,
)
    requires
        0 <= from <= objects.len(),
        all_placed_free(room, map, objects, from),
        is_spawn(v),
        room.interior(v.x as int, v.y as int),
    ensures
        all_placed_free(room, map, after_placing(map, objects, v), from),
        after_placing(map, objects, v).take(objects.len() as int) == objects,
{
    let next = after_placing(map, objects, v);
    assert(next.take(objects.len() as int) =~= objects);
    assert forall|k: int| from <= k < next.len() implies #[trigger] placed_free(
        room,
        map,
        next,
        k,
    ) by {
        if k < objects.len() {
            assert(placed_free(room, map, objects, k));
            assert(next.take(k) =~= objects.take(k));
        }
    }
}

/// Populates `room` with a random number of monsters, at most `max_monsters`, and a random
/// number of potions, at most `max_items`, each on a random interior tile. Whatever is
/// drawn, the entities that were there stay as they were and where they were in the
/// sequence; those that join them are monsters first and potions after them, and each
/// stands inside the room on a tile that was free when it was placed.
pub fn place_objects(
    room: Rect,
    map: &TileMap,
    objects: &mut Vec<Object>,
    max_monsters: i32,
    max_items: i32,
)
    requires
        map.wf(),
        room.x1 + 1 < room.x2,
        room.y1 + 1 < room.y2,
        room_fits(room, map),
        0 <= max_monsters < i32::MAX,
        0 <= max_items < i32::MAX,
    ensures
        final(objects)@.len() >= old(objects)@.len(),
        final(objects)@.len() <= old(objects)@.len() + max_monsters + max_items,
        views(final(objects)@).take(old(objects)@.len() as int) == views(old(objects)@),
        all_placed_free(room, map, views(final(objects)@), old(objects)@.len() as int),
        exists|split: int|
            monsters_then_potions(
                views(final(objects)@),
                old(objects)@.len() as int,
                split,
                max_monsters as int,
                max_items as int,
            ),
{
    let ghost start = views(objects@);
    proof {
        assert(start.take(start.len() as int) =~= start);
    }
    let num_monsters: i32 = random_range(0, max_monsters + 1);
    let mut placed: i32 = 0;
    while placed < num_monsters
        invariant
            map.wf(),
            room.x1 + 1 < room.x2,
            room.y1 + 1 < room.y2,
            room_fits(room, map),
            0 <= placed <= num_monsters <= max_monsters,
            start.len() <= objects@.len() <= start.len() + placed,
            views(objects@).take(start.len() as int) == start,
            all_placed_free(room, map, views(objects@), start.len() as int),
            forall|k: int|
                start.len() <= k < objects@.len() ==> is_monster(#[trigger] views(objects@)[k]),
        decreases num_monsters - placed,
    {
        let x: i32 = random_range(room.x1 + 1, room.x2);
        let y: i32 = random_range(room.y1 + 1, room.y2);
        let roll: i32 = random_range(0, 100);
        proof {
            let before = views(objects@);
            assert(before.len() == objects@.len());
            placing_keeps_placed(room, map, before, monster_view(x, y, roll), start.len() as int);
            assert(after_placing(map, before, monster_view(x, y, roll)).take(start.len() as int)
                =~= before.take(start.len() as int));
        }
        let ghost count = objects@.len();
        place_monster(x, y, roll, map, objects);
        assert(views(objects@).len() == objects@.len());
        assert(count <= objects@.len() <= count + 1);
        placed += 1;
    }
    let ghost split = objects@.len() as int;
    let num_items: i32 = random_range(0, max_items + 1);
    let mut laid: i32 = 0;
    while laid < num_items
        invariant
            map.wf(),
            room.x1 + 1 < room.x2,
            room.y1 + 1 < room.y2,
            room_fits(room, map),
            0 <= laid <= num_items <= max_items,
            0 <= num_monsters <= max_monsters,
            start.len() <= objects@.len() <= start.len() + num_monsters + laid,
            views(objects@).take(start.len() as int) == start,
            all_placed_free(room, map, views(objects@), start.len() as int),
            start.len() <= split <= start.len() + num_monsters,
            split <= objects@.len() <= split + laid,
            forall|k: int| start.len() <= k < split ==> is_monster(#[trigger] views(objects@)[k]),
            forall|k: int|
                split <= k < objects@.len() ==> (#[trigger] views(objects@)[k]) == potion_view(
                    views(objects@)[k].x,
                    views(objects@)[k].y,
                ),
        decreases num_items - laid,
    {
        let x: i32 = random_range(room.x1 + 1, room.x2);
        let y: i32 = random_range(room.y1 + 1, room.y2);
        proof {
            let before = views(objects@);
            assert(before.len() == objects@.len());
            placing_keeps_placed(room, map, before, potion_view(x, y), start.len() as int);
            assert(after_placing(map, before, potion_view(x, y)).take(start.len() as int)
                =~= before.take(start.len() as int));
        }
        let ghost count = objects@.len();
        place_item(x, y, map, objects);
        assert(views(objects@).len() == objects@.len());
        assert(count <= objects@.len() <= count + 1);
        laid += 1;
    }
    proof {
        assert(views(objects@).len() == objects@.len());
        assert(monsters_then_potions(
            views(objects@),
            start.len() as int,
            split,
            max_monsters as int,
            max_items as int,
        ));
    }
}

} // verus!
