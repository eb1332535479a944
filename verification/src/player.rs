//! The player's own move: step onto a free tile, or attack what stands there.

use vstd::prelude::*;
use crate::combat::{after_attack, attack_events};
use crate::event::{emit, event_views, Event, EventView};
use crate::movement::{after_move_by, blocked, move_by};
use crate::object::{views, Object, ObjectView};
use crate::registry::{mut_two, PLAYER};
use crate::tile::TileMap;

verus! {

/// Whether the entity can be attacked at `(x, y)`: it can fight and stands there.
pub open spec fn is_target(v: ObjectView, x: int, y: int) -> bool {
    v.fighter is Some && v.is_at(x, y)
}

/// The index of the first entity from `from` on that can be attacked at `(x, y)`.
pub open spec fn first_target(objects: Seq<ObjectView>, x: int, y: int, from: int) -> Option<int>
    decreases objects.len() - from,
{
    if from < 0 || from >= objects.len() {
        None
    } else if is_target(objects[from], x, y) {
        Some(from)
    } else {
        first_target(objects, x, y, from + 1)
    }
}

/// The entities after the player tried to move by `(dx, dy)`: the first entity at the
/// destination that can fight is attacked; if there is none, the player moves there unless
/// the destination is blocked.
pub open spec fn after_player_move(
    map: &TileMap,
    objects: Seq<ObjectView>,
    dx: int,
    dy: int,
) -> Seq<ObjectView> {
    match first_target(objects, objects[0].x + dx, objects[0].y + dy, 0) {
        Some(t) => objects.update(t, after_attack(objects[0], objects[t])),
        None => after_move_by(map, objects, 0, dx, dy),
    }
}

/// The events of the player's move: those of the attack, if there is one; a report that
/// the step was refused, if nothing can be attacked and the destination is blocked; and
/// nothing if the player moved.
pub open spec fn player_move_events(
    map: &TileMap,
    objects: Seq<ObjectView>,
    dx: int,
    dy: int,
) -> Seq<EventView> {
    match first_target(objects, objects[0].x + dx, objects[0].y + dy, 0) {
        Some(t) => attack_events(objects[0], objects[t]),
        None => if blocked(map, objects, objects[0].x + dx, objects[0].y + dy) {
            seq![EventView::MoveBlocked]
        } else {
            seq![]
        },
    }
}

/// A target that was found lies within the sequence, at or after `from`, and can be
/// attacked; no entity between `from` and it can.
pub proof fn first_target_is_first(objects: Seq<ObjectView>, x: int, y: int, from: int)
    requires
        0 <= from,
    ensures
        match first_target(objects, x, y, from) {
            Some(t) => from <= t < objects.len() && is_target(objects[t], x, y) && forall|k: int|
                from <= k < t ==> !is_target(#[trigger] objects[k], x, y),
            None => forall|k: int|
                from <= k < objects.len() ==> !is_target(#[trigger] objects[k], x, y),
        },
    decreases objects.len() - from,
{
    if from < objects.len() && !is_target(objects[from], x, y) {
        first_target_is_first(objects, x, y, from + 1);
    }
}

/// Finds the first entity that can be attacked at `(x, y)`.
pub fn find_target(objects: &Vec<Object>, x: i32, y: i32) -> (r: Option<usize>)
    ensures
        match r {
            Some(t) => first_target(views(objects@), x as int, y as int, 0) == Some(t as int),
            None => first_target(views(objects@), x as int, y as int, 0) is None,
        },
{
    let mut i: usize = 0;
    while i < objects.len()
        invariant
            i <= objects@.len(),
            first_target(views(objects@), x as int, y as int, 0) == first_target(
                views(objects@),
                x as int,
                y as int,
                i as int,
            ),
        decreases objects@.len() - i,
    {
        if objects[i].fighter.is_some() && objects[i].x == x && objects[i].y == y {
            return Some(i);
        }
        i += 1;
    }
    None
}

/// Moves the player by `(dx, dy)`, or attacks the first fighter that stands at the
/// destination. A step that a wall or a blocking entity refuses changes nothing and is
/// reported.
pub fn player_move_or_attack(
    dx: i32,
    dy: i32,
    map: &TileMap,
    objects: &mut Vec<Object>,
    events: &mut Vec<Event>,
)
    requires
        old(objects)@.len() > 0,
        map.wf(),
        map.in_bounds(old(objects)@[0].x + dx, old(objects)@[0].y + dy),
        !(dx == 0 && dy == 0 && old(objects)@[0].fighter is Some),
    ensures
        views(final(objects)@) == after_player_move(
            map,
            views(old(objects)@),
            dx as int,
            dy as int,
        ),
        event_views(final(events)@) == event_views(old(events)@) + player_move_events(
            map,
            views(old(objects)@),
            dx as int,
            dy as int,
        ),
{
    let x: i32 = objects[PLAYER].x + dx;
    let y: i32 = objects[PLAYER].y + dy;
    let target_id: Option<usize> = find_target(objects, x, y);
    proof {
        first_target_is_first(views(objects@), x as int, y as int, 0);
    }
    match target_id {
        Some(target_id) => {
            let (player, target) = mut_two(PLAYER, target_id, objects.as_mut_slice());
            player.attack(target, events);
            assert(views(objects@) =~= views(old(objects)@).update(
                target_id as int,
                after_attack(views(old(objects)@)[0], views(old(objects)@)[target_id as int]),
            ));
        },
        None => {
            let moved: bool = move_by(PLAYER, dx, dy, map, objects);
            if !moved {
                emit(events, Event::MoveBlocked);
            }
            assert(event_views(events@) =~= event_views(old(events)@) + player_move_events(
                map,
                views(old(objects)@),
                dx as int,
                dy as int,
            ));
        },
    }
}

} // verus!
