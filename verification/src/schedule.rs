//! The tick: one command of the player, then one pass over the monsters.

use vstd::prelude::*;
use crate::ai::{after_ai_turn, ai_take_turn, ai_turn_events, on_map};
use crate::event::{event_views, Event, EventView};
use crate::fov::FovMap;
use crate::object::{views, Object, ObjectView};
use crate::player::first_target_is_first;
use crate::registry::PLAYER;
use crate::tile::TileMap;
use crate::turn::{after_command, classify, command_events, command_fits, first_item_is_first};
use crate::turn::{handle_keys, inventory_after_command, Command, PlayerAction};

verus! {

/// Whether the observer sees the tile on which entity `id` stands.
pub open spec fn seen_at(fov: &FovMap, objects: Seq<ObjectView>, id: int) -> bool {
    fov.sees(objects[id].x as int, objects[id].y as int)
}

/// The entities after entity `id` had its place in the pass: a monster takes its turn, any
/// other entity is passed over.
pub open spec fn after_slot(
    map: &TileMap,
    fov: &FovMap,
    objects: Seq<ObjectView>,
    id: int,
) -> Seq<ObjectView> {
    if objects[id].ai is Some {
        after_ai_turn(map, objects, id, seen_at(fov, objects, id))
    } else {
        objects
    }
}

/// The events of the place of entity `id` in the pass.
pub open spec fn slot_events(fov: &FovMap, objects: Seq<ObjectView>, id: int) -> Seq<EventView> {
    if objects[id].ai is Some {
        ai_turn_events(objects, id, seen_at(fov, objects, id))
    } else {
        seq![]
    }
}

/// The entities after the pass over the entities from index `from` on, in registry order.
/// `left` is the number of entities still to be visited.
pub open spec fn after_pass(
    map: &TileMap,
    fov: &FovMap,
    objects: Seq<ObjectView>,
    from: int,
    left: nat,
) -> Seq<ObjectView>
    decreases left,
{
    if left == 0 {
        objects
    } else {
        after_pass(map, fov, after_slot(map, fov, objects, from), from + 1, (left - 1) as nat)
    }
}

/// The events of the pass over the entities from index `from` on, in the order in which
/// they arise.
pub open spec fn pass_events(
    map: &TileMap,
    fov: &FovMap,
    objects: Seq<ObjectView>,
    from: int,
    left: nat,
) -> Seq<EventView>
    decreases left,
{
    if left == 0 {
        seq![]
    } else {
        slot_events(fov, objects, from) + pass_events(
            map,
            fov,
            after_slot(map, fov, objects, from),
            from + 1,
            (left - 1) as nat,
        )
    }
}

/// What the pass over the monsters relies on: the player is no monster, and the player
/// and every monster stand on tiles of the map.
pub open spec fn roster_ok(map: &TileMap, objects: Seq<ObjectView>) -> bool {
    &&& objects.len() > 0
    &&& objects[0].ai is None
    &&& on_map(objects[0], map)
    &&& forall|i: int|
        0 <= i < objects.len() && (#[trigger] objects[i]).ai is Some ==> on_map(objects[i], map)
}

/// Whether the player stands where it stood and is an item no more than it was.
pub open spec fn player_stays(before: Seq<ObjectView>, after: Seq<ObjectView>) -> bool {
    &&& after[0].x == before[0].x
    &&& after[0].y == before[0].y
    &&& after[0].item == before[0].item
}

/// One place in the pass keeps the number of entities and what the pass relies on.
pub proof fn slot_keeps_roster(map: &TileMap, fov: &FovMap, objects: Seq<ObjectView>, id: int)
    requires
        map.wf(),
        roster_ok(map, objects),
        0 <= id < objects.len(),
    ensures
        after_slot(map, fov, objects, id).len() == objects.len(),
        roster_ok(map, after_slot(map, fov, objects, id)),
        player_stays(objects, after_slot(map, fov, objects, id)),
{
    let next = after_slot(map, fov, objects, id);
    assert forall|i: int| 0 <= i < next.len() && (#[trigger] next[i]).ai is Some implies on_map(
        next[i],
        map,
    ) by {
        assert(objects[i].ai is Some ==> on_map(objects[i], map));
    }
}

/// Lets every monster take its turn, in registry order.
pub fn monsters_take_turns(
    map: &TileMap,
    objects: &mut Vec<Object>,
    fov_map: &FovMap,
    events: &mut Vec<Event>,
)
    requires
        map.wf(),
        fov_map.wf(),
        fov_map.covers(map),
        roster_ok(map, views(old(objects)@)),
    ensures
        views(final(objects)@) == after_pass(
            map,
            fov_map,
            views(old(objects)@),
            0,
            old(objects)@.len(),
        ),
        event_views(final(events)@) == event_views(old(events)@) + pass_events(
            map,
            fov_map,
            views(old(objects)@),
            0,
            old(objects)@.len(),
        ),
        final(objects)@.len() == old(objects)@.len(),
        roster_ok(map, views(final(objects)@)),
        player_stays(views(old(objects)@), views(final(objects)@)),
{
    let n: usize = objects.len();
    let mut id: usize = 0;
    proof {
        assert(event_views(events@) =~= event_views(old(events)@));
    }
    while id < n
        invariant
            map.wf(),
            fov_map.wf(),
            fov_map.covers(map),
            id <= n,
            objects@.len() == n,
            n == old(objects)@.len(),
            roster_ok(map, views(objects@)),
            player_stays(views(old(objects)@), views(objects@)),
            after_pass(map, fov_map, views(old(objects)@), 0, n as nat) == after_pass(
                map,
                fov_map,
                views(objects@),
                id as int,
                (n - id) as nat,
            ),
            event_views(old(events)@) + pass_events(map, fov_map, views(old(objects)@), 0, n as nat)
                == event_views(events@) + pass_events(
                map,
                fov_map,
                views(objects@),
                id as int,
                (n - id) as nat,
            ),
        decreases n - id,
    {
        let ghost before = views(objects@);
        let ghost log = event_views(events@);
        proof {
            slot_keeps_roster(map, fov_map, before, id as int);
            assert(before[id as int] == objects@[id as int]@);
        }
        if objects[id].ai.is_some() {
            ai_take_turn(id, map, objects, fov_map, events);
        }
        proof {
            assert(views(objects@) == after_slot(map, fov_map, before, id as int));
            assert(event_views(events@) =~= log + slot_events(fov_map, before, id as int));
            assert(log + pass_events(map, fov_map, before, id as int, (n - id) as nat) =~= (log
                + slot_events(fov_map, before, id as int)) + pass_events(
                map,
                fov_map,
                views(objects@),
                id as int + 1,
                (n - id - 1) as nat,
            ));
        }
        id += 1;
    }
    proof {
        assert(event_views(events@) + Seq::<EventView>::empty() =~= event_views(events@));
    }
}

/// What a tick relies on: a well-formed map, a tracker that covers it, and a registry
/// whose player is neither a monster nor an item and stands, like every monster, on a tile
/// of the map.
pub open spec fn world_ok(map: &TileMap, fov: &FovMap, objects: Seq<ObjectView>) -> bool {
    &&& map.wf()
    &&& fov.wf()
    &&& fov.covers(map)
    &&& roster_ok(map, objects)
    &&& objects[0].item is None
}

/// Whether the monsters act after `command`: the command took a turn and the player is
/// alive once it has been carried out.
pub open spec fn monsters_act(
    command: Command,
    map: &TileMap,
    objects: Seq<ObjectView>,
    inventory: Seq<ObjectView>,
) -> bool {
    classify(command, objects[0].alive) == PlayerAction::TookTurn && after_command(
        command,
        map,
        objects,
        inventory,
    )[0].alive
}

/// The entities after one tick.
pub open spec fn after_tick(
    command: Command,
    map: &TileMap,
    fov: &FovMap,
    objects: Seq<ObjectView>,
    inventory: Seq<ObjectView>,
) -> Seq<ObjectView> {
    let acted = after_command(command, map, objects, inventory);
    if monsters_act(command, map, objects, inventory) {
        after_pass(map, fov, acted, 0, acted.len())
    } else {
        acted
    }
}

/// The events of one tick: those of the command, then those of the monsters.
pub open spec fn tick_events(
    command: Command,
    map: &TileMap,
    fov: &FovMap,
    objects: Seq<ObjectView>,
    inventory: Seq<ObjectView>,
) -> Seq<EventView> {
    let acted = after_command(command, map, objects, inventory);
    if monsters_act(command, map, objects, inventory) {
        command_events(command, map, objects, inventory) + pass_events(
            map,
            fov,
            acted,
            0,
            acted.len(),
        )
    } else {
        command_events(command, map, objects, inventory)
    }
}

/// Carrying out a command keeps what a tick relies on.
pub proof fn command_keeps_world(
    command: Command,
    map: &TileMap,
    fov: &FovMap,
    objects: Seq<ObjectView>,
    inventory: Seq<ObjectView>,
)
    requires
        world_ok(map, fov, objects),
        command_fits(command, map, objects),
    ensures
        world_ok(map, fov, after_command(command, map, objects, inventory)),
{
    let next = after_command(command, map, objects, inventory);
    if objects[0].alive {
        match command {
            Command::Move(d) => {
                let x = objects[0].x + d.spec_delta().0;
                let y = objects[0].y + d.spec_delta().1;
                first_target_is_first(objects, x, y, 0);
                assert forall|i: int|
                    0 <= i < next.len() && (#[trigger] next[i]).ai is Some implies on_map(
                    next[i],
                    map,
                ) by {
                    assert(objects[i].ai is Some ==> on_map(objects[i], map));
                }
            },
            Command::PickUp => {
                first_item_is_first(objects, objects[0].x as int, objects[0].y as int, 0);
                assert forall|i: int|
                    0 <= i < next.len() && (#[trigger] next[i]).ai is Some implies on_map(
                    next[i],
                    map,
                ) by {
                    assert(objects[i].ai is Some ==> on_map(objects[i], map));
                    assert(objects.last().ai is Some ==> on_map(objects.last(), map));
                }
            },
            Command::UseItem(_) => {
                assert forall|i: int|
                    0 <= i < next.len() && (#[trigger] next[i]).ai is Some implies on_map(
                    next[i],
                    map,
                ) by {
                    assert(objects[i].ai is Some ==> on_map(objects[i], map));
                }
            },
            _ => {},
        }
    }
}

/// Runs one tick: carries out the player's command and, if that took a turn and the player
/// is alive, lets every monster take its turn. The result classifies the tick.
pub fn tick(
    command: Command,
    map: &TileMap,
    objects: &mut Vec<Object>,
    inventory: &mut Vec<Object>,
    fov_map: &FovMap,
    events: &mut Vec<Event>,
) -> (action: PlayerAction)
    requires
        world_ok(map, fov_map, views(old(objects)@)),
        command_fits(command, map, views(old(objects)@)),
    ensures
        action == classify(command, old(objects)@[0].alive),
        views(final(objects)@) == after_tick(
            command,
            map,
            fov_map,
            views(old(objects)@),
            views(old(inventory)@),
        ),
        views(final(inventory)@) == inventory_after_command(
            command,
            views(old(objects)@),
            views(old(inventory)@),
        ),
        event_views(final(events)@) == event_views(old(events)@) + tick_events(
            command,
            map,
            fov_map,
            views(old(objects)@),
            views(old(inventory)@),
        ),
        world_ok(map, fov_map, views(final(objects)@)),
{
    proof {
        command_keeps_world(command, map, fov_map, views(objects@), views(inventory@));
    }
    let action: PlayerAction = handle_keys(command, objects, map, events, inventory);
    let took_turn: bool = match action {
        PlayerAction::TookTurn => true,
        _ => false,
    };
    if took_turn && objects[PLAYER].alive {
        let ghost log = event_views(events@);
        monsters_take_turns(map, objects, fov_map, events);
        proof {
            let cmd = command_events(
                command,
                map,
                views(old(objects)@),
                views(old(inventory)@),
            );
            let acted = after_command(command, map, views(old(objects)@), views(old(inventory)@));
            assert(event_views(events@) =~= event_views(old(events)@) + (cmd + pass_events(
                map,
                fov_map,
                acted,
                0,
                acted.len(),
            )));
        }
    }
    action
}

} // verus!
