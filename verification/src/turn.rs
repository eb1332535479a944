//! One player action per tick, and its classification.

use vstd::prelude::*;
use crate::event::{emit, event_views, Event, EventView};
use crate::inventory::{pick_item_up, swap_removed, use_item, use_item_events, INVENTORY_CAPACITY};
use crate::inventory::{after_cast_heal, takes_effect, uses_up};
use crate::object::{views, Object, ObjectView};
use crate::player::{after_player_move, player_move_events, player_move_or_attack};
use crate::registry::PLAYER;
use crate::tile::TileMap;

verus! {

/// How a tick is classified once the player's action has been handled.
#[derive(Clone, Copy, Debug, PartialEq, Eq, Structural)]
pub enum PlayerAction {
    TookTurn,
    DidntTakeTurn,
    Exit,
}

/// One of the four directions in which the player can step.
#[derive(Clone, Copy, Debug, PartialEq, Eq, Structural)]
pub enum Direction {
    Up,
    Down,
    Left,
    Right,
}

/// What the player asked for, once the input has been decoded.
#[derive(Clone, Copy, Debug, PartialEq, Eq, Structural)]
pub enum Command {
    /// Switch between windowed and full-screen display.
    ToggleFullscreen,
    /// Leave the game.
    Exit,
    /// Step, or attack, in a direction.
    Move(Direction),
    /// Pick up the item on the player's tile.
    PickUp,
    /// Use the inventory entry with this index.
    UseItem(usize),
    /// Anything else.
    Nothing,
}

impl Direction {
    /// The change of position that a step in this direction makes.
    pub open spec fn spec_delta(self) -> (int, int) {
        match self {
            Direction::Up => (0, -1),
            Direction::Down => (0, 1),
            Direction::Left => (-1, 0),
            Direction::Right => (1, 0),
        }
    }

    /// The change of position that a step in this direction makes.
    pub fn delta(self) -> (d: (i32, i32))
        ensures
            (d.0 as int, d.1 as int) == self.spec_delta(),
    {
        match self {
            Direction::Up => (0, -1),
            Direction::Down => (0, 1),
            Direction::Left => (-1, 0),
            Direction::Right => (1, 0),
        }
    }
}

/// Whether the entity can be picked up at `(x, y)`: it is an item and lies there.
pub open spec fn is_item_at(v: ObjectView, x: int, y: int) -> bool {
    v.item is Some && v.is_at(x, y)
}

/// The index of the first entity from `from` on that can be picked up at `(x, y)`.
pub open spec fn first_item(objects: Seq<ObjectView>, x: int, y: int, from: int) -> Option<int>
    decreases objects.len() - from,
{
    if from < 0 || from >= objects.len() {
        None
    } else if is_item_at(objects[from], x, y) {
        Some(from)
    } else {
        first_item(objects, x, y, from + 1)
    }
}

/// An item that was found lies within the sequence, at or after `from`, and can be picked
/// up; no entity between `from` and it can.
pub proof fn first_item_is_first(objects: Seq<ObjectView>, x: int, y: int, from: int)
    requires
        0 <= from,
    ensures
        match first_item(objects, x, y, from) {
            Some(t) => from <= t < objects.len() && is_item_at(objects[t], x, y) && forall|k: int|
                from <= k < t ==> !is_item_at(#[trigger] objects[k], x, y),
            None => forall|k: int|
                from <= k < objects.len() ==> !is_item_at(#[trigger] objects[k], x, y),
        },
    decreases objects.len() - from,
{
    if from < objects.len() && !is_item_at(objects[from], x, y) {
        first_item_is_first(objects, x, y, from + 1);
    }
}

/// Finds the first item that lies at `(x, y)`.
pub fn find_item(objects: &Vec<Object>, x: i32, y: i32) -> (r: Option<usize>)
    ensures
        match r {
            Some(t) => first_item(views(objects@), x as int, y as int, 0) == Some(t as int),
            None => first_item(views(objects@), x as int, y as int, 0) is None,
        },
{
    let mut i: usize = 0;
    while i < objects.len()
        invariant
            i <= objects@.len(),
            first_item(views(objects@), x as int, y as int, 0) == first_item(
                views(objects@),
                x as int,
                y as int,
                i as int,
            ),
        decreases objects@.len() - i,
    {
        if objects[i].item.is_some() && objects[i].x == x && objects[i].y == y {
            return Some(i);
        }
        i += 1;
    }
    None
}

/// The classification of a command: leaving the game exits whether the player lives or
/// not; a step by a living player takes a turn; nothing else does.
pub open spec fn classify(command: Command, alive: bool) -> PlayerAction {
    match command {
        Command::Exit => PlayerAction::Exit,
        Command::Move(_) => if alive {
            PlayerAction::TookTurn
        } else {
            PlayerAction::DidntTakeTurn
        },
        _ => PlayerAction::DidntTakeTurn,
    }
}

/// The item that a pick-up takes: the first item on the player's tile.
pub open spec fn item_underfoot(objects: Seq<ObjectView>) -> Option<int> {
    first_item(objects, objects[0].x as int, objects[0].y as int, 0)
}

/// The entities on the map after `command`.
pub open spec fn after_command(
    command: Command,
    map: &TileMap,
    objects: Seq<ObjectView>,
    inventory: Seq<ObjectView>,
) -> Seq<ObjectView> {
    if !objects[0].alive {
        objects
    } else {
        match command {
            Command::Move(d) => after_player_move(map, objects, d.spec_delta().0, d.spec_delta().1),
            Command::PickUp => match item_underfoot(objects) {
                Some(i) => if inventory.len() < INVENTORY_CAPACITY {
                    swap_removed(objects, i)
                } else {
                    objects
                },
                None => objects,
            },
            Command::UseItem(i) => if takes_effect(inventory, i as int) {
                after_cast_heal(objects)
            } else {
                objects
            },
            _ => objects,
        }
    }
}

/// The inventory after `command`.
pub open spec fn inventory_after_command(
    command: Command,
    objects: Seq<ObjectView>,
    inventory: Seq<ObjectView>,
) -> Seq<ObjectView> {
    if !objects[0].alive {
        inventory
    } else {
        match command {
            Command::PickUp => match item_underfoot(objects) {
                Some(i) => if inventory.len() < INVENTORY_CAPACITY {
                    inventory.push(objects[i])
                } else {
                    inventory
                },
                None => inventory,
            },
            Command::UseItem(i) => if uses_up(inventory, i as int, objects[0]) {
                inventory.remove(i as int)
            } else {
                inventory
            },
            _ => inventory,
        }
    }
}

/// The events that `command` gives rise to. An action that is refused (a step into a wall,
/// a pick-up where nothing lies, the use of an entry that the inventory does not have) is
/// reported by an event of its own.
pub open spec fn command_events(
    command: Command,
    map: &TileMap,
    objects: Seq<ObjectView>,
    inventory: Seq<ObjectView>,
) -> Seq<EventView> {
    if !objects[0].alive {
        seq![]
    } else {
        match command {
            Command::Move(d) => player_move_events(
                map,
                objects,
                d.spec_delta().0,
                d.spec_delta().1,
            ),
            Command::PickUp => match item_underfoot(objects) {
                Some(i) => if inventory.len() < INVENTORY_CAPACITY {
                    seq![EventView::PickedUp { name: objects[i].name }]
                } else {
                    seq![EventView::InventoryFull { name: objects[i].name }]
                },
                None => seq![EventView::NothingToPickUp],
            },
            Command::UseItem(i) => use_item_events(inventory, i as int, objects[0]),
            _ => seq![],
        }
    }
}

/// Whether `command` can be carried out: a step of a living player must stay on the map.
/// A dead player carries out nothing, so nothing is asked.
pub open spec fn command_fits(command: Command, map: &TileMap, objects: Seq<ObjectView>) -> bool {
    objects[0].alive ==> match command {
        Command::Move(d) => map.in_bounds(
            objects[0].x + d.spec_delta().0,
            objects[0].y + d.spec_delta().1,
        ),
        _ => true,
    }
}

/// Carries out one command of the player and classifies the tick.
pub fn handle_keys(
    command: Command,
    objects: &mut Vec<Object>,
    map: &TileMap,
    events: &mut Vec<Event>,
    inventory: &mut Vec<Object>,
) -> (action: PlayerAction)
    requires
        old(objects)@.len() > 0,
        map.wf(),
        command_fits(command, map, views(old(objects)@)),
    ensures
        action == classify(command, old(objects)@[0].alive),
        views(final(objects)@) == after_command(
            command,
            map,
            views(old(objects)@),
            views(old(inventory)@),
        ),
        views(final(inventory)@) == inventory_after_command(
            command,
            views(old(objects)@),
            views(old(inventory)@),
        ),
        event_views(final(events)@) == event_views(old(events)@) + command_events(
            command,
            map,
            views(old(objects)@),
            views(old(inventory)@),
        ),
{
    let player_alive: bool = objects[PLAYER].alive;
    proof {
        assert(event_views(events@) =~= event_views(old(events)@) + Seq::<EventView>::empty());
    }
    match command {
        Command::ToggleFullscreen => PlayerAction::DidntTakeTurn,
        Command::Exit => PlayerAction::Exit,
        Command::Move(direction) => {
            if player_alive {
                let (dx, dy) = direction.delta();
                player_move_or_attack(dx, dy, map, objects, events);
                PlayerAction::TookTurn
            } else {
                PlayerAction::DidntTakeTurn
            }
        },
        Command::PickUp => {
            if player_alive {
                let (x, y) = objects[PLAYER].pos();
                let item_id: Option<usize> = find_item(objects, x, y);
                proof {
                    first_item_is_first(views(objects@), x as int, y as int, 0);
                }
                if let Some(item_id) = item_id {
                    pick_item_up(item_id, objects, inventory, events);
                    proof {
                        if old(inventory)@.len() < INVENTORY_CAPACITY {
                            assert(views(objects@) =~= swap_removed(
                                views(old(objects)@),
                                item_id as int,
                            ));
                            assert(views(inventory@) =~= views(old(inventory)@).push(
                                views(old(objects)@)[item_id as int],
                            ));
                        }
                        assert(event_views(events@) =~= event_views(old(events)@) + command_events(
                            command,
                            map,
                            views(old(objects)@),
                            views(old(inventory)@),
                        ));
                    }
                } else {
                    emit(events, Event::NothingToPickUp);
                    assert(event_views(events@) =~= event_views(old(events)@) + command_events(
                        command,
                        map,
                        views(old(objects)@),
                        views(old(inventory)@),
                    ));
                }
            }
            PlayerAction::DidntTakeTurn
        },
        Command::UseItem(inventory_index) => {
            if player_alive {
                use_item(inventory_index, inventory, objects, events);
                proof {
                    if uses_up(views(old(inventory)@), inventory_index as int, old(objects)@[0]@) {
                        assert(views(inventory@) =~= views(old(inventory)@).remove(
                            inventory_index as int,
                        ));
                    }
                }
            }
            PlayerAction::DidntTakeTurn
        },
        Command::Nothing => PlayerAction::DidntTakeTurn,
    }
}

} // verus!
