//! Picking items up and using them.

use vstd::prelude::*;
use crate::event::{emit, event_views, Event, EventView};
use crate::object::{views, Item, Object, ObjectView};
use crate::registry::PLAYER;

verus! {

/// The number of items that the inventory can hold.
pub const INVENTORY_CAPACITY: usize = 26;

/// The hit points that a healing potion restores.
pub const HEAL_AMOUNT: i32 = 4;

/// How the use of an item ended.
#[derive(Clone, Copy, Debug, PartialEq, Eq, Structural)]
pub enum UseResult {
    UsedUp,
    Cancelled,
}

/// The sequence without element `i`, the last element having taken its place.
pub open spec fn swap_removed<T>(s: Seq<T>, i: int) -> Seq<T> {
    s.update(i, s.last()).drop_last()
}

/// Whether the player can fight and has fewer hit points than the maximum.
pub open spec fn can_heal(player: ObjectView) -> bool {
    player.fighter is Some && player.fighter->0.hp != player.fighter->0.max_hp
}

/// The entities after a healing potion was used: the player is healed if that is possible.
pub open spec fn after_cast_heal(objects: Seq<ObjectView>) -> Seq<ObjectView> {
    if can_heal(objects[0]) {
        objects.update(0, objects[0].healed(HEAL_AMOUNT as int))
    } else {
        objects
    }
}

/// The events of using a healing potion.
pub open spec fn cast_heal_events(player: ObjectView) -> Seq<EventView> {
    if player.fighter is None {
        seq![]
    } else if can_heal(player) {
        seq![EventView::Healed]
    } else {
        seq![EventView::AlreadyFullHealth]
    }
}

/// Whether using inventory entry `id` uses it up: the entry exists, it is an item, and the
/// player can be healed.
pub open spec fn uses_up(inventory: Seq<ObjectView>, id: int, player: ObjectView) -> bool {
    0 <= id < inventory.len() && inventory[id].item is Some && can_heal(player)
}

/// Whether using inventory entry `id` reaches the item's effect: the entry exists and is
/// an item.
pub open spec fn takes_effect(inventory: Seq<ObjectView>, id: int) -> bool {
    0 <= id < inventory.len() && inventory[id].item is Some
}

/// The events of using inventory entry `id` while the player is `player`: a report that
/// there is no such entry, or that the entry has no use, or the events of the item's
/// effect, followed by a report if the use was cancelled.
pub open spec fn use_item_events(inventory: Seq<ObjectView>, id: int, player: ObjectView) -> Seq<
    EventView,
> {
    if id < 0 || id >= inventory.len() {
        seq![EventView::EmptySlot]
    } else if inventory[id].item is None {
        seq![EventView::CannotUse { name: inventory[id].name }]
    } else if can_heal(player) {
        cast_heal_events(player)
    } else {
        cast_heal_events(player).push(EventView::Cancelled)
    }
}

/// Moves entity `object_id` from the map into the inventory, unless the inventory is full.
/// The last entity of the registry takes the place of the one that left.
pub fn pick_item_up(
    object_id: usize,
    objects: &mut Vec<Object>,
    inventory: &mut Vec<Object>,
    events: &mut Vec<Event>,
)
    requires
        object_id < old(objects)@.len(),
    ensures
        old(inventory)@.len() >= INVENTORY_CAPACITY ==> {
            &&& final(objects)@ == old(objects)@
            &&& final(inventory)@ == old(inventory)@
            &&& event_views(final(events)@) == event_views(old(events)@).push(
                EventView::InventoryFull { name: old(objects)@[object_id as int]@.name },
            )
        },
        old(inventory)@.len() < INVENTORY_CAPACITY ==> {
            &&& final(objects)@ == swap_removed(old(objects)@, object_id as int)
            &&& final(inventory)@ == old(inventory)@.push(old(objects)@[object_id as int])
            &&& event_views(final(events)@) == event_views(old(events)@).push(
                EventView::PickedUp { name: old(objects)@[object_id as int]@.name },
            )
        },
{
    if inventory.len() >= INVENTORY_CAPACITY {
        emit(events, Event::InventoryFull { name: objects[object_id].name.clone() });
    } else {
        let item: Object = objects.swap_remove(object_id);
        emit(events, Event::PickedUp { name: item.name.clone() });
        inventory.push(item);
    }
}

/// Heals the player by [`HEAL_AMOUNT`], unless the player cannot fight or is at full health.
pub fn cast_heal(_inventory_id: usize, objects: &mut Vec<Object>, events: &mut Vec<Event>) -> (r:
    UseResult)
    requires
        old(objects)@.len() > 0,
    ensures
        r == (if can_heal(old(objects)@[0]@) {
            UseResult::UsedUp
        } else {
            UseResult::Cancelled
        }),
        views(final(objects)@) == after_cast_heal(views(old(objects)@)),
        event_views(final(events)@) == event_views(old(events)@) + cast_heal_events(
            old(objects)@[0]@,
        ),
        old(objects)@[0]@.wf() ==> final(objects)@[0]@.wf(),
{
    if let Some(fighter) = objects[PLAYER].fighter {
        if fighter.hp == fighter.max_hp {
            emit(events, Event::AlreadyFullHealth);
            assert(event_views(events@) =~= event_views(old(events)@) + cast_heal_events(
                old(objects)@[0]@,
            ));
            assert(views(objects@) =~= views(old(objects)@));
            return UseResult::Cancelled;
        }
        emit(events, Event::Healed);
        objects[PLAYER].heal(HEAL_AMOUNT);
        assert(event_views(events@) =~= event_views(old(events)@) + cast_heal_events(
            old(objects)@[0]@,
        ));
        assert(views(objects@) =~= after_cast_heal(views(old(objects)@)));
        return UseResult::UsedUp;
    }
    assert(event_views(events@) =~= event_views(old(events)@) + cast_heal_events(
        old(objects)@[0]@,
    ));
    UseResult::Cancelled
}

/// Uses inventory entry `inventory_id`. An item that was used up leaves the inventory, the
/// entries behind it moving up by one; otherwise the inventory stays as it is. An index
/// beyond the last entry changes nothing and is reported.
pub fn use_item(
    inventory_id: usize,
    inventory: &mut Vec<Object>,
    objects: &mut Vec<Object>,
    events: &mut Vec<Event>,
)
    requires
        old(objects)@.len() > 0,
    ensures
        views(final(objects)@) == (if takes_effect(views(old(inventory)@), inventory_id as int) {
            after_cast_heal(views(old(objects)@))
        } else {
            views(old(objects)@)
        }),
        final(inventory)@ == (if uses_up(
            views(old(inventory)@),
            inventory_id as int,
            old(objects)@[0]@,
        ) {
            old(inventory)@.remove(inventory_id as int)
        } else {
            old(inventory)@
        }),
        event_views(final(events)@) == event_views(old(events)@) + use_item_events(
            views(old(inventory)@),
            inventory_id as int,
            old(objects)@[0]@,
        ),
{
    if inventory_id >= inventory.len() {
        emit(events, Event::EmptySlot);
        assert(event_views(events@) =~= event_views(old(events)@) + use_item_events(
            views(old(inventory)@),
            inventory_id as int,
            old(objects)@[0]@,
        ));
        return ;
    }
    assert(views(old(inventory)@)[inventory_id as int] == old(inventory)@[inventory_id as int]@);
    if let Some(item) = inventory[inventory_id].item {
        let result: UseResult = match item {
            Item::Heal => cast_heal(inventory_id, objects, events),
        };
        match result {
            UseResult::UsedUp => {
                inventory.remove(inventory_id);
            },
            UseResult::Cancelled => {
                emit(events, Event::Cancelled);
                assert(event_views(events@) =~= event_views(old(events)@) + use_item_events(
                    views(old(inventory)@),
                    inventory_id as int,
                    old(objects)@[0]@,
                ));
            },
        }
    } else {
        emit(events, Event::CannotUse { name: inventory[inventory_id].name.clone() });
        assert(event_views(events@) =~= event_views(old(events)@) + use_item_events(
            views(old(inventory)@),
            inventory_id as int,
            old(objects)@[0]@,
        ));
    }
}

} // verus!
