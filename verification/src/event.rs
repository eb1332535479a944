//! What happened during a turn, reported for the presentation layer to show.

use vstd::prelude::*;
use crate::color::Color;

verus! {

/// One thing that happened while an action was resolved.
#[derive(Clone, Debug, PartialEq, Eq)]
pub enum Event {
    /// An attack that took `damage` hit points.
    Attacked { attacker: String, target: String, damage: i64 },
    /// An attack whose damage was zero or less.
    NoEffect { attacker: String, target: String },
    /// The player ran out of hit points.
    PlayerDied,
    /// A monster ran out of hit points; `name` is its name before it became remains.
    MonsterDied { name: String },
    /// A pick-up was refused because the inventory holds its maximum.
    InventoryFull { name: String },
    /// An item moved from the map into the inventory.
    PickedUp { name: String },
    /// A healing item was not used because nothing was left to heal.
    AlreadyFullHealth,
    /// A healing item restored hit points.
    Healed,
    /// The use of an item was cancelled.
    Cancelled,
    /// The chosen inventory entry has no use.
    CannotUse { name: String },
    /// The player's step was refused: a wall or a blocking entity that cannot fight is in
    /// the way.
    MoveBlocked,
    /// A pick-up found no item on the player's tile.
    NothingToPickUp,
    /// The inventory has no entry with the chosen index.
    EmptySlot,
}

/// The mathematical value of an [`Event`], with names as sequences.
pub enum EventView {
    Attacked { attacker: Seq<char>, target: Seq<char>, damage: int },
    NoEffect { attacker: Seq<char>, target: Seq<char> },
    PlayerDied,
    MonsterDied { name: Seq<char> },
    InventoryFull { name: Seq<char> },
    PickedUp { name: Seq<char> },
    AlreadyFullHealth,
    Healed,
    Cancelled,
    CannotUse { name: Seq<char> },
    MoveBlocked,
    NothingToPickUp,
    EmptySlot,
}

impl View for Event {
    type V = EventView;

    open spec fn view(&self) -> EventView {
        match *self {
            Event::Attacked { attacker, target, damage } => EventView::Attacked {
                attacker: attacker@,
                target: target@,
                damage: damage as int,
            },
            Event::NoEffect { attacker, target } => EventView::NoEffect {
                attacker: attacker@,
                target: target@,
            },
            Event::PlayerDied => EventView::PlayerDied,
            Event::MonsterDied { name } => EventView::MonsterDied { name: name@ },
            Event::InventoryFull { name } => EventView::InventoryFull { name: name@ },
            Event::PickedUp { name } => EventView::PickedUp { name: name@ },
            Event::AlreadyFullHealth => EventView::AlreadyFullHealth,
            Event::Healed => EventView::Healed,
            Event::Cancelled => EventView::Cancelled,
            Event::CannotUse { name } => EventView::CannotUse { name: name@ },
            Event::MoveBlocked => EventView::MoveBlocked,
            Event::NothingToPickUp => EventView::NothingToPickUp,
            Event::EmptySlot => EventView::EmptySlot,
        }
    }
}

/// The values of a sequence of events.
pub open spec fn event_views(events: Seq<Event>) -> Seq<EventView> {
    events.map_values(|e: Event| e@)
}

/// Appends one event to the log.
pub fn emit(events: &mut Vec<Event>, e: Event)
    ensures
        event_views(final(events)@) == event_views(old(events)@).push(e@),
{
    events.push(e);
    assert(event_views(events@) =~= event_views(old(events)@).push(e@));
}

/// The number of lines that the message buffer keeps.
pub const MSG_HEIGHT: usize = 6;

/// The buffer after one more line: the oldest line leaves once the buffer is full.
pub open spec fn with_message(
    log: Seq<(String, Color)>,
    text: String,
    color: Color,
) -> Seq<(String, Color)> {
    if log.len() == MSG_HEIGHT {
        log.skip(1).push((text, color))
    } else {
        log.push((text, color))
    }
}

/// Adds a line to the message buffer, dropping the oldest line if the buffer is full.
pub fn message(messages: &mut Vec<(String, Color)>, text: String, color: Color)
    ensures
        final(messages)@ == with_message(old(messages)@, text, color),
{
    if messages.len() == MSG_HEIGHT {
        messages.remove(0);
        assert(messages@ =~= old(messages)@.skip(1));
    }
    messages.push((text, color));
}

} // verus!
