//! The two death transitions.

use vstd::prelude::*;
use crate::color::{dark_red, spec_dark_red};
use crate::event::{emit, event_views, Event, EventView};
use crate::object::{Object, ObjectView};
use crate::text::{remains_name, remains_of};

verus! {

/// The glyph shown for anything dead.
pub open spec fn corpse_glyph() -> char {
    '%'
}

/// The player after dying: marked as a corpse, capabilities untouched.
pub open spec fn player_corpse(v: ObjectView) -> ObjectView {
    ObjectView { glyph: corpse_glyph(), color: spec_dark_red(), ..v }
}

/// A monster after dying: inert remains that block nothing.
pub open spec fn monster_corpse(v: ObjectView) -> ObjectView {
    ObjectView {
        glyph: corpse_glyph(),
        color: spec_dark_red(),
        blocks: false,
        fighter: None,
        ai: None,
        name: remains_name(v.name),
        ..v
    }
}

/// Turns the player into a corpse and reports the death.
pub fn player_death(player: &mut Object, events: &mut Vec<Event>)
    ensures
        final(player)@ == player_corpse(old(player)@),
        event_views(final(events)@) == event_views(old(events)@).push(EventView::PlayerDied),
{
    emit(events, Event::PlayerDied);
    player.glyph = '%';
    player.color = dark_red();
}

/// Turns a monster into remains: it no longer blocks, fights or acts, and is renamed.
pub fn monster_death(monster: &mut Object, events: &mut Vec<Event>)
    ensures
        final(monster)@ == monster_corpse(old(monster)@),
        event_views(final(events)@) == event_views(old(events)@).push(
            EventView::MonsterDied { name: old(monster)@.name },
        ),
{
    emit(events, Event::MonsterDied { name: monster.name.clone() });
    monster.glyph = '%';
    monster.color = dark_red();
    monster.blocks = false;
    monster.fighter = None;
    monster.ai = None;
    monster.name = remains_of(monster.name.as_str());
}

} // verus!
