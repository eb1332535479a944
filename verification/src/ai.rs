//! The behaviour of a monster on its turn: sleep, approach, or attack the player.

use vstd::prelude::*;
use crate::combat::{after_attack, attack_events};
use crate::event::{event_views, Event, EventView};
use crate::fov::FovMap;
use crate::movement::{after_move_towards, move_towards};
use crate::object::{views, Object, ObjectView};
use crate::registry::{mut_two, PLAYER};
use crate::tile::TileMap;

verus! {

/// What a monster does on its turn.
#[derive(Clone, Copy, Debug, PartialEq, Eq, Structural)]
pub enum AiChoice {
    /// The observer does not see the monster: nothing happens.
    Sleep,
    /// The player is two tiles away or more: step toward the player.
    Approach,
    /// The player is next to the monster, alive and with hit points left: attack.
    Attack,
    /// The player is next to the monster but dead or without hit points: nothing happens.
    Wait,
}

/// The square of the straight-line distance between two entities.
pub open spec fn distance_squared(a: ObjectView, b: ObjectView) -> int {
    (b.x - a.x) * (b.x - a.x) + (b.y - a.y) * (b.y - a.y)
}

/// The choice of a monster: asleep unless seen; approaching while the distance to the
/// player is at least two tiles, that is while its square is at least four; attacking a
/// player within reach who is alive and has hit points left.
pub open spec fn ai_choice(monster: ObjectView, player: ObjectView, visible: bool) -> AiChoice {
    if !visible {
        AiChoice::Sleep
    } else if distance_squared(monster, player) >= 4 {
        AiChoice::Approach
    } else if player.alive && player.hp() > 0 {
        AiChoice::Attack
    } else {
        AiChoice::Wait
    }
}

/// Whether the entity stands on a tile of the map.
pub open spec fn on_map(v: ObjectView, map: &TileMap) -> bool {
    map.in_bounds(v.x as int, v.y as int)
}

/// The entities after monster `id` took its turn.
pub open spec fn after_ai_turn(
    map: &TileMap,
    objects: Seq<ObjectView>,
    id: int,
    visible: bool,
) -> Seq<ObjectView> {
    match ai_choice(objects[id], objects[0], visible) {
        AiChoice::Approach => after_move_towards(
            map,
            objects,
            id,
            objects[0].x as int,
            objects[0].y as int,
        ),
        AiChoice::Attack => objects.update(0, after_attack(objects[id], objects[0])),
        _ => objects,
    }
}

/// The events of the turn of monster `id`: those of its attack, if it attacks.
pub open spec fn ai_turn_events(objects: Seq<ObjectView>, id: int, visible: bool) -> Seq<
    EventView,
> {
    match ai_choice(objects[id], objects[0], visible) {
        AiChoice::Attack => attack_events(objects[id], objects[0]),
        _ => seq![],
    }
}

impl Object {
    /// The square of the straight-line distance to `other`.
    pub fn distance_squared_to(&self, other: &Object) -> (d: i128)
        ensures
            d == distance_squared(self@, other@),
    {
        let dx: i128 = other.x as i128 - self.x as i128;
        let dy: i128 = other.y as i128 - self.y as i128;
        assert(0 <= dx * dx <= 0x1_0000_0000 * 0x1_0000_0000) by (nonlinear_arith)
            requires
                -0x1_0000_0000 <= dx <= 0x1_0000_0000,
        ;
        assert(0 <= dy * dy <= 0x1_0000_0000 * 0x1_0000_0000) by (nonlinear_arith)
            requires
                -0x1_0000_0000 <= dy <= 0x1_0000_0000,
        ;
        dx * dx + dy * dy
    }
}

/// Decides what a monster does, given whether the observer sees it.
pub fn ai_decide(monster: &Object, player: &Object, visible: bool) -> (c: AiChoice)
    ensures
        c == ai_choice(monster@, player@, visible),
{
    if !visible {
        AiChoice::Sleep
    } else if monster.distance_squared_to(player) >= 4 {
        AiChoice::Approach
    } else {
        let has_hp: bool = match player.fighter {
            Some(f) => f.hp > 0,
            None => false,
        };
        if player.alive && has_hp {
            AiChoice::Attack
        } else {
            AiChoice::Wait
        }
    }
}

/// Lets monster `monster_id` take its turn. The monster acts only if the observer sees its
/// tile; it then steps toward the player, or attacks the player when next to it.
pub fn ai_take_turn(
    monster_id: usize,
    map: &TileMap,
    objects: &mut Vec<Object>,
    fov_map: &FovMap,
    events: &mut Vec<Event>,
)
    requires
        monster_id != PLAYER,
        monster_id < old(objects)@.len(),
        map.wf(),
        fov_map.wf(),
        fov_map.covers(map),
        on_map(old(objects)@[monster_id as int]@, map),
        on_map(old(objects)@[0]@, map),
    ensures
        views(final(objects)@) == after_ai_turn(
            map,
            views(old(objects)@),
            monster_id as int,
            fov_map.sees(
                old(objects)@[monster_id as int].x as int,
                old(objects)@[monster_id as int].y as int,
            ),
        ),
        event_views(final(events)@) == event_views(old(events)@) + ai_turn_events(
            views(old(objects)@),
            monster_id as int,
            fov_map.sees(
                old(objects)@[monster_id as int].x as int,
                old(objects)@[monster_id as int].y as int,
            ),
        ),
{
    let (monster_x, monster_y) = objects[monster_id].pos();
    let visible: bool = fov_map.is_in_fov(monster_x, monster_y);
    let choice: AiChoice = ai_decide(&objects[monster_id], &objects[PLAYER], visible);
    match choice {
        AiChoice::Approach => {
            let (player_x, player_y) = objects[PLAYER].pos();
            move_towards(monster_id, player_x, player_y, map, objects);
            assert(event_views(events@) =~= event_views(old(events)@) + Seq::<EventView>::empty());
        },
        AiChoice::Attack => {
            let (monster, player) = mut_two(monster_id, PLAYER, objects.as_mut_slice());
            monster.attack(player, events);
            assert(views(objects@) =~= views(old(objects)@).update(
                0,
                after_attack(views(old(objects)@)[monster_id as int], views(old(objects)@)[0]),
            ));
        },
        _ => {
            assert(event_views(events@) =~= event_views(old(events)@) + Seq::<EventView>::empty());
        },
    }
}

} // verus!
