//! Damage, attacks and the moment of death.

use vstd::prelude::*;
use crate::death::{monster_corpse, monster_death, player_corpse, player_death};
use crate::event::{emit, event_views, Event, EventView};
use crate::object::{DeathCallBack, Fighter, Object, ObjectView};

verus! {

impl ObjectView {
    /// Attack power; an entity that cannot fight has none.
    pub open spec fn power(&self) -> int {
        match self.fighter {
            Some(f) => f.power as int,
            None => 0,
        }
    }

    /// Defense; an entity that cannot fight has none.
    pub open spec fn defense(&self) -> int {
        match self.fighter {
            Some(f) => f.defense as int,
            None => 0,
        }
    }

    /// Hit points; an entity that cannot fight has none.
    pub open spec fn hp(&self) -> int {
        match self.fighter {
            Some(f) => f.hp as int,
            None => 0,
        }
    }

    /// Hit points left once `damage` is applied: positive damage is subtracted, and the
    /// result never drops below zero; other damage changes nothing.
    pub open spec fn hp_after(&self, damage: int) -> int {
        if damage <= 0 {
            self.hp()
        } else if self.hp() - damage < 0 {
            0
        } else {
            self.hp() - damage
        }
    }

    /// Whether applying `damage` kills the entity: it can fight, it was alive, and no hit
    /// points are left.
    pub open spec fn dies_from(&self, damage: int) -> bool {
        self.fighter is Some && self.alive && self.hp_after(damage) <= 0
    }

    /// The entity with its hit points lowered by `damage`, before any death transition.
    pub open spec fn hurt(self, damage: int) -> ObjectView {
        match self.fighter {
            Some(f) => ObjectView {
                fighter: Some(Fighter { hp: self.hp_after(damage) as i32, ..f }),
                ..self
            },
            None => self,
        }
    }

    /// The entity after the death transition that its fighter names.
    pub open spec fn dead(self) -> ObjectView {
        let marked = ObjectView { alive: false, ..self };
        match self.fighter {
            Some(f) => match f.on_death {
                DeathCallBack::Player => player_corpse(marked),
                DeathCallBack::Monster => monster_corpse(marked),
            },
            None => self,
        }
    }

    /// The entity after taking `damage`, death transition included.
    pub open spec fn after_damage(self, damage: int) -> ObjectView {
        if self.dies_from(damage) {
            self.hurt(damage).dead()
        } else {
            self.hurt(damage)
        }
    }

    /// The events that taking `damage` gives rise to: a death, or nothing.
    pub open spec fn damage_events(self, damage: int) -> Seq<EventView> {
        if self.dies_from(damage) {
            match self.fighter->0.on_death {
                DeathCallBack::Player => seq![EventView::PlayerDied],
                DeathCallBack::Monster => seq![EventView::MonsterDied { name: self.name }],
            }
        } else {
            seq![]
        }
    }
}

/// The damage of one attack: the attacker's power less the target's defense.
pub open spec fn attack_damage(attacker: ObjectView, target: ObjectView) -> int {
    attacker.power() - target.defense()
}

/// The target after one attack: damaged if the damage is positive, untouched otherwise.
pub open spec fn after_attack(attacker: ObjectView, target: ObjectView) -> ObjectView {
    if attack_damage(attacker, target) > 0 {
        target.after_damage(attack_damage(attacker, target))
    } else {
        target
    }
}

/// The events of one attack: the hit and any death, or a report that it had no effect.
pub open spec fn attack_events(attacker: ObjectView, target: ObjectView) -> Seq<EventView> {
    let damage = attack_damage(attacker, target);
    if damage > 0 {
        seq![EventView::Attacked { attacker: attacker.name, target: target.name, damage }]
            + target.damage_events(damage)
    } else {
        seq![EventView::NoEffect { attacker: attacker.name, target: target.name }]
    }
}

impl DeathCallBack {
    /// Runs the death transition that this variant names.
    pub fn callback(self, object: &mut Object, events: &mut Vec<Event>)
        ensures
            final(object)@ == (match self {
                DeathCallBack::Player => player_corpse(old(object)@),
                DeathCallBack::Monster => monster_corpse(old(object)@),
            }),
            event_views(final(events)@) == event_views(old(events)@).push(
                match self {
                    DeathCallBack::Player => EventView::PlayerDied,
                    DeathCallBack::Monster => EventView::MonsterDied { name: old(object)@.name },
                },
            ),
    {
        match self {
            DeathCallBack::Player => player_death(object, events),
            DeathCallBack::Monster => monster_death(object, events),
        }
    }
}

impl Object {
    /// Applies `damage` to the entity and, if that uses up the hit points of a living
    /// fighter, marks it dead and runs its death transition.
    pub fn take_damage(&mut self, damage: i64, events: &mut Vec<Event>)
        ensures
            final(self)@ == old(self)@.after_damage(damage as int),
            event_views(final(events)@) == event_views(old(events)@) + old(self)@.damage_events(
                damage as int,
            ),
    {
        if let Some(mut fighter) = self.fighter {
            if damage > 0 {
                if fighter.hp as i64 <= damage {
                    fighter.hp = 0;
                } else {
                    fighter.hp = (fighter.hp as i64 - damage) as i32;
                }
            }
            self.fighter = Some(fighter);
            if fighter.hp <= 0 && self.alive {
                self.alive = false;
                fighter.on_death.callback(self, events);
                return ;
            }
        }
        assert(event_views(events@) =~= event_views(old(events)@) + old(self)@.damage_events(
            damage as int,
        ));
    }

    /// Attacks `target`: the damage is this entity's power less the target's defense, and
    /// only positive damage is applied.
    pub fn attack(&mut self, target: &mut Object, events: &mut Vec<Event>)
        ensures
            final(self)@ == old(self)@,
            final(target)@ == after_attack(old(self)@, old(target)@),
            event_views(final(events)@) == event_views(old(events)@) + attack_events(
                old(self)@,
                old(target)@,
            ),
            old(target)@.wf() ==> final(target)@.wf(),
    {
        let power: i64 = match self.fighter {
            Some(f) => f.power as i64,
            None => 0,
        };
        let defense: i64 = match target.fighter {
            Some(f) => f.defense as i64,
            None => 0,
        };
        let damage: i64 = power - defense;
        if damage > 0 {
            emit(
                events,
                Event::Attacked {
                    attacker: self.name.clone(),
                    target: target.name.clone(),
                    damage,
                },
            );
            let ghost mid = event_views(events@);
            target.take_damage(damage, events);
            assert(event_views(events@) =~= event_views(old(events)@) + attack_events(
                old(self)@,
                old(target)@,
            ));
        } else {
            emit(
                events,
                Event::NoEffect { attacker: self.name.clone(), target: target.name.clone() },
            );
            assert(event_views(events@) =~= event_views(old(events)@) + attack_events(
                old(self)@,
                old(target)@,
            ));
        }
    }
}

/// An attack leaves the hit points of its target between zero and the maximum.
pub proof fn attack_keeps_hit_points_in_range(attacker: ObjectView, target: ObjectView)
    requires
        target.wf(),
    ensures
        after_attack(attacker, target).wf(),
        0 <= after_attack(attacker, target).hp(),
        after_attack(attacker, target).fighter is Some ==> after_attack(attacker, target).hp()
            <= after_attack(attacker, target).fighter->0.max_hp,
{
}

/// Taking damage leaves hit points between zero and the maximum.
pub proof fn damage_keeps_hit_points_in_range(target: ObjectView, damage: int)
    requires
        target.wf(),
    ensures
        target.after_damage(damage).wf(),
{
}

/// The damage that an attack applies is the attacker's power less the target's defense, or
/// nothing if that is not positive. An attack that applies nothing leaves the target as it
/// was and reports exactly that it had no effect; an attack that applies damage lowers the
/// hit points of a fighter by that damage, stopping at zero.
pub proof fn attack_applies_power_less_defense(attacker: ObjectView, target: ObjectView)
    ensures
        attack_damage(attacker, target) <= 0 ==> after_attack(attacker, target) == target
            && attack_events(attacker, target) == seq![
            EventView::NoEffect { attacker: attacker.name, target: target.name },
        ],
        attack_damage(attacker, target) > 0 && target.fighter is Some ==> target.hurt(
            attack_damage(attacker, target),
        ).hp() == if target.hp() - attack_damage(attacker, target) < 0 {
            0
        } else {
            target.hp() - attack_damage(attacker, target)
        },
        attack_damage(attacker, target) > 0 ==> after_attack(attacker, target)
            == target.after_damage(attack_damage(attacker, target)),
        attack_damage(attacker, target) > 0 ==> attack_events(attacker, target)[0]
            == (EventView::Attacked {
            attacker: attacker.name,
            target: target.name,
            damage: attack_damage(attacker, target),
        }),
{
}

/// Nothing dies twice: an entity that has died from some damage does not die from any
/// later damage, and such damage reports no death. Remains of a monster are not changed by
/// it at all, so they are not renamed or stripped a second time.
pub proof fn death_fires_once(target: ObjectView, damage: int, later: int)
    requires
        target.dies_from(damage),
    ensures
        !target.after_damage(damage).alive,
        !target.after_damage(damage).dies_from(later),
        target.after_damage(damage).damage_events(later) == Seq::<EventView>::empty(),
        target.fighter->0.on_death == DeathCallBack::Monster ==> target.after_damage(
            damage,
        ).after_damage(later) == target.after_damage(damage),
{
}

/// An entity that is not alive does not die, whatever the damage.
pub proof fn the_dead_do_not_die(target: ObjectView, damage: int)
    requires
        !target.alive,
    ensures
        !target.dies_from(damage),
        target.damage_events(damage) == Seq::<EventView>::empty(),
{
}

} // verus!
