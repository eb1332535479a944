//! Entities and the capabilities that can be attached to them.

use vstd::prelude::*;
use crate::color::Color;

verus! {

/// What happens to an entity when its hit points run out.
#[derive(Clone, Copy, Debug, PartialEq, Eq, Structural)]
pub enum DeathCallBack {
    Player,
    Monster,
}

/// Combat statistics of an entity that can fight.
#[derive(Clone, Copy, Debug, PartialEq, Eq, Structural)]
pub struct Fighter {
    pub max_hp: i32,
    pub hp: i32,
    pub defense: i32,
    pub power: i32,
    pub on_death: DeathCallBack,
}

impl Fighter {
    /// Hit points are never negative and never above the maximum.
    pub open spec fn wf(&self) -> bool {
        0 <= self.hp <= self.max_hp
    }
}

/// Marks an entity as driven by the monster behaviour.
#[derive(Clone, Copy, Debug, PartialEq, Eq, Structural)]
pub struct Ai;

/// The effect of an item that can be picked up and used.
#[derive(Clone, Copy, Debug, PartialEq, Eq, Structural)]
pub enum Item {
    Heal,
}

/// Anything that stands on the map: the player, a monster, an item, remains.
#[derive(Clone, Debug, PartialEq, Eq)]
pub struct Object {
    pub x: i32,
    pub y: i32,
    pub glyph: char,
    pub color: Color,
    pub name: String,
    pub blocks: bool,
    pub alive: bool,
    pub fighter: Option<Fighter>,
    pub ai: Option<Ai>,
    pub item: Option<Item>,
}

/// The mathematical value of an [`Object`]: the same fields, with the name as a sequence.
pub struct ObjectView {
    pub x: i32,
    pub y: i32,
    pub glyph: char,
    pub color: Color,
    pub name: Seq<char>,
    pub blocks: bool,
    pub alive: bool,
    pub fighter: Option<Fighter>,
    pub ai: Option<Ai>,
    pub item: Option<Item>,
}

impl View for Object {
    type V = ObjectView;

    open spec fn view(&self) -> ObjectView {
        ObjectView {
            x: self.x,
            y: self.y,
            glyph: self.glyph,
            color: self.color,
            name: self.name@,
            blocks: self.blocks,
            alive: self.alive,
            fighter: self.fighter,
            ai: self.ai,
            item: self.item,
        }
    }
}

impl ObjectView {
    /// A fighter, where there is one, has hit points within its bounds.
    pub open spec fn wf(&self) -> bool {
        self.fighter is Some ==> self.fighter->0.wf()
    }

    /// Whether the entity stands at `(x, y)`.
    pub open spec fn is_at(&self, x: int, y: int) -> bool {
        self.x == x && self.y == y
    }

    /// The hit points left after healing by `amount`, capped at the maximum.
    pub open spec fn healed(self, amount: int) -> ObjectView {
        match self.fighter {
            Some(f) => {
                let hp = if f.hp + amount > f.max_hp {
                    f.max_hp
                } else {
                    (f.hp + amount) as i32
                };
                ObjectView { fighter: Some(Fighter { hp, ..f }), ..self }
            },
            None => self,
        }
    }
}

/// The values of a sequence of entities.
pub open spec fn views(objects: Seq<Object>) -> Seq<ObjectView> {
    objects.map_values(|o: Object| o@)
}

impl Object {
    /// A new entity without capabilities; it starts out not alive.
    pub fn new(x: i32, y: i32, glyph: char, name: &str, color: Color, blocks: bool) -> (o: Self)
        ensures
            o@ == (ObjectView {
                x,
                y,
                glyph,
                color,
                name: name@,
                blocks,
                alive: false,
                fighter: None,
                ai: None,
                item: None,
            }),
    {
        Object {
            x: x,
            y: y,
            glyph: glyph,
            color: color,
            name: name.to_owned(),
            blocks: blocks,
            alive: false,
            fighter: None,
            ai: None,
            item: None,
        }
    }

    /// The entity's position.
    pub fn pos(&self) -> (p: (i32, i32))
        ensures
            p == (self.x, self.y),
    {
        (self.x, self.y)
    }

    /// Moves the entity to `(x, y)`; nothing else changes.
    pub fn set_pos(&mut self, x: i32, y: i32)
        ensures
            final(self)@ == (ObjectView { x, y, ..old(self)@ }),
    {
        self.x = x;
        self.y = y;
    }

    /// Restores up to `amount` hit points, never beyond the maximum.
    pub fn heal(&mut self, amount: i32)
        requires
            old(self)@.fighter is Some ==> i32::MIN <= old(self)@.fighter->0.hp + amount,
        ensures
            final(self)@ == old(self)@.healed(amount as int),
            old(self)@.wf() && amount >= 0 ==> final(self)@.wf(),
    {
        if let Some(mut fighter) = self.fighter {
            let raised: i64 = fighter.hp as i64 + amount as i64;
            if raised > fighter.max_hp as i64 {
                fighter.hp = fighter.max_hp;
            } else {
                fighter.hp = raised as i32;
            }
            self.fighter = Some(fighter);
        }
    }
}

} // verus!
