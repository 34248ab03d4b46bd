//! The entity model: every actor and item on the map is an [`Object`] with a
//! position, display data, an optional combat attachment and an optional AI
//! state.

use vstd::prelude::*;

use crate::color::Color;
use crate::grid::in_grid;

verus! {

/// Which death transition to run when a fighter's hit points reach zero.
#[derive(Clone, Copy, PartialEq, Eq, Structural, Debug)]
pub enum DeathCallback {
    Player,
    Monster,
}

/// The combat attachment of an entity that can fight.
///
/// `hp` may go negative transiently before the death transition is applied;
/// death is detected strictly at `hp <= 0`.
#[derive(Clone, Copy, PartialEq, Eq, Structural, Debug)]
pub struct Fighter {
    pub max_hp: i32,
    pub hp: i32,
    pub defense: i32,
    pub power: i32,
    pub on_death: DeathCallback,
}

/// Bounds every fighter the core creates satisfies; they keep all combat
/// arithmetic far from overflow.
pub open spec fn fighter_wf(f: Fighter) -> bool {
    &&& 0 < f.max_hp <= 100000
    &&& f.hp <= f.max_hp
    &&& 0 <= f.defense <= 100000
    &&& 0 <= f.power <= 100000
}

/// The AI state of a monster: a tagged variant that owns its payload.
/// Confusion wraps and owns the prior state; reversion restores it by value.
#[derive(Debug)]
pub enum Ai {
    Basic,
    Confused { previous_ai: Box<Ai>, num_turns: i32 },
}

/// What a consumable item does when used.
#[derive(Clone, Copy, PartialEq, Eq, Structural, Debug)]
pub enum Item {
    Heal,
    Lightning,
    Confuse,
}

/// An entity on the map: the player, a monster, an item or a corpse.
///
/// All entities live in one insertion-ordered growable list shared by player
/// and monsters; the player is index 0 by convention.  Removal from that
/// list uses swap-remove semantics (order not preserved), so indices must be
/// re-resolved after a removal.
#[derive(Debug)]
pub struct Object {
    pub x: i32,
    pub y: i32,
    pub glyph: char,
    pub color: Color,
    pub name: String,
    pub blocks: bool,
    pub alive: bool,
    pub fighter: Option<Fighter>,
    pub ai: Option<Ai>,
    pub item: Option<Item>,
}

/// Whether `o` stands inside the grid, with a well-formed combat attachment
/// if it has one.
pub open spec fn object_wf(o: Object) -> bool {
    &&& in_grid(o.x as int, o.y as int)
    &&& (o.fighter matches Some(f) ==> fighter_wf(f))
}

/// The per-entity invariant the game state maintains.
///
/// Beyond well-formedness it records what the turn engine guarantees: a dead
/// player keeps its fighter with hit points no lower than one full blow
/// below zero, and a monster (an entity whose death transition is
/// `Monster`, or one that carries an AI state) keeps its fighter only while
/// it is alive with positive hit points — death strips fighter and AI.
pub open spec fn entity_ok(o: Object) -> bool {
    &&& object_wf(o)
    &&& (o.fighter matches Some(f) ==> f.hp >= -100000)
    &&& (o.fighter matches Some(f) ==> (f.on_death is Monster ==> o.alive && f.hp > 0))
    &&& (o.fighter matches Some(f) ==> (o.ai is Some ==> o.alive && f.hp > 0))
}

/// The invariant of the shared entity list: the player sits at index 0 and
/// carries no AI state and no item tag, every entity satisfies
/// [`entity_ok`], and only the player can run the player death transition.
pub open spec fn objects_ok(objs: Seq<Object>) -> bool {
    &&& objs.len() >= 1
    &&& (forall|i: int| 0 <= i < objs.len() ==> entity_ok(#[trigger] objs[i]))
    &&& (forall|i: int|
        1 <= i < objs.len() ==> ((#[trigger] objs[i]).fighter matches Some(f)
            ==> f.on_death is Monster))
    &&& objs[0].ai is None
    &&& objs[0].item is None
}

/// Whether `o` occupies `(x, y)` and prevents movement onto that tile.
pub open spec fn blocks_tile(o: Object, x: int, y: int) -> bool {
    o.blocks && o.x == x && o.y == y
}

/// The squared Euclidean distance between `a` and `b`.
///
/// The core compares only distances, and squaring is strictly monotonic on
/// non-negative values, so every threshold and nearest-target test works on
/// squared distances with integer arithmetic.
pub open spec fn spec_dist_sq(a: Object, b: Object) -> int {
    (b.x - a.x) * (b.x - a.x) + (b.y - a.y) * (b.y - a.y)
}

impl Object {
    /// A bare entity: not alive, no combat attachment, no AI, no item tag.
    pub fn new(x: i32, y: i32, glyph: char, name: &str, color: Color, blocks: bool) -> (o: Object)
        ensures
            o.x == x,
            o.y == y,
            o.glyph == glyph,
            o.color == color,
            o.name@ == name@,
            o.blocks == blocks,
            !o.alive,
            o.fighter is None,
            o.ai is None,
            o.item is None,
    {
        Object {
            x,
            y,
            glyph,
            color,
            name: name.to_owned(),
            blocks,
            alive: false,
            fighter: None,
            ai: None,
            item: None,
        }
    }

    /// The entity's position.
    pub fn pos(&self) -> (p: (i32, i32))
        ensures
            p.0 == self.x,
            p.1 == self.y,
    {
        (self.x, self.y)
    }

    /// Place the entity at `(x, y)`; everything else is unchanged.
    pub fn set_pos(&mut self, x: i32, y: i32)
        ensures
            *final(self) == (Object { x, y, ..*old(self) }),
    {
        self.x = x;
        self.y = y;
    }

    /// Unconditional position delta; callers are responsible for blocking
    /// checks beforehand.
    pub fn move_by(&mut self, dx: i32, dy: i32)
        requires
            i32::MIN <= old(self).x + dx <= i32::MAX,
            i32::MIN <= old(self).y + dy <= i32::MAX,
        ensures
            *final(self) == (Object {
                x: (old(self).x + dx) as i32,
                y: (old(self).y + dy) as i32,
                ..*old(self)
            }),
    {
        self.x = self.x + dx;
        self.y = self.y + dy;
    }

    /// The squared Euclidean distance from this entity to `other`.
    pub fn distance_sq(&self, other: &Object) -> (d: i32)
        requires
            in_grid(self.x as int, self.y as int),
            in_grid(other.x as int, other.y as int),
        ensures
            d == spec_dist_sq(*self, *other),
    {
        let dx = other.x - self.x;
        let dy = other.y - self.y;
        proof {
            assert(0 <= dx * dx <= 6400) by (nonlinear_arith)
                requires
                    -80 <= dx <= 80,
            ;
            assert(0 <= dy * dy <= 6400) by (nonlinear_arith)
                requires
                    -80 <= dy <= 80,
            ;
        }
        dx * dx + dy * dy
    }

    /// Restore `amount` hit points, never exceeding `max_hp`.
    pub fn heal(&mut self, amount: i32)
        requires
            old(self).fighter is Some,
            fighter_wf(old(self).fighter->0),
            0 <= amount <= 100000,
        ensures
            final(self).fighter matches Some(f) && {
                let of = old(self).fighter->0;
                f == (Fighter {
                    hp: (if of.hp + amount <= of.max_hp {
                        (of.hp + amount) as i32
                    } else {
                        of.max_hp
                    }),
                    ..of
                })
            },
            *final(self) == (Object { fighter: final(self).fighter, ..*old(self) }),
    {
        match self.fighter {
            Some(f) => {
                let healed = if f.hp + amount <= f.max_hp {
                    f.hp + amount
                } else {
                    f.max_hp
                };
                self.fighter = Some(Fighter { hp: healed, ..f });
            },
            None => {},
        }
    }
}

} // verus!
