//! Attack resolution, damage, and the death transitions.
//!
//! Attacker and defender live in the same shared entity list, so the attack
//! entry point addresses them by index and demands distinct indices; the
//! engine never constructs a self-attack.

use vstd::prelude::*;
use vstd::string::StringExecFns;

use crate::color::Color;
use crate::messages::{
    attack_hit_msg, attack_hit_text, attack_no_effect_msg, attack_no_effect_text, died_msg,
    died_text, remains_name, remains_text, Messages,
};
use crate::object::{entity_ok, DeathCallback, Fighter, Object};

verus! {

/// The attack power of an entity: its fighter's power, or 0 without one.
pub open spec fn spec_power(o: Object) -> int {
    match o.fighter {
        Some(f) => f.power as int,
        None => 0,
    }
}

/// The defense of an entity: its fighter's defense, or 0 without one.
pub open spec fn spec_defense(o: Object) -> int {
    match o.fighter {
        Some(f) => f.defense as int,
        None => 0,
    }
}

/// The damage an attack by `a` deals to `t`: power minus defense.
pub open spec fn spec_attack_damage(a: Object, t: Object) -> int {
    spec_power(a) - spec_defense(t)
}

/// The hit points of fighter `f` after `take_damage(damage)`: reduced only
/// when the damage is positive.
pub open spec fn spec_new_hp(f: Fighter, damage: int) -> int {
    if damage > 0 {
        f.hp - damage
    } else {
        f.hp as int
    }
}

/// The player death transition: the log gains "You died", the glyph turns
/// to `%` in dark red, the entity stays in the list with its fighter.
pub open spec fn player_death_rel(
    o: Object,
    o2: Object,
    hp2: int,
    log: Seq<(Seq<char>, Color)>,
    log2: Seq<(Seq<char>, Color)>,
) -> bool {
    &&& o2 == (Object {
        glyph: o2.glyph,
        color: o2.color,
        alive: o2.alive,
        fighter: o2.fighter,
        ..o
    })
    &&& o2.glyph == '%'
    &&& o2.color == Color::DarkRed
    &&& !o2.alive
    &&& (o2.fighter matches Some(f2) && f2 == (Fighter { hp: f2.hp, ..o.fighter->0 }) && f2.hp
        == hp2)
    &&& log2 == log.push(("You died"@, Color::Red))
}

/// The monster death transition: the log gains "`name` died!", the corpse
/// stops blocking, loses fighter and AI, and is renamed to
/// "remains of `name`"; it stays in the list for display only.
pub open spec fn monster_death_rel(
    o: Object,
    o2: Object,
    log: Seq<(Seq<char>, Color)>,
    log2: Seq<(Seq<char>, Color)>,
) -> bool {
    &&& o2.x == o.x
    &&& o2.y == o.y
    &&& o2.glyph == '%'
    &&& o2.color == Color::DarkRed
    &&& o2.name@ == remains_text(o.name@)
    &&& !o2.blocks
    &&& !o2.alive
    &&& o2.fighter is None
    &&& o2.ai is None
    &&& o2.item == o.item
    &&& log2 == log.push((died_text(o.name@), Color::Orange))
}

/// How `take_damage(damage)` relates an entity and the log before the call
/// to the entity and the log after it.
///
/// Without a fighter nothing happens.  With one, positive damage is
/// subtracted from `hp`; if the result is at or below zero *and the entity
/// is still marked alive*, the death transition keyed by `on_death` runs.
/// An entity already dead only loses hit points: the death transition never
/// runs twice.
pub open spec fn take_damage_rel(
    o: Object,
    o2: Object,
    damage: int,
    log: Seq<(Seq<char>, Color)>,
    log2: Seq<(Seq<char>, Color)>,
) -> bool {
    match o.fighter {
        None => o2 == o && log2 == log,
        Some(f) => {
            let hp2 = spec_new_hp(f, damage);
            if hp2 <= 0 && o.alive {
                match f.on_death {
                    DeathCallback::Player => player_death_rel(o, o2, hp2, log, log2),
                    DeathCallback::Monster => monster_death_rel(o, o2, log, log2),
                }
            } else {
                &&& o2 == (Object { fighter: o2.fighter, ..o })
                &&& (o2.fighter matches Some(f2) && f2 == (Fighter { hp: f2.hp, ..f }) && f2.hp
                    == hp2)
                &&& log2 == log
            }
        },
    }
}

impl Object {
    /// Apply `damage` to this entity, running the death transition when hit
    /// points fall to zero or below while the entity is still alive.
    pub fn take_damage(&mut self, damage: i32, messages: &mut Messages)
        requires
            old(self).fighter matches Some(f) ==> i32::MIN <= f.hp - damage,
        ensures
            take_damage_rel(
                *old(self),
                *final(self),
                damage as int,
                old(messages)@,
                final(messages)@,
            ),
    {
        match self.fighter {
            Some(f) => {
                if damage > 0 {
                    self.fighter = Some(Fighter { hp: f.hp - damage, ..f });
                }
            },
            None => {},
        }
        match self.fighter {
            Some(f) => {
                if f.hp <= 0 && self.alive {
                    self.alive = false;
                    match f.on_death {
                        DeathCallback::Player => {
                            messages.add(String::from_str("You died"), Color::Red);
                            self.glyph = '%';
                            self.color = Color::DarkRed;
                        },
                        DeathCallback::Monster => {
                            let msg = died_msg(&self.name);
                            messages.add(msg, Color::Orange);
                            self.glyph = '%';
                            self.color = Color::DarkRed;
                            self.blocks = false;
                            self.fighter = None;
                            self.ai = None;
                            let new_name = remains_name(&self.name);
                            self.name = new_name;
                        },
                    }
                }
            },
            None => {},
        }
    }
}

/// How an attack relates the entity list and the log before the call to the
/// entity list and the log after it: positive damage logs the hit and puts
/// the target through [`take_damage_rel`]; otherwise only the no-effect
/// message is logged.
pub open spec fn attack_rel(
    objs: Seq<Object>,
    objs2: Seq<Object>,
    attacker_id: int,
    target_id: int,
    log: Seq<(Seq<char>, Color)>,
    log2: Seq<(Seq<char>, Color)>,
) -> bool {
    let a = objs[attacker_id];
    let t = objs[target_id];
    let dmg = spec_attack_damage(a, t);
    if dmg > 0 {
        &&& objs2 == objs.update(target_id, objs2[target_id])
        &&& take_damage_rel(
            t,
            objs2[target_id],
            dmg,
            log.push((attack_hit_text(a.name@, t.name@, dmg), Color::Red)),
            log2,
        )
    } else {
        &&& objs2 == objs
        &&& log2 == log.push((attack_no_effect_text(a.name@, t.name@), Color::Green))
    }
}

/// Resolve an attack of `objects[attacker_id]` on `objects[target_id]`.
///
/// The two indices address independently mutable entries of the same shared
/// list, so they must be distinct; the engine never constructs a
/// self-attack.
pub fn attack(
    objects: &mut Vec<Object>,
    attacker_id: usize,
    target_id: usize,
    messages: &mut Messages,
)
    requires
        attacker_id < old(objects)@.len(),
        target_id < old(objects)@.len(),
        attacker_id != target_id,
        entity_ok(old(objects)@[attacker_id as int]),
        entity_ok(old(objects)@[target_id as int]),
    ensures
        attack_rel(
            old(objects)@,
            final(objects)@,
            attacker_id as int,
            target_id as int,
            old(messages)@,
            final(messages)@,
        ),
{
    let power = match objects[attacker_id].fighter {
        Some(f) => f.power,
        None => 0,
    };
    let defense = match objects[target_id].fighter {
        Some(f) => f.defense,
        None => 0,
    };
    let damage = power - defense;
    if damage > 0 {
        let msg = attack_hit_msg(&objects[attacker_id].name, &objects[target_id].name, damage);
        messages.add(msg, Color::Red);
        objects[target_id].take_damage(damage, messages);
        proof {
            assert(final(objects)@ =~= old(objects)@.update(
                target_id as int,
                final(objects)@[target_id as int],
            ));
        }
    } else {
        let msg = attack_no_effect_msg(&objects[attacker_id].name, &objects[target_id].name);
        messages.add(msg, Color::Green);
    }
}

/// An attack changes at most the target entry, and a target attacked while
/// its hit points are positive satisfies the per-entity invariant again
/// afterwards: the whole entity-list invariant is preserved, and no entity
/// moves.
pub proof fn lemma_attack_preserves_objects_ok(
    objs: Seq<Object>,
    objs2: Seq<Object>,
    attacker_id: int,
    target_id: int,
    log: Seq<(Seq<char>, Color)>,
    log2: Seq<(Seq<char>, Color)>,
)
    requires
        crate::object::objects_ok(objs),
        0 <= attacker_id < objs.len(),
        0 <= target_id < objs.len(),
        attacker_id != target_id,
        objs[target_id].fighter matches Some(f) ==> f.hp > 0,
        attack_rel(objs, objs2, attacker_id, target_id, log, log2),
    ensures
        crate::object::objects_ok(objs2),
        objs2.len() == objs.len(),
        forall|k: int|
            0 <= k < objs2.len() ==> (#[trigger] objs2[k]).x == objs[k].x && objs2[k].y
                == objs[k].y,
{
    let dmg = spec_attack_damage(objs[attacker_id], objs[target_id]);
    if dmg > 0 {
        assert(objs2 == objs.update(target_id, objs2[target_id]));
        assert(entity_ok(objs[attacker_id]));
        assert(entity_ok(objs[target_id]));
        assert(entity_ok(objs2[target_id]));
        assert forall|k: int| 0 <= k < objs2.len() implies entity_ok(#[trigger] objs2[k]) by {
            if k != target_id {
                assert(objs2[k] == objs[k]);
            }
        }
        if target_id != 0 {
            assert(objs2[0] == objs[0]);
        }
    } else {
        assert(objs2 == objs);
    }
}

/// Damaging one monster entry (positive damage, at most the fighter
/// bounds, on a target with positive hit points) preserves the entity-list
/// invariant, and no entity moves.
pub proof fn lemma_damage_entry_preserves_objects_ok(
    objs: Seq<Object>,
    objs2: Seq<Object>,
    target_id: int,
    damage: int,
    log: Seq<(Seq<char>, Color)>,
    log2: Seq<(Seq<char>, Color)>,
)
    requires
        crate::object::objects_ok(objs),
        0 < target_id < objs.len(),
        objs[target_id].fighter matches Some(f) ==> f.hp > 0,
        0 < damage <= 100000,
        objs2 == objs.update(target_id, objs2[target_id]),
        take_damage_rel(objs[target_id], objs2[target_id], damage, log, log2),
    ensures
        crate::object::objects_ok(objs2),
        objs2.len() == objs.len(),
        forall|k: int|
            0 <= k < objs2.len() ==> (#[trigger] objs2[k]).x == objs[k].x && objs2[k].y
                == objs[k].y,
{
    assert(entity_ok(objs[target_id]));
    assert(entity_ok(objs2[target_id]));
    assert forall|k: int| 0 <= k < objs2.len() implies entity_ok(#[trigger] objs2[k]) by {
        if k != target_id {
            assert(objs2[k] == objs[k]);
        }
    }
    assert(objs2[0] == objs[0]);
}

/// Law of death idempotence: an entity already marked dead never runs the
/// death transition again.  Applying `take_damage` to it leaves the log and
/// every field except its hit points unchanged.
pub proof fn lemma_death_idempotent(
    o: Object,
    o2: Object,
    damage: int,
    log: Seq<(Seq<char>, Color)>,
    log2: Seq<(Seq<char>, Color)>,
)
    requires
        take_damage_rel(o, o2, damage, log, log2),
        !o.alive,
    ensures
        log2 == log,
        !o2.alive,
        o2 == (Object { fighter: o2.fighter, ..o }),
        o.fighter is None ==> o2 == o,
        o2.fighter is Some <==> o.fighter is Some,
        o2.fighter matches Some(f2) ==> f2 == (Fighter {
            hp: f2.hp,
            ..o.fighter->0
        }) && f2.hp == spec_new_hp(o.fighter->0, damage),
{
}

} // verus!
