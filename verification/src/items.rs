//! Consumable item effects: healing, the lightning bolt, the confusion
//! scroll, the nearest-visible-monster search they share, and the use-item
//! dispatcher.

use vstd::prelude::*;
use vstd::string::StringExecFns;

use crate::color::Color;
use crate::combat::{lemma_damage_entry_preserves_objects_ok, take_damage_rel};
use crate::game::{has_item_at, is_item_at, placed_ok, Game, PlayerAction};
use crate::grid::Fov;
use crate::messages::{
    cannot_use_msg, cannot_use_text, lightning_msg, lightning_text, looks_confused_msg,
    looks_confused_text,
};
use crate::object::{
    entity_ok, objects_ok, spec_dist_sq, Ai, Fighter, Item, Object,
};
use crate::{CONFUSE_NUM_TURNS, CONFUSE_RANGE, HEAL_AMOUNT, LIGHTNING_DAMAGE, LIGHTNING_RANGE,
    PLAYER};

verus! {

/// What using an item came to: a consumed item, or an effect that found
/// nothing to do and left the item in place.
#[derive(Clone, Copy, PartialEq, Eq, Structural, Debug)]
pub enum UseResult {
    UsedUp,
    Cancelled,
}

/// Whether entity `i` is a candidate for the targeted items: not the
/// player, fighter-bearing, AI-bearing, and currently visible.
pub open spec fn spec_monster_target(objs: Seq<Object>, fov: Fov, i: int) -> bool {
    &&& 0 < i < objs.len()
    &&& objs[i].fighter is Some
    &&& objs[i].ai is Some
    &&& fov.spec_visible(objs[i].x as int, objs[i].y as int)
}

/// Whether entity `i` lies within `max_range` of the player, under the
/// strict comparison the search uses: squared distance below
/// `(max_range + 1)^2`.
pub open spec fn spec_in_range(objs: Seq<Object>, i: int, max_range: int) -> bool {
    spec_dist_sq(objs[PLAYER as int], objs[i]) < (max_range + 1) * (max_range + 1)
}

/// Whether `i` is the target the search returns: a candidate in range,
/// no candidate strictly closer, and the first candidate among equals.
pub open spec fn spec_closest_monster(
    objs: Seq<Object>,
    fov: Fov,
    max_range: int,
    i: int,
) -> bool {
    &&& spec_monster_target(objs, fov, i)
    &&& spec_in_range(objs, i, max_range)
    &&& forall|j: int|
        #[trigger] spec_monster_target(objs, fov, j) ==> spec_dist_sq(objs[PLAYER as int], objs[j])
            >= spec_dist_sq(objs[PLAYER as int], objs[i])
    &&& forall|j: int|
        #[trigger] spec_monster_target(objs, fov, j) && j < i ==> spec_dist_sq(
            objs[PLAYER as int],
            objs[j],
        ) > spec_dist_sq(objs[PLAYER as int], objs[i])
}

/// Find the closest fighter-and-AI-bearing visible entity within
/// `max_range` of the player: the nearest such entity, earliest in list
/// order among ties, or `None` when no candidate is in range.
pub fn closest_monster(fov: &Fov, objects: &Vec<Object>, max_range: i32) -> (r: Option<usize>)
    requires
        fov.wf(),
        objects_ok(objects@),
        0 <= max_range <= 100,
    ensures
        match r {
            Some(i) => spec_closest_monster(objects@, *fov, max_range as int, i as int),
            None => forall|j: int|
                #[trigger] spec_monster_target(objects@, *fov, j) ==> !spec_in_range(
                    objects@,
                    j,
                    max_range as int,
                ),
        },
{
    let mut closest_enemy: Option<usize> = None;
    let mr1 = max_range + 1;
    proof {
        assert(0 < mr1 * mr1 <= 10201) by (nonlinear_arith)
            requires
                1 <= mr1 <= 101,
        ;
    }
    let limit = mr1 * mr1;
    let mut closest_dist: i32 = limit;
    let mut id: usize = 0;
    while id < objects.len()
        invariant
            fov.wf(),
            objects_ok(objects@),
            id <= objects@.len(),
            limit == (max_range + 1) * (max_range + 1),
            match closest_enemy {
                None => {
                    &&& closest_dist == limit
                    &&& forall|j: int|
                        #[trigger] spec_monster_target(objects@, *fov, j) && j < id
                            ==> !spec_in_range(objects@, j, max_range as int)
                },
                Some(i) => {
                    &&& i < id
                    &&& spec_monster_target(objects@, *fov, i as int)
                    &&& closest_dist == spec_dist_sq(
                        objects@[PLAYER as int],
                        objects@[i as int],
                    )
                    &&& closest_dist < limit
                    &&& forall|j: int|
                        #[trigger] spec_monster_target(objects@, *fov, j) && j < id
                            ==> spec_dist_sq(objects@[PLAYER as int], objects@[j])
                            >= closest_dist
                    &&& forall|j: int|
                        #[trigger] spec_monster_target(objects@, *fov, j) && j < i
                            ==> spec_dist_sq(objects@[PLAYER as int], objects@[j]) > closest_dist
                },
            },
        decreases objects@.len() - id,
    {
        proof {
            assert(entity_ok(objects@[id as int]));
            assert(entity_ok(objects@[PLAYER as int]));
        }
        let candidate = id != PLAYER && objects[id].fighter.is_some() && objects[id].ai.is_some()
            && fov.is_in_fov(objects[id].x, objects[id].y);
        if candidate {
            let dist = objects[PLAYER].distance_sq(&objects[id]);
            if dist < closest_dist {
                closest_enemy = Some(id);
                closest_dist = dist;
            }
        }
        id = id + 1;
    }
    closest_enemy
}

/// Restore a fixed amount of the player's hit points, capped at the
/// maximum.  At full health nothing happens and the item is not consumed.
pub fn cast_heal(game: &mut Game, objects: &mut Vec<Object>) -> (r: UseResult)
    requires
        old(objects)@.len() >= 1,
        entity_ok(old(objects)@[PLAYER as int]),
    ensures
        final(game).map == old(game).map,
        final(game).inventory == old(game).inventory,
        match old(objects)@[PLAYER as int].fighter {
            None => {
                &&& r == UseResult::Cancelled
                &&& final(objects)@ == old(objects)@
                &&& final(game).messages@ == old(game).messages@
            },
            Some(f) => {
                if f.hp == f.max_hp {
                    &&& r == UseResult::Cancelled
                    &&& final(objects)@ == old(objects)@
                    &&& final(game).messages@ == old(game).messages@.push(
                        ("You are already at full health."@, Color::Red),
                    )
                } else {
                    &&& r == UseResult::UsedUp
                    &&& final(objects)@ == old(objects)@.update(
                        PLAYER as int,
                        Object {
                            fighter: Some(
                                Fighter {
                                    hp: (if f.hp + HEAL_AMOUNT <= f.max_hp {
                                        (f.hp + HEAL_AMOUNT) as i32
                                    } else {
                                        f.max_hp
                                    }),
                                    ..f
                                },
                            ),
                            ..old(objects)@[PLAYER as int]
                        },
                    )
                    &&& final(game).messages@ == old(game).messages@.push(
                        ("Your wounds are closing!"@, Color::LightViolet),
                    )
                }
            },
        },
{
    let ghost objs0 = objects@;
    let pf = objects[PLAYER].fighter;
    match pf {
        Some(f) => {
            if f.hp == f.max_hp {
                game.messages.add(
                    String::from_str("You are already at full health."),
                    Color::Red,
                );
                UseResult::Cancelled
            } else {
                game.messages.add(
                    String::from_str("Your wounds are closing!"),
                    Color::LightViolet,
                );
                objects[PLAYER].heal(HEAL_AMOUNT);
                proof {
                    assert(objects@ =~= objs0.update(PLAYER as int, objects@[PLAYER as int]));
                }
                UseResult::UsedUp
            }
        },
        None => UseResult::Cancelled,
    }
}

/// Strike the nearest visible monster within [`LIGHTNING_RANGE`] for
/// [`LIGHTNING_DAMAGE`] hit points, bypassing defense.  With no target in
/// range nothing happens and the item is not consumed.
pub fn cast_lightning(fov: &Fov, game: &mut Game, objects: &mut Vec<Object>) -> (r: UseResult)
    requires
        fov.wf(),
        objects_ok(old(objects)@),
        placed_ok(old(game).map@, old(objects)@),
    ensures
        final(game).map == old(game).map,
        final(game).inventory == old(game).inventory,
        objects_ok(final(objects)@),
        placed_ok(final(game).map@, final(objects)@),
        final(objects)@.len() == old(objects)@.len(),
        if exists|j: int|
            #[trigger] spec_monster_target(old(objects)@, *fov, j) && spec_in_range(
                old(objects)@,
                j,
                LIGHTNING_RANGE as int,
            ) {
            &&& r == UseResult::UsedUp
            &&& exists|i: int|
                #![auto]
                spec_closest_monster(old(objects)@, *fov, LIGHTNING_RANGE as int, i)
                    && final(objects)@ == old(objects)@.update(i, final(objects)@[i])
                    && take_damage_rel(
                    old(objects)@[i],
                    final(objects)@[i],
                    LIGHTNING_DAMAGE as int,
                    old(game).messages@.push(
                        (
                            lightning_text(old(objects)@[i].name@, LIGHTNING_DAMAGE as int),
                            Color::LightBlue,
                        ),
                    ),
                    final(game).messages@,
                )
        } else {
            &&& r == UseResult::Cancelled
            &&& final(objects)@ == old(objects)@
            &&& final(game).messages@ == old(game).messages@.push(
                ("No enemy is close enough to strike."@, Color::Red),
            )
        },
{
    let ghost objs0 = objects@;
    let ghost msgs0 = game.messages@;
    let monster_id = closest_monster(fov, objects, LIGHTNING_RANGE);
    match monster_id {
        Some(monster_id) => {
            proof {
                assert(entity_ok(objs0[monster_id as int]));
            }
            let msg = lightning_msg(&objects[monster_id].name, LIGHTNING_DAMAGE);
            game.messages.add(msg, Color::LightBlue);
            objects[monster_id].take_damage(LIGHTNING_DAMAGE, &mut game.messages);
            proof {
                assert(objects@ =~= objs0.update(
                    monster_id as int,
                    objects@[monster_id as int],
                ));
                lemma_damage_entry_preserves_objects_ok(
                    objs0,
                    objects@,
                    monster_id as int,
                    LIGHTNING_DAMAGE as int,
                    msgs0.push(
                        (
                            lightning_text(objs0[monster_id as int].name@, LIGHTNING_DAMAGE as int),
                            Color::LightBlue,
                        ),
                    ),
                    game.messages@,
                );
                assert forall|k: int| 0 <= k < objects@.len() implies !crate::grid::tile_at(
                    game.map@,
                    (#[trigger] objects@[k]).x as int,
                    objects@[k].y as int,
                ).blocked by {
                    assert(objects@[k].x == objs0[k].x && objects@[k].y == objs0[k].y);
                    assert(!crate::grid::tile_at(
                        game.map@,
                        objs0[k].x as int,
                        objs0[k].y as int,
                    ).blocked);
                }
            }
            UseResult::UsedUp
        },
        None => {
            game.messages.add(
                String::from_str("No enemy is close enough to strike."),
                Color::Red,
            );
            UseResult::Cancelled
        },
    }
}

/// Wrap the nearest visible monster's AI (defaulting to `Basic` if absent)
/// into a `Confused` state for [`CONFUSE_NUM_TURNS`] turns.  With no target
/// in range nothing happens and the item is not consumed.
pub fn cast_confuse(fov: &Fov, game: &mut Game, objects: &mut Vec<Object>) -> (r: UseResult)
    requires
        fov.wf(),
        objects_ok(old(objects)@),
        placed_ok(old(game).map@, old(objects)@),
    ensures
        final(game).map == old(game).map,
        final(game).inventory == old(game).inventory,
        objects_ok(final(objects)@),
        placed_ok(final(game).map@, final(objects)@),
        final(objects)@.len() == old(objects)@.len(),
        if exists|j: int|
            #[trigger] spec_monster_target(old(objects)@, *fov, j) && spec_in_range(
                old(objects)@,
                j,
                CONFUSE_RANGE as int,
            ) {
            &&& r == UseResult::UsedUp
            &&& exists|i: int|
                #[trigger] spec_closest_monster(old(objects)@, *fov, CONFUSE_RANGE as int, i)
                    && {
                    let pre = old(objects)@;
                    let post = final(objects)@;
                    &&& post == pre.update(i, post[i])
                    &&& post[i] == (Object { ai: post[i].ai, ..pre[i] })
                    &&& (post[i].ai matches Some(na) && na matches Ai::Confused {
                        previous_ai,
                        num_turns,
                    } && *previous_ai == (match pre[i].ai {
                        Some(a) => a,
                        None => Ai::Basic,
                    }) && num_turns == CONFUSE_NUM_TURNS)
                    &&& final(game).messages@ == old(game).messages@.push(
                        (looks_confused_text(pre[i].name@), Color::LightGreen),
                    )
                }
        } else {
            &&& r == UseResult::Cancelled
            &&& final(objects)@ == old(objects)@
            &&& final(game).messages@ == old(game).messages@.push(
                ("No enemy is close enough to strike."@, Color::Red),
            )
        },
{
    let ghost objs0 = objects@;
    let monster_id = closest_monster(fov, objects, CONFUSE_RANGE);
    match monster_id {
        Some(monster_id) => {
            proof {
                assert(entity_ok(objs0[monster_id as int]));
            }
            let msg = looks_confused_msg(&objects[monster_id].name);
            game.messages.add(msg, Color::LightGreen);
            let old_ai = objects[monster_id].ai.take();
            let previous = match old_ai {
                Some(a) => a,
                None => Ai::Basic,
            };
            objects[monster_id].ai = Some(
                Ai::Confused { previous_ai: Box::new(previous), num_turns: CONFUSE_NUM_TURNS },
            );
            proof {
                assert(objects@ =~= objs0.update(
                    monster_id as int,
                    objects@[monster_id as int],
                ));
                let m2 = objects@[monster_id as int];
                assert(m2 == (Object { ai: m2.ai, ..objs0[monster_id as int] }));
                assert(entity_ok(m2));
                assert forall|k: int| 0 <= k < objects@.len() implies entity_ok(
                    #[trigger] objects@[k],
                ) by {
                    if k != monster_id as int {
                        assert(objects@[k] == objs0[k]);
                    }
                }
                assert forall|k: int| 0 <= k < objects@.len() implies !crate::grid::tile_at(
                    game.map@,
                    (#[trigger] objects@[k]).x as int,
                    objects@[k].y as int,
                ).blocked by {
                    assert(objects@[k].x == objs0[k].x && objects@[k].y == objs0[k].y);
                    assert(!crate::grid::tile_at(
                        game.map@,
                        objs0[k].x as int,
                        objs0[k].y as int,
                    ).blocked);
                }
            }
            UseResult::UsedUp
        },
        None => {
            game.messages.add(
                String::from_str("No enemy is close enough to strike."),
                Color::Red,
            );
            UseResult::Cancelled
        },
    }
}

/// Use the inventory item in slot `inventory_id`, dispatching on its kind.
///
/// A consumed item is removed from the inventory, order preserved; an
/// effect that found nothing to do logs "Cancelled" and leaves the
/// inventory untouched.  An entity without an item tag cannot be used.
pub fn use_item(inventory_id: usize, fov: &Fov, game: &mut Game, objects: &mut Vec<Object>)
    requires
        inventory_id < old(game).inventory@.len(),
        fov.wf(),
        objects_ok(old(objects)@),
        placed_ok(old(game).map@, old(objects)@),
    ensures
        final(game).map == old(game).map,
        objects_ok(final(objects)@),
        placed_ok(final(game).map@, final(objects)@),
        final(objects)@.len() == old(objects)@.len(),
        match old(game).inventory@[inventory_id as int].item {
            None => {
                &&& final(game).inventory == old(game).inventory
                &&& final(objects)@ == old(objects)@
                &&& final(game).messages@ == old(game).messages@.push(
                    (
                        cannot_use_text(old(game).inventory@[inventory_id as int].name@),
                        Color::White,
                    ),
                )
            },
            Some(Item::Heal) => match old(objects)@[PLAYER as int].fighter {
                None => {
                    &&& final(game).inventory == old(game).inventory
                    &&& final(objects)@ == old(objects)@
                    &&& final(game).messages@ == old(game).messages@.push(
                        ("Cancelled"@, Color::White),
                    )
                },
                Some(f) => {
                    if f.hp == f.max_hp {
                        &&& final(game).inventory == old(game).inventory
                        &&& final(objects)@ == old(objects)@
                        &&& final(game).messages@ == old(game).messages@.push(
                            ("You are already at full health."@, Color::Red),
                        ).push(("Cancelled"@, Color::White))
                    } else {
                        &&& final(game).inventory@ == old(game).inventory@.remove(
                            inventory_id as int,
                        )
                        &&& final(objects)@ == old(objects)@.update(
                            PLAYER as int,
                            Object {
                                fighter: Some(
                                    Fighter {
                                        hp: (if f.hp + HEAL_AMOUNT <= f.max_hp {
                                            (f.hp + HEAL_AMOUNT) as i32
                                        } else {
                                            f.max_hp
                                        }),
                                        ..f
                                    },
                                ),
                                ..old(objects)@[PLAYER as int]
                            },
                        )
                        &&& final(game).messages@ == old(game).messages@.push(
                            ("Your wounds are closing!"@, Color::LightViolet),
                        )
                    }
                },
            },
            Some(Item::Lightning) => {
                if exists|j: int|
                    #[trigger] spec_monster_target(old(objects)@, *fov, j) && spec_in_range(
                        old(objects)@,
                        j,
                        LIGHTNING_RANGE as int,
                    ) {
                    &&& final(game).inventory@ == old(game).inventory@.remove(inventory_id as int)
                    &&& exists|i: int|
                        #![auto]
                        spec_closest_monster(old(objects)@, *fov, LIGHTNING_RANGE as int, i)
                            && final(objects)@ == old(objects)@.update(i, final(objects)@[i])
                            && take_damage_rel(
                            old(objects)@[i],
                            final(objects)@[i],
                            LIGHTNING_DAMAGE as int,
                            old(game).messages@.push(
                                (
                                    lightning_text(old(objects)@[i].name@, LIGHTNING_DAMAGE as int),
                                    Color::LightBlue,
                                ),
                            ),
                            final(game).messages@,
                        )
                } else {
                    &&& final(game).inventory == old(game).inventory
                    &&& final(objects)@ == old(objects)@
                    &&& final(game).messages@ == old(game).messages@.push(
                        ("No enemy is close enough to strike."@, Color::Red),
                    ).push(("Cancelled"@, Color::White))
                }
            },
            Some(Item::Confuse) => {
                if exists|j: int|
                    #[trigger] spec_monster_target(old(objects)@, *fov, j) && spec_in_range(
                        old(objects)@,
                        j,
                        CONFUSE_RANGE as int,
                    ) {
                    &&& final(game).inventory@ == old(game).inventory@.remove(inventory_id as int)
                    &&& exists|i: int|
                        #[trigger] spec_closest_monster(old(objects)@, *fov, CONFUSE_RANGE as int, i)
                            && {
                            let pre = old(objects)@;
                            let post = final(objects)@;
                            &&& post == pre.update(i, post[i])
                            &&& post[i] == (Object { ai: post[i].ai, ..pre[i] })
                            &&& (post[i].ai matches Some(na) && na matches Ai::Confused {
                                previous_ai,
                                num_turns,
                            } && *previous_ai == (match pre[i].ai {
                                Some(a) => a,
                                None => Ai::Basic,
                            }) && num_turns == CONFUSE_NUM_TURNS)
                            &&& final(game).messages@ == old(game).messages@.push(
                                (looks_confused_text(pre[i].name@), Color::LightGreen),
                            )
                        }
                } else {
                    &&& final(game).inventory == old(game).inventory
                    &&& final(objects)@ == old(objects)@
                    &&& final(game).messages@ == old(game).messages@.push(
                        ("No enemy is close enough to strike."@, Color::Red),
                    ).push(("Cancelled"@, Color::White))
                }
            },
        },
{
    let item = game.inventory[inventory_id].item;
    match item {
        Some(kind) => {
            let result = match kind {
                Item::Heal => cast_heal(game, objects),
                Item::Lightning => cast_lightning(fov, game, objects),
                Item::Confuse => cast_confuse(fov, game, objects),
            };
            match result {
                UseResult::UsedUp => {
                    game.inventory.remove(inventory_id);
                },
                UseResult::Cancelled => {
                    game.messages.add(String::from_str("Cancelled"), Color::White);
                },
            }
        },
        None => {
            let msg = cannot_use_msg(&game.inventory[inventory_id].name);
            game.messages.add(msg, Color::White);
        },
    }
}

/// Find the first entity in list order that is an item lying at `(x, y)`.
pub fn find_item_at(objects: &Vec<Object>, x: i32, y: i32) -> (r: Option<usize>)
    ensures
        match r {
            Some(i) => i < objects@.len() && is_item_at(objects@[i as int], x as int, y as int)
                && forall|j: int|
                0 <= j < i ==> !is_item_at(#[trigger] objects@[j], x as int, y as int),
            None => forall|j: int|
                0 <= j < objects@.len() ==> !is_item_at(#[trigger] objects@[j], x as int, y as int),
        },
{
    let mut i: usize = 0;
    while i < objects.len()
        invariant
            i <= objects@.len(),
            forall|j: int| 0 <= j < i ==> !is_item_at(#[trigger] objects@[j], x as int, y as int),
        decreases objects@.len() - i,
    {
        let o = &objects[i];
        if o.item.is_some() && o.x == x && o.y == y {
            return Some(i);
        }
        i = i + 1;
    }
    None
}

/// Resolve the player's pickup intent: find the first item-bearing entity
/// on the player's tile and try to move it into the inventory.  The player
/// takes a turn whether or not an item was present or the pickup succeeded.
pub fn player_pick_up(game: &mut Game, objects: &mut Vec<Object>) -> (action: PlayerAction)
    requires
        objects_ok(old(objects)@),
        placed_ok(old(game).map@, old(objects)@),
    ensures
        action == PlayerAction::TookTurn,
        final(game).map == old(game).map,
        objects_ok(final(objects)@),
        placed_ok(final(game).map@, final(objects)@),
        ({
            let px = old(objects)@[PLAYER as int].x as int;
            let py = old(objects)@[PLAYER as int].y as int;
            if has_item_at(old(objects)@, px, py) {
                exists|i: int|
                    #![auto]
                    0 <= i < old(objects)@.len() && is_item_at(old(objects)@[i], px, py) && (
                    forall|j: int| 0 <= j < i ==> !is_item_at(old(objects)@[j], px, py)) && (if old(
                        game,
                    ).inventory@.len() >= crate::INVENTORY_CAPACITY as int {
                        &&& final(objects)@ == old(objects)@
                        &&& final(game).inventory == old(game).inventory
                        &&& final(game).messages@ == old(game).messages@.push(
                            (
                                crate::messages::inventory_full_text(old(objects)@[i].name@),
                                Color::Red,
                            ),
                        )
                    } else {
                        &&& final(objects)@ == old(objects)@.update(
                            i,
                            old(objects)@.last(),
                        ).drop_last()
                        &&& final(game).inventory@ == old(game).inventory@.push(old(objects)@[i])
                        &&& final(game).messages@ == old(game).messages@.push(
                            (crate::messages::picked_up_text(old(objects)@[i].name@), Color::Green),
                        )
                    })
            } else {
                &&& final(objects)@ == old(objects)@
                &&& final(game).inventory == old(game).inventory
                &&& final(game).messages@ == old(game).messages@
            }
        }),
{
    let ghost objs0 = objects@;
    let (px, py) = objects[PLAYER].pos();
    let item_id = find_item_at(objects, px, py);
    match item_id {
        Some(item_id) => {
            game.pick_item_up(item_id, objects);
            proof {
                // The player carries no item tag, so the picked entity is
                // not the player and the player entry survives the
                // swap-remove at index 0.
                assert(item_id != 0);
                if objects@.len() < objs0.len() {
                    assert forall|k: int| 0 <= k < objects@.len() implies entity_ok(
                        #[trigger] objects@[k],
                    ) by {
                        if k == item_id as int {
                            assert(objects@[k] == objs0[objs0.len() - 1]);
                        } else {
                            assert(objects@[k] == objs0[k]);
                        }
                    }
                    assert forall|k: int|
                        1 <= k < objects@.len() implies ((#[trigger] objects@[k]).fighter matches
                    Some(f) ==> f.on_death is Monster) by {
                        if k == item_id as int {
                            assert(objects@[k] == objs0[objs0.len() - 1]);
                        } else {
                            assert(objects@[k] == objs0[k]);
                        }
                    }
                    assert(objects@[0] == objs0[0]);
                    assert forall|k: int| 0 <= k < objects@.len() implies !crate::grid::tile_at(
                        game.map@,
                        (#[trigger] objects@[k]).x as int,
                        objects@[k].y as int,
                    ).blocked by {
                        if k == item_id as int {
                            assert(objects@[k] == objs0[objs0.len() - 1]);
                            assert(!crate::grid::tile_at(
                                game.map@,
                                objs0[objs0.len() - 1].x as int,
                                objs0[objs0.len() - 1].y as int,
                            ).blocked);
                        } else {
                            assert(objects@[k] == objs0[k]);
                            assert(!crate::grid::tile_at(
                                game.map@,
                                objs0[k].x as int,
                                objs0[k].y as int,
                            ).blocked);
                        }
                    }
                }
            }
        },
        None => {},
    }
    PlayerAction::TookTurn
}

} // verus!
