//! The monster AI: pursuit, melee, the confusion override, and the sweep
//! that gives every AI-bearing entity one turn after the player acts.

use vstd::prelude::*;

use crate::color::Color;
use crate::combat::{attack, attack_rel, lemma_attack_preserves_objects_ok, spec_attack_damage};
use crate::game::{placed_ok, Game};
use crate::grid::{
    border_walls, grid_wf, in_grid, is_blocked, spec_is_blocked, tile_at, Fov, Grid, Tile,
};
use crate::messages::{no_longer_confused_msg, no_longer_confused_text};
use crate::object::{blocks_tile, entity_ok, objects_ok, spec_dist_sq, Ai, Object};
use crate::rng::random_in_range;
use crate::{MAP_HEIGHT, MAP_WIDTH, PLAYER};

verus! {

/// The unit step along one axis toward a target, as the original rounded
/// projection computes it: for an axis delta `d` and cross-axis delta `e`,
/// the step has magnitude one exactly when `|d| / sqrt(d*d + e*e) >= 1/2`,
/// which over the integers is `3*d*d >= e*e`.
pub open spec fn spec_step(d: int, e: int) -> int {
    if 3 * (d * d) >= e * e {
        if d > 0 {
            1
        } else if d < 0 {
            -1
        } else {
            0
        }
    } else {
        0
    }
}

/// How `move_towards` relates the entity list before and after: entity `id`
/// takes the rounded unit step toward `(tx, ty)` unless the destination
/// tile is blocked, in which case it does not move this turn.
pub open spec fn move_towards_rel(
    objs: Seq<Object>,
    objs2: Seq<Object>,
    id: int,
    tx: int,
    ty: int,
    g: Seq<Vec<Tile>>,
) -> bool {
    let m = objs[id];
    let sx = spec_step(tx - m.x, ty - m.y);
    let sy = spec_step(ty - m.y, tx - m.x);
    if !spec_is_blocked(g, objs, m.x + sx, m.y + sy) {
        objs2 == objs.update(id, Object { x: (m.x + sx) as i32, y: (m.y + sy) as i32, ..m })
    } else {
        objs2 == objs
    }
}

/// Step entity `id` one tile toward `(target_x, target_y)`, if the
/// destination is not blocked; no alternate pathing is attempted.
pub fn move_towards(
    id: usize,
    target_x: i32,
    target_y: i32,
    grid: &Grid,
    objects: &mut Vec<Object>,
)
    requires
        grid_wf(grid@),
        border_walls(grid@),
        id < old(objects)@.len(),
        in_grid(old(objects)@[id as int].x as int, old(objects)@[id as int].y as int),
        !tile_at(
            grid@,
            old(objects)@[id as int].x as int,
            old(objects)@[id as int].y as int,
        ).blocked,
        in_grid(target_x as int, target_y as int),
    ensures
        move_towards_rel(
            old(objects)@,
            final(objects)@,
            id as int,
            target_x as int,
            target_y as int,
            grid@,
        ),
{
    let ghost objs0 = objects@;
    let dx = target_x - objects[id].x;
    let dy = target_y - objects[id].y;
    proof {
        assert(0 <= dx * dx <= 6400) by (nonlinear_arith)
            requires
                -80 <= dx <= 80,
        ;
        assert(0 <= dy * dy <= 6400) by (nonlinear_arith)
            requires
                -80 <= dy <= 80,
        ;
    }
    let dxx = dx * dx;
    let dyy = dy * dy;
    let sx: i32 = if 3 * dxx >= dyy {
        if dx > 0 {
            1
        } else if dx < 0 {
            -1
        } else {
            0
        }
    } else {
        0
    };
    let sy: i32 = if 3 * dyy >= dxx {
        if dy > 0 {
            1
        } else if dy < 0 {
            -1
        } else {
            0
        }
    } else {
        0
    };
    proof {
        assert(sx == spec_step(dx as int, dy as int));
        assert(sy == spec_step(dy as int, dx as int));
        let m = objs0[id as int];
        if m.x == 0 || m.x == MAP_WIDTH - 1 || m.y == 0 || m.y == MAP_HEIGHT - 1 {
            assert(tile_at(grid@, m.x as int, m.y as int).blocked);
        }
    }
    let nx = objects[id].x + sx;
    let ny = objects[id].y + sy;
    if !is_blocked(nx, ny, grid, objects) {
        objects[id].set_pos(nx, ny);
        proof {
            assert(objects@ =~= objs0.update(
                id as int,
                Object { x: nx, y: ny, ..objs0[id as int] },
            ));
        }
    }
}

/// The observable outcome of one `Basic` turn for monster `mid`: only a
/// monster that sees the player acts; from distance two or more it steps
/// toward the player, adjacent to a living player it attacks.
pub open spec fn basic_turn_rel(
    objs: Seq<Object>,
    objs2: Seq<Object>,
    mid: int,
    fov: Fov,
    g: Seq<Vec<Tile>>,
    log: Seq<(Seq<char>, Color)>,
    log2: Seq<(Seq<char>, Color)>,
) -> bool {
    let m = objs[mid];
    let p = objs[PLAYER as int];
    if fov.spec_visible(m.x as int, m.y as int) {
        if spec_dist_sq(m, p) >= 4 {
            log2 == log && move_towards_rel(objs, objs2, mid, p.x as int, p.y as int, g)
        } else if p.fighter matches Some(f) && f.hp > 0 {
            attack_rel(objs, objs2, mid, PLAYER as int, log, log2)
        } else {
            objs2 == objs && log2 == log
        }
    } else {
        objs2 == objs && log2 == log
    }
}

/// The outcome of one confused stagger by `(ddx, ddy)`: the step is taken
/// if its destination is not blocked, and skipped otherwise.
pub open spec fn stagger_outcome(
    objs: Seq<Object>,
    objs2: Seq<Object>,
    mid: int,
    g: Seq<Vec<Tile>>,
    ddx: int,
    ddy: int,
) -> bool {
    let m = objs[mid];
    if !spec_is_blocked(g, objs, m.x + ddx, m.y + ddy) {
        objs2 == objs.update(mid, Object { x: (m.x + ddx) as i32, y: (m.y + ddy) as i32, ..m })
    } else {
        objs2 == objs
    }
}

/// The observable outcome of one `Confused` turn for monster `mid`: with a
/// non-negative counter the monster staggers by a random unit delta on each
/// axis and the counter falls by one; once the counter is negative the
/// reversion message is logged and the wrapped previous state is restored.
pub open spec fn confused_turn_rel(
    objs: Seq<Object>,
    objs2: Seq<Object>,
    mid: int,
    g: Seq<Vec<Tile>>,
    previous_ai: Box<Ai>,
    num_turns: i32,
    new_ai: Ai,
    log: Seq<(Seq<char>, Color)>,
    log2: Seq<(Seq<char>, Color)>,
) -> bool {
    let m = objs[mid];
    if num_turns >= 0 {
        &&& log2 == log
        &&& new_ai == (Ai::Confused { previous_ai, num_turns: (num_turns - 1) as i32 })
        &&& exists|ddx: int, ddy: int|
            -1 <= ddx <= 1 && -1 <= ddy <= 1 && #[trigger] stagger_outcome(
                objs,
                objs2,
                mid,
                g,
                ddx,
                ddy,
            )
    } else {
        &&& objs2 == objs
        &&& log2 == log.push((no_longer_confused_text(m.name@), Color::Red))
        &&& new_ai == *previous_ai
    }
}

/// Blocking depends only on each entity's position and `blocks` flag, so
/// two lists that agree on those agree on every blocking query.
pub proof fn lemma_blocked_same_footprint(
    g: Seq<Vec<Tile>>,
    objs: Seq<Object>,
    objs2: Seq<Object>,
    x: int,
    y: int,
)
    requires
        objs2.len() == objs.len(),
        forall|i: int|
            0 <= i < objs.len() ==> ((#[trigger] objs2[i]).x == objs[i].x && objs2[i].y
                == objs[i].y && objs2[i].blocks == objs[i].blocks),
    ensures
        spec_is_blocked(g, objs, x, y) == spec_is_blocked(g, objs2, x, y),
{
    if exists|i: int| 0 <= i < objs.len() && blocks_tile(#[trigger] objs[i], x, y) {
        let i = choose|i: int| 0 <= i < objs.len() && blocks_tile(#[trigger] objs[i], x, y);
        assert(blocks_tile(objs2[i], x, y));
    }
    if exists|i: int| 0 <= i < objs2.len() && blocks_tile(#[trigger] objs2[i], x, y) {
        let i = choose|i: int| 0 <= i < objs2.len() && blocks_tile(#[trigger] objs2[i], x, y);
        assert(blocks_tile(objs[i], x, y));
    }
}

/// One basic pursuit turn: act only when the monster is inside the field of
/// view; step toward the player from afar, strike a living player from an
/// adjacent tile.
fn ai_basic(monster_id: usize, fov: &Fov, objects: &mut Vec<Object>, game: &mut Game) -> (new_ai:
    Ai)
    requires
        fov.wf(),
        grid_wf(old(game).map@),
        border_walls(old(game).map@),
        0 < monster_id < old(objects)@.len(),
        objects_ok(old(objects)@),
        placed_ok(old(game).map@, old(objects)@),
    ensures
        final(game).map == old(game).map,
        final(game).inventory == old(game).inventory,
        new_ai == Ai::Basic,
        final(objects)@.len() == old(objects)@.len(),
        objects_ok(final(objects)@),
        placed_ok(final(game).map@, final(objects)@),
        basic_turn_rel(
            old(objects)@,
            final(objects)@,
            monster_id as int,
            *fov,
            old(game).map@,
            old(game).messages@,
            final(game).messages@,
        ),
{
    let ghost objs0 = objects@;
    let ghost msgs0 = game.messages@;
    proof {
        assert(entity_ok(objs0[monster_id as int]));
        assert(entity_ok(objs0[PLAYER as int]));
    }
    let (monster_x, monster_y) = objects[monster_id].pos();
    if fov.is_in_fov(monster_x, monster_y) {
        let d = objects[monster_id].distance_sq(&objects[PLAYER]);
        if d >= 4 {
            let (player_x, player_y) = objects[PLAYER].pos();
            move_towards(monster_id, player_x, player_y, &game.map, objects);
            proof {
                let m = objs0[monster_id as int];
                let sx = spec_step(player_x - m.x, player_y - m.y);
                let sy = spec_step(player_y - m.y, player_x - m.x);
                if m.x == 0 || m.x == MAP_WIDTH - 1 || m.y == 0 || m.y == MAP_HEIGHT - 1 {
                    assert(tile_at(game.map@, m.x as int, m.y as int).blocked);
                }
                if !spec_is_blocked(game.map@, objs0, m.x + sx, m.y + sy) {
                    let moved = Object {
                        x: (m.x + sx) as i32,
                        y: (m.y + sy) as i32,
                        ..m
                    };
                    assert(objects@ == objs0.update(monster_id as int, moved));
                    assert(entity_ok(moved));
                    assert forall|k: int| 0 <= k < objects@.len() implies entity_ok(
                        #[trigger] objects@[k],
                    ) by {
                        if k != monster_id as int {
                            assert(objects@[k] == objs0[k]);
                        }
                    }
                    assert(objects_ok(objects@));
                } else {
                    assert(objects@ == objs0);
                }
            }
        } else {
            let player_can_die = match objects[PLAYER].fighter {
                Some(f) => f.hp > 0,
                None => false,
            };
            if player_can_die {
                attack(objects, monster_id, PLAYER, &mut game.messages);
                proof {
                    lemma_attack_preserves_objects_ok(
                        objs0,
                        objects@,
                        monster_id as int,
                        PLAYER as int,
                        msgs0,
                        game.messages@,
                    );
                    assert forall|k: int| 0 <= k < objects@.len() implies !tile_at(
                        game.map@,
                        (#[trigger] objects@[k]).x as int,
                        objects@[k].y as int,
                    ).blocked by {
                        assert(objects@[k].x == objs0[k].x && objects@[k].y == objs0[k].y);
                        assert(!tile_at(game.map@, objs0[k].x as int, objs0[k].y as int).blocked);
                    }
                }
            }
        }
    }
    Ai::Basic
}

/// One confused turn: stagger randomly while the counter lasts, then revert
/// to the owned previous state.
fn ai_confused(
    monster_id: usize,
    objects: &mut Vec<Object>,
    game: &mut Game,
    previous_ai: Box<Ai>,
    num_turns: i32,
) -> (new_ai: Ai)
    requires
        grid_wf(old(game).map@),
        border_walls(old(game).map@),
        monster_id < old(objects)@.len(),
        in_grid(
            old(objects)@[monster_id as int].x as int,
            old(objects)@[monster_id as int].y as int,
        ),
        !tile_at(
            old(game).map@,
            old(objects)@[monster_id as int].x as int,
            old(objects)@[monster_id as int].y as int,
        ).blocked,
    ensures
        final(game).map == old(game).map,
        final(game).inventory == old(game).inventory,
        confused_turn_rel(
            old(objects)@,
            final(objects)@,
            monster_id as int,
            old(game).map@,
            previous_ai,
            num_turns,
            new_ai,
            old(game).messages@,
            final(game).messages@,
        ),
{
    let ghost objs0 = objects@;
    if num_turns >= 0 {
        let ddx = random_in_range(-1, 2);
        let ddy = random_in_range(-1, 2);
        game.move_object_by(monster_id, objects, ddx, ddy);
        proof {
            assert(stagger_outcome(
                objs0,
                objects@,
                monster_id as int,
                game.map@,
                ddx as int,
                ddy as int,
            ));
        }
        Ai::Confused { previous_ai, num_turns: num_turns - 1 }
    } else {
        let msg = no_longer_confused_msg(&objects[monster_id].name);
        game.messages.add(msg, Color::Red);
        *previous_ai
    }
}

/// The full AI transition table for one monster turn, relating the entity
/// list, the log, and the monster's stored AI state before and after.
///
/// An entity without an AI state takes no turn.  A `Basic` monster follows
/// [`basic_turn_rel`] and keeps its state.  A `Confused` monster with a
/// non-negative counter staggers randomly and its counter falls by one;
/// with a negative counter it reverts to the owned previous state and logs
/// the reversion exactly once.
pub open spec fn ai_turn_rel(
    objs: Seq<Object>,
    objs2: Seq<Object>,
    mid: int,
    fov: Fov,
    g: Seq<Vec<Tile>>,
    log: Seq<(Seq<char>, Color)>,
    log2: Seq<(Seq<char>, Color)>,
) -> bool {
    match objs[mid].ai {
        None => objs2 == objs && log2 == log,
        Some(a0) => match a0 {
            Ai::Basic => basic_turn_rel(objs, objs2, mid, fov, g, log, log2),
            Ai::Confused { previous_ai, num_turns } => {
                if num_turns >= 0 {
                    &&& log2 == log
                    &&& exists|ddx: int, ddy: int|
                        -1 <= ddx <= 1 && -1 <= ddy <= 1 && #[trigger] confused_step_outcome(
                            objs,
                            objs2,
                            mid,
                            g,
                            ddx,
                            ddy,
                            Ai::Confused { previous_ai, num_turns: (num_turns - 1) as i32 },
                        )
                } else {
                    &&& objs2 == objs.update(
                        mid,
                        Object { ai: Some(*previous_ai), ..objs[mid] },
                    )
                    &&& log2 == log.push(
                        (no_longer_confused_text(objs[mid].name@), Color::Red),
                    )
                }
            },
        },
    }
}

/// The outcome of one confused stagger by `(ddx, ddy)` for a monster whose
/// stored AI state becomes `new_ai`: the step is taken if its destination
/// is not blocked, and skipped otherwise.
pub open spec fn confused_step_outcome(
    objs: Seq<Object>,
    objs2: Seq<Object>,
    mid: int,
    g: Seq<Vec<Tile>>,
    ddx: int,
    ddy: int,
    new_ai: Ai,
) -> bool {
    let m = objs[mid];
    let m2 = Object { ai: Some(new_ai), ..m };
    if !spec_is_blocked(g, objs, m.x + ddx, m.y + ddy) {
        objs2 == objs.update(
            mid,
            Object { x: (m.x + ddx) as i32, y: (m.y + ddy) as i32, ..m2 },
        )
    } else {
        objs2 == objs.update(mid, m2)
    }
}

/// Give monster `monster_id` one turn.
///
/// The AI state is removed from the entity while the transition runs — an
/// entity whose AI is absent during this window takes no turn — and the
/// resulting new state is written back afterwards.
pub fn ai_take_turn(monster_id: usize, fov: &Fov, objects: &mut Vec<Object>, game: &mut Game)
    requires
        fov.wf(),
        grid_wf(old(game).map@),
        border_walls(old(game).map@),
        monster_id < old(objects)@.len(),
        objects_ok(old(objects)@),
        placed_ok(old(game).map@, old(objects)@),
    ensures
        final(game).map == old(game).map,
        final(game).inventory == old(game).inventory,
        final(objects)@.len() == old(objects)@.len(),
        objects_ok(final(objects)@),
        placed_ok(final(game).map@, final(objects)@),
        ai_turn_rel(
            old(objects)@,
            final(objects)@,
            monster_id as int,
            *fov,
            old(game).map@,
            old(game).messages@,
            final(game).messages@,
        ),
{
    let ghost objs0 = objects@;
    let ghost msgs0 = game.messages@;
    let ghost mid = monster_id as int;
    let taken = objects[monster_id].ai.take();
    let ghost m = objs0[mid];
    let ghost m_noai = Object { ai: None, ..m };
    proof {
        assert(objects@ =~= objs0.update(mid, m_noai));
    }
    match taken {
        None => {
            proof {
                assert(objects@ =~= objs0);
            }
        },
        Some(ai0) => {
            let ghost objs_t = objects@;
            proof {
                // The player never carries an AI state, so this is a monster.
                assert(monster_id != PLAYER);
                assert(entity_ok(m));
                assert(entity_ok(m_noai));
                assert forall|k: int| 0 <= k < objs_t.len() implies entity_ok(
                    #[trigger] objs_t[k],
                ) by {
                    if k != mid {
                        assert(objs_t[k] == objs0[k]);
                    }
                }
                assert(objects_ok(objs_t));
                assert forall|k: int| 0 <= k < objs_t.len() implies !tile_at(
                    game.map@,
                    (#[trigger] objs_t[k]).x as int,
                    objs_t[k].y as int,
                ).blocked by {
                    assert(objs_t[k].x == objs0[k].x && objs_t[k].y == objs0[k].y);
                    assert(!tile_at(game.map@, objs0[k].x as int, objs0[k].y as int).blocked);
                }
            }
            let new_ai = match ai0 {
                Ai::Basic => ai_basic(monster_id, fov, objects, game),
                Ai::Confused { previous_ai, num_turns } => ai_confused(
                    monster_id,
                    objects,
                    game,
                    previous_ai,
                    num_turns,
                ),
            };
            let ghost objs_a = objects@;
            objects[monster_id].ai = Some(new_ai);
            proof {
                assert(objects@ =~= objs_a.update(
                    mid,
                    Object { ai: Some(new_ai), ..objs_a[mid] },
                ));
                lemma_write_back(
                    objs0,
                    objs_t,
                    objs_a,
                    objects@,
                    mid,
                    *fov,
                    game.map@,
                    m.ai->0,
                    new_ai,
                    msgs0,
                    game.messages@,
                );
            }
        },
    }
}

/// Putting the transitioned AI state back restores exactly the transition
/// table's observable outcome over the original entity list, and preserves
/// the entity-list and placement invariants.
proof fn lemma_write_back(
    objs0: Seq<Object>,
    objs_t: Seq<Object>,
    objs_a: Seq<Object>,
    objs2: Seq<Object>,
    mid: int,
    fov: Fov,
    g: Seq<Vec<Tile>>,
    a0: Ai,
    new_ai: Ai,
    log: Seq<(Seq<char>, Color)>,
    log2: Seq<(Seq<char>, Color)>,
)
    requires
        objects_ok(objs0),
        0 < mid < objs0.len(),
        objs0[mid].ai == Some(a0),
        objs_t == objs0.update(mid, Object { ai: None, ..objs0[mid] }),
        objs2 == objs_a.update(mid, Object { ai: Some(new_ai), ..objs_a[mid] }),
        objects_ok(objs_a),
        objs_a.len() == objs_t.len(),
        match a0 {
            Ai::Basic => new_ai == Ai::Basic && basic_turn_rel(
                objs_t,
                objs_a,
                mid,
                fov,
                g,
                log,
                log2,
            ),
            Ai::Confused { previous_ai, num_turns } => confused_turn_rel(
                objs_t,
                objs_a,
                mid,
                g,
                previous_ai,
                num_turns,
                new_ai,
                log,
                log2,
            ),
        },
    ensures
        objs2.len() == objs0.len(),
        objects_ok(objs2),
        forall|k: int|
            0 <= k < objs2.len() ==> (#[trigger] objs2[k]).x == objs_a[k].x && objs2[k].y
                == objs_a[k].y,
        ai_turn_rel(objs0, objs2, mid, fov, g, log, log2),
{
    let m = objs0[mid];
    let m_noai = objs_t[mid];
    // The write-back only restores an AI state; positions and fighters are
    // those the transition produced.
    assert forall|k: int| 0 <= k < objs2.len() implies entity_ok(#[trigger] objs2[k]) by {
        if k != mid {
            assert(objs2[k] == objs_a[k]);
        } else {
            assert(entity_ok(objs_a[mid]));
            assert(objs2[mid].fighter == objs_a[mid].fighter);
        }
    }
    match a0 {
        Ai::Basic => {
            if fov.spec_visible(m.x as int, m.y as int) {
                let p = objs_t[0];
                assert(p == objs0[0]);
                if spec_dist_sq(m_noai, p) >= 4 {
                    let sx = spec_step(p.x - m.x, p.y - m.y);
                    let sy = spec_step(p.y - m.y, p.x - m.x);
                    lemma_blocked_same_footprint(g, objs0, objs_t, m.x + sx, m.y + sy);
                    if !spec_is_blocked(g, objs0, m.x + sx, m.y + sy) {
                        assert(objs_a == objs_t.update(
                            mid,
                            Object { x: (m.x + sx) as i32, y: (m.y + sy) as i32, ..m_noai },
                        ));
                        assert(objs2 =~= objs0.update(
                            mid,
                            Object { x: (m.x + sx) as i32, y: (m.y + sy) as i32, ..m },
                        ));
                    } else {
                        assert(objs_a == objs_t);
                        assert(objs2 =~= objs0);
                    }
                    assert(move_towards_rel(objs0, objs2, mid, p.x as int, p.y as int, g));
                } else if p.fighter matches Some(f) && f.hp > 0 {
                    let dmg = spec_attack_damage(m_noai, p);
                    assert(dmg == spec_attack_damage(m, p));
                    if dmg > 0 {
                        assert(objs_a == objs_t.update(0, objs_a[0]));
                        assert(objs2 =~= objs0.update(0, objs_a[0]));
                        assert(objs2[0] == objs_a[0]);
                    } else {
                        assert(objs_a == objs_t);
                        assert(objs2 =~= objs0);
                    }
                    assert(attack_rel(objs0, objs2, mid, 0, log, log2));
                } else {
                    assert(objs_a == objs_t);
                    assert(objs2 =~= objs0);
                }
            } else {
                assert(objs_a == objs_t);
                assert(objs2 =~= objs0);
            }
            assert(basic_turn_rel(objs0, objs2, mid, fov, g, log, log2));
        },
        Ai::Confused { previous_ai, num_turns } => {
            if num_turns >= 0 {
                let (ddx, ddy) = choose|ddx: int, ddy: int|
                    -1 <= ddx <= 1 && -1 <= ddy <= 1 && #[trigger] stagger_outcome(
                        objs_t,
                        objs_a,
                        mid,
                        g,
                        ddx,
                        ddy,
                    );
                lemma_blocked_same_footprint(g, objs0, objs_t, m.x + ddx, m.y + ddy);
                if !spec_is_blocked(g, objs0, m.x + ddx, m.y + ddy) {
                    assert(objs2 =~= objs0.update(
                        mid,
                        Object {
                            x: (m.x + ddx) as i32,
                            y: (m.y + ddy) as i32,
                            ..Object { ai: Some(new_ai), ..m }
                        },
                    ));
                } else {
                    assert(objs_a == objs_t);
                    assert(objs2 =~= objs0.update(mid, Object { ai: Some(new_ai), ..m }));
                }
                assert(confused_step_outcome(objs0, objs2, mid, g, ddx, ddy, new_ai));
            } else {
                assert(objs_a == objs_t);
                assert(objs2 =~= objs0.update(mid, Object { ai: Some(*previous_ai), ..m }));
            }
        },
    }
}

/// The entity list and log after entities `0..k` took their turns in list
/// order, each step following [`ai_turn_rel`] (a no-op for an entity
/// without an AI state).
pub open spec fn turns_taken(
    objs: Seq<Object>,
    objs2: Seq<Object>,
    k: int,
    fov: Fov,
    g: Seq<Vec<Tile>>,
    log: Seq<(Seq<char>, Color)>,
    log2: Seq<(Seq<char>, Color)>,
) -> bool
    decreases k,
{
    if k <= 0 {
        objs2 == objs && log2 == log
    } else {
        exists|mid: Seq<Object>, lmid: Seq<(Seq<char>, Color)>|
            turns_taken(objs, mid, k - 1, fov, g, log, lmid) && #[trigger] ai_turn_rel(
                mid,
                objs2,
                k - 1,
                fov,
                g,
                lmid,
                log2,
            )
    }
}

/// After a turn the player took, every entity holding an AI state takes one
/// turn, in entity-list order.  The grid, the inventory and the list length
/// are unchanged, and the entity-list and placement invariants hold again.
pub fn monsters_take_turns(fov: &Fov, objects: &mut Vec<Object>, game: &mut Game)
    requires
        fov.wf(),
        grid_wf(old(game).map@),
        border_walls(old(game).map@),
        objects_ok(old(objects)@),
        placed_ok(old(game).map@, old(objects)@),
    ensures
        final(game).map == old(game).map,
        final(game).inventory == old(game).inventory,
        final(objects)@.len() == old(objects)@.len(),
        objects_ok(final(objects)@),
        placed_ok(final(game).map@, final(objects)@),
        turns_taken(
            old(objects)@,
            final(objects)@,
            old(objects)@.len() as int,
            *fov,
            old(game).map@,
            old(game).messages@,
            final(game).messages@,
        ),
{
    let ghost objs0 = objects@;
    let ghost msgs0 = game.messages@;
    let ghost map0: Grid = game.map;
    let ghost inv0: Vec<Object> = game.inventory;
    let ghost n0 = objects@.len();
    let mut id: usize = 0;
    while id < objects.len()
        invariant
            fov.wf(),
            grid_wf(game.map@),
            border_walls(game.map@),
            objects_ok(objects@),
            placed_ok(game.map@, objects@),
            objects@.len() == n0,
            game.map == map0,
            game.inventory == inv0,
            id <= n0,
            turns_taken(objs0, objects@, id as int, *fov, map0@, msgs0, game.messages@),
        decreases objects@.len() - id,
    {
        let ghost prev = objects@;
        let ghost lprev = game.messages@;
        if objects[id].ai.is_some() {
            ai_take_turn(id, fov, objects, game);
        }
        proof {
            let knext = id as int + 1;
            assert(turns_taken(objs0, prev, knext - 1, *fov, map0@, msgs0, lprev));
            assert(ai_turn_rel(prev, objects@, knext - 1, *fov, map0@, lprev, game.messages@));
            assert(turns_taken(objs0, objects@, knext, *fov, map0@, msgs0, game.messages@));
        }
        id = id + 1;
    }
}

} // verus!
