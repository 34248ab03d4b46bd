//! The session-wide state aggregate and the player's half of the turn
//! resolver: moving, attacking and picking items up.

use vstd::prelude::*;

use crate::color::Color;
use crate::combat::{attack, attack_rel, lemma_attack_preserves_objects_ok};
use crate::grid::{
    border_walls, grid_wf, in_grid, is_blocked, spec_is_blocked, tile_at, Grid, Tile,
};
use crate::messages::{
    inventory_full_msg, inventory_full_text, picked_up_msg, picked_up_text, Messages,
};
use crate::object::{entity_ok, objects_ok, Object};
use crate::{INVENTORY_CAPACITY, MAP_HEIGHT, MAP_WIDTH, PLAYER};

verus! {

/// The outcome of interpreting one player intent.
#[derive(Clone, Copy, PartialEq, Eq, Structural, Debug)]
pub enum PlayerAction {
    TookTurn,
    DidntTakeTurn,
    Exit,
}

/// The session-wide mutable state: the carved grid, the player's inventory
/// and the message log.  The shared entity list travels beside it, since
/// combat needs two distinct mutable views into that list at once.
pub struct Game {
    pub map: Grid,
    pub inventory: Vec<Object>,
    pub messages: Messages,
}

/// Every entity stands on a non-wall tile: no code path ever places an
/// entity on a tile whose own `blocked` flag is set.
pub open spec fn placed_ok(g: Seq<Vec<Tile>>, objs: Seq<Object>) -> bool {
    forall|i: int|
        0 <= i < objs.len() ==> !tile_at(
            g,
            (#[trigger] objs[i]).x as int,
            objs[i].y as int,
        ).blocked
}

/// Whether `o` is a target the player's bump-attack resolves against: a
/// fighter-bearing entity standing at `(x, y)`.
pub open spec fn is_target(o: Object, x: int, y: int) -> bool {
    o.fighter is Some && o.x == x && o.y == y
}

/// Whether some entity of `objs` is a bump-attack target at `(x, y)`.
pub open spec fn has_target(objs: Seq<Object>, x: int, y: int) -> bool {
    exists|i: int| 0 <= i < objs.len() && is_target(#[trigger] objs[i], x, y)
}

/// Whether `o` is an item lying at `(x, y)` that a pickup resolves against.
pub open spec fn is_item_at(o: Object, x: int, y: int) -> bool {
    o.item is Some && o.x == x && o.y == y
}

/// Whether some entity of `objs` is an item lying at `(x, y)`.
pub open spec fn has_item_at(objs: Seq<Object>, x: int, y: int) -> bool {
    exists|i: int| 0 <= i < objs.len() && is_item_at(#[trigger] objs[i], x, y)
}

impl Game {
    /// Whether `(x, y)` is illegal to move onto, by the single source of
    /// truth for movement legality.
    pub fn is_tile_blocked(&self, objects: &Vec<Object>, x: i32, y: i32) -> (b: bool)
        requires
            grid_wf(self.map@),
            in_grid(x as int, y as int),
        ensures
            b == spec_is_blocked(self.map@, objects@, x as int, y as int),
    {
        is_blocked(x, y, &self.map, objects)
    }

    /// Move entity `id` by one step if the destination tile is not blocked;
    /// a blocked destination means the entity simply does not move.
    pub fn move_object_by(&self, id: usize, objects: &mut Vec<Object>, dx: i32, dy: i32)
        requires
            grid_wf(self.map@),
            border_walls(self.map@),
            id < old(objects)@.len(),
            in_grid(old(objects)@[id as int].x as int, old(objects)@[id as int].y as int),
            !tile_at(
                self.map@,
                old(objects)@[id as int].x as int,
                old(objects)@[id as int].y as int,
            ).blocked,
            -1 <= dx <= 1,
            -1 <= dy <= 1,
        ensures
            ({
                let o = old(objects)@[id as int];
                let nx = o.x + dx;
                let ny = o.y + dy;
                if !spec_is_blocked(self.map@, old(objects)@, nx, ny) {
                    final(objects)@ == old(objects)@.update(
                        id as int,
                        Object { x: nx as i32, y: ny as i32, ..o },
                    )
                } else {
                    final(objects)@ == old(objects)@
                }
            }),
    {
        let ghost objs0 = objects@;
        proof {
            let o = objs0[id as int];
            // An entity never stands on a wall, and every border tile is a
            // wall, so a one-tile step stays inside the grid.
            if o.x == 0 || o.x == MAP_WIDTH - 1 || o.y == 0 || o.y == MAP_HEIGHT - 1 {
                assert(tile_at(self.map@, o.x as int, o.y as int).blocked);
            }
        }
        let nx = objects[id].x + dx;
        let ny = objects[id].y + dy;
        if !self.is_tile_blocked(objects, nx, ny) {
            objects[id].move_by(dx, dy);
            proof {
                assert(objects@ =~= objs0.update(
                    id as int,
                    Object { x: nx, y: ny, ..objs0[id as int] },
                ));
            }
        }
    }

    /// Move the player by one step if the destination tile is not blocked.
    pub fn move_player_by(&self, objects: &mut Vec<Object>, dx: i32, dy: i32)
        requires
            grid_wf(self.map@),
            border_walls(self.map@),
            old(objects)@.len() >= 1,
            in_grid(old(objects)@[PLAYER as int].x as int, old(objects)@[PLAYER as int].y as int),
            !tile_at(
                self.map@,
                old(objects)@[PLAYER as int].x as int,
                old(objects)@[PLAYER as int].y as int,
            ).blocked,
            -1 <= dx <= 1,
            -1 <= dy <= 1,
        ensures
            ({
                let o = old(objects)@[PLAYER as int];
                let nx = o.x + dx;
                let ny = o.y + dy;
                if !spec_is_blocked(self.map@, old(objects)@, nx, ny) {
                    final(objects)@ == old(objects)@.update(
                        PLAYER as int,
                        Object { x: nx as i32, y: ny as i32, ..o },
                    )
                } else {
                    final(objects)@ == old(objects)@
                }
            }),
    {
        self.move_object_by(PLAYER, objects, dx, dy);
    }

    /// Resolve a directional player intent: if a fighter-bearing entity
    /// occupies the destination tile the player attacks it (the first such
    /// entity in list order); otherwise the player steps there if the tile
    /// is not blocked.  Either way the player took a turn.
    pub fn player_move_or_attack(
        &mut self,
        objects: &mut Vec<Object>,
        dx: i32,
        dy: i32,
    ) -> (action: PlayerAction)
        requires
            grid_wf(old(self).map@),
            border_walls(old(self).map@),
            objects_ok(old(objects)@),
            placed_ok(old(self).map@, old(objects)@),
            -1 <= dx <= 1,
            -1 <= dy <= 1,
            !(dx == 0 && dy == 0),
        ensures
            action == PlayerAction::TookTurn,
            final(self).map == old(self).map,
            final(self).inventory == old(self).inventory,
            objects_ok(final(objects)@),
            placed_ok(final(self).map@, final(objects)@),
            final(objects)@.len() == old(objects)@.len(),
            ({
                let o = old(objects)@[PLAYER as int];
                let nx = o.x + dx;
                let ny = o.y + dy;
                if has_target(old(objects)@, nx, ny) {
                    exists|i: int|
                        #![auto]
                        0 <= i < old(objects)@.len() && is_target(old(objects)@[i], nx, ny) && (
                        forall|j: int|
                            0 <= j < i ==> !is_target(old(objects)@[j], nx, ny)) && attack_rel(
                            old(objects)@,
                            final(objects)@,
                            PLAYER as int,
                            i,
                            old(self).messages@,
                            final(self).messages@,
                        )
                } else {
                    &&& final(self).messages@ == old(self).messages@
                    &&& if !spec_is_blocked(old(self).map@, old(objects)@, nx, ny) {
                        final(objects)@ == old(objects)@.update(
                            PLAYER as int,
                            Object { x: nx as i32, y: ny as i32, ..o },
                        )
                    } else {
                        final(objects)@ == old(objects)@
                    }
                }
            }),
    {
        let ghost objs0 = objects@;
        let ghost msgs0 = self.messages@;
        proof {
            let o = objs0[PLAYER as int];
            assert(entity_ok(o));
            assert(!tile_at(self.map@, o.x as int, o.y as int).blocked);
            if o.x == 0 || o.x == MAP_WIDTH - 1 || o.y == 0 || o.y == MAP_HEIGHT - 1 {
                assert(tile_at(self.map@, o.x as int, o.y as int).blocked);
            }
        }
        let nx = objects[PLAYER].x + dx;
        let ny = objects[PLAYER].y + dy;

        let mut target_id: usize = 0;
        let mut found = false;
        let mut i: usize = 0;
        while i < objects.len()
            invariant
                objects@ == objs0,
                i <= objs0.len(),
                !found ==> forall|j: int|
                    0 <= j < i ==> !is_target(#[trigger] objs0[j], nx as int, ny as int),
                found ==> target_id < i && is_target(objs0[target_id as int], nx as int, ny as int)
                    && forall|j: int|
                    0 <= j < target_id ==> !is_target(#[trigger] objs0[j], nx as int, ny as int),
            decreases objs0.len() - i,
        {
            if !found {
                let o = &objects[i];
                if o.fighter.is_some() && o.x == nx && o.y == ny {
                    found = true;
                    target_id = i;
                }
            }
            i = i + 1;
        }

        if found {
            proof {
                // The target stands on the destination tile, which differs
                // from the player's own tile, so the indices are distinct.
                assert(objs0[target_id as int].x == nx && objs0[target_id as int].y == ny);
                assert(objs0[PLAYER as int].x != nx || objs0[PLAYER as int].y != ny);
                assert(target_id != PLAYER);
                assert(entity_ok(objs0[target_id as int]));
                assert(entity_ok(objs0[PLAYER as int]));
            }
            attack(objects, PLAYER, target_id, &mut self.messages);
            proof {
                lemma_attack_preserves_objects_ok(
                    objs0,
                    objects@,
                    PLAYER as int,
                    target_id as int,
                    msgs0,
                    self.messages@,
                );
                assert forall|k: int| 0 <= k < objects@.len() implies !tile_at(
                    self.map@,
                    (#[trigger] objects@[k]).x as int,
                    objects@[k].y as int,
                ).blocked by {
                    assert(objects@[k].x == objs0[k].x && objects@[k].y == objs0[k].y);
                    assert(!tile_at(self.map@, objs0[k].x as int, objs0[k].y as int).blocked);
                }
            }
        } else {
            self.move_player_by(objects, dx, dy);
            proof {
                let o = objs0[PLAYER as int];
                if !spec_is_blocked(self.map@, objs0, nx as int, ny as int) {
                    let moved = Object { x: nx, y: ny, ..o };
                    assert(objects@ == objs0.update(PLAYER as int, moved));
                    assert(entity_ok(moved));
                    assert forall|k: int| 0 <= k < objects@.len() implies entity_ok(
                        #[trigger] objects@[k],
                    ) by {
                        if k != PLAYER as int {
                            assert(objects@[k] == objs0[k]);
                        }
                    }
                    assert(objects_ok(objects@));
                } else {
                    assert(objects@ == objs0);
                }
            }
        }
        PlayerAction::TookTurn
    }

    /// Move the item-bearing entity `objects[object_id]` into the inventory,
    /// unless the inventory is full.
    ///
    /// A full inventory (26 items) logs the failure and moves nothing: the
    /// floor item stays exactly where it was.  Otherwise the move is atomic:
    /// the entity leaves the list by swap-remove (order not preserved) and
    /// is appended to the inventory.
    pub fn pick_item_up(&mut self, object_id: usize, objects: &mut Vec<Object>)
        requires
            object_id < old(objects)@.len(),
        ensures
            final(self).map == old(self).map,
            if old(self).inventory@.len() >= INVENTORY_CAPACITY as int {
                &&& final(objects)@ == old(objects)@
                &&& final(self).inventory == old(self).inventory
                &&& final(self).messages@ == old(self).messages@.push(
                    (inventory_full_text(old(objects)@[object_id as int].name@), Color::Red),
                )
            } else {
                &&& final(objects)@ == old(objects)@.update(
                    object_id as int,
                    old(objects)@.last(),
                ).drop_last()
                &&& final(self).inventory@ == old(self).inventory@.push(
                    old(objects)@[object_id as int],
                )
                &&& final(self).messages@ == old(self).messages@.push(
                    (picked_up_text(old(objects)@[object_id as int].name@), Color::Green),
                )
            },
    {
        if self.inventory.len() >= INVENTORY_CAPACITY {
            let msg = inventory_full_msg(&objects[object_id].name);
            self.messages.add(msg, Color::Red);
        } else {
            let item = objects.swap_remove(object_id);
            let msg = picked_up_msg(&item.name);
            self.messages.add(msg, Color::Green);
            self.inventory.push(item);
        }
    }
}

} // verus!
