//! Simulation core of a turn-based grid-dungeon game.
//!
//! The crate covers procedural dungeon generation, entity placement, and the
//! turn-resolution engine: movement, visibility-gated monster AI, combat, and
//! consumable item effects.  Rendering, keyboard handling and the
//! field-of-view computation itself are external collaborators: the core
//! consumes a precomputed visibility mask ([`grid::Fov`]) and never draws or
//! polls devices itself.

use vstd::prelude::*;

pub mod ai;
pub mod color;
pub mod combat;
pub mod game;
pub mod grid;
pub mod items;
pub mod mapgen;
pub mod messages;
pub mod object;
pub mod render;
pub mod rng;

verus! {

/// Width of the dungeon grid, in tiles.
pub const MAP_WIDTH: i32 = 80;

/// Height of the dungeon grid, in tiles.
pub const MAP_HEIGHT: i32 = 43;

/// Largest side length of a generated room, boundary included.
pub const ROOM_MAX_SIZE: i32 = 10;

/// Smallest side length of a generated room, boundary included.
pub const ROOM_MIN_SIZE: i32 = 6;

/// Number of room placements attempted per dungeon.
pub const MAX_ROOMS: i32 = 30;

/// Largest number of monsters placed in a single room.
pub const MAX_ROOM_MONSTERS: i32 = 3;

/// Index of the player in the shared entity list.
pub const PLAYER: usize = 0;

/// Hit points restored by a healing item.
pub const HEAL_AMOUNT: i32 = 4;

/// Damage dealt by a lightning item, bypassing defense.
pub const LIGHTNING_DAMAGE: i32 = 40;

/// Largest distance at which a lightning item finds a target.
pub const LIGHTNING_RANGE: i32 = 5;

/// Largest distance at which a confusion item finds a target.
pub const CONFUSE_RANGE: i32 = 8;

/// Turn counter a confusion item starts a monster at.
pub const CONFUSE_NUM_TURNS: i32 = 10;

/// Capacity of the player's inventory: one slot per alphabet letter.
pub const INVENTORY_CAPACITY: usize = 26;

} // verus!
