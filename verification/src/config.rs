//! Tunable constants of the simulation.

use vstd::prelude::*;

verus! {

/// Width of the dungeon grid, in tiles.
pub const MAP_WIDTH: i32 = 80;

/// Height of the dungeon grid, in tiles.
pub const MAP_HEIGHT: i32 = 43;

/// Largest width or height of a room.
pub const ROOM_MAX_SIZE: i32 = 10;

/// Smallest width or height of a room.
pub const ROOM_MIN_SIZE: i32 = 6;

/// Number of room placement attempts per level.
pub const MAX_ROOMS: i32 = 30;

/// Hit points restored by a healing potion.
pub const HEAL_AMOUNT: i32 = 40;

/// Damage dealt by a lightning bolt.
pub const LIGHTNING_DAMAGE: i32 = 40;

/// Reach of a lightning bolt, in tiles.
pub const LIGHTNING_RANGE: i32 = 5;

/// Reach of a confusion scroll, in tiles.
pub const CONFUSE_RANGE: i32 = 8;

/// Number of turns a confused monster stumbles around.
pub const CONFUSE_NUM_TURNS: i32 = 10;

/// Radius of a fireball, in tiles.
pub const FIREBALL_RADIUS: i32 = 3;

/// Damage dealt by a fireball to everything it reaches.
pub const FIREBALL_DAMAGE: i32 = 25;

/// Experience needed for the first level-up, before the per-level part.
pub const LEVEL_UP_BASE: i32 = 200;

/// Extra experience needed per level already reached.
pub const LEVEL_UP_FACTOR: i32 = 150;

/// Radius of the player's field of view.
pub const TORCH_RADIUS: i32 = 10;

/// Index of the player in the object list.
pub const PLAYER: usize = 0;

/// Number of messages the log keeps.
pub const MSG_HEIGHT: usize = 6;

/// Number of items the inventory can hold, one per letter.
pub const INVENTORY_CAPACITY: usize = 26;

} // verus!
