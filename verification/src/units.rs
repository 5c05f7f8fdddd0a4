//! The fixed numbers of the game, in the crate's integer units.

use vstd::prelude::*;

verus! {

/// Thousandths of a world unit in one world unit.
pub const MILLI: i64 = 1_000;

/// Height of the ground line.
pub const GROUND_Y: i64 = -100_000;

/// A player no higher than this above the ground line counts as standing.
pub const GROUND_TOLERANCE: i64 = 100;

/// Upward velocity given by a jump, in units per second.
pub const JUMP_VELOCITY: i64 = 700;

/// Velocity lost to gravity in each millisecond of flight (2000 units/s²).
pub const GRAVITY_PER_MS: i64 = 2;

/// Where the player stands at the start of a session.
pub const PLAYER_START_X: i64 = -200_000;

/// Health at the start of a session, and its ceiling.
pub const MAX_HEALTH: u32 = 3;

/// Length of the grace period after a hit, in milliseconds.
pub const INVULNERABLE_MS: u32 = 1_000;

/// Scroll speed at the start of a session, in units per second.
pub const BASE_SPEED: u32 = 400;

/// What one completed ramp interval adds to the scroll speed.
pub const SPEED_STEP: u32 = 50;

/// The scroll speed never rises above this.
pub const MAX_SPEED: u32 = 1_200;

/// Length of one ramp interval, in milliseconds.
pub const RAMP_INTERVAL_MS: u32 = 5_000;

/// Scrolled distance between two obstacles.
pub const OBSTACLE_SPACING: u64 = 800_000;

/// Scrolled distance between two coins.
pub const COIN_SPACING: u64 = 1_200_000;

/// Where new obstacles and coins appear, right of the visible range.
pub const SPAWN_X: i64 = 1_000_000;

/// Height of every obstacle.
pub const OBSTACLE_Y: i64 = GROUND_Y + 15_000;

/// Coins appear at least this far above the ground line.
pub const COIN_BAND_LOW: i64 = 50_000;

/// Coins appear less than this far above the ground line.
pub const COIN_BAND_HIGH: i64 = 180_000;

/// An entity left of this line has left the visible range.
pub const OFFSCREEN_X: i64 = -1_000_000;

/// Half the summed widths of player and obstacle.
pub const OBSTACLE_REACH_X: i64 = 45_000;

/// Half the summed heights of player and obstacle.
pub const OBSTACLE_REACH_Y: i64 = 65_000;

/// Reach of the player towards a coin, on either axis.
pub const COIN_REACH: i64 = 35_000;

/// No entity lies left of this: the off-screen line less the distance of the
/// longest step at the highest speed, `1200 · (2³² - 1)`.
pub const FAR_LEFT: i64 = -5_153_961_754_000;

/// No coordinate handed to the library may lie further than this from zero.
pub const COORD_LIMIT: i64 = 1_000_000_000_000;

} // verus!
