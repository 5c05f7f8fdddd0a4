//! Simulation core of a side-scrolling endless runner.
//!
//! The crate holds the rules of the game and nothing of its presentation: the
//! player's jump and fall, the pacing of obstacles and coins, the difficulty
//! ramp, collisions, the heads-up text and the menu / playing / game-over
//! state machine. A host drives it one step at a time with the elapsed time and
//! the state of the jump key, and draws what it finds afterwards.
//!
//! Every quantity is an integer, so that a run is reproducible bit for bit:
//! time in milliseconds, lengths in thousandths of a world unit, velocities
//! and the scroll speed in world units per second.

pub mod units;
pub mod clock;
pub mod geometry;
pub mod player;
pub mod pacer;
pub mod difficulty;
pub mod world;
pub mod collision;
pub mod chance;
pub mod hud;
pub mod spawn;
pub mod state;
pub mod session;
