//! Physics and collision core of a brick-breaking arcade game.
//!
//! All lengths are whole numbers of thousandths of a pixel, all durations
//! whole milliseconds and all speeds pixels per second, so that a speed
//! multiplied by a duration is a length with nothing to round.

use vstd::prelude::*;

pub mod ball;
pub mod collision;
pub mod entity;
pub mod error;
pub mod game;
pub mod level;
pub mod math;
pub mod player;

verus! {

/// Width of the arena in pixels.
pub const GAME_WIDTH: u32 = 1024;

/// Height of the arena in pixels.
pub const GAME_HEIGHT: u32 = 768;

/// Length units in one pixel.
pub const UNITS_PER_PIXEL: i64 = 1000;

/// Width of the arena in length units.
pub const ARENA_WIDTH: i64 = 1_024_000;

/// Height of the arena in length units.
pub const ARENA_HEIGHT: i64 = 768_000;

} // verus!
