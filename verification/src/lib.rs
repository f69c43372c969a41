//! Simulation core of a 2D arcade shoot-em-up.
//!
//! The world is 480 by 640 units. Every length is a fixed-point integer with
//! [`UNIT`] steps per world unit, every angle an integer number of
//! microradians and every time an integer with [`SECOND`] steps per second, so
//! that a frame is a function of the state before it and of nothing else but
//! the random rolls that are handed in.

use vstd::prelude::*;

pub mod census;
pub mod components;
pub mod curve;
pub mod firing;
pub mod graphics;
pub mod lazy;
pub mod math;
pub mod pipeline;
pub mod random;
pub mod renderer;
pub mod resources;
pub mod stages;
pub mod storage;
pub mod systems;
pub mod world;

verus! {

/// Steps of a fixed-point length per world unit.
pub const UNIT: i32 = 1024;

/// Width of the visible field, in fixed-point steps.
pub const WIDTH: i32 = 480 * 1024;

/// Height of the visible field, in fixed-point steps.
pub const HEIGHT: i32 = 640 * 1024;

/// Steps of the game clock per second.
pub const SECOND: u64 = 6000;

/// Steps of the game clock per frame: sixty frames make a second.
pub const TICK: u64 = 100;

} // verus!
