//! A small arcade game: a dragon falls under gravity, flaps upward on
//! demand, and must pass through a narrowing series of gated walls.
//!
//! The simulation, its mode machine and the obstacle rules live here and are
//! verified; drawing and keyboard input are left to a host, which receives
//! plain draw commands and hands in elapsed time and key signals.
use vstd::prelude::*;

pub mod draw;
pub mod obstacle;
pub mod player;
pub mod session;

verus! {

/// Width of the display in cells.
pub const SCREEN_WIDTH: i32 = 80;

/// Height of the display in cells.
pub const SCREEN_HEIGHT: i32 = 50;

} // verus!
