//! Dinorun: the simulation core of a side-scrolling obstacle-avoidance game.
//!
//! A runner falls under gravity, jumps on command and must avoid obstacles that
//! scroll toward it. This crate holds the per-frame simulation: the runner's
//! physics, the life of the obstacles, collision detection, scoring and the
//! mode controller. Each tick takes one optional input and the elapsed time and
//! hands back a list of draw commands for a terminal to perform.
//!
//! Velocities are fixed-point numbers, in hundredths of a cell per step, and
//! time is counted in whole microseconds, so that every quantity is an integer.

use vstd::prelude::*;

pub mod world;
pub mod render;
pub mod random;
pub mod player;
pub mod obstacle;
pub mod field;
pub mod session;
