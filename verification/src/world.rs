//! The grid, the physical constants and the fixed-point velocity unit.

use vstd::prelude::*;

verus! {

/// Width of the screen in columns.
pub const SCREEN_WIDTH: i32 = 80;

/// Row of the ground: the runner and static obstacles rest here. Rows grow downward.
pub const FLOOR: i32 = 40;

/// Screen column in which the runner is always drawn.
pub const PLAYER_COLUMN: i32 = 10;

/// Number of velocity units that make one cell per step.
pub const VELOCITY_SCALE: i32 = 100;

/// Velocity gained in one physics step while falling (0.8 cells per step).
pub const GRAVITY: i32 = 80;

/// Gravity stops acting once the velocity has reached this value (2.0 cells per step).
pub const FALL_CAP: i32 = 200;

/// Velocity right after a jump (4.0 cells per step, upward).
pub const JUMP_VELOCITY: i32 = -400;

/// Length of the fixed physics step in microseconds (35 ms).
pub const FRAME_MICROS: u64 = 35_000;

/// An obstacle is retired once it is this many columns behind the runner.
pub const RETIRE_MARGIN: i32 = 5;

/// A new obstacle is spawned once no obstacle is this far ahead of the runner
/// (nine tenths of the screen width).
pub const SPAWN_THRESHOLD: i32 = 72;

/// Obstacles are spawned at most this many columns beyond the spawn point
/// (half the screen width).
pub const SPAWN_SPREAD: i32 = 40;

/// Number of rows above the floor in which an obstacle may be placed.
pub const BAND_HEIGHT: i32 = 5;

/// Lowest velocity that a spawn may draw (-1.5 cells per step).
pub const SLOWEST_DRAW: i32 = -150;

/// Velocity units added to the upper end of the draw range per point of score
/// (0.02 cells per step).
pub const DRAW_PER_POINT: i32 = 2;

/// Largest score for which the draw range of a spawn fits the machine integers.
pub const MAX_SCORE: u32 = 1_073_741_823;

/// Largest world x of the runner for which one more step and a spawn ahead of
/// it fit the machine integers.
pub const MAX_PLAYER_X: i32 = 2_147_483_526;

/// The whole cells moved in one step at `velocity`: the velocity divided by
/// the scale and truncated toward zero.
pub open spec fn whole_cells(velocity: int) -> int {
    if velocity >= 0 {
        velocity / (VELOCITY_SCALE as int)
    } else {
        -((-velocity) / (VELOCITY_SCALE as int))
    }
}

/// Computes `whole_cells`.
pub fn cells_of(velocity: i32) -> (cells: i32)
    ensures
        cells == whole_cells(velocity as int),
{
    velocity / VELOCITY_SCALE
}

} // verus!
