//! Core logic of a terminal falling-block puzzle game: the tetromino catalog
//! and rotation geometry, the board with row clearing, the collision rules,
//! the per-tick simulation state machine, and the tamper-evident high-score
//! record. Terminal I/O and file persistence live outside this crate.

use vstd::prelude::*;

pub mod board;
pub mod game;
pub mod highscore;
pub mod numfmt;
pub mod rng;
pub mod tetromino;

verus! {

/// Width of the playing grid in cells.
pub const GRID_WIDTH: usize = 10;

/// Height of the playing grid in cells.
pub const GRID_HEIGHT: usize = 20;

/// Sub-cell resolution: one cell is this many position units, so pieces can
/// fall by fractions of a cell per tick.
pub const SUBCELL: i64 = 1000;

} // verus!
