//! A three-dimensional cellular automaton over a fixed cubic voxel grid.
//!
//! The grid is a dense sequence of `bool`, one per cell, indexed by a
//! bijection between flat indices and lattice positions centered at the
//! origin.  Each tick counts the live cells among the 26 neighbors of every
//! cell, consults a configurable survive/spawn rule, and applies all updates
//! against the same pre-tick snapshot (a synchronous step).  Randomized
//! seeding and a color gradient for rendering are included; windowing,
//! rendering and input handling are left to the surrounding application.

use vstd::prelude::*;

pub mod grid;
pub mod neighbors;
pub mod render;
pub mod rule;
pub mod seed;
pub mod step;

verus! {

/// Edge length of the cubic grid, in cells.
pub const GAME_SIZE: i32 = 100;

/// Half the edge length: lattice coordinates run from `-HALF_GAME_SIZE`
/// up to (but excluding) `HALF_GAME_SIZE` on each axis.
pub const HALF_GAME_SIZE: i32 = 50;

/// Total number of cells in the grid: `GAME_SIZE` cubed.
pub const CELL_LOCATIONS_SIZE: usize = 1_000_000;

} // verus!
