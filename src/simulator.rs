//! Physical dimensions of the maze.

use vstd::prelude::*;

verus! {

/// Side of a maze cell, in millimeters.
pub const CELL_SIZE_MM: i64 = 180;

/// Thickness of a wall, in millimeters.
pub const WALL_WIDTH_MM: i64 = 12;

/// Micrometers in a millimeter: the pose is kept in micrometers.
pub const UM_PER_MM: i64 = 1000;

/// Side of a maze cell, in micrometers.
pub const CELL_SIZE_UM: i64 = 180_000;

/// The largest number of rows or columns whose cell centres the pose can hold.
pub const MAX_MAZE_SIDE: usize = 1_000_000;

/// The simulator of a maze of `R` rows and `C` columns; its threads are
/// started by the program around the library.
pub struct MazeSimulator<const R: usize, const C: usize>;

} // verus!
