pub mod board;
pub mod parse;
pub mod render;
pub mod scan;
pub mod step;

use vstd::prelude::*;

pub use board::Board;
pub use board::Direction;

verus! {

/// Width of the board, in cells.
pub const GRID_W: usize = 5;

/// Height of the board, in cells.
pub const GRID_H: usize = 5;

/// Length of a same-kind run that counts as a win.
pub const WIN_LENGTH: u8 = 4;

/// Occupancy of one board position.
#[derive(Clone, Copy, Debug, PartialEq, Eq, Structural)]
pub enum Cell {
    X,
    O,
    Empty,
}

/// True when (x, y) lies on the board.
pub open spec fn in_bounds(x: int, y: int) -> bool {
    0 <= x < GRID_W && 0 <= y < GRID_H
}

} // verus!
