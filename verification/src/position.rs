//! Grid coordinates.

use vstd::prelude::*;

verus! {

/// A cell of the grid, named by its two coordinates. Two positions with the
/// same coordinates are the same position.
#[derive(Copy, Clone, Debug, PartialEq, Eq, Structural)]
pub struct Position {
    pub x: usize,
    pub y: usize,
}

impl Position {
    /// The position with the given coordinates.
    pub fn new(x: usize, y: usize) -> (position: Position)
        ensures
            position == (Position { x, y }),
    {
        Position { x, y }
    }
}

} // verus!
