//! Fixed obstacles on the grid.

use vstd::prelude::*;
use crate::position::Position;

verus! {

/// A cell that no rover may enter. An obstacle is nothing but its position.
pub struct Obstacle {
    position: Position,
}

impl View for Obstacle {
    type V = Position;

    /// The cell that the obstacle occupies.
    closed spec fn view(&self) -> Position {
        self.position
    }
}

impl Obstacle {
    /// An obstacle that occupies `position`.
    pub fn new(position: Position) -> (obstacle: Obstacle)
        ensures
            obstacle@ == position,
    {
        Obstacle { position }
    }

    /// The cell that the obstacle occupies.
    pub fn position(&self) -> (position: Position)
        ensures
            position == self@,
    {
        self.position
    }
}

} // verus!
