//! Compass headings and quarter turns.

use vstd::prelude::*;

verus! {

/// One of the four headings a rover can face.
#[derive(Copy, Clone, Debug, PartialEq, Eq, Structural)]
pub enum Direction {
    N,
    E,
    S,
    W,
}

impl Direction {
    /// The heading a quarter turn to the left of `self`: N, W, S, E, N, ...
    pub open spec fn left(self) -> Direction {
        match self {
            Direction::N => Direction::W,
            Direction::E => Direction::N,
            Direction::S => Direction::E,
            Direction::W => Direction::S,
        }
    }

    /// The heading a quarter turn to the right of `self`: N, E, S, W, N, ...
    pub open spec fn right(self) -> Direction {
        match self {
            Direction::N => Direction::E,
            Direction::E => Direction::S,
            Direction::S => Direction::W,
            Direction::W => Direction::N,
        }
    }

    /// The heading that points the other way.
    pub open spec fn opposite(self) -> Direction {
        match self {
            Direction::N => Direction::S,
            Direction::E => Direction::W,
            Direction::S => Direction::N,
            Direction::W => Direction::E,
        }
    }

    /// Turns a quarter to the left.
    pub fn turn_left(direction: Direction) -> (turned: Direction)
        ensures
            turned == direction.left(),
    {
        match direction {
            Direction::N => Direction::W,
            Direction::E => Direction::N,
            Direction::S => Direction::E,
            Direction::W => Direction::S,
        }
    }

    /// Turns a quarter to the right.
    pub fn turn_right(direction: Direction) -> (turned: Direction)
        ensures
            turned == direction.right(),
    {
        match direction {
            Direction::N => Direction::E,
            Direction::E => Direction::S,
            Direction::S => Direction::W,
            Direction::W => Direction::N,
        }
    }

    /// Four quarter turns to the left come back to the heading they started from.
    pub proof fn lemma_left_four_times(d: Direction)
        ensures
            d.left().left().left().left() == d,
    {
    }

    /// Four quarter turns to the right come back to the heading they started from.
    pub proof fn lemma_right_four_times(d: Direction)
        ensures
            d.right().right().right().right() == d,
    {
    }

    /// A left turn and a right turn undo each other, in either order.
    pub proof fn lemma_left_right_inverse(d: Direction)
        ensures
            d.left().right() == d,
            d.right().left() == d,
    {
    }

    /// Two quarter turns, either way, face the opposite heading.
    pub proof fn lemma_half_turn(d: Direction)
        ensures
            d.left().left() == d.opposite(),
            d.right().right() == d.opposite(),
    {
    }
}

} // verus!
