//! The bounds of the grid, its wrap-around geometry, and the obstruction query.

use vstd::prelude::*;
use crate::direction::Direction;
use crate::obstacle::Obstacle;
use crate::position::Position;

verus! {

/// The cells that a collection of obstacles occupies. Order and repetition in
/// the collection do not matter; an absent collection occupies nothing.
pub open spec fn blocked_cells(obstacle_list: Option<Vec<Obstacle>>) -> Set<Position> {
    match obstacle_list {
        Some(list) => Set::new(
            |cell: Position| exists|i: int| 0 <= i < list@.len() && (#[trigger] list@[i])@ == cell,
        ),
        None => Set::empty(),
    }
}

/// The coordinate one step up an axis that runs from `origin` to `limit`:
/// the step past `limit` lands on `origin`.
pub open spec fn wrap_up(at: usize, origin: usize, limit: usize) -> int {
    if at == limit {
        origin as int
    } else {
        at + 1
    }
}

/// The coordinate one step down an axis that runs from `origin` to `limit`:
/// the step below `origin` lands on `limit`.
pub open spec fn wrap_down(at: usize, origin: usize, limit: usize) -> int {
    if at == origin {
        limit as int
    } else {
        at - 1
    }
}

/// The rectangle of cells `x_origin..=x_limit` by `y_origin..=y_limit`,
/// joined edge to edge into a torus.
#[derive(Copy, Clone, Debug, PartialEq, Eq, Structural)]
pub struct Grid {
    x_origin: usize,
    y_origin: usize,
    x_limit: usize,
    y_limit: usize,
}

impl Grid {
    /// The least first coordinate.
    pub closed spec fn spec_x_origin(&self) -> usize {
        self.x_origin
    }

    /// The least second coordinate.
    pub closed spec fn spec_y_origin(&self) -> usize {
        self.y_origin
    }

    /// The greatest first coordinate.
    pub closed spec fn spec_x_limit(&self) -> usize {
        self.x_limit
    }

    /// The greatest second coordinate.
    pub closed spec fn spec_y_limit(&self) -> usize {
        self.y_limit
    }

    /// Neither axis is empty: each origin is at most its limit.
    pub open spec fn well_formed(&self) -> bool {
        &&& self.x_origin() <= self.x_limit()
        &&& self.y_origin() <= self.y_limit()
    }

    /// `position` is a cell of the grid.
    pub open spec fn contains(&self, position: Position) -> bool {
        &&& self.x_origin() <= position.x <= self.x_limit()
        &&& self.y_origin() <= position.y <= self.y_limit()
    }

    /// The cell one step from `position` towards `heading`. North and east
    /// count upwards; a step over an edge comes back in at the opposite edge,
    /// and the other coordinate stays as it is.
    pub open spec fn neighbour(&self, position: Position, heading: Direction) -> Position {
        match heading {
            Direction::N => Position {
                x: position.x,
                y: wrap_up(position.y, self.y_origin(), self.y_limit()) as usize,
            },
            Direction::E => Position {
                x: wrap_up(position.x, self.x_origin(), self.x_limit()) as usize,
                y: position.y,
            },
            Direction::S => Position {
                x: position.x,
                y: wrap_down(position.y, self.y_origin(), self.y_limit()) as usize,
            },
            Direction::W => Position {
                x: wrap_down(position.x, self.x_origin(), self.x_limit()) as usize,
                y: position.y,
            },
        }
    }

    /// The grid with the given bounds. The bounds are taken as they come:
    /// whether they are `well_formed` is for the caller to see to.
    pub fn new(x_origin: usize, y_origin: usize, x_limit: usize, y_limit: usize) -> (grid: Grid)
        ensures
            grid.x_origin() == x_origin,
            grid.y_origin() == y_origin,
            grid.x_limit() == x_limit,
            grid.y_limit() == y_limit,
    {
        Grid { x_origin, y_origin, x_limit, y_limit }
    }

    /// The least first coordinate.
    #[verifier::when_used_as_spec(spec_x_origin)]
    pub fn x_origin(&self) -> (bound: usize)
        ensures
            bound == self.x_origin(),
    {
        self.x_origin
    }

    /// The least second coordinate.
    #[verifier::when_used_as_spec(spec_y_origin)]
    pub fn y_origin(&self) -> (bound: usize)
        ensures
            bound == self.y_origin(),
    {
        self.y_origin
    }

    /// The greatest first coordinate.
    #[verifier::when_used_as_spec(spec_x_limit)]
    pub fn x_limit(&self) -> (bound: usize)
        ensures
            bound == self.x_limit(),
    {
        self.x_limit
    }

    /// The greatest second coordinate.
    #[verifier::when_used_as_spec(spec_y_limit)]
    pub fn y_limit(&self) -> (bound: usize)
        ensures
            bound == self.y_limit(),
    {
        self.y_limit
    }

    /// Whether the bounds are in order.
    pub fn is_well_formed(&self) -> (in_order: bool)
        ensures
            in_order == self.well_formed(),
    {
        self.x_origin <= self.x_limit && self.y_origin <= self.y_limit
    }

    /// Whether `position` is a cell of the grid.
    pub fn holds(&self, position: Position) -> (inside: bool)
        ensures
            inside == self.contains(position),
    {
        self.x_origin <= position.x && position.x <= self.x_limit && self.y_origin <= position.y && position.y
            <= self.y_limit
    }

    /// The cell one step from `position` towards `heading`, wrapping at the edges.
    pub fn step(&self, position: Position, heading: Direction) -> (next: Position)
        requires
            self.well_formed(),
            self.contains(position),
        ensures
            next == self.neighbour(position, heading),
            self.contains(next),
    {
        match heading {
            Direction::N => {
                if position.y == self.y_limit {
                    Position { x: position.x, y: self.y_origin }
                } else {
                    Position { x: position.x, y: position.y + 1 }
                }
            },
            Direction::E => {
                if position.x == self.x_limit {
                    Position { x: self.x_origin, y: position.y }
                } else {
                    Position { x: position.x + 1, y: position.y }
                }
            },
            Direction::S => {
                if position.y == self.y_origin {
                    Position { x: position.x, y: self.y_limit }
                } else {
                    Position { x: position.x, y: position.y - 1 }
                }
            },
            Direction::W => {
                if position.x == self.x_origin {
                    Position { x: self.x_limit, y: position.y }
                } else {
                    Position { x: position.x - 1, y: position.y }
                }
            },
        }
    }

    /// Whether one of the obstacles stands on `position`. The grid's bounds
    /// play no part: the answer depends on the obstacles alone.
    pub fn is_position_obstructed(position: Position, obstacle_list: &Option<Vec<Obstacle>>) -> (obstructed: bool)
        ensures
            obstructed == blocked_cells(*obstacle_list).contains(position),
            *obstacle_list is None ==> !obstructed,
            obstacle_list matches Some(list) && list@.len() == 0 ==> !obstructed,
    {
        match obstacle_list {
            Some(list) => {
                let mut i: usize = 0;
                while i < list.len()
                    invariant
                        *obstacle_list == Some(*list),
                        i <= list@.len(),
                        forall|j: int| 0 <= j < i ==> (#[trigger] list@[j])@ != position,
                    decreases list@.len() - i,
                {
                    if list[i].position() == position {
                        return true;
                    }
                    i += 1;
                }
                false
            },
            None => false,
        }
    }

    /// A step inside a well-formed grid stays inside it.
    pub proof fn lemma_neighbour_contained(self, position: Position, heading: Direction)
        requires
            self.well_formed(),
            self.contains(position),
        ensures
            self.contains(self.neighbour(position, heading)),
    {
    }

    /// A step and a step the opposite way come back to the cell they left.
    pub proof fn lemma_step_back(self, position: Position, heading: Direction)
        requires
            self.well_formed(),
            self.contains(position),
        ensures
            self.neighbour(self.neighbour(position, heading), heading.opposite()) == position,
            self.neighbour(self.neighbour(position, heading.opposite()), heading) == position,
    {
    }

    /// At the far edge of an axis a step up lands on the near edge, and at
    /// the near edge a step down lands on the far edge; the other coordinate
    /// is untouched.
    pub proof fn lemma_wraps_at_edges(self, position: Position)
        requires
            self.well_formed(),
            self.contains(position),
        ensures
            position.x == self.x_limit() ==> self.neighbour(position, Direction::E) == (Position {
                x: self.x_origin(),
                y: position.y,
            }),
            position.x == self.x_origin() ==> self.neighbour(position, Direction::W) == (Position {
                x: self.x_limit(),
                y: position.y,
            }),
            position.y == self.y_limit() ==> self.neighbour(position, Direction::N) == (Position {
                x: position.x,
                y: self.y_origin(),
            }),
            position.y == self.y_origin() ==> self.neighbour(position, Direction::S) == (Position {
                x: position.x,
                y: self.y_limit(),
            }),
    {
    }

    /// Without obstacles no cell is blocked, whether the collection is
    /// absent or empty.
    pub proof fn lemma_open_ground(obstacle_list: Option<Vec<Obstacle>>, position: Position)
        requires
            obstacle_list matches Some(list) ==> list@.len() == 0,
        ensures
            !blocked_cells(obstacle_list).contains(position),
    {
    }
}

} // verus!
