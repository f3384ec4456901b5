//! The rover: a position and a heading on a grid with obstacles, driven by
//! batches of commands.

use vstd::prelude::*;
use crate::command::{token_texts, Command};
use crate::direction::Direction;
use crate::grid::{blocked_cells, Grid};
use crate::obstacle::Obstacle;
use crate::position::Position;

verus! {

/// What can be observed of a rover: where it stands and which way it faces.
pub ghost struct RoverState {
    pub position: Position,
    pub direction: Direction,
}

/// The state after one command, or `None` where the command would drive the
/// rover onto a blocked cell. Turns keep the position; moves keep the heading;
/// a backward move is a step towards the opposite heading.
pub open spec fn apply(grid: Grid, blocked: Set<Position>, state: RoverState, command: Command) -> Option<RoverState> {
    match command {
        Command::Left => Some(RoverState { position: state.position, direction: state.direction.left() }),
        Command::Right => Some(RoverState { position: state.position, direction: state.direction.right() }),
        Command::Forward => {
            let target = grid.neighbour(state.position, state.direction);
            if blocked.contains(target) {
                None
            } else {
                Some(RoverState { position: target, direction: state.direction })
            }
        },
        Command::Backward => {
            let target = grid.neighbour(state.position, state.direction.opposite());
            if blocked.contains(target) {
                None
            } else {
                Some(RoverState { position: target, direction: state.direction })
            }
        },
        Command::Ignored => Some(state),
    }
}

/// The state after a batch of tokens: each is applied in turn to the state
/// that the one before it left, and the first blocked move ends the batch
/// with the state as it was before that move.
pub open spec fn run(grid: Grid, blocked: Set<Position>, state: RoverState, tokens: Seq<Seq<char>>) -> RoverState
    decreases tokens.len(),
{
    if tokens.len() == 0 {
        state
    } else {
        match apply(grid, blocked, state, Command::of(tokens[0])) {
            Some(next) => run(grid, blocked, next, tokens.drop_first()),
            None => state,
        }
    }
}

/// How many tokens of a batch are applied before a blocked move ends it; the
/// length of the batch where none does.
pub open spec fn accepted(grid: Grid, blocked: Set<Position>, state: RoverState, tokens: Seq<Seq<char>>) -> nat
    decreases tokens.len(),
{
    if tokens.len() == 0 {
        0
    } else {
        match apply(grid, blocked, state, Command::of(tokens[0])) {
            Some(next) => 1 + accepted(grid, blocked, next, tokens.drop_first()),
            None => 0,
        }
    }
}

/// A rover that stands on the grid stays on it through any batch, and the
/// cell that it ends on is the one it started from or one that is not blocked.
pub proof fn lemma_run_keeps_to_free_cells(grid: Grid, blocked: Set<Position>, state: RoverState, tokens: Seq<Seq<char>>)
    requires
        grid.well_formed(),
        grid.contains(state.position),
    ensures
        grid.contains(run(grid, blocked, state, tokens).position),
        run(grid, blocked, state, tokens).position == state.position || !blocked.contains(
            run(grid, blocked, state, tokens).position,
        ),
        !blocked.contains(state.position) ==> !blocked.contains(run(grid, blocked, state, tokens).position),
    decreases tokens.len(),
{
    if tokens.len() > 0 {
        match apply(grid, blocked, state, Command::of(tokens[0])) {
            Some(next) => {
                lemma_run_keeps_to_free_cells(grid, blocked, next, tokens.drop_first());
            },
            None => {},
        }
    }
}

/// No batch applies more tokens than it holds.
pub proof fn lemma_accepted_bounded(grid: Grid, blocked: Set<Position>, state: RoverState, tokens: Seq<Seq<char>>)
    ensures
        accepted(grid, blocked, state, tokens) <= tokens.len(),
    decreases tokens.len(),
{
    if tokens.len() > 0 {
        match apply(grid, blocked, state, Command::of(tokens[0])) {
            Some(next) => {
                lemma_accepted_bounded(grid, blocked, next, tokens.drop_first());
            },
            None => {},
        }
    }
}

/// A batch that is applied to its end can be run in two parts: the second
/// part starts from the state that the first one left.
pub proof fn lemma_run_in_two_parts(
    grid: Grid,
    blocked: Set<Position>,
    state: RoverState,
    first: Seq<Seq<char>>,
    second: Seq<Seq<char>>,
)
    requires
        accepted(grid, blocked, state, first) == first.len(),
    ensures
        run(grid, blocked, state, first + second) == run(grid, blocked, run(grid, blocked, state, first), second),
        accepted(grid, blocked, state, first + second) == first.len() + accepted(
            grid,
            blocked,
            run(grid, blocked, state, first),
            second,
        ),
    decreases first.len(),
{
    if first.len() > 0 {
        assert((first + second).drop_first() =~= first.drop_first() + second);
        match apply(grid, blocked, state, Command::of(first[0])) {
            Some(next) => {
                lemma_run_in_two_parts(grid, blocked, next, first.drop_first(), second);
            },
            None => {},
        }
    }
}

/// Once a move is blocked the batch is over: whatever tokens follow, the rover
/// ends in the state that it was in when the move was refused.
pub proof fn lemma_blocked_move_ends_batch(
    grid: Grid,
    blocked: Set<Position>,
    state: RoverState,
    tokens: Seq<Seq<char>>,
    more: Seq<Seq<char>>,
)
    requires
        accepted(grid, blocked, state, tokens) < tokens.len(),
    ensures
        run(grid, blocked, state, tokens + more) == run(grid, blocked, state, tokens),
        accepted(grid, blocked, state, tokens + more) == accepted(grid, blocked, state, tokens),
    decreases tokens.len(),
{
    assert((tokens + more).drop_first() =~= tokens.drop_first() + more);
    match apply(grid, blocked, state, Command::of(tokens[0])) {
        Some(next) => {
            lemma_blocked_move_ends_batch(grid, blocked, next, tokens.drop_first(), more);
        },
        None => {},
    }
}

/// On open ground every token of a batch is applied.
pub proof fn lemma_open_ground_never_halts(grid: Grid, state: RoverState, tokens: Seq<Seq<char>>)
    ensures
        accepted(grid, Set::empty(), state, tokens) == tokens.len(),
    decreases tokens.len(),
{
    if tokens.len() > 0 {
        let next = apply(grid, Set::empty(), state, Command::of(tokens[0]))->0;
        lemma_open_ground_never_halts(grid, next, tokens.drop_first());
    }
}

/// On open ground a move over an edge of the grid comes back in at the
/// opposite edge: forward from the far edge of the axis that the rover
/// faces up, backward from the near edge, and the other way round for a
/// rover that faces down the axis. The other coordinate and the heading stay.
pub proof fn lemma_moves_wrap_at_edges(grid: Grid, state: RoverState)
    requires
        grid.well_formed(),
        grid.contains(state.position),
    ensures
        state.direction == Direction::E && state.position.x == grid.x_limit() ==> apply(
            grid,
            Set::empty(),
            state,
            Command::Forward,
        ) == Some(RoverState { position: Position { x: grid.x_origin(), y: state.position.y }, direction: Direction::E }),
        state.direction == Direction::E && state.position.x == grid.x_origin() ==> apply(
            grid,
            Set::empty(),
            state,
            Command::Backward,
        ) == Some(RoverState { position: Position { x: grid.x_limit(), y: state.position.y }, direction: Direction::E }),
        state.direction == Direction::W && state.position.x == grid.x_origin() ==> apply(
            grid,
            Set::empty(),
            state,
            Command::Forward,
        ) == Some(RoverState { position: Position { x: grid.x_limit(), y: state.position.y }, direction: Direction::W }),
        state.direction == Direction::W && state.position.x == grid.x_limit() ==> apply(
            grid,
            Set::empty(),
            state,
            Command::Backward,
        ) == Some(RoverState { position: Position { x: grid.x_origin(), y: state.position.y }, direction: Direction::W }),
        state.direction == Direction::N && state.position.y == grid.y_limit() ==> apply(
            grid,
            Set::empty(),
            state,
            Command::Forward,
        ) == Some(RoverState { position: Position { x: state.position.x, y: grid.y_origin() }, direction: Direction::N }),
        state.direction == Direction::N && state.position.y == grid.y_origin() ==> apply(
            grid,
            Set::empty(),
            state,
            Command::Backward,
        ) == Some(RoverState { position: Position { x: state.position.x, y: grid.y_limit() }, direction: Direction::N }),
        state.direction == Direction::S && state.position.y == grid.y_origin() ==> apply(
            grid,
            Set::empty(),
            state,
            Command::Forward,
        ) == Some(RoverState { position: Position { x: state.position.x, y: grid.y_limit() }, direction: Direction::S }),
        state.direction == Direction::S && state.position.y == grid.y_limit() ==> apply(
            grid,
            Set::empty(),
            state,
            Command::Backward,
        ) == Some(RoverState { position: Position { x: state.position.x, y: grid.y_origin() }, direction: Direction::S }),
{
}

/// A rover on its grid.
pub struct Rover {
    position: Position,
    direction: Direction,
    map: Grid,
    obstacle_list: Option<Vec<Obstacle>>,
}

impl View for Rover {
    type V = RoverState;

    closed spec fn view(&self) -> RoverState {
        RoverState { position: self.position, direction: self.direction }
    }
}

impl Rover {
    /// The grid that the rover drives on. No command changes it.
    pub closed spec fn grid(&self) -> Grid {
        self.map
    }

    /// The obstacles that the rover was given. No command changes them.
    pub closed spec fn obstacles(&self) -> Option<Vec<Obstacle>> {
        self.obstacle_list
    }

    /// The cells that the rover may not enter.
    pub open spec fn blocked(&self) -> Set<Position> {
        blocked_cells(self.obstacles())
    }

    /// The rover stands on a cell of a grid whose bounds are in order.
    pub open spec fn well_formed(&self) -> bool {
        &&& self.grid().well_formed()
        &&& self.grid().contains(self@.position)
    }

    /// A rover at `position`, facing `direction`, on the grid `map`, with the
    /// given obstacles or, with `None`, on open ground. Nothing is checked:
    /// the rover is `well_formed` exactly where the bounds are in order and
    /// hold the position.
    pub fn new(position: Position, direction: Direction, map: Grid, obstacle_list: Option<Vec<Obstacle>>) -> (rover: Rover)
        ensures
            rover@ == (RoverState { position, direction }),
            rover.grid() == map,
            rover.obstacles() == obstacle_list,
    {
        Rover { position, direction, map, obstacle_list }
    }

    /// Whether the rover stands on a cell of a grid whose bounds are in
    /// order, as `run_commands` asks.
    pub fn is_well_formed(&self) -> (ready: bool)
        ensures
            ready == self.well_formed(),
    {
        self.map.is_well_formed() && self.map.holds(self.position)
    }

    /// The rover's first coordinate.
    pub fn x(&self) -> (x: usize)
        ensures
            x == self@.position.x,
    {
        self.position.x
    }

    /// The rover's second coordinate.
    pub fn y(&self) -> (y: usize)
        ensures
            y == self@.position.y,
    {
        self.position.y
    }

    /// The rover's heading.
    pub fn direction(&self) -> (direction: Direction)
        ensures
            direction == self@.direction,
    {
        self.direction
    }

    /// Runs a batch of command tokens, in order. `l` and `r` turn the rover,
    /// `f` and `b` move it one cell, wrapping at the grid's edges, and any
    /// other token does nothing. The first move onto a blocked cell is not
    /// made and ends the batch: the tokens after it are not looked at.
    pub fn run_commands(&mut self, commands: Vec<&str>)
        requires
            old(self).well_formed(),
        ensures
            final(self)@ == run(old(self).grid(), old(self).blocked(), old(self)@, token_texts(commands@)),
            final(self).grid() == old(self).grid(),
            final(self).obstacles() == old(self).obstacles(),
            final(self).well_formed(),
            final(self)@.position == old(self)@.position || !final(self).blocked().contains(final(self)@.position),
    {
        let ghost tokens = token_texts(commands@);
        let ghost grid = self.map;
        let ghost blocked = self.blocked();
        let ghost start = self@;
        let mut i: usize = 0;
        proof {
            assert(tokens.subrange(0, tokens.len() as int) =~= tokens);
        }
        while i < commands.len()
            invariant
                tokens == token_texts(commands@),
                i <= commands@.len(),
                self.map == grid,
                self.obstacle_list == old(self).obstacle_list,
                self.blocked() == blocked,
                self.well_formed(),
                self@.position == start.position || !blocked.contains(self@.position),
                run(grid, blocked, start, tokens) == run(grid, blocked, self@, tokens.subrange(i as int, tokens.len() as int)),
            ensures
                self.map == grid,
                self.obstacle_list == old(self).obstacle_list,
                self.well_formed(),
                self@.position == start.position || !blocked.contains(self@.position),
                run(grid, blocked, start, tokens) == self@,
            decreases commands@.len() - i,
        {
            let ghost rest = tokens.subrange(i as int, tokens.len() as int);
            proof {
                assert(rest.drop_first() =~= tokens.subrange(i + 1, tokens.len() as int));
            }
            let command = Command::parse(commands[i]);
            match command {
                Command::Forward => {
                    let position = self.move_forward();
                    match self.move_to(position) {
                        Ok(()) => {},
                        Err(_) => {
                            break;
                        },
                    }
                },
                Command::Backward => {
                    let position = self.move_backward();
                    match self.move_to(position) {
                        Ok(()) => {},
                        Err(_) => {
                            break;
                        },
                    }
                },
                Command::Left => self.turn_left(),
                Command::Right => self.turn_right(),
                Command::Ignored => {},
            }
            i += 1;
        }
    }

    /// The cell ahead of the rover.
    fn move_forward(&self) -> (position: Position)
        requires
            self.well_formed(),
        ensures
            position == self.grid().neighbour(self@.position, self@.direction),
            self.grid().contains(position),
    {
        self.map.step(self.position, self.direction)
    }

    /// The cell behind the rover.
    fn move_backward(&self) -> (position: Position)
        requires
            self.well_formed(),
        ensures
            position == self.grid().neighbour(self@.position, self@.direction.opposite()),
            self.grid().contains(position),
    {
        let heading = match self.direction {
            Direction::N => Direction::S,
            Direction::E => Direction::W,
            Direction::S => Direction::N,
            Direction::W => Direction::E,
        };
        self.map.step(self.position, heading)
    }

    /// Puts the rover on `position` unless the cell is blocked; it then
    /// stays where it is and the move is refused.
    fn move_to(&mut self, position: Position) -> (moved: Result<(), &'static str>)
        ensures
            moved is Ok <==> !old(self).blocked().contains(position),
            moved is Ok ==> final(self)@ == (RoverState { position, direction: old(self)@.direction }),
            moved is Err ==> final(self)@ == old(self)@,
            moved matches Err(reason) ==> reason@ == "Rover is obstructed"@,
            final(self).grid() == old(self).grid(),
            final(self).obstacles() == old(self).obstacles(),
    {
        if Grid::is_position_obstructed(position, &self.obstacle_list) {
            Err("Rover is obstructed")
        } else {
            self.position = position;
            Ok(())
        }
    }

    /// Turns the rover a quarter to the left, on the spot.
    fn turn_left(&mut self)
        ensures
            final(self)@ == (RoverState { position: old(self)@.position, direction: old(self)@.direction.left() }),
            final(self).grid() == old(self).grid(),
            final(self).obstacles() == old(self).obstacles(),
    {
        self.direction = Direction::turn_left(self.direction)
    }

    /// Turns the rover a quarter to the right, on the spot.
    fn turn_right(&mut self)
        ensures
            final(self)@ == (RoverState { position: old(self)@.position, direction: old(self)@.direction.right() }),
            final(self).grid() == old(self).grid(),
            final(self).obstacles() == old(self).obstacles(),
    {
        self.direction = Direction::turn_right(self.direction)
    }
}

} // verus!
