use katas::command::Command;
use katas::direction::Direction;
use katas::grid::Grid;
use katas::obstacle::Obstacle;
use katas::position::Position;
use katas::rover::Rover;

fn map() -> Grid {
    Grid::new(0, 0, 5, 5)
}

fn position() -> Position {
    Position::new(3, 2)
}

fn state(rover: &Rover) -> (usize, usize, Direction) {
    (rover.x(), rover.y(), rover.direction())
}

#[test]
fn move_forward_turn_move_backward() {
    let mut rover = Rover::new(position(), Direction::N, map(), None);
    let commands = Vec::from(["f", "l", "b"]);
    rover.run_commands(commands);
    assert_eq!(rover.x(), 4);
    assert_eq!(rover.y(), 3);
    assert_eq!(rover.direction(), Direction::W);
}

#[test]
fn wrapping_forwards() {
    let mut rover = Rover::new(position(), Direction::N, map(), None);
    let commands = Vec::from(["f", "f", "f", "f", "f", "r", "f", "f", "f"]);
    rover.run_commands(commands);
    assert_eq!(rover.x(), 0);
    assert_eq!(rover.y(), 1);
    assert_eq!(rover.direction(), Direction::E);
}

#[test]
fn wrapping_backwards() {
    let mut rover = Rover::new(position(), Direction::N, map(), None);
    let commands = Vec::from(["b", "b", "b", "l", "b", "b", "b", "b"]);
    rover.run_commands(commands);
    assert_eq!(rover.x(), 1);
    assert_eq!(rover.y(), 5);
    assert_eq!(rover.direction(), Direction::W);
}

#[test]
fn obstacle_in_the_way() {
    let obstacle_list = Vec::from([
        Obstacle::new(Position::new(0, 3)),
        Obstacle::new(Position::new(2, 4)),
    ]);
    let mut rover = Rover::new(position(), Direction::N, map(), Some(obstacle_list));
    let commands = Vec::from(["r", "b", "b", "b", "l", "f", "f", "f"]);
    rover.run_commands(commands);
    assert_eq!(rover.x(), 0);
    assert_eq!(rover.y(), 2);
    assert_eq!(rover.direction(), Direction::N);
}

#[test]
fn a_new_rover_is_where_it_was_put() {
    let rover = Rover::new(Position::new(1, 4), Direction::S, map(), None);
    assert_eq!(state(&rover), (1, 4, Direction::S));
}

#[test]
fn an_empty_batch_changes_nothing() {
    let mut rover = Rover::new(position(), Direction::E, map(), None);
    rover.run_commands(Vec::new());
    assert_eq!(state(&rover), (3, 2, Direction::E));
}

#[test]
fn forward_at_the_east_edge_wraps_to_the_west_edge() {
    for y in 0..6 {
        let mut rover = Rover::new(Position::new(5, y), Direction::E, map(), None);
        rover.run_commands(vec!["f"]);
        assert_eq!(state(&rover), (0, y, Direction::E));
    }
}

#[test]
fn backward_at_the_west_edge_wraps_to_the_east_edge() {
    for y in 0..6 {
        let mut rover = Rover::new(Position::new(0, y), Direction::E, map(), None);
        rover.run_commands(vec!["b"]);
        assert_eq!(state(&rover), (5, y, Direction::E));
    }
}

#[test]
fn backward_moves_like_forward_facing_the_other_way() {
    let pairs = [
        (Direction::N, Direction::S),
        (Direction::E, Direction::W),
        (Direction::S, Direction::N),
        (Direction::W, Direction::E),
    ];
    for x in 0..6 {
        for y in 0..6 {
            for (heading, other) in pairs {
                let mut backward = Rover::new(Position::new(x, y), heading, map(), None);
                backward.run_commands(vec!["b"]);
                let mut forward = Rover::new(Position::new(x, y), other, map(), None);
                forward.run_commands(vec!["f"]);
                assert_eq!((backward.x(), backward.y()), (forward.x(), forward.y()));
                assert_eq!(backward.direction(), heading);
            }
        }
    }
}

#[test]
fn turns_keep_the_position() {
    let mut rover = Rover::new(position(), Direction::N, map(), None);
    rover.run_commands(vec!["l"]);
    assert_eq!(state(&rover), (3, 2, Direction::W));
    rover.run_commands(vec!["r", "r"]);
    assert_eq!(state(&rover), (3, 2, Direction::E));
    rover.run_commands(vec!["l", "l", "l", "l"]);
    assert_eq!(state(&rover), (3, 2, Direction::E));
}

#[test]
fn a_turn_is_seen_by_the_next_move() {
    let mut rover = Rover::new(position(), Direction::N, map(), None);
    rover.run_commands(vec!["r", "f"]);
    assert_eq!(state(&rover), (4, 2, Direction::E));
}

#[test]
fn unknown_tokens_are_ignored() {
    let mut rover = Rover::new(position(), Direction::N, map(), None);
    rover.run_commands(vec!["x", "", "F", "ff", " f", "forward", "é", "f"]);
    assert_eq!(state(&rover), (3, 3, Direction::N));
}

#[test]
fn a_blocked_move_ends_the_batch() {
    let obstacles = vec![Obstacle::new(Position::new(3, 3))];
    let mut rover = Rover::new(position(), Direction::N, map(), Some(obstacles));
    rover.run_commands(vec!["f", "r", "f", "l", "b"]);
    assert_eq!(state(&rover), (3, 2, Direction::N));
}

#[test]
fn a_blocked_backward_move_ends_the_batch() {
    let obstacles = vec![Obstacle::new(Position::new(5, 1))];
    let mut rover = Rover::new(position(), Direction::N, map(), Some(obstacles));
    rover.run_commands(vec!["l", "b", "b", "r", "b", "l", "f"]);
    assert_eq!(state(&rover), (5, 2, Direction::N));
}

#[test]
fn a_halted_rover_takes_the_next_batch() {
    let obstacles = vec![Obstacle::new(Position::new(3, 3))];
    let mut rover = Rover::new(position(), Direction::N, map(), Some(obstacles));
    rover.run_commands(vec!["f", "f"]);
    assert_eq!(state(&rover), (3, 2, Direction::N));
    rover.run_commands(vec!["r", "f"]);
    assert_eq!(state(&rover), (4, 2, Direction::E));
}

#[test]
fn an_obstacle_behind_the_wrap_blocks() {
    let obstacles = vec![Obstacle::new(Position::new(0, 2))];
    let mut rover = Rover::new(Position::new(5, 2), Direction::E, map(), Some(obstacles));
    rover.run_commands(vec!["f", "l"]);
    assert_eq!(state(&rover), (5, 2, Direction::E));
}

#[test]
fn an_empty_obstacle_list_is_open_ground() {
    let mut open = Rover::new(position(), Direction::N, map(), None);
    let mut empty = Rover::new(position(), Direction::N, map(), Some(Vec::new()));
    let batch = ["f", "f", "r", "b", "b", "b", "b", "l", "f", "f", "f", "f"];
    open.run_commands(batch.to_vec());
    empty.run_commands(batch.to_vec());
    assert_eq!(state(&open), state(&empty));
    assert_eq!(state(&open), (5, 2, Direction::N));
}

#[test]
fn a_rover_stays_on_the_grid_and_off_the_obstacles() {
    let grid = Grid::new(1, 2, 4, 6);
    let cells = [Position::new(2, 2), Position::new(4, 5), Position::new(1, 6)];
    let batch = ["f", "f", "r", "f", "f", "f", "l", "b", "b", "r", "b", "f", "f", "l", "f"];
    for length in 0..=batch.len() {
        let obstacles: Vec<Obstacle> = cells.iter().map(|cell| Obstacle::new(*cell)).collect();
        let mut rover = Rover::new(Position::new(3, 4), Direction::N, grid, Some(obstacles));
        rover.run_commands(batch[..length].to_vec());
        assert!(1 <= rover.x() && rover.x() <= 4);
        assert!(2 <= rover.y() && rover.y() <= 6);
        assert!(!cells.contains(&Position::new(rover.x(), rover.y())));
    }
}

#[test]
fn a_batch_can_be_run_in_two_parts() {
    let batch = ["f", "f", "r", "f", "x", "b", "l", "l", "f"];
    for cut in 0..=batch.len() {
        let mut whole = Rover::new(position(), Direction::N, map(), None);
        whole.run_commands(batch.to_vec());
        let mut parts = Rover::new(position(), Direction::N, map(), None);
        parts.run_commands(batch[..cut].to_vec());
        parts.run_commands(batch[cut..].to_vec());
        assert_eq!(state(&whole), state(&parts));
    }
}

#[test]
fn tokens_are_read_as_commands() {
    assert_eq!(Command::parse("f"), Command::Forward);
    assert_eq!(Command::parse("b"), Command::Backward);
    assert_eq!(Command::parse("l"), Command::Left);
    assert_eq!(Command::parse("r"), Command::Right);
    assert_eq!(Command::parse(""), Command::Ignored);
    assert_eq!(Command::parse("R"), Command::Ignored);
    assert_eq!(Command::parse("fb"), Command::Ignored);
    assert_eq!(Command::parse("é"), Command::Ignored);
}

#[test]
fn a_rover_on_its_grid_is_well_formed() {
    assert!(Rover::new(position(), Direction::N, map(), None).is_well_formed());
    assert!(Rover::new(Position::new(5, 0), Direction::N, map(), None).is_well_formed());
    assert!(!Rover::new(Position::new(6, 2), Direction::N, map(), None).is_well_formed());
    assert!(!Rover::new(Position::new(3, 6), Direction::N, map(), None).is_well_formed());
    assert!(!Rover::new(Position::new(3, 2), Direction::N, Grid::new(4, 0, 3, 5), None).is_well_formed());
    assert!(!Rover::new(Position::new(1, 2), Direction::N, Grid::new(2, 0, 5, 5), None).is_well_formed());
}
