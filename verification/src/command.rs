//! The command tokens that a rover understands.

use vstd::prelude::*;
use vstd::string::*;

verus! {

/// What a command token asks of the rover.
#[derive(Copy, Clone, Debug, PartialEq, Eq, Structural)]
pub enum Command {
    /// `f`: one cell ahead.
    Forward,
    /// `b`: one cell back, keeping the heading.
    Backward,
    /// `l`: a quarter turn to the left.
    Left,
    /// `r`: a quarter turn to the right.
    Right,
    /// Any other token: nothing happens.
    Ignored,
}

impl Command {
    /// The meaning of a token: exactly `f`, `b`, `l` and `r` are commands,
    /// and every other text is ignored.
    pub open spec fn of(token: Seq<char>) -> Command {
        if token.len() != 1 {
            Command::Ignored
        } else if token[0] == 'f' {
            Command::Forward
        } else if token[0] == 'b' {
            Command::Backward
        } else if token[0] == 'l' {
            Command::Left
        } else if token[0] == 'r' {
            Command::Right
        } else {
            Command::Ignored
        }
    }

    /// Reads a token.
    pub fn parse(token: &str) -> (command: Command)
        ensures
            command == Command::of(token@),
    {
        if token.unicode_len() != 1 {
            return Command::Ignored;
        }
        let letter = token.get_char(0);
        if letter == 'f' {
            Command::Forward
        } else if letter == 'b' {
            Command::Backward
        } else if letter == 'l' {
            Command::Left
        } else if letter == 'r' {
            Command::Right
        } else {
            Command::Ignored
        }
    }
}

/// The texts of a batch of tokens, in order.
pub open spec fn token_texts(tokens: Seq<&str>) -> Seq<Seq<char>> {
    Seq::new(tokens.len(), |i: int| tokens[i]@)
}

} // verus!
