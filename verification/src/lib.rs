//! Small verified kernels: a rover that drives over a wrap-around grid, and a
//! few text utilities.

pub mod command;
pub mod direction;
pub mod grid;
pub mod obstacle;
pub mod position;
pub mod roman_numerals;
pub mod rover;
pub mod text;
pub mod wrapper;
pub mod wordle;
