//! The rules of a falling-block puzzle: a playfield of ten columns and
//! twenty-two rows, seven tetrominoes, moves, quarter turns with wall kicks,
//! a shadow that shows where the moving piece would land, line clears, score
//! and levels.
//!
//! [`Tetris`] is the game. A driver starts it, ticks it in time, hands it the
//! moves of the player, and reads the board back cell by cell to draw it. What
//! each command does is stated over [`Session`], the game as a mathematical
//! object, and proved of the code; [`laws`] holds what follows for the game
//! as a whole.
//!
//! The pieces are drawn at random with the `rand` crate. Its code is not
//! verified: what is assumed of it stands in [`random`]. For a game with
//! pieces of one's own choosing there are [`Tetris::start_game_with`] and
//! [`Tetris::tick_with`].
pub mod shapes;
pub mod cells;
pub mod board;
pub mod lines;
pub mod session;
pub mod invariants;
pub mod laws;
pub mod random;
pub mod game;

pub use crate::cells::{GridCell, GridCellType};
pub use crate::game::{OutOfRange, Tetris};
pub use crate::session::Session;
pub use crate::shapes::{
    shape_points, Point, COL_COUNT, POINT_COUNT, ROWS_PER_LEVEL, ROW_COUNT, SHAPE_COUNT,
    SQUARE_SHAPE_INDEX,
};
