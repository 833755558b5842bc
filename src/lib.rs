//! The rules of a falling-block puzzle game: piece shapes and rotation
//! with wall kicks, a seven-piece randomiser, the playing field, and a game
//! session with gravity, lock delay, holding, line clears and scoring.
pub mod bag;
pub mod board;
pub mod fixture;
pub mod game;
pub mod piece;
pub mod pos;
pub mod shape;

pub use bag::Bag;
pub use board::Grid;
pub use fixture::convert_string_to_u8_array;
pub use game::Tetris;
pub use piece::ActivePiece;
pub use pos::{Pos, MAX_COL, MAX_ROW};
pub use shape::{State, Tetromino};
