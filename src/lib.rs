//! Rules kernel and search core for The Battle of LITS.
//!
//! - `point`, `transform`, `tetromino`: board geometry, the symmetries of the
//!   square, and the four piece shapes with their canonical orientations.
//! - `board`: the 10x10 board, move validation, play and take-back with an
//!   attach index that always equals the one computed from scratch.
//! - `moves`: the ordered enumeration of legal moves and the tetromino-ID table.
//! - `game`: a linear history with redo over a setup board.
//! - `notate`: the text notations of points, pieces, boards and games.
//! - `search`, `tree`: the solver's verdict and the search-tree arena with its
//!   visit accounting.
//! - `ltp`: the words of the text protocol.

pub mod board;
pub mod colour;
pub mod error;
pub mod game;
pub mod ltp;
pub mod moves;
pub mod notate;
pub mod outcome;
pub mod player;
pub mod point;
pub mod search;
pub mod tetromino;
pub mod transform;
pub mod tree;

pub use board::Board;
pub use colour::Colour;
pub use error::LitsError;
pub use game::Game;
pub use outcome::Outcome;
pub use player::Player;
pub use point::Point;
pub use tetromino::Tetromino;
pub use transform::Transform;
