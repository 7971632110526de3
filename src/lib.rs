//! Rules engine of a falling-block puzzle: pieces, the board, collision,
//! rotation, locking and line clearing, with their contracts proved by Verus.

pub mod board;
pub mod display;
pub mod state;
pub mod tetromino;
