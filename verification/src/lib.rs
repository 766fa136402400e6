//! The rules of a small Snake game on a fixed square grid.
//!
//! The crate holds the game's state and each step that changes it, with
//! contracts stated over a mathematical view of the board, the snake and the
//! food. Windowing, drawing and the clock are left to the program around it.

pub mod cell;
pub mod draw;
pub mod game;
pub mod input;
pub mod random;
pub mod state;
