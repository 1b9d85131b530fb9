//! A two-player tic-tac-toe engine on a 3 by 3 board: moves, and the
//! detection of a win or a tie.
pub mod game;
pub mod grid;
pub mod input;
pub mod laws;
