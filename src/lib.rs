//! A verified tic-tac-toe game state: a 3x3 board, the player to move, and
//! win/draw detection, with a random computer opponent answering each move.
pub mod game;
pub mod laws;
pub mod turn;

pub use game::{GameResult, GameState, Player};
