//! Connect-N on a rectangular grid: the board, the detection of a winning streak, and a
//! player that moves by itself.

pub mod game;
pub mod player;
