//! A verified core for a two-player tic-tac-toe round: a 3x3 board with a
//! turn counter, validated move application, and an evaluator that classifies
//! the board as undecided, won (with the winning line), or drawn.

pub mod board;
pub mod eval;
