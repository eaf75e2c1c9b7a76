//! Rules engine of an 8x8 disc-flipping board game: the board, the legality
//! check of a placement, the flipping of bracketed runs, and the dispatch of
//! player commands onto the board and the turn.

pub mod board;
pub mod rules;
pub mod game;
pub mod laws;
pub mod render;
