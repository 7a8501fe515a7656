//! An Othello (reversi) engine: a bit-parallel board representation with
//! verified move generation and stone flipping, a rule-aware game state,
//! and a depth-limited alpha-beta search proved equal to plain minimax.

pub mod bitboard;
pub mod bits;
pub mod board;
pub mod dumb_screen;
pub mod history;
pub mod minimax;
pub mod player;
pub mod position;
pub mod ui_board;
