//! A move-legality engine for chess on an 8x8 board.
//!
//! The engine holds the board as a value, lists the squares a piece can
//! move to, answers whether a square is attacked and whether a king is in
//! check, and applies a move that the movement rules allow. It knows no
//! castling, en passant or promotion, does not detect mate, and lets a side
//! make a move that leaves its own king attacked.

pub mod attack;
pub mod model;
pub mod movement;
pub mod moves;
pub mod notation;
