//! Replays a chess game that is written down as pairs of algebraic-notation tokens.
//!
//! The crate reads a token into a [`turn::Move`], finds the one piece on the
//! [`board::Board`] that the move speaks of, and carries the move out. Every
//! function states its result over the sequence of pieces that makes up a
//! board and over the characters that make up a token.

pub mod board;
pub mod game;
pub mod piece;
pub mod text;
pub mod turn;
pub mod types;
