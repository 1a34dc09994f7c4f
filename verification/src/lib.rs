//! A chess rules engine: board and piece modelling, per-piece move
//! generation, check detection, full-legality move validation with
//! simulate-and-rollback, and checkmate/stalemate detection.
//!
//! Three board representations live side by side: a mailbox board of
//! `Option<Piece>` squares (the canonical rules engine), a `u64` bitboard
//! representation with per-piece shift arithmetic, and precomputed
//! occupancy-free move tables keyed by square.

pub mod bit_game;
pub mod bitboard;
pub mod bitpieces;
pub mod bits;
pub mod bitset;
pub mod board;
pub mod game;
pub mod location;
pub mod move_generator;
pub mod movement;
pub mod moves;
pub mod pieces;
pub mod position;
pub mod ranks;
pub mod precomputed;
pub mod square;
pub mod threat;
pub mod user_actions;
