//! Piece calculators over raw `u64` bitboards: per-piece move and
//! capture sets as bit-parallel computations, dispatched over a closed
//! piece enumeration.

pub mod bishop;
pub mod common;
pub mod king;
pub mod knight;
pub mod pawn;
pub mod queen;
pub mod rock;

use vstd::prelude::*;
use crate::bitboard::BitBoard;
use crate::bitpieces::common::Color;
use crate::bits::bit64;
use crate::square::Square;

verus! {

/// The six piece kinds of the raw-bitboard representation.
#[derive(Clone, Copy, Debug, PartialEq, Eq, Structural)]
pub enum Piece {
    Pawn,
    Knight,
    Rock,
    Bishop,
    Queen,
    King,
}

/// Index of a piece kind, in declaration order.
pub open spec fn bp_index(p: Piece) -> int {
    match p {
        Piece::Pawn => 0,
        Piece::Knight => 1,
        Piece::Rock => 2,
        Piece::Bishop => 3,
        Piece::Queen => 4,
        Piece::King => 5,
    }
}

/// Whether a move of the given piece kind, standing as `piece` on
/// `square`, lands on `t`.
pub open spec fn piece_moves_bit(
    p: Piece,
    piece: u64,
    square: Square,
    own: u64,
    opponent: u64,
    c: Color,
    t: int,
) -> bool {
    match p {
        Piece::Pawn => pawn::pawn_moves_bit(piece, own, opponent, c, t),
        Piece::Knight => knight::knight_moves_bit(piece, own, t),
        Piece::Rock => rock::rock_moves_bit(own, opponent, square, t),
        Piece::Bishop => bishop::bishop_moves_bit(own, opponent, square, t),
        Piece::Queen => queen::queen_moves_bit(own, opponent, square, t),
        Piece::King => king::king_moves_bit(piece, own, t),
    }
}

/// Whether a capture of the given piece kind lands on `t`; only the
/// pawn's capture set differs from its move set.
pub open spec fn piece_capture_bit(
    p: Piece,
    piece: u64,
    square: Square,
    own: u64,
    opponent: u64,
    c: Color,
    t: int,
) -> bool {
    match p {
        Piece::Pawn => pawn::pawn_capture_bit(piece, own, opponent, c, t),
        _ => piece_moves_bit(p, piece, square, own, opponent, c, t),
    }
}

impl Piece {
    /// All six piece kinds, in declaration order.
    pub fn iter() -> (r: Vec<Piece>)
        ensures
            r@.len() == 6,
            forall|j: int| 0 <= j < 6 ==> bp_index(#[trigger] r@[j]) == j,
    {
        let r = vec![
            Piece::Pawn,
            Piece::Knight,
            Piece::Rock,
            Piece::Bishop,
            Piece::Queen,
            Piece::King,
        ];
        r
    }

    /// This piece kind's index, in declaration order.
    pub fn index(self) -> (r: usize)
        ensures
            r == bp_index(self),
    {
        match self {
            Piece::Pawn => 0,
            Piece::Knight => 1,
            Piece::Rock => 2,
            Piece::Bishop => 3,
            Piece::Queen => 4,
            Piece::King => 5,
        }
    }

    /// The move set of this piece kind, standing as `piece` on
    /// `square`, against the given occupancies.
    pub fn moves_function(
        &self,
        piece: &BitBoard,
        square: Square,
        own_pieces: &BitBoard,
        opponent_pieces: &BitBoard,
        color: &Color,
    ) -> (r: BitBoard)
        ensures
            forall|t: int|
                0 <= t < 64 ==> (#[trigger] bit64(r.0, t as u64) == piece_moves_bit(
                    *self,
                    piece.0,
                    square,
                    own_pieces.0,
                    opponent_pieces.0,
                    *color,
                    t,
                )),
    {
        match self {
            Piece::Pawn => pawn::Pawn::get_moves(piece, square, own_pieces, opponent_pieces, color),
            Piece::Knight => knight::Knight::get_moves(
                piece,
                square,
                own_pieces,
                opponent_pieces,
                color,
            ),
            Piece::Rock => rock::Rock::get_moves(piece, square, own_pieces, opponent_pieces, color),
            Piece::Bishop => bishop::Bishop::get_moves(
                piece,
                square,
                own_pieces,
                opponent_pieces,
                color,
            ),
            Piece::Queen => queen::Queen::get_moves(
                piece,
                square,
                own_pieces,
                opponent_pieces,
                color,
            ),
            Piece::King => king::King::get_moves(piece, square, own_pieces, opponent_pieces, color),
        }
    }

    /// The capture set of this piece kind; only the pawn's differs
    /// from its move set.
    pub fn capture_function(
        &self,
        piece: &BitBoard,
        square: Square,
        own_pieces: &BitBoard,
        opponent_pieces: &BitBoard,
        color: &Color,
    ) -> (r: BitBoard)
        ensures
            forall|t: int|
                0 <= t < 64 ==> (#[trigger] bit64(r.0, t as u64) == piece_capture_bit(
                    *self,
                    piece.0,
                    square,
                    own_pieces.0,
                    opponent_pieces.0,
                    *color,
                    t,
                )),
    {
        match self {
            Piece::Pawn => pawn::Pawn::get_capture(
                piece,
                square,
                own_pieces,
                opponent_pieces,
                color,
            ),
            _ => self.moves_function(piece, square, own_pieces, opponent_pieces, color),
        }
    }
}

} // verus!
