//! Pieces of the mailbox rules engine: a piece type, a side, and the
//! `has_moved` flag that gates castling eligibility.

use vstd::prelude::*;

verus! {

/// The two players.
#[derive(Debug, Clone, Copy, PartialEq, Eq, Structural)]
pub enum Side {
    White,
    Black,
}

/// The six kinds of chess piece.
#[derive(Debug, Clone, Copy, PartialEq, Eq, Structural)]
pub enum PieceType {
    Pawn,
    Rook,
    Knight,
    Bishop,
    Queen,
    King,
}

/// A chess piece: its kind, its owner, and whether it has ever been the
/// subject of a committed move (the only move-history signal kept; it
/// gates castling and is cleared only by a full board reset).
#[derive(Debug, Clone, Copy, PartialEq, Eq, Structural)]
pub struct Piece {
    pub piece_type: PieceType,
    pub side: Side,
    pub has_moved: bool,
}

impl Side {
    /// The opposing side.
    pub fn opposite(self) -> (r: Side)
        ensures
            r == spec_opposite(self),
            r != self,
    {
        match self {
            Side::White => Side::Black,
            Side::Black => Side::White,
        }
    }

    /// Index of this side, `White` = 0, `Black` = 1.
    pub fn index(self) -> (r: usize)
        ensures
            r == side_index(self),
    {
        match self {
            Side::White => 0,
            Side::Black => 1,
        }
    }
}

/// The opposing side.
pub open spec fn spec_opposite(s: Side) -> Side {
    match s {
        Side::White => Side::Black,
        Side::Black => Side::White,
    }
}

/// Index of a side, `White` = 0, `Black` = 1.
pub open spec fn side_index(s: Side) -> int {
    match s {
        Side::White => 0,
        Side::Black => 1,
    }
}

impl Piece {
    /// A piece that has not moved yet.
    pub fn new(piece_type: PieceType, side: Side) -> (r: Piece)
        ensures
            r == (Piece { piece_type, side, has_moved: false }),
    {
        Piece { piece_type, side, has_moved: false }
    }
}

} // verus!
