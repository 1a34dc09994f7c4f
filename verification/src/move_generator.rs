//! Per-piece pseudo-legal move generation: one generator per piece type
//! and a single match-based dispatcher over the piece type.

pub mod base;
pub mod bishop;
pub mod king;
pub mod knight;
pub mod pawn;
pub mod queen;
pub mod rock;

use vstd::prelude::*;
use crate::board::Board;
use crate::location::Location;
use crate::move_generator::base::{lemma_sliding_moves_shape, lemma_step_moves_shape,
    move_entry_shape, PieceMovementType};
use crate::pieces::{Piece, PieceType, Side};

verus! {

/// All pseudo-legal moves of a piece of type `pt` standing at `l` for
/// `side`: the union of the per-piece generators, dispatched on the
/// piece type.
pub open spec fn piece_moves(
    b: Seq<Option<Piece>>,
    pt: PieceType,
    l: Location,
    side: Side,
) -> Seq<PieceMovementType> {
    match pt {
        PieceType::Pawn => pawn::pawn_moves(b, l, side),
        PieceType::Rook => rock::rook_moves(b, l, side),
        PieceType::Knight => knight::knight_moves(b, l, side),
        PieceType::Bishop => bishop::bishop_moves(b, l, side),
        PieceType::Queen => queen::queen_moves(b, l, side),
        PieceType::King => king::king_moves(b, l, side),
    }
}

/// Generates all pseudo-legal moves for a piece of the given type at
/// `loc`, dispatching to the matching per-piece generator.
pub fn generate_moves(board: &Board, piece_type: PieceType, loc: Location, side: Side) -> (r: Vec<
    PieceMovementType,
>)
    requires
        board.wf(),
    ensures
        r@ == piece_moves(board@, piece_type, loc, side),
{
    match piece_type {
        PieceType::Pawn => pawn::PawnMoveGen::generate_moves(board, loc, side),
        PieceType::Rook => rock::RookMoveGen::generate_moves(board, loc, side),
        PieceType::Knight => knight::KnightMoveGen::generate_moves(board, loc, side),
        PieceType::Bishop => bishop::BishopMoveGen::generate_moves(board, loc, side),
        PieceType::Queen => queen::QueenMoveGen::generate_moves(board, loc, side),
        PieceType::King => king::KingMoveGen::generate_moves(board, loc, side),
    }
}


/// Every generated move has the generated-move shape: its target was
/// empty or enemy-held, castle targets were empty — and only the king
/// generates castles; a generated castle is one of the two castle
/// offers.
pub proof fn lemma_piece_moves_shape(
    b: Seq<Option<Piece>>,
    pt: PieceType,
    l: Location,
    side: Side,
    j: int,
)
    requires
        0 <= j < piece_moves(b, pt, l, side).len(),
    ensures
        move_entry_shape(b, side, piece_moves(b, pt, l, side)[j]),
        pt != PieceType::King ==> !(piece_moves(b, pt, l, side)[j] is Castle),
        piece_moves(b, pt, l, side)[j] is Castle ==> (king::spec_kingside_castle(b, l) == Some(
            piece_moves(b, pt, l, side)[j],
        ) || king::spec_queenside_castle(b, l) == Some(piece_moves(b, pt, l, side)[j])),
{
    match pt {
        PieceType::Pawn => pawn::lemma_pawn_moves_shape(b, l, side, j),
        PieceType::Rook => lemma_sliding_moves_shape(b, l, side, rock::rook_directions(), j),
        PieceType::Knight => lemma_step_moves_shape(b, l, side, knight::knight_offsets(), j),
        PieceType::Bishop => lemma_sliding_moves_shape(b, l, side, bishop::bishop_directions(), j),
        PieceType::Queen => lemma_sliding_moves_shape(b, l, side, queen::queen_directions(), j),
        PieceType::King => king::lemma_king_moves_shape(b, l, side, j),
    }
}

} // verus!
