//! Occupancy-free move and attack options per piece type, over the
//! mask representation's positions, with one match-based dispatcher
//! for each of the two queries.

pub mod bishop;
pub mod common;
pub mod king;
pub mod knight;
pub mod pawn;
pub mod queen;
pub mod rock;

use vstd::prelude::*;
use crate::pieces::{PieceType, Side};
use crate::position::Position;

verus! {

/// The occupancy-free move options of a piece of the given type.
pub open spec fn spec_piece_moves(pt: PieceType, p: Position, side: Side) -> Seq<Position> {
    match pt {
        PieceType::Rook => rock::rook_options(p),
        PieceType::Bishop => bishop::bishop_options(p),
        PieceType::Queen => queen::queen_options(p),
        PieceType::Knight => knight::knight_options(p),
        PieceType::King => king::king_options(p),
        PieceType::Pawn => pawn::pawn_options(p, side),
    }
}

/// The occupancy-free attack options of a piece of the given type;
/// only the pawn's differ from its move options.
pub open spec fn spec_piece_attack(pt: PieceType, p: Position, side: Side) -> Seq<Position> {
    match pt {
        PieceType::Rook => rock::rook_options(p),
        PieceType::Bishop => bishop::bishop_options(p),
        PieceType::Queen => queen::queen_options(p),
        PieceType::Knight => knight::knight_options(p),
        PieceType::King => king::king_options(p),
        PieceType::Pawn => pawn::pawn_attack_options(p, side),
    }
}

/// Every square a piece of type `piece_type` could move to from `pos`
/// on an empty board.
pub fn get_piece_moves(piece_type: PieceType, pos: &Position, side: Side) -> (r: Vec<Position>)
    ensures
        r@ == spec_piece_moves(piece_type, *pos, side),
{
    match piece_type {
        PieceType::Rook => rock::RockMoves::move_options(pos, side),
        PieceType::Bishop => bishop::BishopMoves::move_options(pos, side),
        PieceType::Queen => queen::QueenMoves::move_options(pos, side),
        PieceType::Knight => knight::KnightMoves::move_options(pos, side),
        PieceType::King => king::KingMoves::move_options(pos, side),
        PieceType::Pawn => pawn::PawnMoves::move_options(pos, side),
    }
}

/// Every square a piece of type `piece_type` attacks from `pos` on an
/// empty board.
pub fn get_piece_attack(piece_type: PieceType, pos: &Position, side: Side) -> (r: Vec<Position>)
    ensures
        r@ == spec_piece_attack(piece_type, *pos, side),
{
    match piece_type {
        PieceType::Rook => rock::RockMoves::attack_options(pos, side),
        PieceType::Bishop => bishop::BishopMoves::attack_options(pos, side),
        PieceType::Queen => queen::QueenMoves::attack_option(pos, side),
        PieceType::Knight => knight::KnightMoves::attack_options(pos, side),
        PieceType::King => king::KingMoves::attack_options(pos, side),
        PieceType::Pawn => pawn::PawnMoves::attack_options(pos, side),
    }
}

} // verus!
