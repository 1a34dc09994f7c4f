//! A richer move vocabulary: a move intent tagged with the kind of move
//! it represents (plain, capture, double pawn push, promotion, ...).

use vstd::prelude::*;
use crate::location::Location;
use crate::pieces::Piece;

verus! {

/// The kind of a move.
#[derive(Debug, Clone, Copy, PartialEq, Eq, Structural)]
pub enum MoveType {
    Normal,
    Attack,
    DoublePawnPush,
    EnPassant,
    PawnPromotion(Piece),
    Check(Piece),
    Castling,
}

/// A move intent together with the kind of move it represents.
#[derive(Debug, Clone, Copy, PartialEq, Eq, Structural)]
pub struct MoveAction {
    pub from: Location,
    pub to: Location,
    pub move_type: MoveType,
}

/// What a player asked for, with an explicit error action.
#[derive(Debug)]
pub enum UserAction<M> {
    OfferDraw,
    AcceptDraw,
    Resign,
    Move(M),
    ShowMoveOption(Location),
    Error,
}

pub type Action = UserAction<MoveAction>;

impl MoveAction {
    /// Creates a tagged move intent.
    pub fn new(from: Location, to: Location, move_type: MoveType) -> (r: MoveAction)
        ensures
            r == (MoveAction { from, to, move_type }),
    {
        MoveAction { from, to, move_type }
    }
}

} // verus!
