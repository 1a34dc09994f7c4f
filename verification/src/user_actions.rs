//! Actions a player can take, as handed to the rules engine by an input
//! layer: a move intent, a request to show a piece's options, or a
//! draw/resignation action.

use vstd::prelude::*;
use crate::location::Location;

verus! {

/// An intent to move the occupant of `from` to `to`; not yet validated.
#[derive(Debug, Clone, Copy, PartialEq, Eq, Structural)]
pub struct MoveAction {
    pub from: Location,
    pub to: Location,
}

/// What a player asked for. Generic in the move payload so that other
/// board representations can reuse it with their own move type.
#[derive(Debug)]
pub enum UserAction<M> {
    OfferDraw,
    AcceptDraw,
    Resign,
    Move(M),
    ShowMoveOption(Location),
}

pub type Action = UserAction<MoveAction>;

impl MoveAction {
    /// Creates a move intent.
    pub fn new(from: Location, to: Location) -> (r: MoveAction)
        ensures
            r == (MoveAction { from, to }),
    {
        MoveAction { from, to }
    }
}

} // verus!
