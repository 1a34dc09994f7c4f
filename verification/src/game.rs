//! The game state machine: the board, the active side and the cached
//! king locations, with full-legality move validation by
//! simulate-and-rollback, and checkmate/stalemate detection.

use vstd::prelude::*;
use crate::board::{spec_start_square, start_square, Board};
use crate::location::{file_index, loc_at, loc_index, on_board, rank_index, File, Location, Rank};
use crate::move_generator::base::PieceMovementType;
use crate::move_generator::king::{spec_is_checked, KingMoveGen};
use crate::move_generator::{generate_moves, piece_moves};
use crate::pieces::{side_index, spec_opposite, Piece, PieceType, Side};
use crate::user_actions::MoveAction;

verus! {

/// Why a move was rejected: the source square is empty, the piece
/// belongs to the side not on the move, the target is not among the
/// piece's generated destinations, or the move would leave the mover's
/// own king in check.
#[derive(Debug, Clone, Copy, PartialEq, Eq, Structural)]
pub enum MoveError {
    NoPieceAtSource,
    WrongSideToMove,
    IllegalDestination,
    SelfCheckViolation,
}

/// The destination square that selects a generated move: its single
/// target, or the king's target for castling.
pub open spec fn move_dest(m: PieceMovementType) -> Location {
    match m {
        PieceMovementType::Relocate(t) => t,
        PieceMovementType::Capture(t) => t,
        PieceMovementType::Promotion(t) => t,
        PieceMovementType::Castle(kt, _) => kt,
    }
}

/// The first move in `s` whose destination is `to`.
pub open spec fn find_move(s: Seq<PieceMovementType>, to: Location) -> Option<PieceMovementType>
    decreases s.len(),
{
    if s.len() == 0 {
        None
    } else if move_dest(s[0]) == to {
        Some(s[0])
    } else {
        find_move(s.skip(1), to)
    }
}

/// The generated move that an action from `from` to `to` selects for
/// `side`: the first pseudo-legal move of the occupant of `from` whose
/// destination is `to`. `None` when `from` is empty, holds an opposing
/// piece, or offers no move to `to`.
pub open spec fn selected_move(
    b: Seq<Option<Piece>>,
    from: Location,
    side: Side,
    to: Location,
) -> Option<PieceMovementType> {
    match b[loc_index(from)] {
        None => None,
        Some(p) => if p.side != side {
            None
        } else {
            find_move(piece_moves(b, p.piece_type, from, side), to)
        },
    }
}

/// The home square of the rook taking part in a castle whose king
/// target is `kt`: file `H` for a kingside castle, file `A` otherwise.
pub open spec fn castle_rook_from(kt: Location) -> Location {
    if file_index(kt.file) == 6 {
        loc_at(7, rank_index(kt.rank))
    } else {
        loc_at(0, rank_index(kt.rank))
    }
}

/// The board after applying move `m` of the piece at `from`: a single
/// relocate-and-clear for ordinary moves, two of them (king first, then
/// rook) for castling.
pub open spec fn apply_move(b: Seq<Option<Piece>>, from: Location, m: PieceMovementType) -> Seq<
    Option<Piece>,
> {
    match m {
        PieceMovementType::Castle(kt, rt) => {
            let rf = castle_rook_from(kt);
            let b1 = b.update(loc_index(kt), b[loc_index(from)]).update(loc_index(from), None);
            b1.update(loc_index(rt), b1[loc_index(rf)]).update(loc_index(rf), None)
        },
        _ => b.update(loc_index(move_dest(m)), b[loc_index(from)]).update(loc_index(from), None),
    }
}

/// The board `b` with the occupant of square `sq`, if any, marked as
/// having moved.
pub open spec fn set_moved(b: Seq<Option<Piece>>, sq: int) -> Seq<Option<Piece>> {
    if b[sq] is Some {
        b.update(
            sq,
            Some(
                Piece {
                    piece_type: (b[sq] -> Some_0).piece_type,
                    side: (b[sq] -> Some_0).side,
                    has_moved: true,
                },
            ),
        )
    } else {
        b
    }
}

/// The board after committing move `m` of the piece at `from`: the move
/// applied, and every moved piece marked as having moved.
pub open spec fn commit_board(b: Seq<Option<Piece>>, from: Location, m: PieceMovementType) -> Seq<
    Option<Piece>,
> {
    match m {
        PieceMovementType::Castle(kt, rt) => set_moved(
            set_moved(apply_move(b, from, m), loc_index(kt)),
            loc_index(rt),
        ),
        _ => set_moved(apply_move(b, from, m), loc_index(move_dest(m))),
    }
}

/// The king square used for the post-move check test of an action from
/// `from` to `to` on board `b`: the destination when the king itself
/// moves (its target must be evaluated, not its origin), the cached
/// king location otherwise.
pub open spec fn sim_king_loc_of(
    b: Seq<Option<Piece>>,
    king_pos: Seq<Location>,
    active: Side,
    from: Location,
    to: Location,
) -> Location {
    if b[loc_index(from)] is Some && (b[loc_index(from)] -> Some_0).piece_type == PieceType::King {
        to
    } else {
        king_pos[side_index(active)]
    }
}

/// Whether the move that an action from `from` to `to` selects would
/// leave the mover's own king attacked; meaningful only when a move is
/// selected.
pub open spec fn move_leaves_check_of(
    b: Seq<Option<Piece>>,
    king_pos: Seq<Location>,
    active: Side,
    from: Location,
    to: Location,
) -> bool {
    spec_is_checked(
        apply_move(b, from, selected_move(b, from, active, to) -> Some_0),
        sim_king_loc_of(b, king_pos, active, from, to),
    )
}

/// Whether some pseudo-legal move of the active side survives the
/// self-check test.
pub open spec fn escape_exists_of(
    b: Seq<Option<Piece>>,
    king_pos: Seq<Location>,
    active: Side,
) -> bool {
    exists|fi: int, ri: int, j: int|
        {
            &&& on_board(fi, ri)
            &&& b[loc_index(loc_at(fi, ri))] is Some
            &&& (b[loc_index(loc_at(fi, ri))] -> Some_0).side == active
            &&& 0 <= j < piece_moves(
                b,
                (b[loc_index(loc_at(fi, ri))] -> Some_0).piece_type,
                loc_at(fi, ri),
                active,
            ).len()
            &&& !move_leaves_check_of(
                b,
                king_pos,
                active,
                loc_at(fi, ri),
                move_dest(
                    piece_moves(
                        b,
                        (b[loc_index(loc_at(fi, ri))] -> Some_0).piece_type,
                        loc_at(fi, ri),
                        active,
                    )[j],
                ),
            )
        }
}

/// Whether the cached king location of side `s` really names a square
/// holding that side's king. Every committed mutation keeps this in
/// lock-step with the board; a cache that disagrees with the board
/// would make the check detector read the wrong square.
pub open spec fn king_cache_ok(b: Seq<Option<Piece>>, king_pos: Seq<Location>, s: Side) -> bool {
    &&& b[loc_index(king_pos[side_index(s)])] is Some
    &&& (b[loc_index(king_pos[side_index(s)])] -> Some_0).piece_type == PieceType::King
    &&& (b[loc_index(king_pos[side_index(s)])] -> Some_0).side == s
}

/// A chess game: the board, the side to move, and the cached king
/// locations (White's first). The cache is kept in lock-step with the
/// board by every mutation path.
#[derive(Debug)]
pub struct Game {
    /// The board holding the position.
    pub board: Board,
    /// The side whose turn it is.
    pub active: Side,
    /// Where each side's king sits, indexed by side.
    pub king_pos: [Location; 2],
}

impl Game {
    /// A game is well formed when its board is.
    pub open spec fn wf(self) -> bool {
        self.board.wf()
    }

    /// See [`move_leaves_check_of`].
    pub open spec fn move_leaves_check(self, from: Location, to: Location) -> bool {
        move_leaves_check_of(self.board@, self.king_pos@, self.active, from, to)
    }

    /// See [`escape_exists_of`].
    pub open spec fn escape_exists(self) -> bool {
        escape_exists_of(self.board@, self.king_pos@, self.active)
    }

    /// Creates a game with an empty board, White to move, and the king
    /// cache pointing at the kings' home squares.
    pub fn new() -> (r: Game)
        ensures
            r.wf(),
            r.active == Side::White,
            forall|i: int| 0 <= i < 64 ==> r.board@[i] is None,
            r.king_pos@[0] == (Location { file: File::E, rank: Rank::One }),
            r.king_pos@[1] == (Location { file: File::E, rank: Rank::Eight }),
    {
        Game {
            board: Board::new(),
            active: Side::White,
            king_pos: [
                Location { file: File::E, rank: Rank::One },
                Location { file: File::E, rank: Rank::Eight },
            ],
        }
    }

    /// Resets the board to the standard opening layout, the king cache
    /// to the home squares, and leaves the side to move unchanged.
    pub fn reset_board(&mut self)
        requires
            old(self).wf(),
        ensures
            final(self).wf(),
            forall|fi: int, ri: int|
                on_board(fi, ri) ==> final(self).board@[8 * ri + fi] == spec_start_square(fi, ri),
            final(self).active == old(self).active,
            final(self).king_pos@[0] == (Location { file: File::E, rank: Rank::One }),
            final(self).king_pos@[1] == (Location { file: File::E, rank: Rank::Eight }),
            forall|s: Side| king_cache_ok(final(self).board@, final(self).king_pos@, s),
    {
        self.board = Board::new();
        self.king_pos = [
            Location { file: File::E, rank: Rank::One },
            Location { file: File::E, rank: Rank::Eight },
        ];
        let mut ri: usize = 0;
        while ri < 8
            invariant
                self.board.wf(),
                ri <= 8,
                forall|f2: int, r2: int|
                    on_board(f2, r2) && r2 < ri ==> self.board@[8 * r2 + f2] == spec_start_square(
                        f2,
                        r2,
                    ),
                self.active == old(self).active,
                self.king_pos@[0] == (Location { file: File::E, rank: Rank::One }),
                self.king_pos@[1] == (Location { file: File::E, rank: Rank::Eight }),
            decreases 8 - ri,
        {
            let mut fi: usize = 0;
            while fi < 8
                invariant
                    self.board.wf(),
                    ri < 8,
                    fi <= 8,
                    forall|f2: int, r2: int|
                        on_board(f2, r2) && r2 < ri ==> self.board@[8 * r2 + f2]
                            == spec_start_square(f2, r2),
                    forall|f2: int|
                        0 <= f2 < fi ==> self.board@[8 * (ri as int) + f2] == spec_start_square(
                            f2,
                            ri as int,
                        ),
                    self.active == old(self).active,
                    self.king_pos@[0] == (Location { file: File::E, rank: Rank::One }),
                    self.king_pos@[1] == (Location { file: File::E, rank: Rank::Eight }),
                decreases 8 - fi,
            {
                let loc = Location::new(File::from_index(fi), Rank::from_index(ri));
                self.board.set(loc, start_square(fi, ri));
                fi = fi + 1;
            }
            ri = ri + 1;
        }
        proof {
            assert forall|s: Side| king_cache_ok(self.board@, self.king_pos@, s) by {
                assert(self.board@[4int] == spec_start_square(4, 0));
                assert(self.board@[60int] == spec_start_square(4, 7));
            }
        }
    }

    /// Switches the side to move.
    pub fn switch_active_side(&mut self)
        ensures
            final(self).active == spec_opposite(old(self).active),
            final(self).board == old(self).board,
            final(self).king_pos == old(self).king_pos,
    {
        self.active = self.active.opposite();
    }

    /// The destinations of every pseudo-legal move of a piece of type
    /// `p_type` at `loc` for `side`, in generation order; a castle
    /// contributes its king target.
    pub fn get_moves_by_type(&self, p_type: PieceType, loc: Location, side: Side) -> (r: Vec<
        Location,
    >)
        requires
            self.wf(),
        ensures
            r@ == piece_moves(self.board@, p_type, loc, side).map(
                |_i: int, m: PieceMovementType| move_dest(m),
            ),
    {
        let moves = generate_moves(&self.board, p_type, loc, side);
        let mut dests: Vec<Location> = Vec::new();
        let mut i: usize = 0;
        while i < moves.len()
            invariant
                i <= moves@.len(),
                moves@ == piece_moves(self.board@, p_type, loc, side),
                dests@.len() == i,
                forall|j: int| 0 <= j < i ==> dests@[j] == move_dest(moves@[j]),
            decreases moves@.len() - i,
        {
            let d = match moves[i] {
                PieceMovementType::Relocate(t) => t,
                PieceMovementType::Capture(t) => t,
                PieceMovementType::Promotion(t) => t,
                PieceMovementType::Castle(kt, _) => kt,
            };
            dests.push(d);
            i = i + 1;
        }
        proof {
            assert(dests@ =~= piece_moves(self.board@, p_type, loc, side).map(
                |_i: int, m: PieceMovementType| move_dest(m),
            ));
        }
        dests
    }

    /// The first generated move whose destination is `to`.
    fn find_destination(moves: &Vec<PieceMovementType>, to: Location) -> (r: Option<
        PieceMovementType,
    >)
        ensures
            r == find_move(moves@, to),
    {
        proof {
            assert(moves@.skip(0) =~= moves@);
        }
        let mut j: usize = 0;
        while j < moves.len()
            invariant
                j <= moves@.len(),
                find_move(moves@, to) == find_move(moves@.skip(j as int), to),
            decreases moves@.len() - j,
        {
            let m = moves[j];
            let d = match m {
                PieceMovementType::Relocate(t) => t,
                PieceMovementType::Capture(t) => t,
                PieceMovementType::Promotion(t) => t,
                PieceMovementType::Castle(kt, _) => kt,
            };
            proof {
                let rest = moves@.skip(j as int);
                assert(rest[0] == moves@[j as int]);
                assert(rest.skip(1) =~= moves@.skip(j + 1));
            }
            if d.file.index() == to.file.index() && d.rank.index() == to.rank.index() {
                proof {
                    assert(d == to);
                }
                return Some(m);
            }
            j = j + 1;
        }
        proof {
            assert(moves@.skip(moves@.len() as int) =~= Seq::<PieceMovementType>::empty());
        }
        None
    }

    /// Whether the action names a piece of the active side with a
    /// pseudo-legal move to the action's target. Self-check is not yet
    /// considered here; that is `try_move`'s simulate-and-rollback step.
    pub fn validate_move(&self, action: &MoveAction) -> (r: bool)
        requires
            self.wf(),
        ensures
            r == (selected_move(self.board@, action.from, self.active, action.to) is Some),
    {
        match self.board.get(action.from) {
            Some(piece) => {
                if piece.side == self.active {
                    let moves = generate_moves(
                        &self.board,
                        piece.piece_type,
                        action.from,
                        piece.side,
                    );
                    Self::find_destination(&moves, action.to).is_some()
                } else {
                    false
                }
            },
            None => false,
        }
    }

    /// Marks the occupant of `loc`, if any, as having moved.
    fn mark_moved(&mut self, loc: Location)
        requires
            old(self).wf(),
        ensures
            final(self).wf(),
            final(self).board@ == set_moved(old(self).board@, loc_index(loc)),
            final(self).active == old(self).active,
            final(self).king_pos == old(self).king_pos,
    {
        match self.board.get(loc) {
            Some(p) => {
                self.board.set(
                    loc,
                    Some(Piece { piece_type: p.piece_type, side: p.side, has_moved: true }),
                );
            },
            None => {
                proof {
                    assert(final(self).board@ =~= set_moved(old(self).board@, loc_index(loc)));
                }
            },
        }
    }

    /// Attempts a move, enforcing full legality.
    ///
    /// The move is rejected — and the position, the `has_moved` flags,
    /// the king cache and the turn all left exactly as they were —
    /// when the source square is empty, holds a piece of the side not
    /// on the move, offers no pseudo-legal move to the target, or when
    /// the move, once simulated, leaves the mover's own king attacked
    /// (pins and discovered checks; the simulation is rolled back
    /// exactly).
    ///
    /// On success the board holds the committed move with every moved
    /// piece marked as having moved, the king cache follows a moving
    /// king, and the turn passes to the other side.
    #[verifier::rlimit(100)]
    pub fn try_move(&mut self, action: &MoveAction) -> (r: Result<(), MoveError>)
        requires
            old(self).wf(),
        ensures
            final(self).wf(),
            match r {
                Err(e) => {
                    &&& final(self).board@ == old(self).board@
                    &&& final(self).active == old(self).active
                    &&& final(self).king_pos == old(self).king_pos
                    &&& match e {
                        MoveError::NoPieceAtSource => old(self).board@[loc_index(
                            action.from,
                        )] is None,
                        MoveError::WrongSideToMove => old(self).board@[loc_index(
                            action.from,
                        )] is Some && (old(self).board@[loc_index(action.from)] -> Some_0).side
                            != old(self).active,
                        MoveError::IllegalDestination => old(self).board@[loc_index(
                            action.from,
                        )] is Some && (old(self).board@[loc_index(action.from)] -> Some_0).side
                            == old(self).active && selected_move(
                            old(self).board@,
                            action.from,
                            old(self).active,
                            action.to,
                        ) is None,
                        MoveError::SelfCheckViolation => selected_move(
                            old(self).board@,
                            action.from,
                            old(self).active,
                            action.to,
                        ) is Some && old(self).move_leaves_check(action.from, action.to),
                    }
                },
                Ok(_) => ({
                    let m = selected_move(
                        old(self).board@,
                        action.from,
                        old(self).active,
                        action.to,
                    );
                    &&& m is Some
                    &&& !old(self).move_leaves_check(action.from, action.to)
                    &&& final(self).board@ == commit_board(
                        old(self).board@,
                        action.from,
                        m -> Some_0,
                    )
                    &&& final(self).active == spec_opposite(old(self).active)
                    &&& final(self).king_pos@ == if (old(self).board@[loc_index(
                        action.from,
                    )] -> Some_0).piece_type == PieceType::King {
                        old(self).king_pos@.update(side_index(old(self).active), action.to)
                    } else {
                        old(self).king_pos@
                    }
                    &&& ((old(self).board@[loc_index(action.from)] -> Some_0).piece_type
                        == PieceType::King ==> king_cache_ok(
                        final(self).board@,
                        final(self).king_pos@,
                        old(self).active,
                    ))
                    &&& (king_cache_ok(old(self).board@, old(self).king_pos@, old(self).active)
                        ==> king_cache_ok(
                        final(self).board@,
                        final(self).king_pos@,
                        old(self).active,
                    ))
                    &&& (forall|s: Side|
                        king_cache_ok(old(self).board@, old(self).king_pos@, s) && loc_index(
                            action.to,
                        ) != loc_index(
                            old(self).king_pos@[side_index(s)],
                        ) ==> king_cache_ok(final(self).board@, final(self).king_pos@, s))
                }),
            },
    {
        let piece = match self.board.get(action.from) {
            None => {
                return Err(MoveError::NoPieceAtSource);
            },
            Some(p) => p,
        };
        if piece.side.index() != self.active.index() {
            return Err(MoveError::WrongSideToMove);
        }
        let moves = generate_moves(&self.board, piece.piece_type, action.from, piece.side);
        let m = match Self::find_destination(&moves, action.to) {
            None => {
                return Err(MoveError::IllegalDestination);
            },
            Some(m) => m,
        };
        proof {
            lemma_find_move_dest(moves@, action.to);
            lemma_find_move_mem(moves@, action.to);
            let j = choose|j: int| 0 <= j < moves@.len() && moves@[j] == m;
            crate::move_generator::lemma_piece_moves_shape(
                self.board@,
                piece.piece_type,
                action.from,
                piece.side,
                j,
            );
        }
        let king_loc = if piece.piece_type == PieceType::King {
            action.to
        } else {
            self.king_pos[self.active.index()]
        };
        let from_state = self.board.get(action.from);
        let to_state = self.board.get(action.to);
        match m {
            PieceMovementType::Castle(kt, rt) => {
                let rook_from = if kt.file.index() == 6 {
                    Location::new(File::H, kt.rank)
                } else {
                    Location::new(File::A, kt.rank)
                };
                let rook_from_state = self.board.get(rook_from);
                let rook_to_state = self.board.get(rt);
                self.board.action(&MoveAction { from: action.from, to: kt });
                self.board.action(&MoveAction { from: rook_from, to: rt });
                proof {
                    assert(self.board@ =~= apply_move(old(self).board@, action.from, m));
                }
                if KingMoveGen::is_checked(&king_loc, &self.board) {
                    self.board.set(rt, rook_to_state);
                    self.board.set(rook_from, rook_from_state);
                    self.board.set(kt, to_state);
                    self.board.set(action.from, from_state);
                    proof {
                        assert(self.board@ =~= old(self).board@);
                    }
                    return Err(MoveError::SelfCheckViolation);
                }
                self.mark_moved(kt);
                self.mark_moved(rt);
            },
            _ => {
                self.board.action(action);
                proof {
                    assert(self.board@ =~= apply_move(old(self).board@, action.from, m));
                }
                if KingMoveGen::is_checked(&king_loc, &self.board) {
                    self.board.set(action.from, from_state);
                    self.board.set(action.to, to_state);
                    proof {
                        assert(self.board@ =~= old(self).board@);
                    }
                    return Err(MoveError::SelfCheckViolation);
                }
                self.mark_moved(action.to);
            },
        }
        if piece.piece_type == PieceType::King {
            if self.active.index() == 0 {
                self.king_pos = [action.to, self.king_pos[1]];
            } else {
                self.king_pos = [self.king_pos[0], action.to];
            }
            proof {
                assert(self.king_pos@ =~= old(self).king_pos@.update(
                    side_index(old(self).active),
                    action.to,
                ));
            }
        }
        proof {
            assert(self.board@ == commit_board(old(self).board@, action.from, m));
            lemma_commit_preserves_king_cache(
                old(self).board@,
                old(self).king_pos@,
                old(self).active,
                action.from,
                action.to,
                piece,
                m,
                self.board@,
                self.king_pos@,
            );
        }
        self.switch_active_side();
        Ok(())
    }

    /// Simulates the move an action selects, reports whether it leaves
    /// the mover's own king attacked, and rolls the simulation back
    /// exactly.
    #[verifier::rlimit(100)]
    pub fn check_is_check_and_rollback(&mut self, action: &MoveAction) -> (r: bool)
        requires
            old(self).wf(),
            selected_move(old(self).board@, action.from, old(self).active, action.to) is Some,
        ensures
            final(self).wf(),
            final(self).board@ == old(self).board@,
            final(self).active == old(self).active,
            final(self).king_pos == old(self).king_pos,
            r == old(self).move_leaves_check(action.from, action.to),
    {
        let piece = match self.board.get(action.from) {
            None => {
                proof {
                    assert(false);
                }
                return false;
            },
            Some(p) => p,
        };
        let moves = generate_moves(&self.board, piece.piece_type, action.from, piece.side);
        let m = match Self::find_destination(&moves, action.to) {
            None => {
                proof {
                    assert(false);
                }
                return false;
            },
            Some(m) => m,
        };
        proof {
            lemma_find_move_dest(moves@, action.to);
        }
        let king_loc = if piece.piece_type == PieceType::King {
            action.to
        } else {
            self.king_pos[self.active.index()]
        };
        let from_state = self.board.get(action.from);
        let to_state = self.board.get(action.to);
        let is_checked: bool;
        match m {
            PieceMovementType::Castle(kt, rt) => {
                let rook_from = if kt.file.index() == 6 {
                    Location::new(File::H, kt.rank)
                } else {
                    Location::new(File::A, kt.rank)
                };
                let rook_from_state = self.board.get(rook_from);
                let rook_to_state = self.board.get(rt);
                self.board.action(&MoveAction { from: action.from, to: kt });
                self.board.action(&MoveAction { from: rook_from, to: rt });
                proof {
                    assert(self.board@ =~= apply_move(old(self).board@, action.from, m));
                }
                is_checked = KingMoveGen::is_checked(&king_loc, &self.board);
                self.board.set(rt, rook_to_state);
                self.board.set(rook_from, rook_from_state);
                self.board.set(kt, to_state);
                self.board.set(action.from, from_state);
                proof {
                    assert(self.board@ =~= old(self).board@);
                }
            },
            _ => {
                self.board.action(action);
                proof {
                    assert(self.board@ =~= apply_move(old(self).board@, action.from, m));
                }
                is_checked = KingMoveGen::is_checked(&king_loc, &self.board);
                self.board.set(action.from, from_state);
                self.board.set(action.to, to_state);
                proof {
                    assert(self.board@ =~= old(self).board@);
                }
            },
        }
        is_checked
    }

    /// Whether some move of the active side is fully legal: pseudo-legal
    /// and not leaving the own king attacked. The position, the king
    /// cache and the turn are left exactly as they were.
    pub fn has_legal_moves(&mut self) -> (r: bool)
        requires
            old(self).wf(),
        ensures
            final(self).wf(),
            final(self).board@ == old(self).board@,
            final(self).active == old(self).active,
            final(self).king_pos == old(self).king_pos,
            r == old(self).escape_exists(),
    {
        let ghost b = old(self).board@;
        let ghost kp = old(self).king_pos@;
        let ghost act = old(self).active;
        let mut fi: usize = 0;
        while fi < 8
            invariant
                self.wf(),
                b == old(self).board@,
                kp == old(self).king_pos@,
                act == old(self).active,
                self.board@ == b,
                self.king_pos == old(self).king_pos,
                self.king_pos@ == kp,
                self.active == act,
                fi <= 8,
                forall|f2: int, r2: int, j2: int|
                    ! {
                        &&& on_board(f2, r2)
                        &&& f2 < fi
                        &&& b[loc_index(loc_at(f2, r2))] is Some
                        &&& (b[loc_index(loc_at(f2, r2))] -> Some_0).side == act
                        &&& 0 <= j2 < piece_moves(
                            b,
                            (b[loc_index(loc_at(f2, r2))] -> Some_0).piece_type,
                            loc_at(f2, r2),
                            act,
                        ).len()
                        &&& !move_leaves_check_of(
                            b,
                            kp,
                            act,
                            loc_at(f2, r2),
                            move_dest(
                                piece_moves(
                                    b,
                                    (b[loc_index(loc_at(f2, r2))] -> Some_0).piece_type,
                                    loc_at(f2, r2),
                                    act,
                                )[j2],
                            ),
                        )
                    },
            decreases 8 - fi,
        {
            let mut ri: usize = 0;
            while ri < 8
                invariant
                    self.wf(),
                    b == old(self).board@,
                    kp == old(self).king_pos@,
                    act == old(self).active,
                    self.board@ == b,
                    self.king_pos == old(self).king_pos,
                    self.king_pos@ == kp,
                    self.active == act,
                    fi < 8,
                    ri <= 8,
                    forall|f2: int, r2: int, j2: int|
                        ! {
                            &&& on_board(f2, r2)
                            &&& (f2 < fi || (f2 == fi && r2 < ri))
                            &&& b[loc_index(loc_at(f2, r2))] is Some
                            &&& (b[loc_index(loc_at(f2, r2))] -> Some_0).side == act
                            &&& 0 <= j2 < piece_moves(
                                b,
                                (b[loc_index(loc_at(f2, r2))] -> Some_0).piece_type,
                                loc_at(f2, r2),
                                act,
                            ).len()
                            &&& !move_leaves_check_of(
                                b,
                                kp,
                                act,
                                loc_at(f2, r2),
                                move_dest(
                                    piece_moves(
                                        b,
                                        (b[loc_index(loc_at(f2, r2))] -> Some_0).piece_type,
                                        loc_at(f2, r2),
                                        act,
                                    )[j2],
                                ),
                            )
                        },
                decreases 8 - ri,
            {
                let from = Location::new(File::from_index(fi), Rank::from_index(ri));
                match self.board.get(from) {
                    Some(p) => {
                        if p.side.index() == self.active.index() {
                            let moves = generate_moves(&self.board, p.piece_type, from, p.side);
                            let mut j: usize = 0;
                            while j < moves.len()
                                invariant
                                    self.wf(),
                                    b == old(self).board@,
                                    kp == old(self).king_pos@,
                                    act == old(self).active,
                                    self.board@ == b,
                                    self.king_pos == old(self).king_pos,
                                    self.king_pos@ == kp,
                                    self.active == act,
                                    fi < 8,
                                    ri < 8,
                                    j <= moves@.len(),
                                    from == loc_at(fi as int, ri as int),
                                    b[loc_index(from)] == Some(p),
                                    p.side == act,
                                    moves@ == piece_moves(b, p.piece_type, from, act),
                                    forall|j2: int|
                                        0 <= j2 < j ==> move_leaves_check_of(
                                            b,
                                            kp,
                                            act,
                                            from,
                                            move_dest(moves@[j2]),
                                        ),
                                decreases moves@.len() - j,
                            {
                                let d = match moves[j] {
                                    PieceMovementType::Relocate(t) => t,
                                    PieceMovementType::Capture(t) => t,
                                    PieceMovementType::Promotion(t) => t,
                                    PieceMovementType::Castle(kt, _) => kt,
                                };
                                let candidate = MoveAction { from, to: d };
                                proof {
                                    lemma_find_move_some(moves@, d, j as int);
                                }
                                if !self.check_is_check_and_rollback(&candidate) {
                                    proof {
                                        assert({
                                            &&& on_board(fi as int, ri as int)
                                            &&& b[loc_index(loc_at(fi as int, ri as int))] is Some
                                            &&& (b[loc_index(
                                                loc_at(fi as int, ri as int),
                                            )] -> Some_0).side == act
                                            &&& 0 <= (j as int)
                                            &&& (j as int) < piece_moves(
                                                b,
                                                (b[loc_index(
                                                    loc_at(fi as int, ri as int),
                                                )] -> Some_0).piece_type,
                                                loc_at(fi as int, ri as int),
                                                act,
                                            ).len()
                                            &&& !move_leaves_check_of(
                                                b,
                                                kp,
                                                act,
                                                loc_at(fi as int, ri as int),
                                                move_dest(
                                                    piece_moves(
                                                        b,
                                                        (b[loc_index(
                                                            loc_at(fi as int, ri as int),
                                                        )] -> Some_0).piece_type,
                                                        loc_at(fi as int, ri as int),
                                                        act,
                                                    )[j as int],
                                                ),
                                            )
                                        });
                                        assert(escape_exists_of(b, kp, act));
                                    }
                                    return true;
                                }
                                j = j + 1;
                            }
                        }
                    },
                    None => {},
                }
                ri = ri + 1;
            }
            fi = fi + 1;
        }
        proof {
            assert(!escape_exists_of(b, kp, act));
        }
        false
    }

    /// Whether the active side is checkmated: its king is attacked and
    /// no legal move remains. The position, the king cache and the turn
    /// are left exactly as they were.
    pub fn is_checkmate(&mut self) -> (r: bool)
        requires
            old(self).wf(),
        ensures
            final(self).wf(),
            final(self).board@ == old(self).board@,
            final(self).active == old(self).active,
            final(self).king_pos == old(self).king_pos,
            r == (spec_is_checked(old(self).board@, old(self).king_pos@[side_index(old(self).active)])
                && !old(self).escape_exists()),
    {
        let king_loc = self.king_pos[self.active.index()];
        if !KingMoveGen::is_checked(&king_loc, &self.board) {
            return false;
        }
        let escape = self.has_legal_moves();
        !escape
    }

    /// Whether the active side is stalemated: its king is not attacked
    /// yet no legal move remains. The position, the king cache and the
    /// turn are left exactly as they were.
    pub fn is_stalemate(&mut self) -> (r: bool)
        requires
            old(self).wf(),
        ensures
            final(self).wf(),
            final(self).board@ == old(self).board@,
            final(self).active == old(self).active,
            final(self).king_pos == old(self).king_pos,
            r == (!spec_is_checked(
                old(self).board@,
                old(self).king_pos@[side_index(old(self).active)],
            ) && !old(self).escape_exists()),
    {
        let king_loc = self.king_pos[self.active.index()];
        if KingMoveGen::is_checked(&king_loc, &self.board) {
            return false;
        }
        let escape = self.has_legal_moves();
        !escape
    }
}


/// The sixteen opening placements of one side, back rank first (rook,
/// knight, bishop, queen, king, bishop, knight, rook, files `A` to
/// `H`), then the eight pawns.
pub open spec fn spec_side_placements(side: Side) -> Seq<(Location, Piece)> {
    let back = match side {
        Side::White => 0,
        Side::Black => 7,
    };
    let pawn = match side {
        Side::White => 1,
        Side::Black => 6,
    };
    Seq::new(16, |i: int| if i < 8 {
        (loc_at(i, back), Piece {
            piece_type: crate::board::back_rank_type(i),
            side,
            has_moved: false,
        })
    } else {
        (loc_at(i - 8, pawn), Piece { piece_type: PieceType::Pawn, side, has_moved: false })
    })
}

/// The opening placements of one side, as square and piece pairs: the
/// back-rank pieces on files `A` to `H`, then the pawns one rank in
/// front of them. Every placed piece sits on its own opening square.
pub fn get_location_by_side(side: Side) -> (r: Vec<(Location, Piece)>)
    ensures
        r@ == spec_side_placements(side),
        forall|i: int|
            0 <= i < 16 ==> spec_start_square(
                file_index(#[trigger] r@[i].0.file),
                rank_index(r@[i].0.rank),
            ) == Some(r@[i].1),
{
    let (pieces_rank, pawn_rank) = match side {
        Side::White => (Rank::One, Rank::Two),
        Side::Black => (Rank::Eight, Rank::Seven),
    };
    let mut r: Vec<(Location, Piece)> = Vec::new();
    let mut fi: usize = 0;
    while fi < 8
        invariant
            fi <= 8,
            pieces_rank == (match side {
                Side::White => Rank::One,
                Side::Black => Rank::Eight,
            }),
            r@.len() == fi,
            forall|i: int| 0 <= i < fi ==> #[trigger] r@[i] == spec_side_placements(side)[i],
        decreases 8 - fi,
    {
        let file = File::from_index(fi);
        let piece_type = match fi {
            0 => PieceType::Rook,
            1 => PieceType::Knight,
            2 => PieceType::Bishop,
            3 => PieceType::Queen,
            4 => PieceType::King,
            5 => PieceType::Bishop,
            6 => PieceType::Knight,
            _ => PieceType::Rook,
        };
        r.push((Location::new(file, pieces_rank), Piece::new(piece_type, side)));
        fi = fi + 1;
    }
    let mut pi: usize = 0;
    while pi < 8
        invariant
            pi <= 8,
            pawn_rank == (match side {
                Side::White => Rank::Two,
                Side::Black => Rank::Seven,
            }),
            r@.len() == 8 + pi,
            forall|i: int| 0 <= i < 8 + pi ==> #[trigger] r@[i] == spec_side_placements(side)[i],
        decreases 8 - pi,
    {
        let file = File::from_index(pi);
        r.push((Location::new(file, pawn_rank), Piece::new(PieceType::Pawn, side)));
        pi = pi + 1;
    }
    proof {
        assert(r@ =~= spec_side_placements(side));
    }
    r
}


/// Committing a generated move keeps the king cache in lock-step with
/// the board: a moving king's new cache square holds it afterwards,
/// the mover's own valid cache stays valid, and any side's valid
/// cache stays valid as long as the move did not land on that side's
/// cached king square.
#[verifier::rlimit(100)]
#[verifier::spinoff_prover]
proof fn lemma_commit_preserves_king_cache(
    b0: Seq<Option<Piece>>,
    kp0: Seq<Location>,
    act: Side,
    from: Location,
    to: Location,
    piece: Piece,
    m: PieceMovementType,
    bf: Seq<Option<Piece>>,
    kpf: Seq<Location>,
)
    requires
        b0.len() == 64,
        kp0.len() == 2,
        b0[loc_index(from)] == Some(piece),
        piece.side == act,
        crate::move_generator::base::move_entry_shape(b0, act, m),
        piece.piece_type != PieceType::King ==> !(m is Castle),
        m is Castle ==> (crate::move_generator::king::spec_kingside_castle(b0, from) == Some(m)
            || crate::move_generator::king::spec_queenside_castle(b0, from) == Some(m)),
        move_dest(m) == to,
        bf == commit_board(b0, from, m),
        kpf == (if piece.piece_type == PieceType::King {
            kp0.update(side_index(act), to)
        } else {
            kp0
        }),
    ensures
        piece.piece_type == PieceType::King ==> king_cache_ok(bf, kpf, act),
        king_cache_ok(b0, kp0, act) ==> king_cache_ok(bf, kpf, act),
        forall|s: Side|
            king_cache_ok(b0, kp0, s) && loc_index(to) != loc_index(kp0[side_index(s)])
                ==> king_cache_ok(bf, kpf, s),
{
    let fidx = loc_index(from);
    let tidx = loc_index(to);
    match m {
        PieceMovementType::Castle(kt, rt) => {
            let rk = rank_index(from.rank);
            crate::location::lemma_loc_at_coords(0, rk);
            crate::location::lemma_loc_at_coords(2, rk);
            crate::location::lemma_loc_at_coords(3, rk);
            crate::location::lemma_loc_at_coords(5, rk);
            crate::location::lemma_loc_at_coords(6, rk);
            crate::location::lemma_loc_at_coords(7, rk);
            if crate::move_generator::king::spec_kingside_castle(b0, from) == Some(m) {
                assert(kt == loc_at(6, rk) && rt == loc_at(5, rk));
                assert(loc_index(kt) == 8 * rk + 6 && loc_index(rt) == 8 * rk + 5);
                assert(castle_rook_from(kt) == loc_at(7, rk));
            } else {
                assert(kt == loc_at(2, rk) && rt == loc_at(3, rk));
                assert(loc_index(kt) == 8 * rk + 2 && loc_index(rt) == 8 * rk + 3);
                assert(castle_rook_from(kt) == loc_at(0, rk));
            }
            let ktidx = loc_index(kt);
            let rtidx = loc_index(rt);
            let rfidx = loc_index(castle_rook_from(kt));
            assert(b0[rfidx] is Some && (b0[rfidx] -> Some_0).piece_type == PieceType::Rook);
            assert(piece.piece_type == PieceType::King);
            assert(b0[ktidx] is None && b0[rtidx] is None);
            assert(ktidx != fidx && rtidx != fidx);
            assert(rfidx != fidx);
            assert(bf[ktidx] == Some(
                Piece { piece_type: PieceType::King, side: act, has_moved: true },
            ));
            assert(kpf[side_index(act)] == kt);
            assert(king_cache_ok(bf, kpf, act));
            assert forall|s: Side|
                king_cache_ok(b0, kp0, s) && tidx != loc_index(
                    kp0[side_index(s)],
                ) implies king_cache_ok(bf, kpf, s) by {
                if s != act {
                    let cidx = loc_index(kp0[side_index(s)]);
                    assert(cidx != fidx && cidx != ktidx && cidx != rtidx && cidx != rfidx);
                    assert(bf[cidx] == b0[cidx]);
                    assert(kpf[side_index(s)] == kp0[side_index(s)]);
                }
            }
        },
        _ => {
            assert(move_dest(m) == to);
            assert(tidx != fidx);
            assert(bf == set_moved(apply_move(b0, from, m), tidx));
            assert(bf[tidx] == Some(
                Piece { piece_type: piece.piece_type, side: act, has_moved: true },
            ));
            if piece.piece_type == PieceType::King {
                assert(kpf[side_index(act)] == to);
                assert(king_cache_ok(bf, kpf, act));
            }
            assert forall|s: Side|
                (king_cache_ok(b0, kp0, s) && (s == act || tidx != loc_index(
                    kp0[side_index(s)],
                ))) implies king_cache_ok(bf, kpf, s) by {
                if s == act && piece.piece_type == PieceType::King {
                } else {
                    let cidx = loc_index(kp0[side_index(s)]);
                    assert(cidx != fidx);
                    assert(cidx != tidx);
                    assert(bf[cidx] == b0[cidx]);
                    assert(kpf[side_index(s)] == kp0[side_index(s)]);
                }
            }
        },
    }
}

/// A found move is an entry of the searched list.
pub proof fn lemma_find_move_mem(s: Seq<PieceMovementType>, to: Location)
    requires
        find_move(s, to) is Some,
    ensures
        exists|j: int| 0 <= j < s.len() && s[j] == find_move(s, to) -> Some_0,
    decreases s.len(),
{
    if s.len() == 0 {
    } else if move_dest(s[0]) == to {
        assert(s[0] == find_move(s, to) -> Some_0);
    } else {
        lemma_find_move_mem(s.skip(1), to);
        let j = choose|j: int|
            0 <= j < s.skip(1).len() && s.skip(1)[j] == find_move(s.skip(1), to) -> Some_0;
        assert(s[j + 1] == find_move(s, to) -> Some_0);
    }
}

/// A found move's destination is the square that was searched for.
pub proof fn lemma_find_move_dest(s: Seq<PieceMovementType>, to: Location)
    requires
        find_move(s, to) is Some,
    ensures
        move_dest(find_move(s, to) -> Some_0) == to,
    decreases s.len(),
{
    if s.len() == 0 {
    } else if move_dest(s[0]) == to {
    } else {
        lemma_find_move_dest(s.skip(1), to);
    }
}

/// If entry `j` of `s` has destination `to`, then searching `s` for
/// `to` finds a move (the first such entry).
pub proof fn lemma_find_move_some(s: Seq<PieceMovementType>, to: Location, j: int)
    requires
        0 <= j < s.len(),
        move_dest(s[j]) == to,
    ensures
        find_move(s, to) is Some,
    decreases j,
{
    if move_dest(s[0]) == to {
    } else {
        assert(s.skip(1)[j - 1] == s[j]);
        lemma_find_move_some(s.skip(1), to, j - 1);
    }
}

} // verus!
