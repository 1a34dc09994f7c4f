//! A game state over the raw-bitboard representation: per-side,
//! per-piece location masks and square lists, cached move and capture
//! tables, and state updates validated by recompute-and-rollback.

use vstd::prelude::*;
use crate::bitboard::BitBoard;
use crate::bitpieces::common::{color_index, spec_color_opposite, Color};
use crate::bitpieces::{bp_index, piece_capture_bit, piece_moves_bit, Piece};
use crate::bits::{bit64, lemma_bit_and, lemma_bit_or, lemma_bit_zero, lemma_nonzero_bit};
use crate::game::MoveError;
use crate::square::{sq_index, File, Rank, Square};

verus! {

/// How a finished game ended: a side was checkmated, or no legal move
/// remained without check.
#[derive(Debug, Clone, Copy, PartialEq, Eq, Structural)]
pub enum GameResult {
    Checkmate(Color),
    Draw,
}

/// The opening location mask of one side and piece kind, as a word.
pub open spec fn start_mask(c: Color, p: Piece) -> u64 {
    match c {
        Color::White => match p {
            Piece::Pawn => 0xff00u64,
            Piece::Knight => 0x42u64,
            Piece::Rock => 0x81u64,
            Piece::Bishop => 0x24u64,
            Piece::Queen => 0x8u64,
            Piece::King => 0x10u64,
        },
        Color::Black => match p {
            Piece::Pawn => 0xff000000000000u64,
            Piece::Knight => 0x4200000000000000u64,
            Piece::Rock => 0x8100000000000000u64,
            Piece::Bishop => 0x2400000000000000u64,
            Piece::Queen => 0x800000000000000u64,
            Piece::King => 0x1000000000000000u64,
        },
    }
}

/// The opening squares of one side and piece kind, as a list.
pub open spec fn start_squares(c: Color, p: Piece) -> Seq<Square> {
    let rank = match (c, p) {
        (Color::White, Piece::Pawn) => Rank::Two,
        (Color::Black, Piece::Pawn) => Rank::Seven,
        (Color::White, _) => Rank::One,
        (Color::Black, _) => Rank::Eight,
    };
    match p {
        Piece::Pawn => seq![
            Square { file: File::A, rank },
            Square { file: File::B, rank },
            Square { file: File::C, rank },
            Square { file: File::D, rank },
            Square { file: File::E, rank },
            Square { file: File::F, rank },
            Square { file: File::G, rank },
            Square { file: File::H, rank },
        ],
        Piece::Knight => seq![Square { file: File::B, rank }, Square { file: File::G, rank }],
        Piece::Rock => seq![Square { file: File::A, rank }, Square { file: File::H, rank }],
        Piece::Bishop => seq![Square { file: File::C, rank }, Square { file: File::F, rank }],
        Piece::Queen => seq![Square { file: File::D, rank }],
        Piece::King => seq![Square { file: File::E, rank }],
    }
}

/// All six piece kinds paired with both colours, flattened
/// colour-major: index `color * 6 + piece`.
pub open spec fn table_index(c: Color, p: Piece) -> int {
    color_index(c) * 6 + bp_index(p)
}

/// The piece kind with the given index, in declaration order.
pub open spec fn piece_of_index(i: int) -> Piece {
    if i == 0 {
        Piece::Pawn
    } else if i == 1 {
        Piece::Knight
    } else if i == 2 {
        Piece::Rock
    } else if i == 3 {
        Piece::Bishop
    } else if i == 4 {
        Piece::Queen
    } else {
        Piece::King
    }
}

/// The list `s` with every occurrence of `to` removed, order kept.
pub open spec fn without_square(s: Seq<Square>, to: Square) -> Seq<Square>
    decreases s.len(),
{
    if s.len() == 0 {
        seq![]
    } else {
        (if s[0] == to {
            seq![]
        } else {
            seq![s[0]]
        }) + without_square(s.skip(1), to)
    }
}

/// The occupancy of one side in a location-mask table: the union of
/// its six piece masks.
pub open spec fn masks_occupancy(loc: Seq<BitBoard>, c: Color) -> u64 {
    loc[color_index(c) * 6 + 0].0 | loc[color_index(c) * 6 + 1].0 | loc[color_index(c) * 6 + 2].0
        | loc[color_index(c) * 6 + 3].0 | loc[color_index(c) * 6 + 4].0 | loc[color_index(c) * 6
        + 5].0
}

/// A square-list table as plain sequences.
pub open spec fn square_views(v: Seq<Vec<Square>>) -> Seq<Seq<Square>> {
    Seq::new(v.len(), |i: int| v[i]@)
}

/// Whether the given position puts `defender` in check: some listed
/// piece of the opposing side has a capture option reaching a square
/// of the defender's king mask. This is what a recompute of the
/// caches from the position reports.
pub open spec fn position_checked(
    loc: Seq<BitBoard>,
    squares: Seq<Seq<Square>>,
    defender: Color,
) -> bool {
    exists|p: Piece, j: int, t: int|
        {
            &&& 0 <= t < 64
            &&& 0 <= j < squares[table_index(spec_color_opposite(defender), p)].len()
            &&& #[trigger] piece_capture_bit(
                p,
                loc[table_index(spec_color_opposite(defender), p)].0 & (1u64 << (sq_index(
                    squares[table_index(spec_color_opposite(defender), p)][j],
                ) as u64)),
                squares[table_index(spec_color_opposite(defender), p)][j],
                masks_occupancy(loc, spec_color_opposite(defender)),
                masks_occupancy(loc, defender),
                spec_color_opposite(defender),
                t,
            )
            &&& bit64(loc[table_index(defender, Piece::King)].0, t as u64)
        }
}

/// The location masks after a move of `piece` from `from` to `to` for
/// `side`: the mover's mask follows the move, and the first opposing
/// kind listed on the target square, if any, loses that square.
pub open spec fn spec_after_locations(
    g: Game,
    from: Square,
    to: Square,
    piece: Piece,
    side: Color,
) -> Seq<BitBoard> {
    let own = table_index(side, piece);
    let opp = spec_color_opposite(side);
    let l1 = g.pieces_location@.update(
        own,
        BitBoard(
            (g.spec_location(side, piece).0 ^ (1u64 << (sq_index(from) as u64))) | (1u64 << (
            sq_index(to) as u64)),
        ),
    );
    match g.spec_piece_at(opp, to) {
        None => l1,
        Some(hit) => l1.update(
            table_index(opp, hit),
            BitBoard(l1[table_index(opp, hit)].0 & !(1u64 << (sq_index(to) as u64))),
        ),
    }
}

/// The square lists after the same move: the mover's list follows the
/// move, and the hit opposing kind's list loses the target square.
pub open spec fn spec_after_squares(
    g: Game,
    from: Square,
    to: Square,
    piece: Piece,
    side: Color,
) -> Seq<Seq<Square>> {
    let own = table_index(side, piece);
    let opp = spec_color_opposite(side);
    let s0 = square_views(g.pieces_square@);
    let s1 = match g.spec_piece_at(opp, to) {
        None => s0,
        Some(hit) => s0.update(
            table_index(opp, hit),
            without_square(s0[table_index(opp, hit)], to),
        ),
    };
    s1.update(
        own,
        g.spec_squares(side, piece).map_values(
            |x: Square|
                if x == from {
                    to
                } else {
                    x
                },
        ),
    )
}

/// A bitboard game: for each side and piece kind the location mask and
/// square list, plus cached move and capture tables, all flattened
/// colour-major, and the side to move.
pub struct Game {
    /// Location masks, indexed `color * 6 + piece`.
    pub pieces_location: Vec<BitBoard>,
    /// Square lists, same indexing.
    pub pieces_square: Vec<Vec<Square>>,
    /// Cached capture tables, same indexing.
    pub pieces_capture_movement: Vec<BitBoard>,
    /// Cached move tables, same indexing.
    pub pieces_movement: Vec<BitBoard>,
    /// The side to move.
    pub turn: Color,
}

impl Game {
    /// Every table holds both sides and all six piece kinds.
    pub open spec fn wf(self) -> bool {
        &&& self.pieces_location@.len() == 12
        &&& self.pieces_square@.len() == 12
        &&& self.pieces_capture_movement@.len() == 12
        &&& self.pieces_movement@.len() == 12
    }

    /// The location mask of a side and piece kind.
    pub open spec fn spec_location(self, c: Color, p: Piece) -> BitBoard {
        self.pieces_location@[table_index(c, p)]
    }

    /// The square list of a side and piece kind.
    pub open spec fn spec_squares(self, c: Color, p: Piece) -> Seq<Square> {
        self.pieces_square@[table_index(c, p)]@
    }

    /// The cached move table of a side and piece kind.
    pub open spec fn spec_movement(self, c: Color, p: Piece) -> BitBoard {
        self.pieces_movement@[table_index(c, p)]
    }

    /// The cached capture table of a side and piece kind.
    pub open spec fn spec_capture(self, c: Color, p: Piece) -> BitBoard {
        self.pieces_capture_movement@[table_index(c, p)]
    }

    /// The first piece kind of `c`, from slot `i` on in declaration
    /// order, whose square list names `sq`.
    pub open spec fn first_kind_from(self, c: Color, sq: Square, i: int) -> Option<Piece>
        decreases 6 - i,
    {
        if i < 0 || i >= 6 {
            None
        } else if self.spec_squares(c, piece_of_index(i)).contains(sq) {
            Some(piece_of_index(i))
        } else {
            self.first_kind_from(c, sq, i + 1)
        }
    }

    /// The piece kind of `c` standing on `sq`, as the square lists
    /// record it: the first kind, in declaration order, whose list
    /// names the square.
    pub open spec fn spec_piece_at(self, c: Color, sq: Square) -> Option<Piece> {
        self.first_kind_from(c, sq, 0)
    }

    /// The opening location masks, colour-major.
    pub fn start_position_mask() -> (r: Vec<BitBoard>)
        ensures
            r@.len() == 12,
            forall|c: Color, p: Piece| r@[table_index(c, p)].0 == start_mask(c, p),
    {
        let mut r: Vec<BitBoard> = Vec::new();
        r.push(BitBoard::new(0xff00));
        r.push(BitBoard::new(0x42));
        r.push(BitBoard::new(0x81));
        r.push(BitBoard::new(0x24));
        r.push(BitBoard::new(0x8));
        r.push(BitBoard::new(0x10));
        r.push(BitBoard::new(0xff000000000000));
        r.push(BitBoard::new(0x4200000000000000));
        r.push(BitBoard::new(0x8100000000000000));
        r.push(BitBoard::new(0x2400000000000000));
        r.push(BitBoard::new(0x800000000000000));
        r.push(BitBoard::new(0x1000000000000000));
        r
    }

    /// The opening square lists, colour-major.
    pub fn start_position() -> (r: Vec<Vec<Square>>)
        ensures
            r@.len() == 12,
            forall|c: Color, p: Piece| #[trigger] r@[table_index(c, p)]@ == start_squares(c, p),
    {
        let mut r: Vec<Vec<Square>> = Vec::new();
        let mut ci: usize = 0;
        while ci < 2
            invariant
                ci <= 2,
                r@.len() == 6 * ci,
                forall|c: Color, p: Piece|
                    table_index(c, p) < 6 * ci ==> #[trigger] r@[table_index(c, p)]@
                        == start_squares(c, p),
            decreases 2 - ci,
        {
            let (color, back, pawn_rank) = if ci == 0 {
                (Color::White, Rank::One, Rank::Two)
            } else {
                (Color::Black, Rank::Eight, Rank::Seven)
            };
            let pawns = vec![
                Square::new(File::A, pawn_rank),
                Square::new(File::B, pawn_rank),
                Square::new(File::C, pawn_rank),
                Square::new(File::D, pawn_rank),
                Square::new(File::E, pawn_rank),
                Square::new(File::F, pawn_rank),
                Square::new(File::G, pawn_rank),
                Square::new(File::H, pawn_rank),
            ];
            let knights = vec![Square::new(File::B, back), Square::new(File::G, back)];
            let rooks = vec![Square::new(File::A, back), Square::new(File::H, back)];
            let bishops = vec![Square::new(File::C, back), Square::new(File::F, back)];
            let queens = vec![Square::new(File::D, back)];
            let kings = vec![Square::new(File::E, back)];
            proof {
                assert(pawns@ =~= start_squares(color, Piece::Pawn));
                assert(knights@ =~= start_squares(color, Piece::Knight));
                assert(rooks@ =~= start_squares(color, Piece::Rock));
                assert(bishops@ =~= start_squares(color, Piece::Bishop));
                assert(queens@ =~= start_squares(color, Piece::Queen));
                assert(kings@ =~= start_squares(color, Piece::King));
            }
            r.push(pawns);
            r.push(knights);
            r.push(rooks);
            r.push(bishops);
            r.push(queens);
            r.push(kings);
            ci = ci + 1;
        }
        r
    }

    /// The union of one side's six masks.
    pub fn combine(board: &Vec<BitBoard>, offset: usize) -> (r: BitBoard)
        requires
            offset == 0 || offset == 6,
            offset + 6 <= board@.len(),
        ensures
            r.0 == (board@[offset as int].0 | board@[offset + 1].0 | board@[offset + 2].0
                | board@[offset + 3].0 | board@[offset + 4].0 | board@[offset + 5].0),
    {
        BitBoard(
            board[offset].0 | board[offset + 1].0 | board[offset + 2].0 | board[offset + 3].0
                | board[offset + 4].0 | board[offset + 5].0,
        )
    }

    /// The union of one side's location masks: every square that side
    /// occupies.
    pub open spec fn spec_occupancy(self, c: Color) -> u64 {
        self.spec_location(c, Piece::Pawn).0 | self.spec_location(c, Piece::Knight).0
            | self.spec_location(c, Piece::Rock).0 | self.spec_location(c, Piece::Bishop).0
            | self.spec_location(c, Piece::Queen).0 | self.spec_location(c, Piece::King).0
    }

    /// The union of one side's capture tables: every square that side
    /// attacks, according to the cache.
    pub open spec fn spec_attacks(self, c: Color) -> u64 {
        self.spec_capture(c, Piece::Pawn).0 | self.spec_capture(c, Piece::Knight).0
            | self.spec_capture(c, Piece::Rock).0 | self.spec_capture(c, Piece::Bishop).0
            | self.spec_capture(c, Piece::Queen).0 | self.spec_capture(c, Piece::King).0
    }

    /// The move and capture options of one piece standing on `square`,
    /// against the current occupancies.
    #[verifier::rlimit(100)]
    #[verifier::spinoff_prover]
    pub fn compute_attack_threat_and_move_to_given(
        &self,
        square: Square,
        piece: Piece,
        color: Color,
    ) -> (r: (BitBoard, BitBoard))
        requires
            self.wf(),
        ensures
            forall|t: int|
                0 <= t < 64 ==> (#[trigger] bit64(r.0.0, t as u64) == piece_moves_bit(
                    piece,
                    self.spec_location(color, piece).0 & (1u64 << (sq_index(square) as u64)),
                    square,
                    self.spec_occupancy(color),
                    self.spec_occupancy(spec_color_opposite(color)),
                    color,
                    t,
                )),
            forall|t: int|
                0 <= t < 64 ==> (#[trigger] bit64(r.1.0, t as u64) == piece_capture_bit(
                    piece,
                    self.spec_location(color, piece).0 & (1u64 << (sq_index(square) as u64)),
                    square,
                    self.spec_occupancy(color),
                    self.spec_occupancy(spec_color_opposite(color)),
                    color,
                    t,
                )),
    {
        let side_index = color.index();
        let opponent_index = color.opposite().index();
        let own_pieces = Self::combine(&self.pieces_location, side_index * 6);
        let opponent_pieces = Self::combine(&self.pieces_location, opponent_index * 6);
        let piece_bit = BitBoard(
            self.pieces_location[side_index * 6 + piece.index()].0 & (1u64 << (square.index()
                as u64)),
        );
        let movement = piece.moves_function(
            &piece_bit,
            square,
            &own_pieces,
            &opponent_pieces,
            &color,
        );
        let capture = piece.capture_function(
            &piece_bit,
            square,
            &own_pieces,
            &opponent_pieces,
            &color,
        );
        (movement, capture)
    }

    /// Whether the cached tables say the side to move stands in check:
    /// the opponent attacks the square of its king.
    pub fn is_checked(&self) -> (r: bool)
        requires
            self.wf(),
        ensures
            r == (self.spec_attacks(spec_color_opposite(self.turn))
                & self.spec_location(self.turn, Piece::King).0 != 0),
    {
        let opponent = self.turn.opposite();
        let attack = Self::combine(&self.pieces_capture_movement, opponent.index() * 6);
        let king_pos = self.pieces_location[self.turn.index() * 6 + 5];
        proof {
            assert(bp_index(Piece::King) == 5);
        }
        attack.0 & king_pos.0 != 0
    }

    /// Whether the cached tables offer the side to move any move or
    /// capture at all.
    pub fn has_legal_moves(&self) -> (r: bool)
        requires
            self.wf(),
        ensures
            r == (self.spec_moves_any(self.turn) || self.spec_captures_any(self.turn)),
    {
        let base = self.turn.index() * 6;
        let movement = Self::combine(&self.pieces_movement, base);
        let capture = Self::combine(&self.pieces_capture_movement, base);
        movement.0 != 0 || capture.0 != 0
    }

    /// Whether some cached move table of a side is non-empty.
    pub open spec fn spec_moves_any(self, c: Color) -> bool {
        self.spec_movement(c, Piece::Pawn).0 | self.spec_movement(c, Piece::Knight).0
            | self.spec_movement(c, Piece::Rock).0 | self.spec_movement(c, Piece::Bishop).0
            | self.spec_movement(c, Piece::Queen).0 | self.spec_movement(c, Piece::King).0 != 0
    }

    /// Whether some cached capture table of a side is non-empty.
    pub open spec fn spec_captures_any(self, c: Color) -> bool {
        self.spec_capture(c, Piece::Pawn).0 | self.spec_capture(c, Piece::Knight).0
            | self.spec_capture(c, Piece::Rock).0 | self.spec_capture(c, Piece::Bishop).0
            | self.spec_capture(c, Piece::Queen).0 | self.spec_capture(c, Piece::King).0 != 0
    }


    /// Whether `entry` is exactly the union of the per-square option
    /// sets of one side's pieces of kind `p`: a square is in `entry`
    /// exactly when some listed piece of that kind reaches it.
    pub open spec fn entry_is_union(self, c: Color, p: Piece, entry: BitBoard, capture: bool) -> bool {
        forall|t: int|
            0 <= t < 64 ==> (#[trigger] bit64(entry.0, t as u64) == exists|j: int|
                {
                    &&& 0 <= j < self.spec_squares(c, p).len()
                    &&& if capture {
                        piece_capture_bit(
                            p,
                            self.spec_location(c, p).0 & (1u64 << (sq_index(
                                #[trigger] self.spec_squares(c, p)[j],
                            ) as u64)),
                            self.spec_squares(c, p)[j],
                            self.spec_occupancy(c),
                            self.spec_occupancy(spec_color_opposite(c)),
                            c,
                            t,
                        )
                    } else {
                        piece_moves_bit(
                            p,
                            self.spec_location(c, p).0 & (1u64 << (sq_index(
                                self.spec_squares(c, p)[j],
                            ) as u64)),
                            self.spec_squares(c, p)[j],
                            self.spec_occupancy(c),
                            self.spec_occupancy(spec_color_opposite(c)),
                            c,
                            t,
                        )
                    }
                })
    }

    /// Whether every cached table is the union of its pieces' current
    /// options: the caches agree with the location masks and square
    /// lists.
    pub open spec fn tables_computed(self) -> bool {
        forall|c: Color, p: Piece|
            self.entry_is_union(c, p, #[trigger] self.spec_movement(c, p), false)
                && self.entry_is_union(c, p, self.spec_capture(c, p), true)
    }

    /// Recomputes both cached tables from the location masks and
    /// square lists; nothing else changes.
    #[verifier::rlimit(100)]
    #[verifier::spinoff_prover]
    pub fn compute_attack_threat_and_move(&mut self)
        requires
            old(self).wf(),
        ensures
            final(self).wf(),
            final(self).pieces_location == old(self).pieces_location,
            final(self).pieces_square == old(self).pieces_square,
            final(self).turn == old(self).turn,
            final(self).tables_computed(),
    {
        let mut movement: Vec<BitBoard> = Vec::new();
        let mut capture: Vec<BitBoard> = Vec::new();
        let mut idx: usize = 0;
        while idx < 12
            invariant
                old(self).wf(),
                *self == *old(self),
                idx <= 12,
                movement@.len() == idx,
                capture@.len() == idx,
                forall|c: Color, p: Piece|
                    table_index(c, p) < idx ==> self.entry_is_union(
                        c,
                        p,
                        #[trigger] movement@[table_index(c, p)],
                        false,
                    ) && self.entry_is_union(c, p, capture@[table_index(c, p)], true),
            decreases 12 - idx,
        {
            let color = if idx < 6 {
                Color::White
            } else {
                Color::Black
            };
            let kinds = Piece::iter();
            let kind = kinds[idx % 6];
            proof {
                assert(table_index(color, kind) == idx);
            }
            let squares = &self.pieces_square[idx];
            let mut move_acc: u64 = 0;
            let mut cap_acc: u64 = 0;
            proof {
                assert forall|t: u64| t < 64 implies !bit64(0u64, t) by {
                    lemma_bit_zero(t);
                }
            }
            let mut j: usize = 0;
            while j < squares.len()
                invariant
                    old(self).wf(),
                    *self == *old(self),
                    idx < 12,
                    j <= squares@.len(),
                    squares@ == self.spec_squares(color, kind),
                    table_index(color, kind) == idx,
                    forall|t: int|
                        0 <= t < 64 ==> (#[trigger] bit64(move_acc, t as u64) == exists|j2: int|
                            {
                                &&& 0 <= j2 < j
                                &&& piece_moves_bit(
                                    kind,
                                    self.spec_location(color, kind).0 & (1u64 << (sq_index(
                                        #[trigger] self.spec_squares(color, kind)[j2],
                                    ) as u64)),
                                    self.spec_squares(color, kind)[j2],
                                    self.spec_occupancy(color),
                                    self.spec_occupancy(spec_color_opposite(color)),
                                    color,
                                    t,
                                )
                            }),
                    forall|t: int|
                        0 <= t < 64 ==> (#[trigger] bit64(cap_acc, t as u64) == exists|j2: int|
                            {
                                &&& 0 <= j2 < j
                                &&& piece_capture_bit(
                                    kind,
                                    self.spec_location(color, kind).0 & (1u64 << (sq_index(
                                        #[trigger] self.spec_squares(color, kind)[j2],
                                    ) as u64)),
                                    self.spec_squares(color, kind)[j2],
                                    self.spec_occupancy(color),
                                    self.spec_occupancy(spec_color_opposite(color)),
                                    color,
                                    t,
                                )
                            }),
                decreases squares@.len() - j,
            {
                let square = squares[j];
                let (mv, cp) = self.compute_attack_threat_and_move_to_given(square, kind, color);
                let ghost prev_mv = move_acc;
                let ghost prev_cp = cap_acc;
                move_acc = move_acc | mv.0;
                cap_acc = cap_acc | cp.0;
                proof {
                    assert forall|t: int| 0 <= t < 64 implies (#[trigger] bit64(
                        move_acc,
                        t as u64,
                    ) == (bit64(prev_mv, t as u64) || bit64(mv.0, t as u64))) by {
                        lemma_bit_or(prev_mv, mv.0, t as u64);
                    }
                    assert forall|t: int| 0 <= t < 64 implies (#[trigger] bit64(
                        cap_acc,
                        t as u64,
                    ) == (bit64(prev_cp, t as u64) || bit64(cp.0, t as u64))) by {
                        lemma_bit_or(prev_cp, cp.0, t as u64);
                    }
                    assert forall|t: int| 0 <= t < 64 implies (#[trigger] bit64(
                        cap_acc,
                        t as u64,
                    ) == exists|j2: int|
                        {
                            &&& 0 <= j2 < j + 1
                            &&& piece_capture_bit(
                                kind,
                                self.spec_location(color, kind).0 & (1u64 << (sq_index(
                                    #[trigger] self.spec_squares(color, kind)[j2],
                                ) as u64)),
                                self.spec_squares(color, kind)[j2],
                                self.spec_occupancy(color),
                                self.spec_occupancy(spec_color_opposite(color)),
                                color,
                                t,
                            )
                        }) by {
                        if bit64(cap_acc, t as u64) {
                            if !bit64(prev_cp, t as u64) {
                                assert(self.spec_squares(color, kind)[j as int] == squares@[j as int]);
                                assert(piece_capture_bit(
                                    kind,
                                    self.spec_location(color, kind).0 & (1u64 << (sq_index(
                                        self.spec_squares(color, kind)[j as int],
                                    ) as u64)),
                                    self.spec_squares(color, kind)[j as int],
                                    self.spec_occupancy(color),
                                    self.spec_occupancy(spec_color_opposite(color)),
                                    color,
                                    t,
                                ));
                            }
                        }
                    }
                    assert forall|t: int| 0 <= t < 64 implies (#[trigger] bit64(
                        move_acc,
                        t as u64,
                    ) == exists|j2: int|
                        {
                            &&& 0 <= j2 < j + 1
                            &&& piece_moves_bit(
                                kind,
                                self.spec_location(color, kind).0 & (1u64 << (sq_index(
                                    #[trigger] self.spec_squares(color, kind)[j2],
                                ) as u64)),
                                self.spec_squares(color, kind)[j2],
                                self.spec_occupancy(color),
                                self.spec_occupancy(spec_color_opposite(color)),
                                color,
                                t,
                            )
                        }) by {
                        if bit64(move_acc, t as u64) {
                            if !bit64(prev_mv, t as u64) {
                                assert(self.spec_squares(color, kind)[j as int] == squares@[j as int]);
                                assert(piece_moves_bit(
                                    kind,
                                    self.spec_location(color, kind).0 & (1u64 << (sq_index(
                                        self.spec_squares(color, kind)[j as int],
                                    ) as u64)),
                                    self.spec_squares(color, kind)[j as int],
                                    self.spec_occupancy(color),
                                    self.spec_occupancy(spec_color_opposite(color)),
                                    color,
                                    t,
                                ));
                            }
                        }
                    }
                }
                j = j + 1;
            }
            proof {
                assert(self.entry_is_union(color, kind, BitBoard(move_acc), false));
                assert(self.entry_is_union(color, kind, BitBoard(cap_acc), true));
            }
            movement.push(BitBoard(move_acc));
            capture.push(BitBoard(cap_acc));
            proof {
                assert forall|c: Color, p: Piece| table_index(c, p) == idx implies c == color && p
                    == kind by {}
                assert(movement@[idx as int] == BitBoard(move_acc));
                assert(capture@[idx as int] == BitBoard(cap_acc));
            }
            idx = idx + 1;
        }
        let ghost before = *self;
        self.pieces_movement = movement;
        self.pieces_capture_movement = capture;
        proof {
            assert forall|c: Color, p: Piece| true implies self.entry_is_union(
                c,
                p,
                #[trigger] self.spec_movement(c, p),
                false,
            ) && self.entry_is_union(c, p, self.spec_capture(c, p), true) by {
                assert(0 <= table_index(c, p) < 12);
                assert(before.entry_is_union(c, p, self.spec_movement(c, p), false));
                assert(before.entry_is_union(c, p, self.spec_capture(c, p), true));
                lemma_entry_union_same_state(before, *self, c, p, self.spec_movement(c, p), false);
                lemma_entry_union_same_state(before, *self, c, p, self.spec_capture(c, p), true);
            }
        }
    }


    /// Creates a game in the opening position, White to move, with
    /// the move and capture caches computed.
    pub fn new() -> (r: Game)
        ensures
            r.wf(),
            r.turn == Color::White,
            forall|c: Color, p: Piece| #[trigger] r.spec_location(c, p).0 == start_mask(c, p),
            forall|c: Color, p: Piece| #[trigger] r.spec_squares(c, p) == start_squares(c, p),
            r.tables_computed(),
    {
        let pieces_location = Self::start_position_mask();
        let pieces_square = Self::start_position();
        let mut empty_movement: Vec<BitBoard> = Vec::new();
        let mut empty_capture: Vec<BitBoard> = Vec::new();
        let mut i: usize = 0;
        while i < 12
            invariant
                i <= 12,
                empty_movement@.len() == i,
                empty_capture@.len() == i,
            decreases 12 - i,
        {
            empty_movement.push(BitBoard::new(0));
            empty_capture.push(BitBoard::new(0));
            i = i + 1;
        }
        let mut game = Game {
            pieces_location,
            pieces_square,
            pieces_capture_movement: empty_capture,
            pieces_movement: empty_movement,
            turn: Color::White,
        };
        game.compute_attack_threat_and_move();
        game
    }

    /// Copies another game's position and caches into this one; the
    /// side to move is kept.
    pub fn set_from(&mut self, other: Game)
        ensures
            final(self).pieces_location == other.pieces_location,
            final(self).pieces_square == other.pieces_square,
            final(self).pieces_movement == other.pieces_movement,
            final(self).pieces_capture_movement == other.pieces_capture_movement,
            final(self).turn == old(self).turn,
    {
        let Game { pieces_location, pieces_square, pieces_movement, pieces_capture_movement, .. } =
            other;
        self.pieces_square = pieces_square;
        self.pieces_location = pieces_location;
        self.pieces_movement = pieces_movement;
        self.pieces_capture_movement = pieces_capture_movement;
    }

    /// Attempts to commit a move of `piece` from `from` to `to` for
    /// `side`: the mover's location mask and square list follow the
    /// move, the first opposing kind listed on the target square
    /// loses it, every other entry stays as it was, and the caches are
    /// recomputed. The move is rejected — and the position restored
    /// exactly, with the caches recomputed from it — exactly when the
    /// updated position puts the mover's own king in check.
    #[verifier::rlimit(100)]
    #[verifier::spinoff_prover]
    pub fn try_update_state(&mut self, from: Square, to: Square, piece: Piece, side: Color) -> (r:
        Result<(), MoveError>)
        requires
            old(self).wf(),
            side == old(self).turn,
        ensures
            final(self).wf(),
            final(self).turn == old(self).turn,
            final(self).tables_computed(),
            r is Err <==> position_checked(
                spec_after_locations(*old(self), from, to, piece, side),
                spec_after_squares(*old(self), from, to, piece, side),
                side,
            ),
            match r {
                Err(_) => {
                    &&& forall|c: Color, p: Piece|
                        #[trigger] final(self).spec_location(c, p) == old(self).spec_location(c, p)
                    &&& forall|c: Color, p: Piece|
                        #[trigger] final(self).spec_squares(c, p) == old(self).spec_squares(c, p)
                },
                Ok(_) => {
                    &&& final(self).pieces_location@ == spec_after_locations(
                        *old(self),
                        from,
                        to,
                        piece,
                        side,
                    )
                    &&& square_views(final(self).pieces_square@) == spec_after_squares(
                        *old(self),
                        from,
                        to,
                        piece,
                        side,
                    )
                    &&& final(self).spec_location(side, piece).0 == ((old(self).spec_location(
                        side,
                        piece,
                    ).0 ^ (1u64 << (sq_index(from) as u64))) | (1u64 << (sq_index(to) as u64)))
                    &&& final(self).spec_squares(side, piece) == old(self).spec_squares(
                        side,
                        piece,
                    ).map_values(
                        |x: Square|
                            if x == from {
                                to
                            } else {
                                x
                            },
                    )
                },
            },
    {
        let opponent_side = side.opposite();
        let ghost snapshot = *old(self);
        let saved_location = self.pieces_location.clone();
        let saved_squares = clone_square_lists(&self.pieces_square);
        let opponent_hit = self.get_piece_by_location(opponent_side, to);

        let own_idx = side.index() * 6 + piece.index();
        let updated = (self.pieces_location[own_idx].0 ^ (1u64 << (from.index() as u64))) | (1u64
            << (to.index() as u64));
        self.pieces_location.set(own_idx, BitBoard(updated));

        if let Some(hit) = opponent_hit {
            let opp_idx = opponent_side.index() * 6 + hit.index();
            let cleared = self.pieces_location[opp_idx].0 & !(1u64 << (to.index() as u64));
            self.pieces_location.set(opp_idx, BitBoard(cleared));
            let old_list = &self.pieces_square[opp_idx];
            let mut kept: Vec<Square> = Vec::new();
            proof {
                assert(old_list@.skip(0) =~= old_list@);
                assert(Seq::<Square>::empty() + without_square(old_list@, to) =~= without_square(
                    old_list@,
                    to,
                ));
            }
            let mut j: usize = 0;
            while j < old_list.len()
                invariant
                    j <= old_list@.len(),
                    without_square(old_list@, to) == kept@ + without_square(
                        old_list@.skip(j as int),
                        to,
                    ),
                decreases old_list@.len() - j,
            {
                let ghost before = kept@;
                let x = old_list[j];
                if !(x == to) {
                    kept.push(x);
                }
                proof {
                    let rest = old_list@.skip(j as int);
                    assert(rest[0] == old_list@[j as int]);
                    assert(rest.skip(1) =~= old_list@.skip(j + 1));
                    let head: Seq<Square> = if rest[0] == to {
                        seq![]
                    } else {
                        seq![rest[0]]
                    };
                    assert(without_square(rest, to) == head + without_square(
                        old_list@.skip(j + 1),
                        to,
                    ));
                    assert(kept@ =~= before + head);
                    assert((before + (head + without_square(old_list@.skip(j + 1), to))) =~= (
                    kept@ + without_square(old_list@.skip(j + 1), to)));
                }
                j = j + 1;
            }
            proof {
                assert(old_list@.skip(old_list@.len() as int) =~= Seq::<Square>::empty());
                assert(without_square(Seq::<Square>::empty(), to) =~= Seq::<Square>::empty());
                assert(kept@ + Seq::<Square>::empty() =~= kept@);
            }
            self.pieces_square.set(opp_idx, kept);
        }

        let own_list = &self.pieces_square[own_idx];
        let mut moved: Vec<Square> = Vec::new();
        let mut j: usize = 0;
        while j < own_list.len()
            invariant
                j <= own_list@.len(),
                moved@.len() == j,
                forall|k: int|
                    0 <= k < j ==> moved@[k] == (if own_list@[k] == from {
                        to
                    } else {
                        own_list@[k]
                    }),
            decreases own_list@.len() - j,
        {
            let x = own_list[j];
            if x == from {
                moved.push(to);
            } else {
                moved.push(x);
            }
            j = j + 1;
        }
        proof {
            assert(moved@ =~= own_list@.map_values(
                |x: Square|
                    if x == from {
                        to
                    } else {
                        x
                    },
            ));
        }
        self.pieces_square.set(own_idx, moved);

        proof {
            assert(self.pieces_location@ =~= spec_after_locations(snapshot, from, to, piece, side));
            assert(square_views(self.pieces_square@) =~~= spec_after_squares(
                snapshot,
                from,
                to,
                piece,
                side,
            ));
        }
        self.compute_attack_threat_and_move();
        let in_check = self.is_checked();
        proof {
            lemma_checked_iff_position(*self);
        }
        if in_check {
            self.pieces_location = saved_location;
            self.pieces_square = saved_squares;
            self.compute_attack_threat_and_move();
            return Err(MoveError::SelfCheckViolation);
        }
        Ok(())
    }

    /// Whether the cached tables show any presence or attack of an
    /// opposing piece kind: its location mask or capture table is
    /// non-empty.
    pub open spec fn spec_attacking(self, p: Piece) -> bool {
        (self.spec_location(spec_color_opposite(self.turn), p).0 | self.spec_capture(
            spec_color_opposite(self.turn),
            p,
        ).0) != 0
    }

    /// The opposing piece kinds with a non-empty combined location and
    /// capture board, each with that board, in declaration order.
    pub fn get_attacking_pieces(&self) -> (r: Vec<(Piece, BitBoard)>)
        requires
            self.wf(),
        ensures
            forall|j: int|
                0 <= j < r@.len() ==> self.spec_attacking(#[trigger] r@[j].0) && r@[j].1.0 == (
                self.spec_location(spec_color_opposite(self.turn), r@[j].0).0 | self.spec_capture(
                    spec_color_opposite(self.turn),
                    r@[j].0,
                ).0),
            forall|p: Piece| self.spec_attacking(p) ==> exists|j: int|
                0 <= j < r@.len() && #[trigger] r@[j].0 == p,
    {
        let opponent_side = self.turn.opposite();
        let base = opponent_side.index() * 6;
        let kinds = Piece::iter();
        let mut attacking: Vec<(Piece, BitBoard)> = Vec::new();
        let mut i: usize = 0;
        while i < 6
            invariant
                self.wf(),
                i <= 6,
                base == color_index(spec_color_opposite(self.turn)) * 6,
                kinds@.len() == 6,
                forall|j: int| 0 <= j < 6 ==> bp_index(#[trigger] kinds@[j]) == j,
                forall|j: int|
                    0 <= j < attacking@.len() ==> self.spec_attacking(#[trigger] attacking@[j].0)
                        && attacking@[j].1.0 == (self.spec_location(
                        spec_color_opposite(self.turn),
                        attacking@[j].0,
                    ).0 | self.spec_capture(spec_color_opposite(self.turn), attacking@[j].0).0),
                forall|p: Piece|
                    bp_index(p) < i && self.spec_attacking(p) ==> exists|j: int|
                        0 <= j < attacking@.len() && #[trigger] attacking@[j].0 == p,
            decreases 6 - i,
        {
            let kind = kinds[i];
            let ghost prev_att = attacking@;
            let board = BitBoard(
                self.pieces_location[base + i].0 | self.pieces_capture_movement[base + i].0,
            );
            proof {
                assert(table_index(spec_color_opposite(self.turn), kind) == base + i);
                assert forall|p: Piece| bp_index(p) == i implies p == kind by {}
                assert(self.spec_attacking(kind) == (board.0 != 0));
            }
            if board.0 != 0 {
                attacking.push((kind, board));
                proof {
                    assert(attacking@[attacking@.len() - 1].0 == kind);
                }
            }
            proof {
                assert forall|p: Piece|
                    bp_index(p) < i + 1 && self.spec_attacking(p) implies exists|j: int|
                    0 <= j < attacking@.len() && #[trigger] attacking@[j].0 == p by {
                    if bp_index(p) < i {
                        let j = choose|j: int|
                            0 <= j < prev_att.len() && #[trigger] prev_att[j].0 == p;
                        assert(attacking@[j].0 == p);
                    } else {
                        assert(p == kind);
                        assert(attacking@[attacking@.len() - 1].0 == p);
                    }
                }
            }
            i = i + 1;
        }
        proof {
            assert forall|p: Piece| true implies bp_index(p) < 6 by {}
        }
        attacking
    }

    /// Whether the cached tables leave the king of the side to move a
    /// step onto a square its opponent neither reaches nor attacks.
    pub open spec fn spec_king_escape(self) -> bool {
        self.spec_movement(self.turn, Piece::King).0 & !(self.spec_opponent_reach()) != 0
    }

    /// The union of the opponent's cached move and capture tables.
    pub open spec fn spec_opponent_reach(self) -> u64 {
        self.spec_moves_union(spec_color_opposite(self.turn)) | self.spec_attacks(
            spec_color_opposite(self.turn),
        )
    }

    /// The union of one side's cached move tables.
    pub open spec fn spec_moves_union(self, c: Color) -> u64 {
        self.spec_movement(c, Piece::Pawn).0 | self.spec_movement(c, Piece::Knight).0
            | self.spec_movement(c, Piece::Rock).0 | self.spec_movement(c, Piece::Bishop).0
            | self.spec_movement(c, Piece::Queen).0 | self.spec_movement(c, Piece::King).0
    }

    /// The squares the side to move can still act on: everything its
    /// tables move to away from the king's square and the king's own
    /// steps, plus everything they capture.
    pub open spec fn spec_own_answers(self) -> u64 {
        !self.spec_location(self.turn, Piece::King).0 & !self.spec_movement(
            self.turn,
            Piece::King,
        ).0 & self.spec_moves_union(self.turn) | self.spec_attacks(self.turn)
    }

    /// Whether an attacking board lies wholly outside the side to
    /// move's answering squares.
    pub open spec fn spec_unanswered(self, board: BitBoard) -> bool {
        board.0 == board.0 & !self.spec_own_answers()
    }

    /// The result the cached tables assign to the position: a draw
    /// when the side to move has no move or capture at all; checkmate
    /// when some opposing piece kind is present or attacking, every
    /// such board is unanswered, and the king has no step onto a
    /// square outside the opponent's reach; otherwise the game goes
    /// on.
    pub fn game_result(&self) -> (r: Option<GameResult>)
        requires
            self.wf(),
        ensures
            r == (if !(self.spec_moves_any(self.turn) || self.spec_captures_any(self.turn)) {
                Some(GameResult::Draw)
            } else if (forall|p: Piece| !self.spec_attacking(p)) || (forall|p: Piece|
                #[trigger] self.spec_attacking(p) ==> !self.spec_unanswered(
                    BitBoard(
                        self.spec_location(spec_color_opposite(self.turn), p).0
                            | self.spec_capture(spec_color_opposite(self.turn), p).0,
                    ),
                )) || self.spec_king_escape() {
                None::<GameResult>
            } else {
                Some(GameResult::Checkmate(self.turn))
            }),
    {
        if !self.has_legal_moves() {
            return Some(GameResult::Draw);
        }
        let side_base = self.turn.index() * 6;
        let opp_base = self.turn.opposite().index() * 6;
        let king_position = self.pieces_location[side_base + 5];
        let king_movement = self.pieces_movement[side_base + 5];
        proof {
            assert(table_index(self.turn, Piece::King) == side_base + 5);
        }
        let possible_moves = !king_position.0 & !king_movement.0 & Self::combine(
            &self.pieces_movement,
            side_base,
        ).0 | Self::combine(&self.pieces_capture_movement, side_base).0;
        let capture_moves = Self::combine(&self.pieces_movement, opp_base).0 | Self::combine(
            &self.pieces_capture_movement,
            opp_base,
        ).0;
        let is_king_has_way_to_escape = king_movement.0 & !capture_moves != 0;
        let orig_attacking = self.get_attacking_pieces();
        let mut any_attacker = false;
        let mut any_unanswered = false;
        let mut i: usize = 0;
        while i < orig_attacking.len()
            invariant
                self.wf(),
                i <= orig_attacking@.len(),
                possible_moves == self.spec_own_answers(),
                forall|j: int|
                    0 <= j < orig_attacking@.len() ==> self.spec_attacking(
                        #[trigger] orig_attacking@[j].0,
                    ) && orig_attacking@[j].1.0 == (self.spec_location(
                        spec_color_opposite(self.turn),
                        orig_attacking@[j].0,
                    ).0 | self.spec_capture(spec_color_opposite(self.turn), orig_attacking@[j].0).0),
                forall|p: Piece| self.spec_attacking(p) ==> exists|j: int|
                    0 <= j < orig_attacking@.len() && #[trigger] orig_attacking@[j].0 == p,
                any_attacker == (i > 0),
                any_unanswered == exists|j: int|
                    0 <= j < i && self.spec_unanswered(#[trigger] orig_attacking@[j].1),
            decreases orig_attacking@.len() - i,
        {
            let (_, board) = orig_attacking[i];
            if board.0 == board.0 & !possible_moves {
                any_unanswered = true;
                proof {
                    assert(self.spec_unanswered(orig_attacking@[i as int].1));
                }
            }
            any_attacker = true;
            i = i + 1;
        }
        proof {
            assert(capture_moves == self.spec_opponent_reach());
            assert(is_king_has_way_to_escape == self.spec_king_escape());
            if orig_attacking@.len() == 0 {
                assert forall|p: Piece| true implies !self.spec_attacking(p) by {
                    if self.spec_attacking(p) {
                        let j = choose|j: int|
                            0 <= j < orig_attacking@.len() && orig_attacking@[j].0 == p;
                        assert(false);
                    }
                }
            } else {
                assert(self.spec_attacking(orig_attacking@[0].0));
                assert(!(forall|p: Piece| !self.spec_attacking(p)));
            }
            if !any_unanswered {
                assert forall|p: Piece| #[trigger] self.spec_attacking(p) implies !self
                    .spec_unanswered(
                    BitBoard(
                        self.spec_location(spec_color_opposite(self.turn), p).0
                            | self.spec_capture(spec_color_opposite(self.turn), p).0,
                    ),
                ) by {
                    let j = choose|j: int|
                        0 <= j < orig_attacking@.len() && #[trigger] orig_attacking@[j].0 == p;
                    assert(orig_attacking@[j].1 == BitBoard(
                        self.spec_location(spec_color_opposite(self.turn), p).0
                            | self.spec_capture(spec_color_opposite(self.turn), p).0,
                    ));
                    assert(!self.spec_unanswered(orig_attacking@[j].1));
                }
            } else {
                let j = choose|j: int|
                    0 <= j < orig_attacking@.len() && self.spec_unanswered(
                        #[trigger] orig_attacking@[j].1,
                    );
                let p = orig_attacking@[j].0;
                assert(self.spec_attacking(p));
                assert(orig_attacking@[j].1 == BitBoard(
                    self.spec_location(spec_color_opposite(self.turn), p).0 | self.spec_capture(
                        spec_color_opposite(self.turn),
                        p,
                    ).0,
                ));
                assert(!(forall|p2: Piece|
                    #[trigger] self.spec_attacking(p2) ==> !self.spec_unanswered(
                        BitBoard(
                            self.spec_location(spec_color_opposite(self.turn), p2).0
                                | self.spec_capture(spec_color_opposite(self.turn), p2).0,
                        ),
                    )));
            }
        }
        let is_not_check_mate = !any_attacker || !any_unanswered || is_king_has_way_to_escape;
        if is_not_check_mate {
            None
        } else {
            Some(GameResult::Checkmate(self.turn))
        }
    }


    /// The whole position as one square-indexed board: every entry
    /// shown holds a piece kind and colour whose square list really
    /// names that square.
    pub fn get_all_position(&self) -> (r: Vec<Option<(Piece, Color)>>)
        requires
            self.wf(),
        ensures
            r@.len() == 64,
            forall|s: Square|
                (#[trigger] r@[sq_index(s)]) is Some ==> self.spec_squares(
                    (r@[sq_index(s)] -> Some_0).1,
                    (r@[sq_index(s)] -> Some_0).0,
                ).contains(s),
    {
        let mut board: Vec<Option<(Piece, Color)>> = Vec::new();
        let mut i: usize = 0;
        while i < 64
            invariant
                i <= 64,
                board@.len() == i,
                forall|k: int| 0 <= k < i ==> board@[k] is None,
            decreases 64 - i,
        {
            board.push(None);
            i = i + 1;
        }
        let sides: [Color; 2] = [Color::White, Color::Black];
        let mut ci: usize = 0;
        while ci < 2
            invariant
                self.wf(),
                ci <= 2,
                board@.len() == 64,
                sides@ =~= seq![Color::White, Color::Black],
                forall|s: Square|
                    (#[trigger] board@[sq_index(s)]) is Some ==> self.spec_squares(
                        (board@[sq_index(s)] -> Some_0).1,
                        (board@[sq_index(s)] -> Some_0).0,
                    ).contains(s),
            decreases 2 - ci,
        {
            let color = sides[ci];
            let kinds = Piece::iter();
            let mut pi: usize = 0;
            while pi < 6
                invariant
                    self.wf(),
                    ci < 2,
                    pi <= 6,
                    color == sides@[ci as int],
                    board@.len() == 64,
                    forall|s: Square|
                        (#[trigger] board@[sq_index(s)]) is Some ==> self.spec_squares(
                            (board@[sq_index(s)] -> Some_0).1,
                            (board@[sq_index(s)] -> Some_0).0,
                        ).contains(s),
                decreases 6 - pi,
            {
                let kind = Piece::iter()[pi];
                let idx = color.index() * 6 + pi;
                proof {
                    assert(table_index(color, kind) == idx);
                }
                let list = &self.pieces_square[idx];
                let mut j: usize = 0;
                while j < list.len()
                    invariant
                        self.wf(),
                        j <= list@.len(),
                        board@.len() == 64,
                        list@ == self.spec_squares(color, kind),
                        forall|s: Square|
                            (#[trigger] board@[sq_index(s)]) is Some ==> self.spec_squares(
                                (board@[sq_index(s)] -> Some_0).1,
                                (board@[sq_index(s)] -> Some_0).0,
                            ).contains(s),
                    decreases list@.len() - j,
                {
                    let square = list[j];
                    let ghost prev = board@;
                    board.set(square.index(), Some((kind, color)));
                    proof {
                        assert(list@.contains(square));
                        assert forall|s: Square| (#[trigger] board@[sq_index(s)]) is Some
                            implies self.spec_squares(
                            (board@[sq_index(s)] -> Some_0).1,
                            (board@[sq_index(s)] -> Some_0).0,
                        ).contains(s) by {
                            if sq_index(s) == sq_index(square) {
                                crate::square::lemma_sq_index_injective(s, square);
                            } else {
                                assert(board@[sq_index(s)] == prev[sq_index(s)]);
                            }
                        }
                    }
                    j = j + 1;
                }
                pi = pi + 1;
            }
            ci = ci + 1;
        }
        board
    }

    /// The piece kind of `color` standing on `square`, if its square
    /// list names it; kinds are tried in declaration order and the
    /// first hit wins.
    pub fn get_piece_by_location(&self, color: Color, square: Square) -> (r: Option<Piece>)
        requires
            self.wf(),
        ensures
            r == self.spec_piece_at(color, square),
            match r {
                Some(p) => self.spec_squares(color, p).contains(square),
                None => forall|p: Piece| !#[trigger] self.spec_squares(color, p).contains(square),
            },
    {
        let base = color.index() * 6;
        let kinds = Piece::iter();
        let mut i: usize = 0;
        while i < 6
            invariant
                self.wf(),
                i <= 6,
                base == color_index(color) * 6,
                kinds@.len() == 6,
                forall|j: int| 0 <= j < 6 ==> bp_index(#[trigger] kinds@[j]) == j,
                self.spec_piece_at(color, square) == self.first_kind_from(color, square, i as int),
                forall|p: Piece|
                    bp_index(p) < i ==> !#[trigger] self.spec_squares(color, p).contains(square),
            decreases 6 - i,
        {
            let kind = kinds[i];
            proof {
                assert(piece_of_index(i as int) == kind);
            }
            let list = &self.pieces_square[base + i];
            let mut j: usize = 0;
            let mut here = false;
            while j < list.len()
                invariant
                    j <= list@.len(),
                    here == exists|k: int| 0 <= k < j && list@[k] == square,
                decreases list@.len() - j,
            {
                if list[j] == square {
                    here = true;
                }
                j = j + 1;
            }
            if here {
                proof {
                    assert(self.spec_squares(color, kind).contains(square));
                    assert(self.first_kind_from(color, square, i as int) == Some(kind));
                }
                return Some(kind);
            }
            proof {
                assert(!self.spec_squares(color, kind).contains(square));
                assert(self.first_kind_from(color, square, i as int) == self.first_kind_from(
                    color,
                    square,
                    i + 1,
                ));
            }
            i = i + 1;
        }
        None
    }

    /// Validates a move of the side to move: the source square must
    /// hold one of its pieces, and the cached tables must offer the
    /// target square as a move or capture of that piece from there.
    pub fn validate_move(&self, from: Square, to: Square) -> (r: Result<Piece, MoveError>)
        requires
            self.wf(),
        ensures
            match r {
                Err(MoveError::NoPieceAtSource) => forall|p: Piece|
                    !#[trigger] self.spec_squares(self.turn, p).contains(from),
                Err(_) => true,
                Ok(p) => self.spec_squares(self.turn, p).contains(from),
            },
    {
        let piece = match self.get_piece_by_location(self.turn, from) {
            None => {
                return Err(MoveError::NoPieceAtSource);
            },
            Some(p) => p,
        };
        let (legal_movement, legal_capture) = self.compute_attack_threat_and_move_to_given(
            from,
            piece,
            self.turn,
        );
        let bit_to = 1u64 << (to.index() as u64);
        if (legal_movement.0 | legal_capture.0) & bit_to == 0 {
            Err(MoveError::IllegalDestination)
        } else {
            Ok(piece)
        }
    }
}


/// Two games with the same locations and square lists agree on what a
/// correctly computed table entry must hold.
#[verifier::rlimit(100)]
#[verifier::spinoff_prover]
proof fn lemma_entry_union_same_state(
    a: Game,
    b: Game,
    c: Color,
    p: Piece,
    entry: BitBoard,
    capture: bool,
)
    requires
        a.pieces_location == b.pieces_location,
        a.pieces_square == b.pieces_square,
        a.entry_is_union(c, p, entry, capture),
    ensures
        b.entry_is_union(c, p, entry, capture),
{
    assert(a.spec_squares(c, p) == b.spec_squares(c, p));
    assert(a.spec_location(c, p) == b.spec_location(c, p));
    assert(a.spec_occupancy(c) == b.spec_occupancy(c));
    assert(a.spec_occupancy(spec_color_opposite(c)) == b.spec_occupancy(spec_color_opposite(c)));
}



/// One opposing capture-table bit plus a king bit yields the
/// position-level check witness.
#[verifier::rlimit(100)]
#[verifier::spinoff_prover]
proof fn lemma_capture_bit_witness(g: Game, p: Piece, t: u64)
    requires
        g.wf(),
        g.tables_computed(),
        t < 64,
        bit64(g.spec_capture(spec_color_opposite(g.turn), p).0, t),
        bit64(g.spec_location(g.turn, Piece::King).0, t),
    ensures
        position_checked(g.pieces_location@, square_views(g.pieces_square@), g.turn),
{
    let att = spec_color_opposite(g.turn);
    let loc = g.pieces_location@;
    let sqs = square_views(g.pieces_square@);
    assert(g.entry_is_union(att, p, g.spec_capture(att, p), true)) by {
        assert(g.spec_movement(att, p) == g.pieces_movement@[table_index(att, p)]);
    }
    let j = choose|j: int|
        {
            &&& 0 <= j < g.spec_squares(att, p).len()
            &&& piece_capture_bit(
                p,
                g.spec_location(att, p).0 & (1u64 << (sq_index(
                    #[trigger] g.spec_squares(att, p)[j],
                ) as u64)),
                g.spec_squares(att, p)[j],
                g.spec_occupancy(att),
                g.spec_occupancy(spec_color_opposite(att)),
                att,
                t as int,
            )
        };
    assert(0 <= table_index(att, p) < 12);
    assert(sqs[table_index(att, p)] == g.spec_squares(att, p));
    assert(loc[table_index(att, p)] == g.spec_location(att, p));
    assert(masks_occupancy(loc, att) == g.spec_occupancy(att));
    assert(masks_occupancy(loc, g.turn) == g.spec_occupancy(g.turn));
    assert(spec_color_opposite(att) == g.turn);
    assert(piece_capture_bit(
        p,
        loc[table_index(att, p)].0 & (1u64 << (sq_index(sqs[table_index(att, p)][j]) as u64)),
        sqs[table_index(att, p)][j],
        masks_occupancy(loc, att),
        masks_occupancy(loc, g.turn),
        att,
        t as int,
    ));
}

/// With the caches freshly computed, the cache-level check test agrees
/// with the position-level check predicate.
#[verifier::rlimit(100)]
#[verifier::spinoff_prover]
proof fn lemma_checked_iff_position(g: Game)
    requires
        g.wf(),
        g.tables_computed(),
    ensures
        ((g.spec_attacks(spec_color_opposite(g.turn)) & g.spec_location(g.turn, Piece::King).0)
            != 0) <==> position_checked(
            g.pieces_location@,
            square_views(g.pieces_square@),
            g.turn,
        ),
{
    let att = spec_color_opposite(g.turn);
    let loc = g.pieces_location@;
    let sqs = square_views(g.pieces_square@);
    let c0 = g.spec_capture(att, Piece::Pawn).0;
    let c1 = g.spec_capture(att, Piece::Knight).0;
    let c2 = g.spec_capture(att, Piece::Rock).0;
    let c3 = g.spec_capture(att, Piece::Bishop).0;
    let c4 = g.spec_capture(att, Piece::Queen).0;
    let c5 = g.spec_capture(att, Piece::King).0;
    let x = g.spec_attacks(att);
    let y = g.spec_location(g.turn, Piece::King).0;
    if x & y != 0 {
        lemma_nonzero_bit(x & y);
        let t = choose|t: u64| t < 64 && bit64(x & y, t);
        lemma_bit_and(x, y, t);
        lemma_bit_or(c0 | c1 | c2 | c3 | c4, c5, t);
        lemma_bit_or(c0 | c1 | c2 | c3, c4, t);
        lemma_bit_or(c0 | c1 | c2, c3, t);
        lemma_bit_or(c0 | c1, c2, t);
        lemma_bit_or(c0, c1, t);
        if bit64(c0, t) {
            lemma_capture_bit_witness(g, Piece::Pawn, t);
        } else if bit64(c1, t) {
            lemma_capture_bit_witness(g, Piece::Knight, t);
        } else if bit64(c2, t) {
            lemma_capture_bit_witness(g, Piece::Rock, t);
        } else if bit64(c3, t) {
            lemma_capture_bit_witness(g, Piece::Bishop, t);
        } else if bit64(c4, t) {
            lemma_capture_bit_witness(g, Piece::Queen, t);
        } else {
            lemma_capture_bit_witness(g, Piece::King, t);
        }
    }
    if position_checked(loc, sqs, g.turn) {
        let (p, j, t) = choose|p: Piece, j: int, t: int|
            {
                &&& 0 <= t < 64
                &&& 0 <= j < sqs[table_index(att, p)].len()
                &&& #[trigger] piece_capture_bit(
                    p,
                    loc[table_index(att, p)].0 & (1u64 << (sq_index(
                        sqs[table_index(att, p)][j],
                    ) as u64)),
                    sqs[table_index(att, p)][j],
                    masks_occupancy(loc, att),
                    masks_occupancy(loc, g.turn),
                    att,
                    t,
                )
                &&& bit64(loc[table_index(g.turn, Piece::King)].0, t as u64)
            };
        assert(0 <= table_index(att, p) < 12);
        assert(sqs[table_index(att, p)] == g.spec_squares(att, p));
        assert(masks_occupancy(loc, att) == g.spec_occupancy(att));
        assert(masks_occupancy(loc, g.turn) == g.spec_occupancy(spec_color_opposite(att)));
        assert(g.entry_is_union(att, p, g.spec_capture(att, p), true)) by {
            assert(g.spec_movement(att, p) == g.pieces_movement@[table_index(att, p)]);
        }
        assert(piece_capture_bit(
            p,
            g.spec_location(att, p).0 & (1u64 << (sq_index(g.spec_squares(att, p)[j]) as u64)),
            g.spec_squares(att, p)[j],
            g.spec_occupancy(att),
            g.spec_occupancy(spec_color_opposite(att)),
            att,
            t,
        ));
        assert(bit64(g.spec_capture(att, p).0, t as u64));
        let cp = g.spec_capture(att, p).0;
        lemma_bit_or(c0 | c1 | c2 | c3 | c4, c5, t as u64);
        lemma_bit_or(c0 | c1 | c2 | c3, c4, t as u64);
        lemma_bit_or(c0 | c1 | c2, c3, t as u64);
        lemma_bit_or(c0 | c1, c2, t as u64);
        lemma_bit_or(c0, c1, t as u64);
        assert(bit64(x, t as u64));
        assert(bit64(y, t as u64));
        lemma_bit_and(x, y, t as u64);
        assert(bit64(x & y, t as u64));
        if x & y == 0 {
            lemma_bit_zero(t as u64);
            assert(false);
        }
    }
}

/// An element-wise copy of a list of square lists.
fn clone_square_lists(lists: &Vec<Vec<Square>>) -> (r: Vec<Vec<Square>>)
    ensures
        r@.len() == lists@.len(),
        forall|i: int| 0 <= i < lists@.len() ==> #[trigger] r@[i]@ == lists@[i]@,
{
    let mut r: Vec<Vec<Square>> = Vec::new();
    let mut i: usize = 0;
    while i < lists.len()
        invariant
            i <= lists@.len(),
            r@.len() == i,
            forall|k: int| 0 <= k < i ==> #[trigger] r@[k]@ == lists@[k]@,
        decreases lists@.len() - i,
    {
        let inner = &lists[i];
        let mut copy: Vec<Square> = Vec::new();
        let mut j: usize = 0;
        while j < inner.len()
            invariant
                j <= inner@.len(),
                copy@ == inner@.take(j as int),
            decreases inner@.len() - j,
        {
            copy.push(inner[j]);
            proof {
                assert(copy@ =~= inner@.take(j + 1));
            }
            j = j + 1;
        }
        proof {
            assert(inner@.take(inner@.len() as int) =~= inner@);
        }
        r.push(copy);
        i = i + 1;
    }
    r
}

} // verus!
