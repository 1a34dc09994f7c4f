//! The mailbox chessboard: 64 squares of `Option<Piece>`, indexed by
//! `Location`, with a single relocate-and-clear-source mutation primitive
//! and conversions to and from per-piece `u64` bitboards.

use vstd::prelude::*;
use crate::bits::{bit64, lemma_bit_or, lemma_bit_single, lemma_bit_zero};
use crate::location::{loc_index, Location};
use crate::pieces::{side_index, Piece, PieceType, Side};
use crate::user_actions::MoveAction;

verus! {

/// Index of a piece type, in declaration order: `Pawn` = 0 .. `King` = 5.
pub open spec fn pt_index(p: PieceType) -> int {
    match p {
        PieceType::Pawn => 0,
        PieceType::Rook => 1,
        PieceType::Knight => 2,
        PieceType::Bishop => 3,
        PieceType::Queen => 4,
        PieceType::King => 5,
    }
}

/// The piece type with the given index; meaningful only for `0 <= i < 6`.
pub open spec fn pt_of_index(i: int) -> PieceType {
    if i == 0 {
        PieceType::Pawn
    } else if i == 1 {
        PieceType::Rook
    } else if i == 2 {
        PieceType::Knight
    } else if i == 3 {
        PieceType::Bishop
    } else if i == 4 {
        PieceType::Queen
    } else {
        PieceType::King
    }
}

impl PieceType {
    /// This piece type's index, in declaration order.
    pub fn index(self) -> (r: usize)
        ensures
            r == pt_index(self),
    {
        match self {
            PieceType::Pawn => 0,
            PieceType::Rook => 1,
            PieceType::Knight => 2,
            PieceType::Bishop => 3,
            PieceType::Queen => 4,
            PieceType::King => 5,
        }
    }

    /// The piece type with the given index.
    pub fn from_index(i: usize) -> (r: PieceType)
        requires
            i < 6,
        ensures
            r == pt_of_index(i as int),
    {
        match i {
            0 => PieceType::Pawn,
            1 => PieceType::Rook,
            2 => PieceType::Knight,
            3 => PieceType::Bishop,
            4 => PieceType::Queen,
            _ => PieceType::King,
        }
    }
}

/// The piece type on the back rank at the given file in the opening
/// layout: rooks in the corners, then knights, bishops, queen on d,
/// king on e.
pub open spec fn back_rank_type(fi: int) -> PieceType {
    if fi == 0 || fi == 7 {
        PieceType::Rook
    } else if fi == 1 || fi == 6 {
        PieceType::Knight
    } else if fi == 2 || fi == 5 {
        PieceType::Bishop
    } else if fi == 3 {
        PieceType::Queen
    } else {
        PieceType::King
    }
}

/// The opening-layout occupant of the square with the given file and
/// rank indices.
pub open spec fn spec_start_square(fi: int, ri: int) -> Option<Piece> {
    if ri == 0 {
        Some(Piece { piece_type: back_rank_type(fi), side: Side::White, has_moved: false })
    } else if ri == 1 {
        Some(Piece { piece_type: PieceType::Pawn, side: Side::White, has_moved: false })
    } else if ri == 6 {
        Some(Piece { piece_type: PieceType::Pawn, side: Side::Black, has_moved: false })
    } else if ri == 7 {
        Some(Piece { piece_type: back_rank_type(fi), side: Side::Black, has_moved: false })
    } else {
        None
    }
}

/// The opening-layout occupant of a square, as a value.
pub fn start_square(fi: usize, ri: usize) -> (r: Option<Piece>)
    requires
        fi < 8,
        ri < 8,
    ensures
        r == spec_start_square(fi as int, ri as int),
{
    let back: PieceType = if fi == 0 || fi == 7 {
        PieceType::Rook
    } else if fi == 1 || fi == 6 {
        PieceType::Knight
    } else if fi == 2 || fi == 5 {
        PieceType::Bishop
    } else if fi == 3 {
        PieceType::Queen
    } else {
        PieceType::King
    };
    if ri == 0 {
        Some(Piece { piece_type: back, side: Side::White, has_moved: false })
    } else if ri == 1 {
        Some(Piece { piece_type: PieceType::Pawn, side: Side::White, has_moved: false })
    } else if ri == 6 {
        Some(Piece { piece_type: PieceType::Pawn, side: Side::Black, has_moved: false })
    } else if ri == 7 {
        Some(Piece { piece_type: back, side: Side::Black, has_moved: false })
    } else {
        None
    }
}

/// A chessboard: 64 squares, each holding a piece or nothing. Indexing
/// by `Location` never reaches outside the board.
#[derive(Debug)]
pub struct Board {
    squares: Vec<Option<Piece>>,
}

impl View for Board {
    type V = Seq<Option<Piece>>;

    closed spec fn view(&self) -> Seq<Option<Piece>> {
        self.squares@
    }
}

impl Board {
    /// A board is well formed when it has exactly 64 squares; every
    /// constructor establishes this and every method preserves it.
    pub open spec fn wf(self) -> bool {
        self@.len() == 64
    }

    /// Creates an empty board.
    pub fn new() -> (r: Board)
        ensures
            r.wf(),
            r@.len() == 64,
            forall|i: int| 0 <= i < 64 ==> r@[i] is None,
    {
        let mut squares: Vec<Option<Piece>> = Vec::new();
        let mut i: usize = 0;
        while i < 64
            invariant
                i <= 64,
                squares@.len() == i,
                forall|j: int| 0 <= j < i ==> squares@[j] is None,
            decreases 64 - i,
        {
            squares.push(None);
            i = i + 1;
        }
        Board { squares }
    }

    /// The occupant of the given square, or `None` when it is empty.
    pub fn get(&self, loc: Location) -> (r: Option<Piece>)
        requires
            self.wf(),
        ensures
            r == self@[loc_index(loc)],
    {
        self.squares[loc.to_bit_index()]
    }

    /// Replaces the occupant of the given square.
    pub fn set(&mut self, loc: Location, value: Option<Piece>)
        requires
            old(self).wf(),
        ensures
            final(self).wf(),
            final(self)@ == old(self)@.update(loc_index(loc), value),
    {
        let i = loc.to_bit_index();
        self.squares.set(i, value);
    }

    /// The rows of the board, top rank first, each row from file `A` to
    /// file `H` — the order a text renderer prints them in.
    pub fn iter(&self) -> (r: Vec<Vec<Option<Piece>>>)
        requires
            self.wf(),
        ensures
            r@.len() == 8,
            forall|ri: int, fi: int|
                0 <= ri < 8 && 0 <= fi < 8 ==> #[trigger] r@[ri]@[fi] == self@[8 * (7 - ri) + fi]
                    && r@[ri]@.len() == 8,
    {
        let mut rows: Vec<Vec<Option<Piece>>> = Vec::new();
        let mut ri: usize = 0;
        while ri < 8
            invariant
                self@.len() == 64,
                ri <= 8,
                rows@.len() == ri,
                forall|r2: int, fi: int|
                    0 <= r2 < ri && 0 <= fi < 8 ==> #[trigger] rows@[r2]@[fi] == self@[8 * (7 - r2)
                        + fi] && rows@[r2]@.len() == 8,
            decreases 8 - ri,
        {
            let mut row: Vec<Option<Piece>> = Vec::new();
            let mut fi: usize = 0;
            while fi < 8
                invariant
                    self@.len() == 64,
                    ri < 8,
                    fi <= 8,
                    row@.len() == fi,
                    forall|f2: int|
                        0 <= f2 < fi ==> #[trigger] row@[f2] == self@[8 * (7 - ri) + f2],
                decreases 8 - fi,
            {
                row.push(self.squares[8 * (7 - ri) + fi]);
                fi = fi + 1;
            }
            rows.push(row);
            ri = ri + 1;
        }
        rows
    }

    /// Executes a move intent: the occupant of `from` is placed on `to`
    /// and `from` is cleared.
    pub fn action(&mut self, move_action: &MoveAction)
        requires
            old(self).wf(),
        ensures
            final(self).wf(),
            final(self)@ == old(self)@.update(
                loc_index(move_action.to),
                old(self)@[loc_index(move_action.from)],
            ).update(loc_index(move_action.from), None),
    {
        let occupant = self.get(move_action.from);
        self.set(move_action.to, occupant);
        self.set(move_action.from, None);
    }

    /// Packs the board into one `u64` bitboard per side and piece type:
    /// bit `i` of `r[s][p]` is set exactly when square `i` holds a piece
    /// of side `s` and type `p` (the `has_moved` flag is not recorded).
    pub fn to_bitboards(&self) -> (r: [[u64; 6]; 2])
        requires
            self.wf(),
        ensures
            forall|s: int, p: int, i: u64|
                0 <= s < 2 && 0 <= p < 6 && i < 64 ==> (#[trigger] bit64(r@[s]@[p], i) <==> ({
                    &&& self@[i as int] is Some
                    &&& side_index((self@[i as int] -> Some_0).side) == s
                    &&& pt_index((self@[i as int] -> Some_0).piece_type) == p
                })),
    {
        let mut bbs: Vec<u64> = Vec::new();
        let mut k: usize = 0;
        while k < 12
            invariant
                k <= 12,
                bbs@.len() == k,
                forall|j: int| 0 <= j < k ==> bbs@[j] == 0u64,
            decreases 12 - k,
        {
            bbs.push(0u64);
            k = k + 1;
        }
        proof {
            assert forall|j: int, i: u64| 0 <= j < 12 && i < 64 implies !bit64(bbs@[j], i) by {
                lemma_bit_zero(i);
            }
        }
        let mut idx: usize = 0;
        while idx < 64
            invariant
                self@.len() == 64,
                idx <= 64,
                bbs@.len() == 12,
                forall|s: int, p: int, i: u64|
                    0 <= s < 2 && 0 <= p < 6 && i < 64 ==> (#[trigger] bit64(
                        bbs@[6 * s + p],
                        i,
                    ) <==> ({
                        &&& i < idx
                        &&& self@[i as int] is Some
                        &&& side_index((self@[i as int] -> Some_0).side) == s
                        &&& pt_index((self@[i as int] -> Some_0).piece_type) == p
                    })),
            decreases 64 - idx,
        {
            if let Some(piece) = self.squares[idx] {
                let k = 6 * piece.side.index() + piece.piece_type.index();
                let updated = bbs[k] | (1u64 << (idx as u64));
                let ghost prev = bbs@;
                bbs.set(k, updated);
                proof {
                    assert forall|s: int, p: int, i: u64|
                        0 <= s < 2 && 0 <= p < 6 && i < 64 implies (#[trigger] bit64(
                        bbs@[6 * s + p],
                        i,
                    ) <==> ({
                        &&& i < idx + 1
                        &&& self@[i as int] is Some
                        &&& side_index((self@[i as int] -> Some_0).side) == s
                        &&& pt_index((self@[i as int] -> Some_0).piece_type) == p
                    })) by {
                        if 6 * s + p == k {
                            lemma_bit_or(prev[k as int], 1u64 << (idx as u64), i);
                            lemma_bit_single(idx as u64, i);
                        }
                    }
                }
            }
            idx = idx + 1;
        }
        let r = [
            [bbs[0], bbs[1], bbs[2], bbs[3], bbs[4], bbs[5]],
            [bbs[6], bbs[7], bbs[8], bbs[9], bbs[10], bbs[11]],
        ];
        proof {
            assert forall|s: int, p: int, i: u64|
                0 <= s < 2 && 0 <= p < 6 && i < 64 implies (#[trigger] bit64(r@[s]@[p], i)
                <==> bit64(bbs@[6 * s + p], i)) by {
                assert(r@[s]@[p] == bbs@[6 * s + p]);
            }
        }
        r
    }

    /// The occupant that `from_bitboards` reconstructs for square `i`:
    /// the highest-numbered (side, piece type) pair whose bitboard has
    /// bit `i` set, or nothing. Reconstructed pieces have `has_moved`
    /// cleared.
    pub open spec fn bitboard_square(bbs: [[u64; 6]; 2], i: u64) -> Option<Piece> {
        if bit64(bbs@[1]@[5], i) {
            Some(Piece { piece_type: PieceType::King, side: Side::Black, has_moved: false })
        } else if bit64(bbs@[1]@[4], i) {
            Some(Piece { piece_type: PieceType::Queen, side: Side::Black, has_moved: false })
        } else if bit64(bbs@[1]@[3], i) {
            Some(Piece { piece_type: PieceType::Bishop, side: Side::Black, has_moved: false })
        } else if bit64(bbs@[1]@[2], i) {
            Some(Piece { piece_type: PieceType::Knight, side: Side::Black, has_moved: false })
        } else if bit64(bbs@[1]@[1], i) {
            Some(Piece { piece_type: PieceType::Rook, side: Side::Black, has_moved: false })
        } else if bit64(bbs@[1]@[0], i) {
            Some(Piece { piece_type: PieceType::Pawn, side: Side::Black, has_moved: false })
        } else if bit64(bbs@[0]@[5], i) {
            Some(Piece { piece_type: PieceType::King, side: Side::White, has_moved: false })
        } else if bit64(bbs@[0]@[4], i) {
            Some(Piece { piece_type: PieceType::Queen, side: Side::White, has_moved: false })
        } else if bit64(bbs@[0]@[3], i) {
            Some(Piece { piece_type: PieceType::Bishop, side: Side::White, has_moved: false })
        } else if bit64(bbs@[0]@[2], i) {
            Some(Piece { piece_type: PieceType::Knight, side: Side::White, has_moved: false })
        } else if bit64(bbs@[0]@[1], i) {
            Some(Piece { piece_type: PieceType::Rook, side: Side::White, has_moved: false })
        } else if bit64(bbs@[0]@[0], i) {
            Some(Piece { piece_type: PieceType::Pawn, side: Side::White, has_moved: false })
        } else {
            None
        }
    }

    /// Rebuilds a board from per-side, per-piece-type bitboards. When
    /// several bitboards claim one square, the highest-numbered
    /// (side, piece type) pair wins.
    pub fn from_bitboards(bitboards: [[u64; 6]; 2]) -> (r: Board)
        ensures
            r.wf(),
            r@.len() == 64,
            forall|i: u64| i < 64 ==> r@[i as int] == Self::bitboard_square(bitboards, i),
    {
        let mut squares: Vec<Option<Piece>> = Vec::new();
        let mut idx: usize = 0;
        while idx < 64
            invariant
                idx <= 64,
                squares@.len() == idx,
                forall|i: u64| i < idx ==> squares@[i as int] == Self::bitboard_square(bitboards, i),
            decreases 64 - idx,
        {
            let mask = 1u64 << (idx as u64);
            let occupant: Option<Piece> = if bitboards[1][5] & mask != 0 {
                Some(Piece { piece_type: PieceType::King, side: Side::Black, has_moved: false })
            } else if bitboards[1][4] & mask != 0 {
                Some(Piece { piece_type: PieceType::Queen, side: Side::Black, has_moved: false })
            } else if bitboards[1][3] & mask != 0 {
                Some(Piece { piece_type: PieceType::Bishop, side: Side::Black, has_moved: false })
            } else if bitboards[1][2] & mask != 0 {
                Some(Piece { piece_type: PieceType::Knight, side: Side::Black, has_moved: false })
            } else if bitboards[1][1] & mask != 0 {
                Some(Piece { piece_type: PieceType::Rook, side: Side::Black, has_moved: false })
            } else if bitboards[1][0] & mask != 0 {
                Some(Piece { piece_type: PieceType::Pawn, side: Side::Black, has_moved: false })
            } else if bitboards[0][5] & mask != 0 {
                Some(Piece { piece_type: PieceType::King, side: Side::White, has_moved: false })
            } else if bitboards[0][4] & mask != 0 {
                Some(Piece { piece_type: PieceType::Queen, side: Side::White, has_moved: false })
            } else if bitboards[0][3] & mask != 0 {
                Some(Piece { piece_type: PieceType::Bishop, side: Side::White, has_moved: false })
            } else if bitboards[0][2] & mask != 0 {
                Some(Piece { piece_type: PieceType::Knight, side: Side::White, has_moved: false })
            } else if bitboards[0][1] & mask != 0 {
                Some(Piece { piece_type: PieceType::Rook, side: Side::White, has_moved: false })
            } else if bitboards[0][0] & mask != 0 {
                Some(Piece { piece_type: PieceType::Pawn, side: Side::White, has_moved: false })
            } else {
                None
            };
            squares.push(occupant);
            idx = idx + 1;
        }
        Board { squares }
    }
}

} // verus!
