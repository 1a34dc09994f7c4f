//! Squares for the precomputed-mask representation: a `Position` is a
//! file and a rank, flattened to a bitboard index `rank * 8 + file`.

use vstd::prelude::*;

verus! {

/// The files (columns), `A` (leftmost) to `H` (rightmost).
#[derive(Debug, Copy, Clone, PartialEq, Eq, Hash, Structural)]
pub enum File {
    A,
    B,
    C,
    D,
    E,
    F,
    G,
    H,
}

/// The ranks (rows), `One` (bottom) to `Eight` (top).
#[derive(Debug, Copy, Clone, PartialEq, Eq, Hash, Structural)]
pub enum Rank {
    One,
    Two,
    Three,
    Four,
    Five,
    Six,
    Seven,
    Eight,
}

/// A square: a file paired with a rank.
#[derive(Debug, Copy, Clone, PartialEq, Eq, Hash, Structural)]
pub struct Position {
    pub file: File,
    pub rank: Rank,
}

/// Index of a file, `A` = 0 through `H` = 7.
pub open spec fn pfile_index(f: File) -> int {
    match f {
        File::A => 0,
        File::B => 1,
        File::C => 2,
        File::D => 3,
        File::E => 4,
        File::F => 5,
        File::G => 6,
        File::H => 7,
    }
}

/// Index of a rank, `One` = 0 through `Eight` = 7.
pub open spec fn prank_index(r: Rank) -> int {
    match r {
        Rank::One => 0,
        Rank::Two => 1,
        Rank::Three => 2,
        Rank::Four => 3,
        Rank::Five => 4,
        Rank::Six => 5,
        Rank::Seven => 6,
        Rank::Eight => 7,
    }
}

/// The file with the given index; meaningful only for `0 <= i < 8`.
pub open spec fn pfile_of_index(i: int) -> File {
    if i == 0 {
        File::A
    } else if i == 1 {
        File::B
    } else if i == 2 {
        File::C
    } else if i == 3 {
        File::D
    } else if i == 4 {
        File::E
    } else if i == 5 {
        File::F
    } else if i == 6 {
        File::G
    } else {
        File::H
    }
}

/// The rank with the given index; meaningful only for `0 <= i < 8`.
pub open spec fn prank_of_index(i: int) -> Rank {
    if i == 0 {
        Rank::One
    } else if i == 1 {
        Rank::Two
    } else if i == 2 {
        Rank::Three
    } else if i == 3 {
        Rank::Four
    } else if i == 4 {
        Rank::Five
    } else if i == 5 {
        Rank::Six
    } else if i == 6 {
        Rank::Seven
    } else {
        Rank::Eight
    }
}

/// The position with the given file and rank indices.
pub open spec fn pos_at(fi: int, ri: int) -> Position {
    Position { file: pfile_of_index(fi), rank: prank_of_index(ri) }
}

/// Flat bitboard index of a position, `a1` = 0 through `h8` = 63.
pub open spec fn pos_index(p: Position) -> int {
    8 * prank_index(p.rank) + pfile_index(p.file)
}

/// Whether a (file index, rank index) pair lies on the board.
pub open spec fn pos_on_board(fi: int, ri: int) -> bool {
    0 <= fi < 8 && 0 <= ri < 8
}

impl File {
    /// All files, `A` to `H`.
    pub fn iter() -> (r: Vec<File>)
        ensures
            r@.len() == 8,
            forall|i: int| 0 <= i < 8 ==> r@[i] == pfile_of_index(i),
    {
        let files = vec![
            File::A,
            File::B,
            File::C,
            File::D,
            File::E,
            File::F,
            File::G,
            File::H,
        ];
        files
    }

    /// The file with the given index.
    pub fn from_index(i: usize) -> (r: File)
        requires
            i < 8,
        ensures
            r == pfile_of_index(i as int),
            pfile_index(r) == i,
    {
        match i {
            0 => File::A,
            1 => File::B,
            2 => File::C,
            3 => File::D,
            4 => File::E,
            5 => File::F,
            6 => File::G,
            _ => File::H,
        }
    }

    /// This file's index, `A` = 0 through `H` = 7.
    pub fn index(self) -> (r: usize)
        ensures
            r == pfile_index(self),
    {
        match self {
            File::A => 0,
            File::B => 1,
            File::C => 2,
            File::D => 3,
            File::E => 4,
            File::F => 5,
            File::G => 6,
            File::H => 7,
        }
    }

    /// This file shifted by `d` files; `None` off the board.
    pub fn offset(self, d: i8) -> (r: Option<File>)
        ensures
            r == if pos_on_board(pfile_index(self) + d, 0) {
                Some(pfile_of_index(pfile_index(self) + d))
            } else {
                None::<File>
            },
    {
        let i: i16 = self.index() as i16 + d as i16;
        if 0 <= i && i < 8 {
            Some(File::from_index(i as usize))
        } else {
            None
        }
    }
}

impl Rank {
    /// All ranks, `One` to `Eight`.
    pub fn iter() -> (r: Vec<Rank>)
        ensures
            r@.len() == 8,
            forall|i: int| 0 <= i < 8 ==> r@[i] == prank_of_index(i),
    {
        let ranks = vec![
            Rank::One,
            Rank::Two,
            Rank::Three,
            Rank::Four,
            Rank::Five,
            Rank::Six,
            Rank::Seven,
            Rank::Eight,
        ];
        ranks
    }

    /// The rank with the given index.
    pub fn from_index(i: usize) -> (r: Rank)
        requires
            i < 8,
        ensures
            r == prank_of_index(i as int),
            prank_index(r) == i,
    {
        match i {
            0 => Rank::One,
            1 => Rank::Two,
            2 => Rank::Three,
            3 => Rank::Four,
            4 => Rank::Five,
            5 => Rank::Six,
            6 => Rank::Seven,
            _ => Rank::Eight,
        }
    }

    /// This rank's index, `One` = 0 through `Eight` = 7.
    pub fn index(self) -> (r: usize)
        ensures
            r == prank_index(self),
    {
        match self {
            Rank::One => 0,
            Rank::Two => 1,
            Rank::Three => 2,
            Rank::Four => 3,
            Rank::Five => 4,
            Rank::Six => 5,
            Rank::Seven => 6,
            Rank::Eight => 7,
        }
    }

    /// This rank shifted by `d` ranks; `None` off the board.
    pub fn offset(self, d: i8) -> (r: Option<Rank>)
        ensures
            r == if pos_on_board(0, prank_index(self) + d) {
                Some(prank_of_index(prank_index(self) + d))
            } else {
                None::<Rank>
            },
    {
        let i: i16 = self.index() as i16 + d as i16;
        if 0 <= i && i < 8 {
            Some(Rank::from_index(i as usize))
        } else {
            None
        }
    }
}

impl Position {
    /// Creates a position from a file and a rank.
    pub fn new(file: File, rank: Rank) -> (r: Position)
        ensures
            r == (Position { file, rank }),
    {
        Position { file, rank }
    }

    /// All 64 positions, file-major: every rank of file `A`, then of
    /// file `B`, and so on.
    pub fn iter() -> (r: Vec<Position>)
        ensures
            r@.len() == 64,
            forall|fi: int, ri: int|
                pos_on_board(fi, ri) ==> #[trigger] r@[8 * fi + ri] == pos_at(fi, ri),
    {
        let mut all: Vec<Position> = Vec::new();
        let mut fi: usize = 0;
        while fi < 8
            invariant
                fi <= 8,
                all@.len() == 8 * fi,
                forall|f2: int, r2: int|
                    pos_on_board(f2, r2) && f2 < fi ==> #[trigger] all@[8 * f2 + r2] == pos_at(
                        f2,
                        r2,
                    ),
            decreases 8 - fi,
        {
            let mut ri: usize = 0;
            while ri < 8
                invariant
                    fi < 8,
                    ri <= 8,
                    all@.len() == 8 * fi + ri,
                    forall|f2: int, r2: int|
                        pos_on_board(f2, r2) && f2 < fi ==> #[trigger] all@[8 * f2 + r2] == pos_at(
                            f2,
                            r2,
                        ),
                    forall|r2: int|
                        0 <= r2 < ri ==> #[trigger] all@[8 * (fi as int) + r2] == pos_at(
                            fi as int,
                            r2,
                        ),
                decreases 8 - ri,
            {
                all.push(Position::new(File::from_index(fi), Rank::from_index(ri)));
                ri = ri + 1;
            }
            fi = fi + 1;
        }
        all
    }

    /// The flat bitboard index of this position.
    pub fn position_bitboard_index(&self) -> (r: usize)
        ensures
            r == pos_index(*self),
            r < 64,
    {
        8 * self.rank.index() + self.file.index()
    }

    /// The position with the given flat bitboard index.
    pub fn from_index(index: usize) -> (r: Position)
        requires
            index < 64,
        ensures
            pos_index(r) == index,
            r == pos_at(index as int % 8, index as int / 8),
    {
        let file = File::from_index(index % 8);
        let rank = Rank::from_index(index / 8);
        Position::new(file, rank)
    }
}

/// Position indices are a bijection: distinct squares have distinct
/// flat indices.
pub proof fn lemma_pos_index_injective(a: Position, b: Position)
    ensures
        pos_index(a) == pos_index(b) ==> a == b,
{
}

} // verus!
