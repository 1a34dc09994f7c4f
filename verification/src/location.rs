//! Files, ranks and board locations for the mailbox rules engine, with
//! bounds-checked offset arithmetic and text parsing ("e4").

use vstd::prelude::*;

verus! {

/// The files (columns) of a chessboard, `A` (leftmost) to `H` (rightmost).
#[derive(Debug, Copy, Clone, PartialEq, Eq, Structural)]
pub enum File {
    A,
    B,
    C,
    D,
    E,
    F,
    G,
    H,
}

/// The ranks (rows) of a chessboard, `One` (bottom) to `Eight` (top).
#[derive(Debug, Copy, Clone, PartialEq, Eq, Structural)]
pub enum Rank {
    One,
    Two,
    Three,
    Four,
    Five,
    Six,
    Seven,
    Eight,
}

/// A square of the chessboard: a file paired with a rank.
#[derive(Debug, Copy, Clone, PartialEq, Eq, Structural)]
pub struct Location {
    pub file: File,
    pub rank: Rank,
}

/// Index of a file, `A` = 0 through `H` = 7.
pub open spec fn file_index(f: File) -> int {
    match f {
        File::A => 0,
        File::B => 1,
        File::C => 2,
        File::D => 3,
        File::E => 4,
        File::F => 5,
        File::G => 6,
        File::H => 7,
    }
}

/// Index of a rank, `One` = 0 through `Eight` = 7.
pub open spec fn rank_index(r: Rank) -> int {
    match r {
        Rank::One => 0,
        Rank::Two => 1,
        Rank::Three => 2,
        Rank::Four => 3,
        Rank::Five => 4,
        Rank::Six => 5,
        Rank::Seven => 6,
        Rank::Eight => 7,
    }
}

/// The file with the given index; meaningful only for `0 <= i < 8`.
pub open spec fn file_of_index(i: int) -> File {
    if i == 0 {
        File::A
    } else if i == 1 {
        File::B
    } else if i == 2 {
        File::C
    } else if i == 3 {
        File::D
    } else if i == 4 {
        File::E
    } else if i == 5 {
        File::F
    } else if i == 6 {
        File::G
    } else {
        File::H
    }
}

/// The rank with the given index; meaningful only for `0 <= i < 8`.
pub open spec fn rank_of_index(i: int) -> Rank {
    if i == 0 {
        Rank::One
    } else if i == 1 {
        Rank::Two
    } else if i == 2 {
        Rank::Three
    } else if i == 3 {
        Rank::Four
    } else if i == 4 {
        Rank::Five
    } else if i == 5 {
        Rank::Six
    } else if i == 6 {
        Rank::Seven
    } else {
        Rank::Eight
    }
}

/// Whether a (file index, rank index) pair lies on the board.
pub open spec fn on_board(fi: int, ri: int) -> bool {
    0 <= fi < 8 && 0 <= ri < 8
}

/// The location with the given file and rank indices.
pub open spec fn loc_at(fi: int, ri: int) -> Location {
    Location { file: file_of_index(fi), rank: rank_of_index(ri) }
}

/// Flat square index, `a1` = 0 through `h8` = 63.
pub open spec fn loc_index(l: Location) -> int {
    8 * rank_index(l.rank) + file_index(l.file)
}

/// The file named by a character, case-insensitive (`'a'`/`'A'` .. `'h'`/`'H'`).
pub open spec fn spec_file_from_char(c: char) -> Option<File> {
    if c == 'a' || c == 'A' {
        Some(File::A)
    } else if c == 'b' || c == 'B' {
        Some(File::B)
    } else if c == 'c' || c == 'C' {
        Some(File::C)
    } else if c == 'd' || c == 'D' {
        Some(File::D)
    } else if c == 'e' || c == 'E' {
        Some(File::E)
    } else if c == 'f' || c == 'F' {
        Some(File::F)
    } else if c == 'g' || c == 'G' {
        Some(File::G)
    } else if c == 'h' || c == 'H' {
        Some(File::H)
    } else {
        None
    }
}

/// The rank named by a digit character (`'1'` .. `'8'`).
pub open spec fn spec_rank_from_char(c: char) -> Option<Rank> {
    if c == '1' {
        Some(Rank::One)
    } else if c == '2' {
        Some(Rank::Two)
    } else if c == '3' {
        Some(Rank::Three)
    } else if c == '4' {
        Some(Rank::Four)
    } else if c == '5' {
        Some(Rank::Five)
    } else if c == '6' {
        Some(Rank::Six)
    } else if c == '7' {
        Some(Rank::Seven)
    } else if c == '8' {
        Some(Rank::Eight)
    } else {
        None
    }
}

impl File {
    /// Parses a file letter, accepting either case.
    pub fn from_char(c: char) -> (r: Option<File>)
        ensures
            r == spec_file_from_char(c),
    {
        match c {
            'a' | 'A' => Some(File::A),
            'b' | 'B' => Some(File::B),
            'c' | 'C' => Some(File::C),
            'd' | 'D' => Some(File::D),
            'e' | 'E' => Some(File::E),
            'f' | 'F' => Some(File::F),
            'g' | 'G' => Some(File::G),
            'h' | 'H' => Some(File::H),
            _ => None,
        }
    }

    /// The file with the given index.
    pub fn from_index(i: usize) -> (r: File)
        requires
            i < 8,
        ensures
            r == file_of_index(i as int),
            file_index(r) == i,
    {
        match i {
            0 => File::A,
            1 => File::B,
            2 => File::C,
            3 => File::D,
            4 => File::E,
            5 => File::F,
            6 => File::G,
            _ => File::H,
        }
    }

    /// This file's index, `A` = 0 through `H` = 7.
    pub fn index(self) -> (r: usize)
        ensures
            r == file_index(self),
    {
        match self {
            File::A => 0,
            File::B => 1,
            File::C => 2,
            File::D => 3,
            File::E => 4,
            File::F => 5,
            File::G => 6,
            File::H => 7,
        }
    }
}

impl Rank {
    /// Parses a rank digit (`'1'` .. `'8'`).
    pub fn from_char(c: char) -> (r: Option<Rank>)
        ensures
            r == spec_rank_from_char(c),
    {
        match c {
            '1' => Some(Rank::One),
            '2' => Some(Rank::Two),
            '3' => Some(Rank::Three),
            '4' => Some(Rank::Four),
            '5' => Some(Rank::Five),
            '6' => Some(Rank::Six),
            '7' => Some(Rank::Seven),
            '8' => Some(Rank::Eight),
            _ => None,
        }
    }

    /// The rank with the given index.
    pub fn from_index(i: usize) -> (r: Rank)
        requires
            i < 8,
        ensures
            r == rank_of_index(i as int),
            rank_index(r) == i,
    {
        match i {
            0 => Rank::One,
            1 => Rank::Two,
            2 => Rank::Three,
            3 => Rank::Four,
            4 => Rank::Five,
            5 => Rank::Six,
            6 => Rank::Seven,
            _ => Rank::Eight,
        }
    }

    /// This rank's index, `One` = 0 through `Eight` = 7.
    pub fn index(self) -> (r: usize)
        ensures
            r == rank_index(self),
    {
        match self {
            Rank::One => 0,
            Rank::Two => 1,
            Rank::Three => 2,
            Rank::Four => 3,
            Rank::Five => 4,
            Rank::Six => 5,
            Rank::Seven => 6,
            Rank::Eight => 7,
        }
    }
}

impl Location {
    /// Creates a location from a file and a rank.
    pub fn new(file: File, rank: Rank) -> (r: Location)
        ensures
            r == (Location { file, rank }),
    {
        Location { file, rank }
    }

    /// Moves this location by the given rank and file offsets; `None` when
    /// the target would fall off the board.
    pub fn offset(&self, rank_offset: i8, file_offset: i8) -> (r: Option<Location>)
        ensures
            ({
                let fi = file_index(self.file) + file_offset;
                let ri = rank_index(self.rank) + rank_offset;
                match r {
                    Some(l) => on_board(fi, ri) && l == loc_at(fi, ri),
                    None => !on_board(fi, ri),
                }
            }),
    {
        let fi: i16 = self.file.index() as i16 + file_offset as i16;
        let ri: i16 = self.rank.index() as i16 + rank_offset as i16;
        if 0 <= fi && fi < 8 && 0 <= ri && ri < 8 {
            Some(Location { file: File::from_index(fi as usize), rank: Rank::from_index(ri as usize) })
        } else {
            None
        }
    }

    /// Parses a location such as `"e4"`: a file letter followed by a rank
    /// digit. Extra trailing characters are ignored; malformed or too-short
    /// text is rejected, never a panic.
    pub fn from(value: &str) -> (r: Result<Location, ()>)
        ensures
            ({
                let ok = value@.len() >= 2 && spec_file_from_char(value@[0]) is Some
                    && spec_rank_from_char(value@[1]) is Some;
                match r {
                    Ok(l) => ok && l == (Location {
                        file: spec_file_from_char(value@[0]) -> Some_0,
                        rank: spec_rank_from_char(value@[1]) -> Some_0,
                    }),
                    Err(_) => !ok,
                }
            }),
    {
        let n = value.unicode_len();
        if n < 2 {
            return Err(());
        }
        let c0 = value.get_char(0);
        let c1 = value.get_char(1);
        match (File::from_char(c0), Rank::from_char(c1)) {
            (Some(file), Some(rank)) => Ok(Location { file, rank }),
            _ => Err(()),
        }
    }

    /// Flat square index of this location, `a1` = 0 through `h8` = 63.
    pub fn to_bit_index(&self) -> (r: usize)
        ensures
            r == loc_index(*self),
            r < 64,
    {
        8 * self.rank.index() + self.file.index()
    }
}

/// A location built from on-board coordinates has those coordinates.
pub proof fn lemma_loc_at_coords(fi: int, ri: int)
    requires
        on_board(fi, ri),
    ensures
        file_index(loc_at(fi, ri).file) == fi,
        rank_index(loc_at(fi, ri).rank) == ri,
{
}

} // verus!
