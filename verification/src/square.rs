//! The 0–63 square identifier with rank/file decomposition and bounded
//! delta arithmetic.
//!
//! Squares are numbered a1 = 0, b1 = 1, …, h8 = 63: `rank = index / 8`,
//! `file = index % 8`.

use crate::error::ChessError;
use vstd::prelude::*;

verus! {

/// A file (column) of the board, `A` through `H`.
#[derive(Debug, Clone, Copy, PartialEq, Eq, Structural)]
pub enum File {
    A,
    B,
    C,
    D,
    E,
    F,
    G,
    H,
}

/// A rank (row) of the board, `One` through `Eight`.
#[derive(Debug, Clone, Copy, PartialEq, Eq, Structural)]
pub enum Rank {
    One,
    Two,
    Three,
    Four,
    Five,
    Six,
    Seven,
    Eight,
}

/// The 0-based column number of a file.
pub open spec fn file_index(f: File) -> int {
    match f {
        File::A => 0,
        File::B => 1,
        File::C => 2,
        File::D => 3,
        File::E => 4,
        File::F => 5,
        File::G => 6,
        File::H => 7,
    }
}

/// The 0-based row number of a rank.
pub open spec fn rank_index(r: Rank) -> int {
    match r {
        Rank::One => 0,
        Rank::Two => 1,
        Rank::Three => 2,
        Rank::Four => 3,
        Rank::Five => 4,
        Rank::Six => 5,
        Rank::Seven => 6,
        Rank::Eight => 7,
    }
}

impl File {
    /// The 0-based column number.
    pub fn as_u8(&self) -> (r: u8)
        ensures
            r == file_index(*self),
    {
        match self {
            File::A => 0,
            File::B => 1,
            File::C => 2,
            File::D => 3,
            File::E => 4,
            File::F => 5,
            File::G => 6,
            File::H => 7,
        }
    }

    /// The file with the given 0-based column number.
    pub fn from_index(i: u8) -> (r: File)
        requires
            i < 8,
        ensures
            file_index(r) == i,
    {
        match i {
            0 => File::A,
            1 => File::B,
            2 => File::C,
            3 => File::D,
            4 => File::E,
            5 => File::F,
            6 => File::G,
            _ => File::H,
        }
    }
}

impl Rank {
    /// The 0-based row number.
    pub fn as_u8(&self) -> (r: u8)
        ensures
            r == rank_index(*self),
    {
        match self {
            Rank::One => 0,
            Rank::Two => 1,
            Rank::Three => 2,
            Rank::Four => 3,
            Rank::Five => 4,
            Rank::Six => 5,
            Rank::Seven => 6,
            Rank::Eight => 7,
        }
    }

    /// The rank with the given 0-based row number.
    pub fn from_index(i: u8) -> (r: Rank)
        requires
            i < 8,
        ensures
            rank_index(r) == i,
    {
        match i {
            0 => Rank::One,
            1 => Rank::Two,
            2 => Rank::Three,
            3 => Rank::Four,
            4 => Rank::Five,
            5 => Rank::Six,
            6 => Rank::Seven,
            _ => Rank::Eight,
        }
    }

    /// Whether the rank is the first or the last one: the ranks on which a
    /// pawn promotes.
    pub fn is_on_edge(&self) -> (r: bool)
        ensures
            r <==> (rank_index(*self) == 0 || rank_index(*self) == 7),
    {
        matches!(self, Rank::One | Rank::Eight)
    }
}

/// A square of the board, an index in `[0, 63]`.
///
/// Built only through checked factories, so that a `Square` value is always
/// on the board.
#[derive(Debug, Clone, Copy, PartialEq, Eq, Structural)]
pub struct Square {
    idx: u8,
}

impl Square {
    /// The board invariant: the index stays in `[0, 63]`.
    #[verifier::type_invariant]
    pub closed spec fn inv(self) -> bool {
        self.idx < 64
    }

    /// The square's index, as a mathematical integer.
    pub closed spec fn as_int(self) -> int {
        self.idx as int
    }

    /// The square with the given index, for speaking of squares that a
    /// computation derives; meaningful for indices on the board.
    pub closed spec fn from_int(i: int) -> Square {
        Square { idx: i as u8 }
    }

    /// On the board, `from_int` and `as_int` are inverses.
    pub proof fn lemma_from_int(i: int)
        requires
            0 <= i < 64,
        ensures
            Square::from_int(i).as_int() == i,
    {
    }

    /// Builds the square with the given index, refusing one off the board.
    pub fn new(s: u8) -> (r: Result<Square, ChessError>)
        ensures
            s < 64 ==> (r matches Ok(sq) && sq.as_int() == s && sq == Square::from_int(s as int)),
            s >= 64 ==> r == Err::<Square, ChessError>(ChessError::InvalidSquare { square: s }),
    {
        if s < 64 {
            Ok(Square { idx: s })
        } else {
            Err(ChessError::InvalidSquare { square: s })
        }
    }

    /// The square on the given rank and file.
    pub fn from_rank_file(rank: Rank, file: File) -> (r: Square)
        ensures
            r.as_int() == rank_index(rank) * 8 + file_index(file),
            r == Square::from_int(rank_index(rank) * 8 + file_index(file)),
    {
        Square { idx: rank.as_u8() * 8 + file.as_u8() }
    }

    /// The square on the given file and rank.
    pub fn from_file_rank(file: File, rank: Rank) -> (r: Square)
        ensures
            r.as_int() == rank_index(rank) * 8 + file_index(file),
            r == Square::from_int(rank_index(rank) * 8 + file_index(file)),
    {
        Square::from_rank_file(rank, file)
    }

    /// The index as a `usize`, for indexing 64-entry tables.
    pub fn as_index(&self) -> (r: usize)
        ensures
            r == self.as_int(),
            r < 64,
    {
        proof {
            use_type_invariant(*self);
        }
        self.idx as usize
    }

    /// The index as a `u8`.
    pub fn as_u8(&self) -> (r: u8)
        ensures
            r == self.as_int(),
            r < 64,
    {
        proof {
            use_type_invariant(*self);
        }
        self.idx
    }

    /// The square as a one-bit board set.
    pub fn as_bbs(&self) -> (r: u64)
        ensures
            r == 1u64 << self.as_int() as u64,
    {
        proof {
            use_type_invariant(*self);
        }
        1u64 << self.idx
    }

    /// The square's rank.
    pub fn get_rank(&self) -> (r: Rank)
        ensures
            rank_index(r) == self.as_int() / 8,
    {
        proof {
            use_type_invariant(*self);
        }
        Rank::from_index(self.idx / 8)
    }

    /// The square's file.
    pub fn get_file(&self) -> (r: File)
        ensures
            file_index(r) == self.as_int() % 8,
    {
        proof {
            use_type_invariant(*self);
        }
        File::from_index(self.idx % 8)
    }

    /// The 0-based column number.
    pub fn horizontal(&self) -> (r: u8)
        ensures
            r == self.as_int() % 8,
            r < 8,
    {
        proof {
            use_type_invariant(*self);
        }
        self.idx % 8
    }

    /// The 0-based row number.
    pub fn vertical(&self) -> (r: u8)
        ensures
            r == self.as_int() / 8,
            r < 8,
    {
        proof {
            use_type_invariant(*self);
        }
        self.idx / 8
    }

    /// Moves `delta` squares along the current rank, toward the h-file for
    /// positive `delta`.  Fails when the result would leave the rank or the
    /// board.
    pub fn move_on_rank(&self, delta: i8) -> (r: Result<Square, ChessError>)
        ensures
            ({
                let t = self.as_int() + delta;
                &&& (0 <= t < 64 && t / 8 == self.as_int() / 8) ==> (r matches Ok(sq)
                    && sq.as_int() == t && sq == Square::from_int(t))
                &&& !(0 <= t < 64 && t / 8 == self.as_int() / 8) ==> r == Err::<
                    Square,
                    ChessError,
                >(ChessError::InvalidSquare { square: (self.as_int() as u8) })
            }),
    {
        proof {
            use_type_invariant(*self);
        }
        let t: i16 = self.idx as i16 + delta as i16;
        if 0 <= t && t < 64 && (t / 8) as u8 == self.idx / 8 {
            Ok(Square { idx: t as u8 })
        } else {
            Err(ChessError::InvalidSquare { square: self.idx })
        }
    }

    /// Moves `delta` squares along the current file, toward the eighth rank
    /// for positive `delta`.  Fails when the result would leave the board.
    pub fn move_on_file(&self, delta: i8) -> (r: Result<Square, ChessError>)
        ensures
            ({
                let t = self.as_int() + 8 * delta;
                &&& (0 <= t < 64) ==> (r matches Ok(sq) && sq.as_int() == t && sq
                    == Square::from_int(t))
                &&& !(0 <= t < 64) ==> r == Err::<Square, ChessError>(
                    ChessError::InvalidSquare { square: (self.as_int() as u8) },
                )
            }),
    {
        proof {
            use_type_invariant(*self);
        }
        let t: i16 = self.idx as i16 + 8 * (delta as i16);
        if 0 <= t && t < 64 {
            Ok(Square { idx: t as u8 })
        } else {
            Err(ChessError::InvalidSquare { square: self.idx })
        }
    }

    /// The signed rank difference `other - self`.
    pub fn get_delta_rank(&self, other: Square) -> (r: i8)
        ensures
            r == other.as_int() / 8 - self.as_int() / 8,
    {
        proof {
            use_type_invariant(*self);
            use_type_invariant(other);
        }
        (other.idx / 8) as i8 - (self.idx / 8) as i8
    }

    /// The signed file difference `other - self`.
    pub fn get_delta_file(&self, other: Square) -> (r: i8)
        ensures
            r == other.as_int() % 8 - self.as_int() % 8,
    {
        proof {
            use_type_invariant(*self);
            use_type_invariant(other);
        }
        (other.idx % 8) as i8 - (self.idx % 8) as i8
    }
}

impl core::str::FromStr for Square {
    type Err = ChessError;

    /// Parses a square from its two-character algebraic name, the file
    /// letter followed by the rank digit.
    fn from_str(value: &str) -> Result<Square, ChessError> {
        let bytes = value.as_bytes();
        if bytes.len() != 2 {
            return Err(ChessError::InvalidSquare { square: u8::MAX });
        }
        let file = bytes[0];
        let rank = bytes[1];
        if file < 97 || file > 104 {
            return Err(ChessError::InvalidSquare { square: u8::MAX });
        }
        if rank < 49 || rank > 56 {
            return Err(ChessError::InvalidSquare { square: u8::MAX });
        }
        Square::new((rank - 49) * 8 + (file - 97))
    }
}

/// Relies on String::push: appends exactly the given character.
pub assume_specification[ String::push ](s: &mut String, ch: char)
    ensures
        final(s)@ == old(s)@.push(ch),
;

/// Relies on String::push_str: appends exactly the given string.
pub assume_specification[ String::push_str ](s: &mut String, string: &str)
    ensures
        final(s)@ == old(s)@ + string@,
;

/// The file letter of column `f`.
pub open spec fn spec_file_char(f: int) -> char {
    if f == 0 {
        'a'
    } else if f == 1 {
        'b'
    } else if f == 2 {
        'c'
    } else if f == 3 {
        'd'
    } else if f == 4 {
        'e'
    } else if f == 5 {
        'f'
    } else if f == 6 {
        'g'
    } else {
        'h'
    }
}

/// The rank digit of row `r`.
pub open spec fn spec_rank_char(r: int) -> char {
    if r == 0 {
        '1'
    } else if r == 1 {
        '2'
    } else if r == 2 {
        '3'
    } else if r == 3 {
        '4'
    } else if r == 4 {
        '5'
    } else if r == 5 {
        '6'
    } else if r == 6 {
        '7'
    } else {
        '8'
    }
}

/// The two-character algebraic name of square `i`: file letter, then rank
/// digit.
pub open spec fn spec_square_name(i: int) -> Seq<char> {
    seq![spec_file_char(i % 8), spec_rank_char(i / 8)]
}

impl Square {
    /// The square's algebraic name, `a1` through `h8`.
    pub fn name(&self) -> (r: String)
        ensures
            r@ == spec_square_name(self.as_int()),
    {
        let f = self.horizontal();
        let v = self.vertical();
        let fc: char = match f {
            0 => 'a',
            1 => 'b',
            2 => 'c',
            3 => 'd',
            4 => 'e',
            5 => 'f',
            6 => 'g',
            _ => 'h',
        };
        let rc: char = match v {
            0 => '1',
            1 => '2',
            2 => '3',
            3 => '4',
            4 => '5',
            5 => '6',
            6 => '7',
            _ => '8',
        };
        let mut s = String::new();
        s.push(fc);
        s.push(rc);
        proof {
            assert(s@ =~= spec_square_name(self.as_int()));
        }
        s
    }
}

} // verus!
