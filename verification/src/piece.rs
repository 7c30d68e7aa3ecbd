//! Pieces and their colors.
//!
//! A piece is a closed set of cases; king and rook additionally carry the
//! `has_moved` tag that gates castling.

use vstd::prelude::*;

verus! {

/// A chess piece.  King and rook carry whether that specific piece has
/// moved at least once, which castling requires to be `false`.
#[derive(Debug, Clone, Copy, PartialEq, Eq, Structural)]
pub enum Piece {
    Pawn,
    Knight,
    Bishop,
    Rook { has_moved: bool },
    Queen,
    King { has_moved: bool },
}

/// The side a piece belongs to.
#[derive(Debug, Clone, Copy, PartialEq, Eq, Structural)]
pub enum Color {
    White,
    Black,
}

impl Piece {
    /// The same piece with its `has_moved` tag set, for kinds that carry one.
    pub open spec fn spec_moved(self) -> Piece {
        match self {
            Piece::Rook { .. } => Piece::Rook { has_moved: true },
            Piece::King { .. } => Piece::King { has_moved: true },
            _ => self,
        }
    }

    /// Whether two pieces are of the same kind, ignoring the `has_moved` tag.
    pub open spec fn spec_same_kind(self, other: Piece) -> bool {
        match (self, other) {
            (Piece::Pawn, Piece::Pawn) => true,
            (Piece::Knight, Piece::Knight) => true,
            (Piece::Bishop, Piece::Bishop) => true,
            (Piece::Rook { .. }, Piece::Rook { .. }) => true,
            (Piece::Queen, Piece::Queen) => true,
            (Piece::King { .. }, Piece::King { .. }) => true,
            _ => false,
        }
    }

    pub fn is_pawn(&self) -> (r: bool)
        ensures
            r <==> self is Pawn,
    {
        matches!(self, Piece::Pawn)
    }

    pub fn is_knight(&self) -> (r: bool)
        ensures
            r <==> self is Knight,
    {
        matches!(self, Piece::Knight)
    }

    pub fn is_bishop(&self) -> (r: bool)
        ensures
            r <==> self is Bishop,
    {
        matches!(self, Piece::Bishop)
    }

    pub fn is_rook(&self) -> (r: bool)
        ensures
            r <==> self is Rook,
    {
        matches!(self, Piece::Rook { .. })
    }

    pub fn is_queen(&self) -> (r: bool)
        ensures
            r <==> self is Queen,
    {
        matches!(self, Piece::Queen)
    }

    pub fn is_king(&self) -> (r: bool)
        ensures
            r <==> self is King,
    {
        matches!(self, Piece::King { .. })
    }

    /// Whether `self` and `other` are the same kind of piece, with the
    /// castling-eligibility tag ignored.
    pub fn same_kind(&self, other: &Piece) -> (r: bool)
        ensures
            r == self.spec_same_kind(*other),
    {
        match (self, other) {
            (Piece::Pawn, Piece::Pawn) => true,
            (Piece::Knight, Piece::Knight) => true,
            (Piece::Bishop, Piece::Bishop) => true,
            (Piece::Rook { .. }, Piece::Rook { .. }) => true,
            (Piece::Queen, Piece::Queen) => true,
            (Piece::King { .. }, Piece::King { .. }) => true,
            _ => false,
        }
    }

    /// Marks a king or rook as having moved; other pieces are unchanged.
    pub fn make_moved(&mut self)
        ensures
            *final(self) == old(self).spec_moved(),
    {
        match self {
            Piece::King { has_moved } => {
                *has_moved = true;
            },
            Piece::Rook { has_moved } => {
                *has_moved = true;
            },
            _ => (),
        }
    }


    /// The piece's letter in algebraic notation; pawns have none.
    pub fn chess_notation(&self) -> (r: &'static str)
        ensures
            self is Pawn ==> r@ == ""@,
            self is Knight ==> r@ == "N"@,
            self is Bishop ==> r@ == "B"@,
            self is Rook ==> r@ == "R"@,
            self is Queen ==> r@ == "Q"@,
            self is King ==> r@ == "K"@,
    {
        match self {
            Piece::Pawn => "",
            Piece::Knight => "N",
            Piece::Bishop => "B",
            Piece::Rook { .. } => "R",
            Piece::Queen => "Q",
            Piece::King { .. } => "K",
        }
    }

    /// A one-letter name for every piece, the pawn included.
    pub fn short_name(&self) -> (r: &'static str)
        ensures
            self is Pawn ==> r@ == "P"@,
            self is Knight ==> r@ == "N"@,
            self is Bishop ==> r@ == "B"@,
            self is Rook ==> r@ == "R"@,
            self is Queen ==> r@ == "Q"@,
            self is King ==> r@ == "K"@,
    {
        match self {
            Piece::Pawn => "P",
            Piece::Knight => "N",
            Piece::Bishop => "B",
            Piece::Rook { .. } => "R",
            Piece::Queen => "Q",
            Piece::King { .. } => "K",
        }
    }

    /// The conventional material value of the piece.
    pub fn get_value(&self) -> (r: u8)
        ensures
            r == match *self {
                Piece::Pawn => 1u8,
                Piece::Knight => 3u8,
                Piece::Bishop => 3u8,
                Piece::Rook { .. } => 5u8,
                Piece::Queen => 8u8,
                Piece::King { .. } => 0u8,
            },
    {
        match self {
            Piece::Pawn => 1,
            Piece::Knight => 3,
            Piece::Bishop => 3,
            Piece::Rook { .. } => 5,
            Piece::Queen => 8,
            Piece::King { .. } => 0,
        }
    }
}

impl Color {
    /// The other side.
    pub open spec fn spec_opposite(self) -> Color {
        match self {
            Color::White => Color::Black,
            Color::Black => Color::White,
        }
    }

    pub fn is_white(&self) -> (r: bool)
        ensures
            r <==> self is White,
    {
        matches!(self, Color::White)
    }

    pub fn is_black(&self) -> (r: bool)
        ensures
            r <==> self is Black,
    {
        matches!(self, Color::Black)
    }

    /// Toggles the side.
    pub fn opposite(&self) -> (r: Color)
        ensures
            r == self.spec_opposite(),
    {
        match self {
            Color::White => Color::Black,
            Color::Black => Color::White,
        }
    }
}

} // verus!
