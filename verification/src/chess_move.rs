//! Chess move representation.
//!
//! A `Move` is immutable data carrying everything needed to execute it:
//! normal moves, captures, en passant, promotions (with and without
//! capture) and the two castles.  Validation lives with the game logic.

use crate::piece::Piece;
use crate::square::{spec_square_name, Square};
use vstd::prelude::*;

verus! {

/// A candidate chess move.
#[derive(Debug, Clone, Copy, PartialEq, Eq, Structural)]
pub enum Move {
    /// Move to an empty square.
    Normal { piece: Piece, from: Square, to: Square },
    /// Move that takes an opposing piece standing on `to`.
    Capture { piece: Piece, from: Square, to: Square, captured: Piece },
    /// Pawn capture of a pawn that just double-pushed past it.
    EnPassant { from: Square, to: Square },
    /// Pawn promotion without capture.
    Promotion { from: Square, to: Square, promoted_to: Piece },
    /// Pawn promotion taking an opposing piece on `to`.
    PromotionCapture { from: Square, to: Square, captured: Piece, promoted_to: Piece },
    /// Castle toward the h-file.
    CastleKingside { king_from: Square, king_to: Square, rook_from: Square, rook_to: Square },
    /// Castle toward the a-file.
    CastleQueenside { king_from: Square, king_to: Square, rook_from: Square, rook_to: Square },
}

impl Move {
    /// The source square of the move; for castles, the king's.
    pub open spec fn spec_from(self) -> Square {
        match self {
            Move::Normal { from, .. } => from,
            Move::Capture { from, .. } => from,
            Move::EnPassant { from, .. } => from,
            Move::Promotion { from, .. } => from,
            Move::PromotionCapture { from, .. } => from,
            Move::CastleKingside { king_from, .. } => king_from,
            Move::CastleQueenside { king_from, .. } => king_from,
        }
    }

    /// The destination square of the move; for castles, the king's.
    pub open spec fn spec_to(self) -> Square {
        match self {
            Move::Normal { to, .. } => to,
            Move::Capture { to, .. } => to,
            Move::EnPassant { to, .. } => to,
            Move::Promotion { to, .. } => to,
            Move::PromotionCapture { to, .. } => to,
            Move::CastleKingside { king_to, .. } => king_to,
            Move::CastleQueenside { king_to, .. } => king_to,
        }
    }

    /// The piece the move declares to be moving.
    pub open spec fn spec_piece(self) -> Piece {
        match self {
            Move::Normal { piece, .. } => piece,
            Move::Capture { piece, .. } => piece,
            Move::EnPassant { .. } => Piece::Pawn,
            Move::Promotion { .. } => Piece::Pawn,
            Move::PromotionCapture { .. } => Piece::Pawn,
            Move::CastleKingside { .. } => Piece::King { has_moved: false },
            Move::CastleQueenside { .. } => Piece::King { has_moved: false },
        }
    }

    /// The piece the move captures, if any.
    pub open spec fn spec_captured(self) -> Option<Piece> {
        match self {
            Move::Capture { captured, .. } => Some(captured),
            Move::EnPassant { .. } => Some(Piece::Pawn),
            Move::PromotionCapture { captured, .. } => Some(captured),
            _ => None,
        }
    }

    /// Creates a normal move, or a capture when a piece is taken.
    pub fn new(piece: Piece, from: Square, to: Square, takes: Option<Piece>) -> (r: Move)
        ensures
            r == match takes {
                Some(captured) => Move::Capture { piece, from, to, captured },
                None => Move::Normal { piece, from, to },
            },
    {
        match takes {
            Some(captured) => Move::Capture { piece, from, to, captured },
            None => Move::Normal { piece, from, to },
        }
    }

    /// Creates an en passant capture.
    pub fn en_pasante(from: Square, to: Square) -> (r: Move)
        ensures
            r == (Move::EnPassant { from, to }),
    {
        Move::EnPassant { from, to }
    }

    /// Creates a promotion, with or without capture.
    pub fn promotion(from: Square, to: Square, takes: Option<Piece>, promotion: Piece) -> (r: Move)
        ensures
            r == match takes {
                Some(captured) => Move::PromotionCapture {
                    from,
                    to,
                    captured,
                    promoted_to: promotion,
                },
                None => Move::Promotion { from, to, promoted_to: promotion },
            },
    {
        match takes {
            Some(captured) => Move::PromotionCapture { from, to, captured, promoted_to: promotion },
            None => Move::Promotion { from, to, promoted_to: promotion },
        }
    }

    /// The four promotion choices for a pawn arriving on the last rank.
    pub fn promotions(from: Square, to: Square, takes: Option<Piece>) -> (r: [Move; 4])
        ensures
            r@ =~= seq![
                Move::promotion_spec(from, to, takes, Piece::Knight),
                Move::promotion_spec(from, to, takes, Piece::Bishop),
                Move::promotion_spec(from, to, takes, Piece::Rook { has_moved: true }),
                Move::promotion_spec(from, to, takes, Piece::Queen),
            ],
    {
        [
            Move::promotion(from, to, takes, Piece::Knight),
            Move::promotion(from, to, takes, Piece::Bishop),
            Move::promotion(from, to, takes, Piece::Rook { has_moved: true }),
            Move::promotion(from, to, takes, Piece::Queen),
        ]
    }

    /// What `promotion` returns.
    pub open spec fn promotion_spec(
        from: Square,
        to: Square,
        takes: Option<Piece>,
        promotion: Piece,
    ) -> Move {
        match takes {
            Some(captured) => Move::PromotionCapture { from, to, captured, promoted_to: promotion },
            None => Move::Promotion { from, to, promoted_to: promotion },
        }
    }

    /// Creates a kingside castle.
    pub fn castle_kingside(king_from: Square, king_to: Square, rook_from: Square, rook_to: Square)
        -> (r: Move)
        ensures
            r == (Move::CastleKingside { king_from, king_to, rook_from, rook_to }),
    {
        Move::CastleKingside { king_from, king_to, rook_from, rook_to }
    }

    /// Creates a queenside castle.
    pub fn castle_queenside(king_from: Square, king_to: Square, rook_from: Square, rook_to: Square)
        -> (r: Move)
        ensures
            r == (Move::CastleQueenside { king_from, king_to, rook_from, rook_to }),
    {
        Move::CastleQueenside { king_from, king_to, rook_from, rook_to }
    }

    /// The source square of the move.
    pub fn get_from(&self) -> (r: Square)
        ensures
            r == self.spec_from(),
    {
        match self {
            Move::Normal { from, .. } => *from,
            Move::Capture { from, .. } => *from,
            Move::EnPassant { from, .. } => *from,
            Move::Promotion { from, .. } => *from,
            Move::PromotionCapture { from, .. } => *from,
            Move::CastleKingside { king_from, .. } => *king_from,
            Move::CastleQueenside { king_from, .. } => *king_from,
        }
    }

    /// The destination square of the move.
    pub fn get_to(&self) -> (r: Square)
        ensures
            r == self.spec_to(),
    {
        match self {
            Move::Normal { to, .. } => *to,
            Move::Capture { to, .. } => *to,
            Move::EnPassant { to, .. } => *to,
            Move::Promotion { to, .. } => *to,
            Move::PromotionCapture { to, .. } => *to,
            Move::CastleKingside { king_to, .. } => *king_to,
            Move::CastleQueenside { king_to, .. } => *king_to,
        }
    }

    /// The piece being moved.
    pub fn get_piece(&self) -> (r: Piece)
        ensures
            r == self.spec_piece(),
    {
        match self {
            Move::Normal { piece, .. } => *piece,
            Move::Capture { piece, .. } => *piece,
            Move::EnPassant { .. } => Piece::Pawn,
            Move::Promotion { .. } => Piece::Pawn,
            Move::PromotionCapture { .. } => Piece::Pawn,
            Move::CastleKingside { .. } => Piece::King { has_moved: false },
            Move::CastleQueenside { .. } => Piece::King { has_moved: false },
        }
    }

    /// The captured piece, if any.
    pub fn get_captured(&self) -> (r: Option<Piece>)
        ensures
            r == self.spec_captured(),
    {
        match self {
            Move::Capture { captured, .. } => Some(*captured),
            Move::EnPassant { .. } => Some(Piece::Pawn),
            Move::PromotionCapture { captured, .. } => Some(*captured),
            _ => None,
        }
    }

    /// The promotion piece, if this is a promotion.
    pub fn get_promotion(&self) -> (r: Option<Piece>)
        ensures
            r == match *self {
                Move::Promotion { promoted_to, .. } => Some(promoted_to),
                Move::PromotionCapture { promoted_to, .. } => Some(promoted_to),
                _ => None::<Piece>,
            },
    {
        match self {
            Move::Promotion { promoted_to, .. } => Some(*promoted_to),
            Move::PromotionCapture { promoted_to, .. } => Some(*promoted_to),
            _ => None,
        }
    }

    /// Whether the move takes a piece.
    pub fn takes(&self) -> (r: bool)
        ensures
            r <==> self.spec_captured() is Some,
    {
        matches!(
            self,
            Move::Capture { .. } | Move::EnPassant { .. } | Move::PromotionCapture { .. }
        )
    }

    /// Whether this is an en passant capture.
    pub fn is_en_passant(&self) -> (r: bool)
        ensures
            r <==> self is EnPassant,
    {
        matches!(self, Move::EnPassant { .. })
    }

    /// Whether this is a castle.
    pub fn is_castle(&self) -> (r: bool)
        ensures
            r <==> (self is CastleKingside || self is CastleQueenside),
    {
        matches!(self, Move::CastleKingside { .. } | Move::CastleQueenside { .. })
    }

    /// Whether this is a promotion.
    pub fn is_promotion(&self) -> (r: bool)
        ensures
            r <==> (self is Promotion || self is PromotionCapture),
    {
        matches!(self, Move::Promotion { .. } | Move::PromotionCapture { .. })
    }

    /// What `set_takes` leaves in place: the capturing form of a normal
    /// move or a plain promotion, and every other move unchanged.
    pub open spec fn set_takes_spec(self, piece: Option<Piece>) -> Move {
        match piece {
            Some(captured) => match self {
                Move::Normal { piece: p, from, to } => Move::Capture { piece: p, from, to, captured },
                Move::Promotion { from, to, promoted_to } => Move::PromotionCapture {
                    from,
                    to,
                    captured,
                    promoted_to,
                },
                m => m,
            },
            None => self,
        }
    }

    /// Turns a normal move or a plain promotion into the capturing form;
    /// other moves, and a `takes` of `None`, leave the move unchanged.
    pub fn set_takes(&mut self, piece: Option<Piece>)
        ensures
            *final(self) == old(self).set_takes_spec(piece),
    {
        if let Some(captured) = piece {
            match *self {
                Move::Normal { piece: p, from, to } => {
                    *self = Move::Capture { piece: p, from, to, captured };
                },
                Move::Promotion { from, to, promoted_to } => {
                    *self = Move::PromotionCapture { from, to, captured, promoted_to };
                },
                _ => {},
            }
        }
    }
}

/// The letter of a piece in move notation; pawns have none.
pub open spec fn spec_piece_letter(p: Piece) -> Seq<char> {
    match p {
        Piece::Pawn => Seq::empty(),
        Piece::Knight => seq!['N'],
        Piece::Bishop => seq!['B'],
        Piece::Rook { .. } => seq!['R'],
        Piece::Queen => seq!['Q'],
        Piece::King { .. } => seq!['K'],
    }
}

/// The display rendering of a move, close to algebraic notation: piece
/// letter, source square, `x` for captures, destination square, `=` and a
/// letter for promotions, `O-O` and `O-O-O` for the castles, and an
/// `e.p.` suffix for en passant.  Display only; it is not parsed back.
pub open spec fn spec_notation(m: Move) -> Seq<char> {
    match m {
        Move::Normal { piece, from, to } => spec_piece_letter(piece) + spec_square_name(
            from.as_int(),
        ) + spec_square_name(to.as_int()),
        Move::Capture { piece, from, to, .. } => spec_piece_letter(piece) + spec_square_name(
            from.as_int(),
        ) + seq!['x'] + spec_square_name(to.as_int()),
        Move::EnPassant { from, to } => spec_square_name(from.as_int()) + seq!['x']
            + spec_square_name(to.as_int()) + seq![' ', 'e', '.', 'p', '.'],
        Move::Promotion { from, to, promoted_to } => spec_square_name(from.as_int())
            + spec_square_name(to.as_int()) + seq!['='] + spec_piece_letter(promoted_to),
        Move::PromotionCapture { from, to, promoted_to, .. } => spec_square_name(from.as_int())
            + seq!['x'] + spec_square_name(to.as_int()) + seq!['='] + spec_piece_letter(
            promoted_to,
        ),
        Move::CastleKingside { .. } => seq!['O', '-', 'O'],
        Move::CastleQueenside { .. } => seq!['O', '-', 'O', '-', 'O'],
    }
}

impl Move {
    /// Renders the move for display, close to algebraic notation.
    pub fn notation(&self) -> (r: String)
        ensures
            r@ == spec_notation(*self),
    {
        let mut s = String::new();
        match self {
            Move::Normal { piece, from, to } => {
                s.push_str(piece.chess_notation());
                s.push_str(from.name().as_str());
                s.push_str(to.name().as_str());
            },
            Move::Capture { piece, from, to, .. } => {
                s.push_str(piece.chess_notation());
                s.push_str(from.name().as_str());
                s.push('x');
                s.push_str(to.name().as_str());
            },
            Move::EnPassant { from, to } => {
                s.push_str(from.name().as_str());
                s.push('x');
                s.push_str(to.name().as_str());
                s.push(' ');
                s.push('e');
                s.push('.');
                s.push('p');
                s.push('.');
            },
            Move::Promotion { from, to, promoted_to } => {
                s.push_str(from.name().as_str());
                s.push_str(to.name().as_str());
                s.push('=');
                s.push_str(promoted_to.chess_notation());
            },
            Move::PromotionCapture { from, to, promoted_to, .. } => {
                s.push_str(from.name().as_str());
                s.push('x');
                s.push_str(to.name().as_str());
                s.push('=');
                s.push_str(promoted_to.chess_notation());
            },
            Move::CastleKingside { .. } => {
                s.push('O');
                s.push('-');
                s.push('O');
            },
            Move::CastleQueenside { .. } => {
                s.push('O');
                s.push('-');
                s.push('O');
                s.push('-');
                s.push('O');
            },
        }
        proof {
            reveal_strlit("");
            reveal_strlit("N");
            reveal_strlit("B");
            reveal_strlit("R");
            reveal_strlit("Q");
            reveal_strlit("K");
            assert(s@ =~= spec_notation(*self));
        }
        s
    }
}

} // verus!
