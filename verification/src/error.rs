//! Error taxonomy for square construction and move execution.

use crate::chess_move::Move;
use crate::piece::{Color, Piece};
use crate::square::Square;
use vstd::prelude::*;

verus! {

/// A move that `Game::execute_move` refuses, together with why.
#[derive(Debug, Clone, Copy, PartialEq, Eq, Structural)]
pub enum IllegalMoveError {
    /// The source square holds no piece.
    EmptySquare { square: Square },
    /// The move would leave the mover's king attacked, or a castle departs
    /// from, crosses or enters an attacked square.
    IsInCheck,
    /// The geometry is wrong for the piece kind.
    MoveInvalid { mv: Move },
    /// The source piece belongs to the other side.
    NotYourPiece { color: Color, square: Square },
    /// The piece on the source square does not match the move's piece kind.
    DifferentPiece { expected: Piece, found: Piece },
    /// The destination holds a friendly piece.
    TakesOwnPiece { mv: Move, piece: Piece },
    /// A pawn capture aimed at an empty square that is no valid en passant.
    TakesEmptySquare { mv: Move, square: Square },
    /// An intermediate square is occupied where it must be empty.
    Blocked { mv: Move, square: Square },
}

/// Top-level error of the engine.
#[derive(Debug, Clone, Copy, PartialEq, Eq, Structural)]
pub enum ChessError {
    /// A square index outside `[0, 63]`.
    InvalidSquare { square: u8 },
    /// A move that the rules refuse.
    IllegalMove { e: IllegalMoveError },
}

} // verus!
