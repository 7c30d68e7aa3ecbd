//! The game state and the legality gate.
//!
//! A `Game` holds the position, the move history and the side to move,
//! next to the attack tables it consults.  `execute_move` validates a
//! candidate move as a strict sequence of checks; any failure returns a
//! specific error and leaves the game unchanged, and a successful move is
//! applied, recorded in the history, and flips the side to move.

use crate::attack_tables::AttackTables;
use crate::bits::bit64;
use crate::board::{initial_cell, king_in_check_view, BitBoard};
use crate::chess_move::Move;
use crate::error::IllegalMoveError;
use crate::mask::{square_bit, BoardMask};
use crate::move_logic::{bishop_attacks, king_attacks, knight_attacks, queen_attacks, rook_attacks};
use crate::piece::{Color, Piece};
use crate::square::{File, Square};
use vstd::prelude::*;

verus! {

/// How an admitted move acts on the board.
enum MoveAction {
    /// Move the piece, capturing whatever stands on the destination.
    Standard,
    /// Take the pawn that just double-pushed past the destination.
    PassingCapture,
    /// Castle toward the h-file.
    CastleShort,
    /// Castle toward the a-file.
    CastleLong,
}

/// The complete state of a chess game.
pub struct Game {
    /// The current position.
    pub board: BitBoard,
    /// The moves played so far, in order of execution.
    pub moves: Vec<Move>,
    /// The side to move.
    pub turn: Color,
    /// The attack tables the legality gate consults.
    pub tables: AttackTables,
}

/// The history enables an en passant capture from square `s` to square
/// `t`: the previous move was a pawn double push whose source file is the
/// capture's destination file and whose destination rank is the capturing
/// pawn's rank.
pub open spec fn ep_enabled(hist: Seq<Move>, s: int, t: int) -> bool {
    &&& hist.len() > 0
    &&& {
        let m = hist.last();
        let ms = m.spec_from().as_int();
        let mt = m.spec_to().as_int();
        &&& m.spec_piece() is Pawn
        &&& (mt / 8 - ms / 8 == 2 || mt / 8 - ms / 8 == -2)
        &&& ms % 8 == t % 8
        &&& mt / 8 == s / 8
    }
}

impl Game {
    /// The position keeps its two representations in agreement.
    pub open spec fn wf(self) -> bool {
        self.board.wf()
    }

    /// What the pawn gate answers: `None` for a legal pawn move of the
    /// side to move from `s` to `t`, else the exact error.
    pub open spec fn pawn_gate(self, mv: Move) -> Option<IllegalMoveError> {
        let s = mv.spec_from().as_int();
        let t = mv.spec_to().as_int();
        let white = self.turn is White;
        let h: int = if white {
            1
        } else {
            -1
        };
        let dr = t / 8 - s / 8;
        let df = t % 8 - s % 8;
        if dr > 2 || dr < -2 || (white && dr <= 0) || (!white && dr >= 0) {
            Some(IllegalMoveError::MoveInvalid { mv })
        } else if dr == 2 * h {
            if df != 0 {
                Some(IllegalMoveError::MoveInvalid { mv })
            } else if s / 8 != (if white {
                1int
            } else {
                6int
            }) {
                Some(IllegalMoveError::MoveInvalid { mv })
            } else if self.board.cell(s + 8 * h) is Some {
                Some(
                    IllegalMoveError::Blocked { mv, square: Square::from_int(s + 8 * h) },
                )
            } else if self.board.cell(t) is Some {
                Some(IllegalMoveError::Blocked { mv, square: mv.spec_to() })
            } else {
                None
            }
        } else {
            // dr == h
            if df == 0 {
                if self.board.cell(t) is Some {
                    Some(IllegalMoveError::MoveInvalid { mv })
                } else {
                    None
                }
            } else if df == 1 || df == -1 {
                if ep_enabled(self.moves@, s, t) {
                    None
                } else if self.board.cell(t) is None {
                    Some(IllegalMoveError::TakesEmptySquare { mv, square: mv.spec_to() })
                } else {
                    None
                }
            } else {
                Some(IllegalMoveError::MoveInvalid { mv })
            }
        }
    }

    /// What the kingside-castle gate answers for a king on `s` moving two
    /// files toward the h-file.
    pub open spec fn short_castle_gate(self, mv: Move) -> Option<IllegalMoveError> {
        let s = mv.spec_from().as_int();
        let r0 = s / 8;
        let rook_sq = 8 * r0 + 7;
        let f_sq = 8 * r0 + 5;
        let g_sq = 8 * r0 + 6;
        match self.board.cell(rook_sq) {
            None => Some(
                IllegalMoveError::EmptySquare { square: Square::from_int(rook_sq) },
            ),
            Some((pc, col)) => {
                if col != self.turn {
                    Some(
                        IllegalMoveError::NotYourPiece {
                            color: col,
                            square: Square::from_int(rook_sq),
                        },
                    )
                } else if pc == (Piece::Rook { has_moved: true }) {
                    Some(IllegalMoveError::MoveInvalid { mv })
                } else if !(pc is Rook) {
                    Some(
                        IllegalMoveError::DifferentPiece {
                            expected: Piece::Rook { has_moved: false },
                            found: pc,
                        },
                    )
                } else if self.board.spec_controlled(s, self.turn.spec_opposite()) {
                    Some(IllegalMoveError::IsInCheck)
                } else if self.board.cell(f_sq) is Some || self.board.cell(g_sq) is Some {
                    Some(IllegalMoveError::Blocked { mv, square: mv.spec_to() })
                } else if self.board.spec_controlled(f_sq, self.turn.spec_opposite())
                    || self.board.spec_controlled(g_sq, self.turn.spec_opposite()) {
                    Some(IllegalMoveError::IsInCheck)
                } else {
                    None
                }
            },
        }
    }

    /// What the queenside-castle gate answers for a king on `s` moving two
    /// files toward the a-file.
    pub open spec fn long_castle_gate(self, mv: Move) -> Option<IllegalMoveError> {
        let s = mv.spec_from().as_int();
        let r0 = s / 8;
        let rook_sq = 8 * r0;
        let b_sq = 8 * r0 + 1;
        let c_sq = 8 * r0 + 2;
        let d_sq = 8 * r0 + 3;
        match self.board.cell(rook_sq) {
            None => Some(
                IllegalMoveError::EmptySquare { square: Square::from_int(rook_sq) },
            ),
            Some((pc, col)) => {
                if col != self.turn {
                    Some(
                        IllegalMoveError::NotYourPiece {
                            color: col,
                            square: Square::from_int(rook_sq),
                        },
                    )
                } else if pc == (Piece::Rook { has_moved: true }) {
                    Some(IllegalMoveError::MoveInvalid { mv })
                } else if !(pc is Rook) {
                    Some(
                        IllegalMoveError::DifferentPiece {
                            expected: Piece::Rook { has_moved: false },
                            found: pc,
                        },
                    )
                } else if self.board.cell(b_sq) is Some || self.board.cell(c_sq) is Some
                    || self.board.cell(d_sq) is Some {
                    Some(IllegalMoveError::Blocked { mv, square: mv.spec_to() })
                } else if self.board.spec_controlled(s, self.turn.spec_opposite()) {
                    Some(IllegalMoveError::IsInCheck)
                } else if self.board.spec_controlled(c_sq, self.turn.spec_opposite())
                    || self.board.spec_controlled(d_sq, self.turn.spec_opposite()) {
                    Some(IllegalMoveError::IsInCheck)
                } else {
                    None
                }
            },
        }
    }

    /// The geometry gate of the piece standing on the source square.
    pub open spec fn piece_gate(self, mv: Move, p: Piece) -> Option<IllegalMoveError> {
        let s = mv.spec_from().as_int();
        let t = mv.spec_to().as_int();
        let dr = t / 8 - s / 8;
        let df = t % 8 - s % 8;
        match p {
            Piece::Pawn => self.pawn_gate(mv),
            Piece::King { has_moved } => {
                if dr > 1 || dr < -1 {
                    Some(IllegalMoveError::MoveInvalid { mv })
                } else if df > 2 || df < -2 {
                    Some(IllegalMoveError::MoveInvalid { mv })
                } else if df == 2 || df == -2 {
                    if has_moved || dr != 0 {
                        Some(IllegalMoveError::MoveInvalid { mv })
                    } else if df == -2 {
                        self.long_castle_gate(mv)
                    } else {
                        self.short_castle_gate(mv)
                    }
                } else {
                    None
                }
            },
            Piece::Knight => if bit64(knight_attacks(s), t as u64) {
                None
            } else {
                Some(IllegalMoveError::MoveInvalid { mv })
            },
            Piece::Bishop => if bit64(bishop_attacks(s, self.board.occupancy.0), t as u64) {
                None
            } else {
                Some(IllegalMoveError::MoveInvalid { mv })
            },
            Piece::Rook { .. } => if bit64(rook_attacks(s, self.board.occupancy.0), t as u64) {
                None
            } else {
                Some(IllegalMoveError::MoveInvalid { mv })
            },
            Piece::Queen => if bit64(rook_attacks(s, self.board.occupancy.0), t as u64) || bit64(
                bishop_attacks(s, self.board.occupancy.0),
                t as u64,
            ) {
                None
            } else {
                Some(IllegalMoveError::MoveInvalid { mv })
            },
        }
    }

    /// The full gate short of king safety: `None` when the move may be
    /// applied, else the exact error, following the strict check order.
    pub open spec fn spec_gate(self, mv: Move) -> Option<IllegalMoveError> {
        let s = mv.spec_from().as_int();
        let t = mv.spec_to().as_int();
        match self.board.cell(s) {
            None => Some(IllegalMoveError::EmptySquare { square: mv.spec_from() }),
            Some((p, c)) => {
                if !p.spec_same_kind(mv.spec_piece()) {
                    Some(
                        IllegalMoveError::DifferentPiece { expected: mv.spec_piece(), found: p },
                    )
                } else if c != self.turn {
                    Some(IllegalMoveError::NotYourPiece { color: c, square: mv.spec_from() })
                } else {
                    match self.board.cell(t) {
                        Some((q, cq)) => if cq == c {
                            Some(IllegalMoveError::TakesOwnPiece { mv, piece: q })
                        } else {
                            self.piece_gate(mv, p)
                        },
                        None => self.piece_gate(mv, p),
                    }
                }
            },
        }
    }

    /// The applied move is a castle: a king moving two files.
    pub open spec fn castle_geometry(self, mv: Move) -> bool {
        let s = mv.spec_from().as_int();
        let t = mv.spec_to().as_int();
        let df = t % 8 - s % 8;
        match self.board.cell(s) {
            Some((p, _)) => p is King && (df == 2 || df == -2),
            None => false,
        }
    }

    /// The applied move is an en passant capture: a diagonal pawn step the
    /// history enables.
    pub open spec fn ep_geometry(self, mv: Move) -> bool {
        let s = mv.spec_from().as_int();
        let t = mv.spec_to().as_int();
        let df = t % 8 - s % 8;
        match self.board.cell(s) {
            Some((p, _)) => p is Pawn && (df == 1 || df == -1) && ep_enabled(self.moves@, s, t),
            None => false,
        }
    }

    /// The cells after an admitted move is applied.
    pub open spec fn apply_cells(self, mv: Move) -> Seq<Option<(Piece, Color)>> {
        let s = mv.spec_from().as_int();
        let t = mv.spec_to().as_int();
        let cells = self.board.board@;
        match self.board.cell(s) {
            None => cells,
            Some((p, c)) => {
                if self.castle_geometry(mv) {
                    let r0 = s / 8;
                    let rf = if t % 8 - s % 8 == 2 {
                        8 * r0 + 7
                    } else {
                        8 * r0
                    };
                    let rt = if t % 8 - s % 8 == 2 {
                        8 * r0 + 5
                    } else {
                        8 * r0 + 3
                    };
                    cells.update(s, None).update(t, Some((p.spec_moved(), c))).update(
                        rf,
                        None,
                    ).update(rt, Some((Piece::Rook { has_moved: true }, c)))
                } else if self.ep_geometry(mv) {
                    cells.update(s, None).update(t, Some((p, c))).update(8 * (s / 8) + t % 8, None)
                } else {
                    let placed = match mv {
                        Move::Promotion { promoted_to, .. } => promoted_to.spec_moved(),
                        Move::PromotionCapture { promoted_to, .. } => promoted_to.spec_moved(),
                        _ => p.spec_moved(),
                    };
                    cells.update(s, None).update(t, Some((placed, c)))
                }
            },
        }
    }

    /// The occupancy after an admitted move is applied.
    pub open spec fn apply_occ(self, mv: Move) -> u64 {
        let s = mv.spec_from().as_int();
        let t = mv.spec_to().as_int();
        let occ = self.board.occupancy.0;
        if self.castle_geometry(mv) {
            let r0 = s / 8;
            let rf = if t % 8 - s % 8 == 2 {
                8 * r0 + 7
            } else {
                8 * r0
            };
            let rt = if t % 8 - s % 8 == 2 {
                8 * r0 + 5
            } else {
                8 * r0 + 3
            };
            (((occ & !square_bit(mv.spec_from())) | square_bit(mv.spec_to())) & !square_bit(
                Square::from_int(rf),
            )) | square_bit(Square::from_int(rt))
        } else if self.ep_geometry(mv) {
            ((occ & !square_bit(mv.spec_from())) | square_bit(mv.spec_to())) & !square_bit(
                Square::from_int(8 * (s / 8) + t % 8),
            )
        } else {
            (occ & !square_bit(mv.spec_from())) | square_bit(mv.spec_to())
        }
    }

    /// The move as the history records it: the capture it actually made is
    /// written into it.
    pub open spec fn recorded_move(self, mv: Move) -> Move {
        let t = mv.spec_to().as_int();
        if self.castle_geometry(mv) {
            mv
        } else if self.ep_geometry(mv) {
            mv.set_takes_spec(Some(Piece::Pawn))
        } else {
            mv.set_takes_spec(
                match self.board.cell(t) {
                    Some((q, _)) => Some(q),
                    None => None,
                },
            )
        }
    }

    /// What `execute_move` answers: the first failed check's error, or
    /// `IsInCheck` when
    /// the applied move would leave the mover's own king attacked, or
    /// success.
    pub open spec fn spec_execute(self, mv: Move) -> Result<(), IllegalMoveError> {
        match self.spec_gate(mv) {
            Some(e) => Err(e),
            None => if king_in_check_view(self.apply_cells(mv), self.apply_occ(mv), self.turn) {
                Err(IllegalMoveError::IsInCheck)
            } else {
                Ok(())
            },
        }
    }

    /// A fresh game: the standard starting position, white to move, no
    /// history, playing on the given tables.
    pub fn init(tables: AttackTables) -> (r: Game)
        ensures
            r.wf(),
            forall|i: int| 0 <= i < 64 ==> #[trigger] r.board.cell(i) == initial_cell(i),
            r.moves@ =~= Seq::<Move>::empty(),
            r.turn == Color::White,
    {
        Game { board: BitBoard::init(), moves: Vec::new(), turn: Color::White, tables }
    }

    /// The last move played, if any.
    pub fn previous_move(&self) -> (r: Option<Move>)
        ensures
            r == if self.moves@.len() > 0 {
                Some(self.moves@.last())
            } else {
                None::<Move>
            },
    {
        if self.moves.len() > 0 {
            Some(self.moves[self.moves.len() - 1])
        } else {
            None
        }
    }

    /// Validates and executes a candidate move.
    ///
    /// A failure returns the exact error of the strict check sequence and
    /// leaves the game untouched; success applies the move, appends it to
    /// the history with its actual capture recorded, and flips the side to
    /// move.
    pub fn execute_move(&mut self, mv: Move) -> (r: Result<(), IllegalMoveError>)
        requires
            old(self).wf(),
        ensures
            final(self).wf(),
            r == old(self).spec_execute(mv),
            r is Err ==> *final(self) == *old(self),
            r is Ok ==> final(self).board.board@ == old(self).apply_cells(mv),
            r is Ok ==> final(self).board.occupancy.0 == old(self).apply_occ(mv),
            r is Ok ==> final(self).moves@ == old(self).moves@.push(old(self).recorded_move(mv)),
            r is Ok ==> final(self).turn == old(self).turn.spec_opposite(),
            r is Ok ==> final(self).tables == old(self).tables,
    {
        let from = mv.get_from();
        let to = mv.get_to();
        let (p, c) = match self.board.get_piece_on_square(from) {
            Some(pc) => pc,
            None => {
                return Err(IllegalMoveError::EmptySquare { square: from });
            },
        };
        if !p.same_kind(&mv.get_piece()) {
            return Err(IllegalMoveError::DifferentPiece { expected: mv.get_piece(), found: p });
        }
        if c != self.turn {
            return Err(IllegalMoveError::NotYourPiece { color: c, square: from });
        }
        if let Some((q, cq)) = self.board.get_piece_on_square(to) {
            if cq == c {
                return Err(IllegalMoveError::TakesOwnPiece { mv, piece: q });
            }
        }
        let dr = from.get_delta_rank(to);
        let df = from.get_delta_file(to);
        let action: MoveAction = match p {
            Piece::Pawn => {
                match self.pawn_move_gate(mv, from, to, dr, df) {
                    Ok(a) => a,
                    Err(e) => {
                        return Err(e);
                    },
                }
            },
            Piece::King { has_moved } => {
                if dr > 1 || dr < -1 {
                    return Err(IllegalMoveError::MoveInvalid { mv });
                }
                if df > 2 || df < -2 {
                    return Err(IllegalMoveError::MoveInvalid { mv });
                }
                if df == 2 || df == -2 {
                    if has_moved || dr != 0 {
                        return Err(IllegalMoveError::MoveInvalid { mv });
                    }
                    if df == -2 {
                        match self.long_castle(mv, from) {
                            Ok(()) => MoveAction::CastleLong,
                            Err(e) => {
                                return Err(e);
                            },
                        }
                    } else {
                        match self.short_castle(mv, from) {
                            Ok(()) => MoveAction::CastleShort,
                            Err(e) => {
                                return Err(e);
                            },
                        }
                    }
                } else {
                    MoveAction::Standard
                }
            },
            Piece::Knight => {
                let pattern = self.tables.get_attack_pattern_knight(from);
                if !pattern.contains(to) {
                    return Err(IllegalMoveError::MoveInvalid { mv });
                }
                MoveAction::Standard
            },
            Piece::Bishop => {
                let pattern = self.tables.get_attack_pattern_bishop(from, self.board.occupancy);
                if !pattern.contains(to) {
                    return Err(IllegalMoveError::MoveInvalid { mv });
                }
                MoveAction::Standard
            },
            Piece::Rook { .. } => {
                let pattern = self.tables.get_attack_pattern_rook(from, self.board.occupancy);
                if !pattern.contains(to) {
                    return Err(IllegalMoveError::MoveInvalid { mv });
                }
                MoveAction::Standard
            },
            Piece::Queen => {
                let pattern = self.tables.get_attack_pattern_queen(from, self.board.occupancy);
                proof {
                    crate::bits::lemma_bit_or(
                        rook_attacks(from.as_int(), self.board.occupancy.0),
                        bishop_attacks(from.as_int(), self.board.occupancy.0),
                        to.as_int() as u64,
                    );
                }
                if !pattern.contains(to) {
                    return Err(IllegalMoveError::MoveInvalid { mv });
                }
                MoveAction::Standard
            },
        };
        // every check succeeded: apply the move to a scratch copy, test
        // king safety there, and only then commit
        let mut nb = self.board.snapshot();
        proof {
            assert forall|i: int|
                0 <= i < 64 implies ((#[trigger] nb.cell(i)) is Some <==> bit64(
                nb.occupancy.0,
                i as u64,
            )) by {
                assert(self.board.cell(i) is Some <==> bit64(self.board.occupancy.0, i as u64));
                assert(nb.cell(i) == self.board.cell(i));
            }
            assert(nb.wf());
        }
        let mut recorded = mv;
        match action {
            MoveAction::CastleShort | MoveAction::CastleLong => {
                let r0 = from.get_rank();
                let (rook_from, rook_to) = match action {
                    MoveAction::CastleShort => (
                        Square::from_rank_file(r0, File::H),
                        Square::from_rank_file(r0, File::F),
                    ),
                    _ => (Square::from_rank_file(r0, File::A), Square::from_rank_file(r0, File::D)),
                };
                let mut king = p;
                king.make_moved();
                let _ = nb.remove_piece_from_square(from);
                let _ = nb.place_piece_on_square(king, c, to);
                let _ = nb.remove_piece_from_square(rook_from);
                let _ = nb.place_piece_on_square(Piece::Rook { has_moved: true }, c, rook_to);
            },
            MoveAction::PassingCapture => {
                let cap_sq = Square::from_rank_file(from.get_rank(), to.get_file());
                let _ = nb.remove_piece_from_square(from);
                let _ = nb.place_piece_on_square(p, c, to);
                let _ = nb.remove_piece_from_square(cap_sq);
                recorded.set_takes(Some(Piece::Pawn));
            },
            MoveAction::Standard => {
                let mut placed = match mv.get_promotion() {
                    Some(promo) => promo,
                    None => p,
                };
                placed.make_moved();
                let _ = nb.remove_piece_from_square(from);
                let taken = nb.place_piece_on_square(placed, c, to);
                let takes = match taken {
                    Some((q, _)) => Some(q),
                    None => None,
                };
                recorded.set_takes(takes);
            },
        }
        proof {
            let g0 = *old(self);
            let s = mv.spec_from().as_int();
            let t = mv.spec_to().as_int();
            assert(s != t);
            match action {
                MoveAction::CastleShort => {
                    assert(g0.castle_geometry(mv));
                    assert(nb.board@ =~= g0.apply_cells(mv));
                    assert(nb.occupancy.0 == g0.apply_occ(mv));
                    assert(recorded == g0.recorded_move(mv));
                },
                MoveAction::CastleLong => {
                    assert(g0.castle_geometry(mv));
                    assert(nb.board@ =~= g0.apply_cells(mv));
                    assert(nb.occupancy.0 == g0.apply_occ(mv));
                    assert(recorded == g0.recorded_move(mv));
                },
                MoveAction::PassingCapture => {
                    assert(g0.ep_geometry(mv));
                    assert(!g0.castle_geometry(mv));
                    assert(nb.board@ =~= g0.apply_cells(mv));
                    assert(nb.occupancy.0 == g0.apply_occ(mv));
                    assert(recorded == g0.recorded_move(mv));
                },
                MoveAction::Standard => {
                    assert(!g0.castle_geometry(mv));
                    assert(!g0.ep_geometry(mv));
                    assert(nb.board@ =~= g0.apply_cells(mv));
                    assert(nb.occupancy.0 == g0.apply_occ(mv));
                    assert(recorded == g0.recorded_move(mv));
                },
            }
        }
        if nb.is_in_check(self.turn, &self.tables) {
            return Err(IllegalMoveError::IsInCheck);
        }
        self.board = nb;
        self.moves.push(recorded);
        self.turn = self.turn.opposite();
        Ok(())
    }

    /// The pawn leg of the legality checks: direction, single and double
    /// pushes, diagonal captures and en passant.
    fn pawn_move_gate(&self, mv: Move, from: Square, to: Square, dr: i8, df: i8) -> (r: Result<
        MoveAction,
        IllegalMoveError,
    >)
        requires
            self.wf(),
            self.board.cell(mv.spec_from().as_int()) matches Some((p, c)) && p is Pawn && c
                == self.turn,
            from == mv.spec_from(),
            to == mv.spec_to(),
            dr == to.as_int() / 8 - from.as_int() / 8,
            df == to.as_int() % 8 - from.as_int() % 8,
        ensures
            r matches Err(e) ==> self.pawn_gate(mv) == Some(e),
            r is Ok ==> self.pawn_gate(mv) is None,
            r == Ok::<MoveAction, IllegalMoveError>(MoveAction::PassingCapture) <==> (self.pawn_gate(
                mv,
            ) is None && self.ep_geometry(mv)),
            r is Ok ==> !self.castle_geometry(mv),
            r matches Ok(a) ==> (a is PassingCapture || a is Standard),
    {
        let white = self.turn.is_white();
        let h: i8 = if white {
            1
        } else {
            -1
        };
        if dr > 2 || dr < -2 || (white && dr <= 0) || (!white && dr >= 0) {
            return Err(IllegalMoveError::MoveInvalid { mv });
        }
        if dr == 2 * h {
            if df != 0 {
                return Err(IllegalMoveError::MoveInvalid { mv });
            }
            let start_rank: u8 = if white {
                1
            } else {
                6
            };
            if from.vertical() != start_rank {
                return Err(IllegalMoveError::MoveInvalid { mv });
            }
            let mid = match from.move_on_file(h) {
                Ok(sq) => sq,
                Err(_) => {
                    proof {
                        assert(false);
                    }
                    return Err(IllegalMoveError::MoveInvalid { mv });
                },
            };
            if self.board.is_occupied(mid) {
                return Err(IllegalMoveError::Blocked { mv, square: mid });
            }
            if self.board.is_occupied(to) {
                return Err(IllegalMoveError::Blocked { mv, square: to });
            }
            return Ok(MoveAction::Standard);
        }
        // dr == h from here on
        if df == 0 {
            if self.board.is_occupied(to) {
                return Err(IllegalMoveError::MoveInvalid { mv });
            }
            return Ok(MoveAction::Standard);
        }
        if df == 1 || df == -1 {
            if self.ep_possible(from, to) {
                return Ok(MoveAction::PassingCapture);
            }
            if !self.board.is_occupied(to) {
                return Err(IllegalMoveError::TakesEmptySquare { mv, square: to });
            }
            return Ok(MoveAction::Standard);
        }
        Err(IllegalMoveError::MoveInvalid { mv })
    }

    /// Whether the history enables an en passant capture from `from` to
    /// `to`.
    fn ep_possible(&self, from: Square, to: Square) -> (r: bool)
        ensures
            r == ep_enabled(self.moves@, from.as_int(), to.as_int()),
    {
        if self.moves.len() == 0 {
            return false;
        }
        let m = self.moves[self.moves.len() - 1];
        let mdr = m.get_from().get_delta_rank(m.get_to());
        m.get_piece().is_pawn() && (mdr == 2 || mdr == -2) && m.get_from().horizontal()
            == to.horizontal() && m.get_to().vertical() == from.vertical()
    }

    /// The kingside-castle gate: an unmoved rook in the corner, the path
    /// empty, and neither the king's square nor the squares it crosses or
    /// enters attacked.
    fn short_castle(&self, mv: Move, from: Square) -> (r: Result<(), IllegalMoveError>)
        requires
            self.wf(),
            from == mv.spec_from(),
        ensures
            r matches Err(e) ==> self.short_castle_gate(mv) == Some(e),
            r is Ok ==> self.short_castle_gate(mv) is None,
    {
        let r0 = from.get_rank();
        let rook_sq = Square::from_rank_file(r0, File::H);
        let (pc, col) = match self.board.get_piece_on_square(rook_sq) {
            Some(v) => v,
            None => {
                return Err(IllegalMoveError::EmptySquare { square: rook_sq });
            },
        };
        if col != self.turn {
            return Err(IllegalMoveError::NotYourPiece { color: col, square: rook_sq });
        }
        match pc {
            Piece::Rook { has_moved: true } => {
                return Err(IllegalMoveError::MoveInvalid { mv });
            },
            Piece::Rook { has_moved: false } => {},
            _ => {
                return Err(
                    IllegalMoveError::DifferentPiece {
                        expected: Piece::Rook { has_moved: false },
                        found: pc,
                    },
                );
            },
        }
        let opponent = self.turn.opposite();
        if self.board.square_is_controlled_by(from, opponent, &self.tables) {
            return Err(IllegalMoveError::IsInCheck);
        }
        let f_sq = Square::from_rank_file(r0, File::F);
        let g_sq = Square::from_rank_file(r0, File::G);
        if self.board.is_occupied(f_sq) || self.board.is_occupied(g_sq) {
            return Err(IllegalMoveError::Blocked { mv, square: mv.get_to() });
        }
        if self.board.square_is_controlled_by(f_sq, opponent, &self.tables)
            || self.board.square_is_controlled_by(g_sq, opponent, &self.tables) {
            return Err(IllegalMoveError::IsInCheck);
        }
        Ok(())
    }

    /// The queenside-castle gate.
    fn long_castle(&self, mv: Move, from: Square) -> (r: Result<(), IllegalMoveError>)
        requires
            self.wf(),
            from == mv.spec_from(),
        ensures
            r matches Err(e) ==> self.long_castle_gate(mv) == Some(e),
            r is Ok ==> self.long_castle_gate(mv) is None,
    {
        let r0 = from.get_rank();
        let rook_sq = Square::from_rank_file(r0, File::A);
        let (pc, col) = match self.board.get_piece_on_square(rook_sq) {
            Some(v) => v,
            None => {
                return Err(IllegalMoveError::EmptySquare { square: rook_sq });
            },
        };
        if col != self.turn {
            return Err(IllegalMoveError::NotYourPiece { color: col, square: rook_sq });
        }
        match pc {
            Piece::Rook { has_moved: true } => {
                return Err(IllegalMoveError::MoveInvalid { mv });
            },
            Piece::Rook { has_moved: false } => {},
            _ => {
                return Err(
                    IllegalMoveError::DifferentPiece {
                        expected: Piece::Rook { has_moved: false },
                        found: pc,
                    },
                );
            },
        }
        let b_sq = Square::from_rank_file(r0, File::B);
        let c_sq = Square::from_rank_file(r0, File::C);
        let d_sq = Square::from_rank_file(r0, File::D);
        if self.board.is_occupied(b_sq) || self.board.is_occupied(c_sq) || self.board.is_occupied(
            d_sq,
        ) {
            return Err(IllegalMoveError::Blocked { mv, square: mv.get_to() });
        }
        let opponent = self.turn.opposite();
        if self.board.square_is_controlled_by(from, opponent, &self.tables) {
            return Err(IllegalMoveError::IsInCheck);
        }
        if self.board.square_is_controlled_by(c_sq, opponent, &self.tables)
            || self.board.square_is_controlled_by(d_sq, opponent, &self.tables) {
            return Err(IllegalMoveError::IsInCheck);
        }
        Ok(())
    }
}

impl Game {
    /// The moves a piece of the side to move generates from the squares of
    /// an attack pattern, taken in ascending square order below `n`: empty
    /// squares give normal moves, enemy pieces captures, own pieces
    /// nothing.
    pub open spec fn mask_moves_upto(self, pattern: u64, from: Square, p: Piece, n: nat) -> Seq<
        Move,
    >
        decreases n,
    {
        if n == 0 {
            Seq::empty()
        } else {
            let t = (n - 1) as int;
            self.mask_moves_upto(pattern, from, p, (n - 1) as nat) + if bit64(
                pattern,
                t as u64,
            ) {
                match self.board.cell(t) {
                    Some((q, cq)) => if cq == self.turn {
                        Seq::empty()
                    } else {
                        seq![Move::Capture { piece: p, from, to: Square::from_int(t), captured: q }]
                    },
                    None => seq![Move::Normal { piece: p, from, to: Square::from_int(t) }],
                }
            } else {
                Seq::empty()
            }
        }
    }

    /// The four promotion moves, in the fixed knight, bishop, rook, queen
    /// order.
    pub open spec fn promo_seq(from: Square, to: Square, takes: Option<Piece>) -> Seq<Move> {
        seq![
            Move::promotion_spec(from, to, takes, Piece::Knight),
            Move::promotion_spec(from, to, takes, Piece::Bishop),
            Move::promotion_spec(from, to, takes, Piece::Rook { has_moved: true }),
            Move::promotion_spec(from, to, takes, Piece::Queen),
        ]
    }

    /// The capture moves of a pawn of color `c` on `from` aimed at `to`:
    /// promotions on the last rank, nothing on an empty or friendly
    /// square.
    pub open spec fn pawn_capture_moves(self, from: Square, to: Square, c: Color) -> Seq<Move> {
        let t = to.as_int();
        match self.board.cell(t) {
            Some((q, cq)) => if cq == c {
                Seq::empty()
            } else if t / 8 == 0 || t / 8 == 7 {
                Game::promo_seq(from, to, Some(q))
            } else {
                seq![Move::Capture { piece: Piece::Pawn, from, to, captured: q }]
            },
            None => Seq::empty(),
        }
    }

    /// The history lets the pawn on `s` capture en passant: the previous
    /// move was a double pawn push landing beside it.
    pub open spec fn ep_enum_enabled(self, s: int) -> bool {
        &&& self.moves@.len() > 0
        &&& {
            let m = self.moves@.last();
            let ms = m.spec_from().as_int();
            let mt = m.spec_to().as_int();
            &&& m.spec_piece() is Pawn
            &&& (mt / 8 - ms / 8 == 2 || mt / 8 - ms / 8 == -2)
            &&& mt / 8 == s / 8
            &&& (s % 8 - mt % 8 == 1 || s % 8 - mt % 8 == -1)
        }
    }

    /// The moves of a pawn of color `c` standing on `from`: single and
    /// double advances with promotions, the two diagonal captures, and en
    /// passant, in that order.  A pawn on the back rank generates nothing.
    pub open spec fn pawn_moves(self, from: Square, c: Color) -> Seq<Move> {
        let s = from.as_int();
        let white = c is White;
        let h: int = if white {
            1
        } else {
            -1
        };
        let fwd = s + 8 * h;
        if !(0 <= fwd < 64) {
            Seq::empty()
        } else {
            let fwd_sq = Square::from_int(fwd);
            let push_part = if self.board.cell(fwd) is None {
                (if fwd / 8 == 0 || fwd / 8 == 7 {
                    Game::promo_seq(from, fwd_sq, None)
                } else {
                    seq![Move::Normal { piece: Piece::Pawn, from, to: fwd_sq }]
                }) + (if (white && s / 8 == 1) || (!white && s / 8 == 6) {
                    if self.board.cell(s + 16 * h) is None {
                        seq![
                            Move::Normal {
                                piece: Piece::Pawn,
                                from,
                                to: Square::from_int(s + 16 * h),
                            },
                        ]
                    } else {
                        Seq::empty()
                    }
                } else {
                    Seq::empty()
                })
            } else {
                Seq::empty()
            };
            let cap_right = if fwd % 8 < 7 {
                self.pawn_capture_moves(from, Square::from_int(fwd + 1), c)
            } else {
                Seq::empty()
            };
            let cap_left = if fwd % 8 > 0 {
                self.pawn_capture_moves(from, Square::from_int(fwd - 1), c)
            } else {
                Seq::empty()
            };
            let ep_part = if self.ep_enum_enabled(s) {
                let mt = self.moves@.last().spec_to().as_int();
                if s % 8 - mt % 8 == 1 {
                    seq![Move::EnPassant { from, to: Square::from_int(fwd - 1) }]
                } else {
                    seq![Move::EnPassant { from, to: Square::from_int(fwd + 1) }]
                }
            } else {
                Seq::empty()
            };
            push_part + cap_right + cap_left + ep_part
        }
    }

    /// The castling candidates of an unmoved king on its home file:
    /// kingside and then queenside, each when the matching corner holds an
    /// unmoved rook of the same color and the squares between them are
    /// empty.  Whether any crossed square is attacked is left to the
    /// executor.
    pub open spec fn castle_candidates(self, from: Square, p: Piece, c: Color) -> Seq<Move> {
        let s = from.as_int();
        let r0 = s / 8;
        if !(p == (Piece::King { has_moved: false }) && s % 8 == 4) {
            Seq::empty()
        } else {
            (if self.board.cell(8 * r0 + 7) == Some((Piece::Rook { has_moved: false }, c))
                && self.board.cell(8 * r0 + 5) is None && self.board.cell(8 * r0 + 6) is None {
                seq![
                    Move::CastleKingside {
                        king_from: from,
                        king_to: Square::from_int(8 * r0 + 6),
                        rook_from: Square::from_int(8 * r0 + 7),
                        rook_to: Square::from_int(8 * r0 + 5),
                    },
                ]
            } else {
                Seq::empty()
            }) + (if self.board.cell(8 * r0) == Some((Piece::Rook { has_moved: false }, c))
                && self.board.cell(8 * r0 + 1) is None && self.board.cell(8 * r0 + 2) is None
                && self.board.cell(8 * r0 + 3) is None {
                seq![
                    Move::CastleQueenside {
                        king_from: from,
                        king_to: Square::from_int(8 * r0 + 2),
                        rook_from: Square::from_int(8 * r0),
                        rook_to: Square::from_int(8 * r0 + 3),
                    },
                ]
            } else {
                Seq::empty()
            })
        }
    }

    /// The moves generated from square `i`: nothing unless it holds a
    /// piece of the side to move.
    pub open spec fn moves_at(self, i: int) -> Seq<Move> {
        match self.board.cell(i) {
            Some((p, c)) => if c != self.turn {
                Seq::empty()
            } else {
                let from = Square::from_int(i);
                let occ = self.board.occupancy.0;
                match p {
                    Piece::Pawn => self.pawn_moves(from, c),
                    Piece::Knight => self.mask_moves_upto(knight_attacks(i), from, p, 64),
                    Piece::Bishop => self.mask_moves_upto(bishop_attacks(i, occ), from, p, 64),
                    Piece::Rook { .. } => self.mask_moves_upto(rook_attacks(i, occ), from, p, 64),
                    Piece::Queen => self.mask_moves_upto(queen_attacks(i, occ), from, p, 64),
                    Piece::King { .. } => self.mask_moves_upto(king_attacks(i), from, p, 64)
                        + self.castle_candidates(from, p, c),
                }
            },
            None => Seq::empty(),
        }
    }

    /// All pseudo-legal moves of the side to move from squares below `n`,
    /// in ascending square order.
    pub open spec fn all_moves_upto(self, n: nat) -> Seq<Move>
        decreases n,
    {
        if n == 0 {
            Seq::empty()
        } else {
            self.all_moves_upto((n - 1) as nat) + self.moves_at((n - 1) as int)
        }
    }

    /// Enumerates the pseudo-legal moves of the side to move: every move
    /// that fits the pieces' movement and capture geometry, without yet
    /// testing whether it leaves the own king in check.  Castling
    /// candidates are generated separately from the pattern lookup, and
    /// their attacked-square conditions are enforced by the executor.
    pub fn get_available_moves(&self) -> (r: Vec<Move>)
        requires
            self.wf(),
        ensures
            r@ == self.all_moves_upto(64),
    {
        let mut acc: Vec<Move> = Vec::new();
        let mut i: u8 = 0;
        while i < 64
            invariant
                i <= 64,
                self.wf(),
                acc@ =~= self.all_moves_upto(i as nat),
            decreases 64 - i,
        {
            let sq = match Square::new(i) {
                Ok(sq) => sq,
                Err(_) => {
                    proof {
                        assert(false);
                    }
                    return acc;
                },
            };
            if let Some((p, c)) = self.board.get_piece_on_square(sq) {
                if c == self.turn {
                    let mut piece_moves: Vec<Move> = match p {
                        Piece::Pawn => self.get_pawn_moves(sq),
                        Piece::King { .. } => self.get_king_moves(sq),
                        Piece::Knight => {
                            let pattern = self.tables.get_attack_pattern_knight(sq);
                            self.moves_from_mask_and_starting_square(&pattern, sq)
                        },
                        Piece::Bishop => {
                            let pattern = self.tables.get_attack_pattern_bishop(
                                sq,
                                self.board.occupancy,
                            );
                            self.moves_from_mask_and_starting_square(&pattern, sq)
                        },
                        Piece::Rook { .. } => {
                            let pattern = self.tables.get_attack_pattern_rook(
                                sq,
                                self.board.occupancy,
                            );
                            self.moves_from_mask_and_starting_square(&pattern, sq)
                        },
                        Piece::Queen => {
                            let pattern = self.tables.get_attack_pattern_queen(
                                sq,
                                self.board.occupancy,
                            );
                            self.moves_from_mask_and_starting_square(&pattern, sq)
                        },
                    };
                    acc.append(&mut piece_moves);
                }
            }
            proof {
                assert(acc@ =~= self.all_moves_upto((i + 1) as nat));
            }
            i = i + 1;
        }
        acc
    }

    /// Turns an attack pattern into concrete moves of the piece standing
    /// on `starting_square`: a normal move onto each empty square of the
    /// pattern, a capture onto each enemy piece, own pieces skipped.
    fn moves_from_mask_and_starting_square(&self, board_mask: &BoardMask, starting_square: Square)
        -> (r: Vec<Move>)
        requires
            self.wf(),
            self.board.cell(starting_square.as_int()) is Some,
        ensures
            r@ == self.mask_moves_upto(
                board_mask.0,
                starting_square,
                self.board.cell(starting_square.as_int()).unwrap().0,
                64,
            ),
    {
        let (p, _) = match self.board.get_piece_on_square(starting_square) {
            Some(v) => v,
            None => {
                proof {
                    assert(false);
                }
                return Vec::new();
            },
        };
        let mut acc: Vec<Move> = Vec::new();
        let mut t: u8 = 0;
        while t < 64
            invariant
                t <= 64,
                self.wf(),
                p == self.board.cell(starting_square.as_int()).unwrap().0,
                self.board.cell(starting_square.as_int()) is Some,
                acc@ =~= self.mask_moves_upto(board_mask.0, starting_square, p, t as nat),
            decreases 64 - t,
        {
            let tsq = match Square::new(t) {
                Ok(sq) => sq,
                Err(_) => {
                    proof {
                        assert(false);
                    }
                    return acc;
                },
            };
            if board_mask.contains(tsq) {
                match self.board.get_piece_on_square(tsq) {
                    Some((q, cq)) => {
                        if cq != self.turn {
                            acc.push(Move::new(p, starting_square, tsq, Some(q)));
                        }
                    },
                    None => {
                        acc.push(Move::new(p, starting_square, tsq, None));
                    },
                }
            }
            proof {
                assert(acc@ =~= self.mask_moves_upto(
                    board_mask.0,
                    starting_square,
                    p,
                    (t + 1) as nat,
                ));
            }
            t = t + 1;
        }
        acc
    }

    /// The moves of the king standing on `from`: its neighboring squares
    /// with own pieces skipped, then the castling candidates, whose
    /// attacked-square conditions the executor enforces.
    fn get_king_moves(&self, from: Square) -> (r: Vec<Move>)
        requires
            self.wf(),
            self.board.cell(from.as_int()) matches Some((p, _)) && p is King,
        ensures
            r@ == self.mask_moves_upto(
                king_attacks(from.as_int()),
                from,
                self.board.cell(from.as_int()).unwrap().0,
                64,
            ) + self.castle_candidates(
                from,
                self.board.cell(from.as_int()).unwrap().0,
                self.board.cell(from.as_int()).unwrap().1,
            ),
    {
        let pattern = crate::move_logic::create_king_attack_pattern(from);
        let mut moves = self.moves_from_mask_and_starting_square(&pattern, from);
        let (p, c) = match self.board.get_piece_on_square(from) {
            Some(v) => v,
            None => {
                proof {
                    assert(false);
                }
                return moves;
            },
        };
        if p == (Piece::King { has_moved: false }) && from.horizontal() == 4 {
            let r0 = from.get_rank();
            let corner_h = Square::from_rank_file(r0, File::H);
            let f_sq = Square::from_rank_file(r0, File::F);
            let g_sq = Square::from_rank_file(r0, File::G);
            if let Some((rp, rc)) = self.board.get_piece_on_square(corner_h) {
                if rp == (Piece::Rook { has_moved: false }) && rc == c && !self.board.is_occupied(
                    f_sq,
                ) && !self.board.is_occupied(g_sq) {
                    moves.push(Move::castle_kingside(from, g_sq, corner_h, f_sq));
                }
            }
            let corner_a = Square::from_rank_file(r0, File::A);
            let b_sq = Square::from_rank_file(r0, File::B);
            let c_sq = Square::from_rank_file(r0, File::C);
            let d_sq = Square::from_rank_file(r0, File::D);
            if let Some((rp, rc)) = self.board.get_piece_on_square(corner_a) {
                if rp == (Piece::Rook { has_moved: false }) && rc == c && !self.board.is_occupied(
                    b_sq,
                ) && !self.board.is_occupied(c_sq) && !self.board.is_occupied(d_sq) {
                    moves.push(Move::castle_queenside(from, c_sq, corner_a, d_sq));
                }
            }
        }
        proof {
            assert(moves@ =~= self.mask_moves_upto(
                king_attacks(from.as_int()),
                from,
                self.board.cell(from.as_int()).unwrap().0,
                64,
            ) + self.castle_candidates(
                from,
                self.board.cell(from.as_int()).unwrap().0,
                self.board.cell(from.as_int()).unwrap().1,
            ));
        }
        moves
    }

    /// The moves of the pawn standing on `from`: advances, captures and en
    /// passant, promotions included.
    #[verifier::rlimit(100)]
    fn get_pawn_moves(&self, from: Square) -> (r: Vec<Move>)
        requires
            self.wf(),
            self.board.cell(from.as_int()) matches Some((p, c)) && p is Pawn && c == self.turn,
        ensures
            r@ == self.pawn_moves(from, self.turn),
    {
        let c = self.turn;
        let heading: i8 = if c.is_white() {
            1
        } else {
            -1
        };
        let mut acc: Vec<Move> = Vec::new();
        let forward = match from.move_on_file(heading) {
            Ok(sq) => sq,
            Err(_) => {
                proof {
                    assert(acc@ =~= self.pawn_moves(from, c));
                }
                return acc;
            },
        };
        if self.board.get_piece_on_square(forward).is_none() {
            if forward.get_rank().is_on_edge() {
                let promos = Move::promotions(from, forward, None);
                acc.push(promos[0]);
                acc.push(promos[1]);
                acc.push(promos[2]);
                acc.push(promos[3]);
            } else {
                acc.push(Move::new(Piece::Pawn, from, forward, None));
            }
            let start_rank: u8 = if c.is_white() {
                1
            } else {
                6
            };
            if from.vertical() == start_rank {
                let fwd2 = match forward.move_on_file(heading) {
                    Ok(sq) => sq,
                    Err(_) => {
                        proof {
                            assert(false);
                        }
                        return acc;
                    },
                };
                if self.board.get_piece_on_square(fwd2).is_none() {
                    acc.push(Move::new(Piece::Pawn, from, fwd2, None));
                }
            }
        }
        let ghost push_part_done = acc@;
        if let Ok(right) = forward.move_on_rank(1) {
            self.pawn_capture(&mut acc, from, right, &c);
        }
        let ghost cap_right_done = acc@;
        if let Ok(left) = forward.move_on_rank(-1) {
            self.pawn_capture(&mut acc, from, left, &c);
        }
        let ghost cap_left_done = acc@;
        if self.ep_enum_possible(from) {
            let m = self.moves[self.moves.len() - 1];
            let dfile = m.get_to().get_delta_file(from);
            if dfile == 1 {
                let target = match forward.move_on_rank(-1) {
                    Ok(sq) => sq,
                    Err(_) => {
                        proof {
                            assert(false);
                        }
                        return acc;
                    },
                };
                acc.push(Move::en_pasante(from, target));
            } else {
                let target = match forward.move_on_rank(1) {
                    Ok(sq) => sq,
                    Err(_) => {
                        proof {
                            assert(false);
                        }
                        return acc;
                    },
                };
                acc.push(Move::en_pasante(from, target));
            }
        }
        proof {
            assert(acc@ =~= self.pawn_moves(from, c));
        }
        acc
    }

    /// Appends the capture moves of the pawn on `from` aimed at `to`.
    fn pawn_capture(&self, available_moves: &mut Vec<Move>, from: Square, to: Square, color: &Color)
        requires
            self.wf(),
        ensures
            final(available_moves)@ == old(available_moves)@ + self.pawn_capture_moves(
                from,
                to,
                *color,
            ),
    {
        match self.board.get_piece_on_square(to) {
            None => {},
            Some((pc, col)) => {
                if col.is_white() != color.is_white() {
                    if to.get_rank().is_on_edge() {
                        let promos = Move::promotions(from, to, Some(pc));
                        available_moves.push(promos[0]);
                        available_moves.push(promos[1]);
                        available_moves.push(promos[2]);
                        available_moves.push(promos[3]);
                    } else {
                        available_moves.push(Move::new(Piece::Pawn, from, to, Some(pc)));
                    }
                }
            },
        }
        proof {
            assert(final(available_moves)@ =~= old(available_moves)@ + self.pawn_capture_moves(
                from,
                to,
                *color,
            ));
        }
    }

    /// Whether the history lets the pawn on `from` capture en passant.
    fn ep_enum_possible(&self, from: Square) -> (r: bool)
        ensures
            r == self.ep_enum_enabled(from.as_int()),
    {
        if self.moves.len() == 0 {
            return false;
        }
        let m = self.moves[self.moves.len() - 1];
        let mdr = m.get_from().get_delta_rank(m.get_to());
        let dr = m.get_to().get_delta_rank(from);
        let dfile = m.get_to().get_delta_file(from);
        m.get_piece().is_pawn() && (mdr == 2 || mdr == -2) && dr == 0 && (dfile == 1 || dfile == -1)
    }
}

/// Tag law, base case: in the starting position every king and rook
/// carries `has_moved == false`.
pub proof fn lemma_initial_flags_unmoved()
    ensures
        forall|i: int|
            0 <= i < 64 ==> match #[trigger] initial_cell(i) {
                Some((p, _)) => (p is King ==> p == (Piece::King { has_moved: false })) && (p
                    is Rook ==> p == (Piece::Rook { has_moved: false })),
                None => true,
            },
{
}

/// Tag law, step case: whatever a successful move leaves on its
/// destination square that is a king or a rook carries
/// `has_moved == true` afterwards.
pub proof fn lemma_moved_piece_is_tagged(g: Game, mv: Move)
    requires
        g.wf(),
        0 <= mv.spec_from().as_int() < 64,
        0 <= mv.spec_to().as_int() < 64,
        g.board.cell(mv.spec_from().as_int()) is Some,
    ensures
        match g.apply_cells(mv)[mv.spec_to().as_int()] {
            Some((p, _)) => (p is King ==> p == (Piece::King { has_moved: true })) && (p
                is Rook ==> p == (Piece::Rook { has_moved: true })),
            None => true,
        },
{
}

/// Tag law, frame case for castles: a castle touches only the king's
/// source and destination and the rook's corner and destination; every
/// other square keeps its exact contents, tags included.
pub proof fn lemma_castle_frames_rest(g: Game, mv: Move, i: int)
    requires
        g.wf(),
        0 <= mv.spec_from().as_int() < 64,
        0 <= mv.spec_to().as_int() < 64,
        g.castle_geometry(mv),
        0 <= i < 64,
        i != mv.spec_from().as_int(),
        i != mv.spec_to().as_int(),
        i != 8 * (mv.spec_from().as_int() / 8) + (if mv.spec_to().as_int() % 8
            - mv.spec_from().as_int() % 8 == 2 {
            7int
        } else {
            0int
        }),
        i != 8 * (mv.spec_from().as_int() / 8) + (if mv.spec_to().as_int() % 8
            - mv.spec_from().as_int() % 8 == 2 {
            5int
        } else {
            3int
        }),
    ensures
        g.apply_cells(mv)[i] == g.board.board@[i],
{
}

/// Tag law, frame case for en passant: the capture touches only the
/// pawn's source and destination and the captured pawn's square.
pub proof fn lemma_ep_frames_rest(g: Game, mv: Move, i: int)
    requires
        g.wf(),
        0 <= mv.spec_from().as_int() < 64,
        0 <= mv.spec_to().as_int() < 64,
        !g.castle_geometry(mv),
        g.ep_geometry(mv),
        0 <= i < 64,
        i != mv.spec_from().as_int(),
        i != mv.spec_to().as_int(),
        i != 8 * (mv.spec_from().as_int() / 8) + mv.spec_to().as_int() % 8,
    ensures
        g.apply_cells(mv)[i] == g.board.board@[i],
{
}

/// Tag law, frame case: an ordinary move (no castle, no en passant)
/// touches only its source and destination squares; every other square
/// keeps its exact contents, tags included.  A failed move changes
/// nothing at all.
pub proof fn lemma_ordinary_move_frames_rest(g: Game, mv: Move, i: int)
    requires
        g.wf(),
        0 <= mv.spec_from().as_int() < 64,
        0 <= mv.spec_to().as_int() < 64,
        !g.castle_geometry(mv),
        !g.ep_geometry(mv),
        0 <= i < 64,
        i != mv.spec_from().as_int(),
        i != mv.spec_to().as_int(),
    ensures
        g.apply_cells(mv)[i] == g.board.board@[i],
{
}

} // verus!
