//! The position: a 64-cell piece list kept in lock-step with a one-bit-per
//! square occupancy.
//!
//! Every mutation goes through [`BitBoard::place_piece_on_square`] and
//! [`BitBoard::remove_piece_from_square`], which update both
//! representations together.

use crate::attack_tables::AttackTables;
use crate::bits::{bit64, group_bits};
use crate::mask::square_bit;
use crate::move_logic::{bishop_attacks, knight_attacks, rook_attacks};
use crate::occupancy::Occupancy;
use crate::piece::{Color, Piece};
use crate::square::Square;
use vstd::prelude::*;

verus! {

/// The piece and color standing on each square of the usual starting
/// position.
pub open spec fn initial_cell(i: int) -> Option<(Piece, Color)> {
    if i == 0 || i == 7 {
        Some((Piece::Rook { has_moved: false }, Color::White))
    } else if i == 1 || i == 6 {
        Some((Piece::Knight, Color::White))
    } else if i == 2 || i == 5 {
        Some((Piece::Bishop, Color::White))
    } else if i == 3 {
        Some((Piece::Queen, Color::White))
    } else if i == 4 {
        Some((Piece::King { has_moved: false }, Color::White))
    } else if 8 <= i < 16 {
        Some((Piece::Pawn, Color::White))
    } else if 48 <= i < 56 {
        Some((Piece::Pawn, Color::Black))
    } else if i == 56 || i == 63 {
        Some((Piece::Rook { has_moved: false }, Color::Black))
    } else if i == 57 || i == 62 {
        Some((Piece::Knight, Color::Black))
    } else if i == 58 || i == 61 {
        Some((Piece::Bishop, Color::Black))
    } else if i == 59 {
        Some((Piece::Queen, Color::Black))
    } else if i == 60 {
        Some((Piece::King { has_moved: false }, Color::Black))
    } else {
        None
    }
}

/// Whether a piece of the given kind standing on square `t` attacks square
/// `sq` under occupancy `occ`.  Sliding pieces and the knight go through
/// the pattern cast from `sq`, which is symmetric; pawns and kings by
/// their adjacency rules.
pub open spec fn piece_attacks_square(piece: Piece, color: Color, t: int, sq: int, occ: u64) -> bool {
    let tr = t / 8;
    let tf = t % 8;
    let sr = sq / 8;
    let sf = sq % 8;
    match piece {
        Piece::Rook { .. } => bit64(rook_attacks(sq, occ), t as u64),
        Piece::Bishop => bit64(bishop_attacks(sq, occ), t as u64),
        Piece::Queen => bit64(rook_attacks(sq, occ), t as u64) || bit64(
            bishop_attacks(sq, occ),
            t as u64,
        ),
        Piece::Knight => bit64(knight_attacks(sq), t as u64),
        Piece::Pawn => (if color is White {
            sr == tr + 1
        } else {
            sr == tr - 1
        }) && (sf == tf + 1 || sf == tf - 1),
        Piece::King { .. } => t != sq && -1 <= sr - tr <= 1 && -1 <= sf - tf <= 1,
    }
}

/// Square `sq` is attacked by some piece of `color` on the board whose
/// cells and occupancy are given.
pub open spec fn controlled_view(
    cells: Seq<Option<(Piece, Color)>>,
    occ: u64,
    sq: int,
    color: Color,
) -> bool {
    exists|t: int|
        0 <= t < 64 && match #[trigger] cells[t] {
            Some((p, c)) => c == color && piece_attacks_square(p, c, t, sq, occ),
            None => false,
        }
}

/// The king of `color` stands attacked by the other side on the board
/// whose cells and occupancy are given.
pub open spec fn king_in_check_view(cells: Seq<Option<(Piece, Color)>>, occ: u64, color: Color) -> bool {
    exists|t: int|
        0 <= t < 64 && match #[trigger] cells[t] {
            Some((p, c)) => p is King && c == color && controlled_view(
                cells,
                occ,
                t,
                color.spec_opposite(),
            ),
            None => false,
        }
}

/// The dual board representation.
///
/// Invariant ([`BitBoard::wf`]): a cell holds a piece exactly when its
/// occupancy bit is set.
#[derive(Debug, Clone)]
pub struct BitBoard {
    /// What stands on each of the 64 squares.
    pub board: Vec<Option<(Piece, Color)>>,
    /// The set of occupied squares, kept in sync with `board`.
    pub occupancy: Occupancy,
}

impl Default for BitBoard {
    /// The empty board.
    fn default() -> (r: Self)
        ensures
            r.wf(),
            r.occupancy.0 == 0u64,
            forall|i: int| 0 <= i < 64 ==> #[trigger] r.cell(i) is None,
    {
        let board: Vec<Option<(Piece, Color)>> = vec![None; 64];
        proof {
            broadcast use group_bits;

        }
        BitBoard { board, occupancy: Occupancy(0) }
    }
}

impl BitBoard {
    /// What stands on square `i`.
    pub open spec fn cell(self, i: int) -> Option<(Piece, Color)> {
        self.board@[i]
    }

    /// The two representations agree: a square's cell is filled exactly
    /// when its occupancy bit is set.
    pub open spec fn wf(self) -> bool {
        &&& self.board@.len() == 64
        &&& forall|i: int|
            0 <= i < 64 ==> ((#[trigger] self.cell(i)) is Some <==> bit64(
                self.occupancy.0,
                i as u64,
            ))
    }

    /// Square `sq` is attacked by some piece of `color`.
    pub open spec fn spec_controlled(self, sq: int, color: Color) -> bool {
        controlled_view(self.board@, self.occupancy.0, sq, color)
    }

    /// The standard starting position, all kings and rooks unmoved.
    pub fn init() -> (r: Self)
        ensures
            r.wf(),
            forall|i: int| 0 <= i < 64 ==> #[trigger] r.cell(i) == initial_cell(i),
    {
        let mut bb = BitBoard::default();
        let mut i: u8 = 0;
        while i < 64
            invariant
                i <= 64,
                bb.wf(),
                forall|j: int| 0 <= j < i ==> #[trigger] bb.cell(j) == initial_cell(j),
                forall|j: int| i <= j < 64 ==> #[trigger] bb.cell(j) is None,
            decreases 64 - i,
        {
            let sq = match Square::new(i) {
                Ok(sq) => sq,
                Err(_) => {
                    proof {
                        assert(false);
                    }
                    return bb;
                },
            };
            let ghost bb0 = bb;
            if let Some((p, c)) = initial_piece(i) {
                let _ = bb.place_piece_on_square(p, c, sq);
            }
            proof {
                assert forall|j: int| 0 <= j < i + 1 implies #[trigger] bb.cell(j) == initial_cell(
                    j,
                ) by {
                    if j < i {
                        assert(bb0.cell(j) == initial_cell(j));
                    } else {
                        assert(bb0.cell(j) is None);
                    }
                }
                assert forall|j: int| i + 1 <= j < 64 implies #[trigger] bb.cell(j) is None by {
                    assert(bb0.cell(j) is None);
                }
            }
            i = i + 1;
        }
        bb
    }

    /// Puts the piece on the square, setting its occupancy bit, and hands
    /// back whatever stood there before.
    pub fn place_piece_on_square(&mut self, piece: Piece, color: Color, square: Square) -> (r:
        Option<(Piece, Color)>)
        requires
            old(self).wf(),
        ensures
            0 <= square.as_int() < 64,
            final(self).wf(),
            r == old(self).cell(square.as_int()),
            final(self).board@ == old(self).board@.update(
                square.as_int(),
                Some((piece, color)),
            ),
            final(self).occupancy.0 == old(self).occupancy.0 | square_bit(square),
    {
        let idx = square.as_index();
        let prev = self.board[idx];
        self.board[idx] = Some((piece, color));
        self.occupancy.add_square(square);
        proof {
            broadcast use group_bits;

            assert forall|i: int|
                0 <= i < 64 implies ((#[trigger] self.cell(i)) is Some <==> bit64(
                self.occupancy.0,
                i as u64,
            )) by {
                assert(old(self).cell(i) is Some <==> bit64(old(self).occupancy.0, i as u64));
                crate::bits::lemma_bit_or(old(self).occupancy.0, square_bit(square), i as u64);
                crate::bits::lemma_bit_single(square.as_int() as u64, i as u64);
            }
        }
        prev
    }

    /// Clears the square and its occupancy bit, handing back whatever
    /// stood there.
    pub fn remove_piece_from_square(&mut self, square: Square) -> (r: Option<(Piece, Color)>)
        requires
            old(self).wf(),
        ensures
            0 <= square.as_int() < 64,
            final(self).wf(),
            r == old(self).cell(square.as_int()),
            final(self).board@ == old(self).board@.update(square.as_int(), None),
            final(self).occupancy.0 == old(self).occupancy.0 & !square_bit(square),
    {
        let idx = square.as_index();
        let prev = self.board[idx];
        self.board[idx] = None;
        self.occupancy.remove_square(square);
        proof {
            broadcast use group_bits;

            assert forall|i: int|
                0 <= i < 64 implies ((#[trigger] self.cell(i)) is Some <==> bit64(
                self.occupancy.0,
                i as u64,
            )) by {
                assert(old(self).cell(i) is Some <==> bit64(old(self).occupancy.0, i as u64));
                crate::bits::lemma_bit_and(old(self).occupancy.0, !square_bit(square), i as u64);
                crate::bits::lemma_bit_not(square_bit(square), i as u64);
                crate::bits::lemma_bit_single(square.as_int() as u64, i as u64);
            }
        }
        prev
    }

    /// What stands on the square, without changing anything.
    pub fn get_piece_on_square(&self, square: Square) -> (r: Option<(Piece, Color)>)
        requires
            self.wf(),
        ensures
            0 <= square.as_int() < 64,
            r == self.cell(square.as_int()),
    {
        self.board[square.as_index()]
    }

    /// Whether the square holds any piece: a single occupancy-bit test.
    pub fn is_occupied(&self, square: Square) -> (r: bool)
        requires
            self.wf(),
        ensures
            r == bit64(self.occupancy.0, square.as_int() as u64),
            r == (self.cell(square.as_int()) is Some),
    {
        let idx = square.as_index();
        let r = self.occupancy.is_occupied(square);
        proof {
            assert(self.cell(idx as int) is Some <==> bit64(self.occupancy.0, idx as u64));
        }
        r
    }

    /// Whether `square` is attacked by any piece of `color`: sliding
    /// pieces and knights through the attack patterns cast from `square`,
    /// pawns and kings by adjacency.  Pins are not considered.
    pub fn square_is_controlled_by(&self, square: Square, color: Color, tables: &AttackTables)
        -> (r: bool)
        requires
            self.wf(),
        ensures
            r == self.spec_controlled(square.as_int(), color),
    {
        let rook_pattern = tables.get_attack_pattern_rook(square, self.occupancy);
        let bishop_pattern = tables.get_attack_pattern_bishop(square, self.occupancy);
        let knight_pattern = tables.get_attack_pattern_knight(square);
        let sr = square.vertical();
        let sf = square.horizontal();
        let mut t: u8 = 0;
        while t < 64
            invariant
                t <= 64,
                self.wf(),
                sr == square.as_int() / 8,
                sf == square.as_int() % 8,
                rook_pattern.0 == rook_attacks(square.as_int(), self.occupancy.0),
                bishop_pattern.0 == bishop_attacks(square.as_int(), self.occupancy.0),
                knight_pattern.0 == knight_attacks(square.as_int()),
                forall|j: int|
                    0 <= j < t ==> match #[trigger] self.board@[j] {
                        Some((p, c)) => !(c == color && piece_attacks_square(
                            p,
                            c,
                            j,
                            square.as_int(),
                            self.occupancy.0,
                        )),
                        None => true,
                    },
            decreases 64 - t,
        {
            let tsq = match Square::new(t) {
                Ok(sq) => sq,
                Err(_) => {
                    proof {
                        assert(false);
                    }
                    return false;
                },
            };
            if let Some((p, c)) = self.get_piece_on_square(tsq) {
                if c.is_white() == color.is_white() {
                    let hit = match p {
                        Piece::Rook { .. } => rook_pattern.contains(tsq),
                        Piece::Bishop => bishop_pattern.contains(tsq),
                        Piece::Queen => rook_pattern.contains(tsq) || bishop_pattern.contains(tsq),
                        Piece::Knight => knight_pattern.contains(tsq),
                        Piece::Pawn => {
                            let tr = t / 8;
                            let tf = t % 8;
                            let rank_hit = if c.is_white() {
                                sr == tr + 1
                            } else {
                                tr >= 1 && sr == tr - 1
                            };
                            rank_hit && (sf == tf + 1 || tf >= 1 && sf == tf - 1)
                        },
                        Piece::King { .. } => {
                            let tr = t / 8;
                            let tf = t % 8;
                            t != square.as_u8() && sr + 1 >= tr && tr + 1 >= sr && sf + 1 >= tf
                                && tf + 1 >= sf
                        },
                    };
                    if hit {
                        proof {
                            assert(self.spec_controlled(square.as_int(), color)) by {
                                assert(0 <= t < 64 && match self.cell(t as int) {
                                    Some((p, c)) => c == color && piece_attacks_square(
                                        p,
                                        c,
                                        t as int,
                                        square.as_int(),
                                        self.occupancy.0,
                                    ),
                                    None => false,
                                });
                            }
                        }
                        return true;
                    }
                }
            }
            t = t + 1;
        }
        false
    }
}

/// The piece, if any, on square `i` of the starting position.
fn initial_piece(i: u8) -> (r: Option<(Piece, Color)>)
    requires
        i < 64,
    ensures
        r == initial_cell(i as int),
{
    if i == 0 || i == 7 {
        Some((Piece::Rook { has_moved: false }, Color::White))
    } else if i == 1 || i == 6 {
        Some((Piece::Knight, Color::White))
    } else if i == 2 || i == 5 {
        Some((Piece::Bishop, Color::White))
    } else if i == 3 {
        Some((Piece::Queen, Color::White))
    } else if i == 4 {
        Some((Piece::King { has_moved: false }, Color::White))
    } else if 8 <= i && i < 16 {
        Some((Piece::Pawn, Color::White))
    } else if 48 <= i && i < 56 {
        Some((Piece::Pawn, Color::Black))
    } else if i == 56 || i == 63 {
        Some((Piece::Rook { has_moved: false }, Color::Black))
    } else if i == 57 || i == 62 {
        Some((Piece::Knight, Color::Black))
    } else if i == 58 || i == 61 {
        Some((Piece::Bishop, Color::Black))
    } else if i == 59 {
        Some((Piece::Queen, Color::Black))
    } else if i == 60 {
        Some((Piece::King { has_moved: false }, Color::Black))
    } else {
        None
    }
}

impl BitBoard {
    /// A deep copy of the position, for trying a move out before
    /// committing it.
    pub fn snapshot(&self) -> (r: BitBoard)
        ensures
            r.board@ == self.board@,
            r.occupancy == self.occupancy,
    {
        let mut board: Vec<Option<(Piece, Color)>> = Vec::new();
        let mut i: usize = 0;
        while i < self.board.len()
            invariant
                i <= self.board@.len(),
                board@ =~= self.board@.take(i as int),
            decreases self.board@.len() - i,
        {
            board.push(self.board[i]);
            proof {
                assert(board@ =~= self.board@.take(i + 1));
            }
            i = i + 1;
        }
        proof {
            assert(self.board@.take(self.board@.len() as int) =~= self.board@);
        }
        BitBoard { board, occupancy: self.occupancy }
    }

    /// Whether the king of `color` is attacked by the other side.  A board
    /// without such a king is not in check.
    pub fn is_in_check(&self, color: Color, tables: &AttackTables) -> (r: bool)
        requires
            self.wf(),
        ensures
            r == king_in_check_view(self.board@, self.occupancy.0, color),
    {
        let opponent = color.opposite();
        let mut t: u8 = 0;
        while t < 64
            invariant
                t <= 64,
                self.wf(),
                opponent == color.spec_opposite(),
                forall|j: int|
                    0 <= j < t ==> match #[trigger] self.board@[j] {
                        Some((p, c)) => !(p is King && c == color && controlled_view(
                            self.board@,
                            self.occupancy.0,
                            j,
                            color.spec_opposite(),
                        )),
                        None => true,
                    },
            decreases 64 - t,
        {
            let tsq = match Square::new(t) {
                Ok(sq) => sq,
                Err(_) => {
                    proof {
                        assert(false);
                    }
                    return false;
                },
            };
            if let Some((p, c)) = self.get_piece_on_square(tsq) {
                if p.is_king() && c.is_white() == color.is_white() {
                    if self.square_is_controlled_by(tsq, opponent, tables) {
                        proof {
                            assert(0 <= t < 64 && match self.board@[t as int] {
                                Some((p, c)) => p is King && c == color && controlled_view(
                                    self.board@,
                                    self.occupancy.0,
                                    t as int,
                                    color.spec_opposite(),
                                ),
                                None => false,
                            });
                        }
                        return true;
                    }
                }
            }
            t = t + 1;
        }
        false
    }
}

/// Round-trip law: removing a piece and placing the same piece back on
/// the same square restores the position exactly, cells and occupancy
/// alike.  `b1` is the position after the removal, `b2` after the
/// replacement.
pub proof fn lemma_place_after_remove_roundtrip(
    b0: BitBoard,
    b1: BitBoard,
    b2: BitBoard,
    s: Square,
    p: Piece,
    c: Color,
)
    requires
        b0.wf(),
        0 <= s.as_int() < 64,
        b0.cell(s.as_int()) == Some((p, c)),
        b1.board@ == b0.board@.update(s.as_int(), None::<(Piece, Color)>),
        b1.occupancy.0 == b0.occupancy.0 & !square_bit(s),
        b2.board@ == b1.board@.update(s.as_int(), Some((p, c))),
        b2.occupancy.0 == b1.occupancy.0 | square_bit(s),
    ensures
        b2.board@ == b0.board@,
        b2.occupancy.0 == b0.occupancy.0,
{
    broadcast use group_bits;

    assert(b2.board@ =~= b0.board@);
    let b = square_bit(s);
    let su = s.as_int() as u64;
    assert(bit64(b0.occupancy.0, su));
    assert forall|i: u64| i < 64 implies bit64(b2.occupancy.0, i) == bit64(
        b0.occupancy.0,
        i,
    ) by {
        crate::bits::lemma_bit_or(b0.occupancy.0 & !b, b, i);
        crate::bits::lemma_bit_and(b0.occupancy.0, !b, i);
        crate::bits::lemma_bit_not(b, i);
        crate::bits::lemma_bit_single(su, i);
    }
    crate::bits::lemma_bits_eq(b2.occupancy.0, b0.occupancy.0);
}

} // verus!
