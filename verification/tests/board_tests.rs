//! The dual board representation: piece list and occupancy in lock-step.

use athena_chess::board::BitBoard;
use athena_chess::piece::{Color, Piece};
use athena_chess::square::{File, Rank, Square};

#[test]
fn test_place_piece_on_square() {
    // setup empty board
    let mut bb = BitBoard::default();
    let sq = Square::from_rank_file(Rank::Four, File::E);
    let pc = Piece::Rook { has_moved: true };
    let col = Color::White;
    assert!(bb.place_piece_on_square(pc, col, sq).is_none());
    assert_eq!(bb.board[28], Some((pc, col)));
    assert!(bb.occupancy.is_occupied(sq));
}

#[test]
fn test_remove_piece_from_square() {
    // setup empty board
    let mut bb = BitBoard::default();
    let sq = Square::from_rank_file(Rank::Four, File::E);
    let pc = Piece::Rook { has_moved: true };
    let col = Color::White;
    bb.board[28] = Some((pc, col));
    bb.occupancy.add_square(Square::new(28).unwrap());
    assert_eq!(Some((pc, col)), bb.remove_piece_from_square(sq));
    assert!(bb.board[28].is_none());
    assert!(!bb.occupancy.is_occupied(sq));
}

#[test]
fn test_get_piece_from_square() {
    // setup empty board
    let mut bb = BitBoard::default();
    let sq = Square::from_rank_file(Rank::Four, File::E);
    let pc = Piece::Rook { has_moved: true };
    let col = Color::White;
    bb.board[28] = Some((pc, col));
    bb.occupancy.add_square(Square::new(28).unwrap());
    assert_eq!(Some((pc, col)), bb.get_piece_on_square(sq));
    assert!(bb.board[28].is_some());
    assert!(bb.occupancy.is_occupied(sq));
}

#[test]
fn place_after_remove_is_a_no_op() {
    // removing a piece and putting the same piece back restores the
    // position exactly, cells and occupancy alike
    let mut bb = BitBoard::init();
    let sq = Square::from_rank_file(Rank::One, File::B);
    let before_cells: Vec<Option<(Piece, Color)>> = bb.board.clone();
    let before_occ = bb.occupancy;
    let (p, c) = bb.remove_piece_from_square(sq).unwrap();
    let _ = bb.place_piece_on_square(p, c, sq);
    assert_eq!(bb.board, before_cells);
    assert_eq!(bb.occupancy, before_occ);
}

#[test]
fn representations_agree_on_every_square() {
    // the piece list and the occupancy answer alike for all 64 squares of
    // the starting position
    let bb = BitBoard::init();
    for i in 0..64u8 {
        let sq = Square::new(i).unwrap();
        assert_eq!(bb.get_piece_on_square(sq).is_some(), bb.is_occupied(sq));
    }
}

#[test]
fn initial_position_layout() {
    let bb = BitBoard::init();
    assert_eq!(
        bb.get_piece_on_square(Square::from_rank_file(Rank::One, File::E)),
        Some((Piece::King { has_moved: false }, Color::White))
    );
    assert_eq!(
        bb.get_piece_on_square(Square::from_rank_file(Rank::Eight, File::D)),
        Some((Piece::Queen, Color::Black))
    );
    assert_eq!(
        bb.get_piece_on_square(Square::from_rank_file(Rank::Two, File::A)),
        Some((Piece::Pawn, Color::White))
    );
    assert_eq!(bb.get_piece_on_square(Square::from_rank_file(Rank::Four, File::E)), None);
    let mut count = 0;
    for i in 0..64u8 {
        if bb.is_occupied(Square::new(i).unwrap()) {
            count += 1;
        }
    }
    assert_eq!(count, 32);
}
