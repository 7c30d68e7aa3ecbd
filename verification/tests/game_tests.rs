//! The legality gate and executor on whole games.

use athena_chess::attack_tables::AttackTables;
use athena_chess::chess_move::Move;
use athena_chess::error::IllegalMoveError;
use athena_chess::game::Game;
use athena_chess::piece::{Color, Piece};
use athena_chess::square::Square;

fn sq(name: &str) -> Square {
    let b = name.as_bytes();
    let file = b[0] - b'a';
    let rank = b[1] - b'1';
    Square::new(rank * 8 + file).unwrap()
}

fn new_game() -> Game {
    Game::init(AttackTables::create_tables().unwrap())
}

#[test]
fn test_pawn_double_move() {
    let mut game = new_game();
    let mv = Move::new(Piece::Pawn, sq("e2"), sq("e4"), None);
    assert!(game.execute_move(mv).is_ok());
    assert!(game.board.get_piece_on_square(sq("e4")).is_some());
    assert!(game.board.get_piece_on_square(sq("e2")).is_none());
}

#[test]
fn test_invalid_pawn_move() {
    let mut game = new_game();
    let mv = Move::new(Piece::Pawn, sq("e2"), sq("e5"), None);
    assert!(game.execute_move(mv).is_err());
}

#[test]
fn test_knight_move() {
    let mut game = new_game();
    let mv = Move::new(Piece::Knight, sq("g1"), sq("f3"), None);
    assert!(game.execute_move(mv).is_ok());
    assert!(game.board.get_piece_on_square(sq("f3")).is_some());
    assert!(game.board.get_piece_on_square(sq("g1")).is_none());
}

#[test]
fn test_blocked_pawn_move() {
    let mut game = new_game();
    game.board.place_piece_on_square(Piece::Pawn, Color::Black, sq("e3"));
    let mv = Move::new(Piece::Pawn, sq("e2"), sq("e4"), None);
    assert!(game.execute_move(mv).is_err());
}

#[test]
fn test_pawn_capture() {
    let mut game = new_game();
    let pawn_push = Move::new(Piece::Pawn, sq("e2"), sq("e4"), None);
    game.execute_move(pawn_push).unwrap();
    let black_move = Move::new(Piece::Pawn, sq("d7"), sq("d5"), None);
    game.execute_move(black_move).unwrap();
    let capture = Move::new(Piece::Pawn, sq("e4"), sq("d5"), None);
    assert!(game.execute_move(capture).is_ok());
    assert_eq!(game.board.get_piece_on_square(sq("d5")).unwrap(), (Piece::Pawn, Color::White));
}

#[test]
fn test_en_passant_left() {
    let mut game = new_game();
    // White moves e4
    game.execute_move(Move::new(Piece::Pawn, sq("e2"), sq("e4"), None)).unwrap();
    // Black moves a6 (dummy move)
    game.execute_move(Move::new(Piece::Pawn, sq("a7"), sq("a6"), None)).unwrap();
    // White moves e5
    game.execute_move(Move::new(Piece::Pawn, sq("e4"), sq("e5"), None)).unwrap();
    // Black moves d5
    game.execute_move(Move::new(Piece::Pawn, sq("d7"), sq("d5"), None)).unwrap();
    // White captures en passant
    let en_passant_move = Move::new(Piece::Pawn, sq("e5"), sq("d6"), None);
    assert!(game.execute_move(en_passant_move).is_ok());
    // the captured pawn leaves d5 and the capturing pawn stands on d6
    assert!(game.board.get_piece_on_square(sq("d5")).is_none());
    assert_eq!(game.board.get_piece_on_square(sq("d6")).unwrap(), (Piece::Pawn, Color::White));
}

#[test]
fn test_en_passant_right() {
    let mut game = new_game();
    // White moves e4
    game.execute_move(Move::new(Piece::Pawn, sq("e2"), sq("e4"), None)).unwrap();
    // Black moves a6 (dummy move)
    game.execute_move(Move::new(Piece::Pawn, sq("a7"), sq("a6"), None)).unwrap();
    // White moves e5
    game.execute_move(Move::new(Piece::Pawn, sq("e4"), sq("e5"), None)).unwrap();
    // Black moves f5
    game.execute_move(Move::new(Piece::Pawn, sq("f7"), sq("f5"), None)).unwrap();
    // White captures en passant
    let en_passant_move = Move::new(Piece::Pawn, sq("e5"), sq("f6"), None);
    assert!(game.execute_move(en_passant_move).is_ok());
    assert!(game.board.get_piece_on_square(sq("f5")).is_none());
    assert_eq!(game.board.get_piece_on_square(sq("f6")).unwrap(), (Piece::Pawn, Color::White));
}

#[test]
fn test_short_castle_white() {
    let mut game = new_game();
    game.board.remove_piece_from_square(sq("f1"));
    game.board.remove_piece_from_square(sq("g1"));
    let mv = Move::new(Piece::King { has_moved: false }, sq("e1"), sq("g1"), None);
    assert!(game.execute_move(mv).is_ok());
    assert_eq!(
        game.board.get_piece_on_square(sq("g1")).unwrap().0,
        Piece::King { has_moved: true }
    );
    assert_eq!(
        game.board.get_piece_on_square(sq("f1")).unwrap().0,
        Piece::Rook { has_moved: true }
    );
    // the queenside rook is untouched
    assert_eq!(
        game.board.get_piece_on_square(sq("a1")).unwrap().0,
        Piece::Rook { has_moved: false }
    );
}

#[test]
fn test_long_castle_white() {
    let mut game = new_game();
    game.board.remove_piece_from_square(sq("b1"));
    game.board.remove_piece_from_square(sq("c1"));
    game.board.remove_piece_from_square(sq("d1"));
    let mv = Move::new(Piece::King { has_moved: false }, sq("e1"), sq("c1"), None);
    assert!(game.execute_move(mv).is_ok());
    assert_eq!(
        game.board.get_piece_on_square(sq("c1")).unwrap().0,
        Piece::King { has_moved: true }
    );
    assert_eq!(
        game.board.get_piece_on_square(sq("d1")).unwrap().0,
        Piece::Rook { has_moved: true }
    );
}

#[test]
fn test_castle_while_in_check() {
    let mut game = new_game();
    game.board.remove_piece_from_square(sq("f1"));
    game.board.remove_piece_from_square(sq("g1"));
    game.board.remove_piece_from_square(sq("e2"));
    // open the whole e-file so the rook gives check
    game.board.remove_piece_from_square(sq("e7"));
    game.board
        .place_piece_on_square(Piece::Rook { has_moved: false }, Color::Black, sq("e8"));
    let mv = Move::new(Piece::King { has_moved: false }, sq("e1"), sq("g1"), None);
    assert_eq!(game.execute_move(mv), Err(IllegalMoveError::IsInCheck));
    // the position is unchanged
    assert_eq!(
        game.board.get_piece_on_square(sq("e1")).unwrap().0,
        Piece::King { has_moved: false }
    );
    assert_eq!(
        game.board.get_piece_on_square(sq("h1")).unwrap().0,
        Piece::Rook { has_moved: false }
    );
}

#[test]
fn enumerated_castle_candidate_executes() {
    let mut game = new_game();
    game.board.remove_piece_from_square(sq("f1"));
    game.board.remove_piece_from_square(sq("g1"));
    let candidate = game
        .get_available_moves()
        .into_iter()
        .find(|mv| matches!(mv, Move::CastleKingside { .. }))
        .expect("the cleared kingside should offer a castle candidate");
    assert!(game.execute_move(candidate).is_ok());
    assert_eq!(
        game.board.get_piece_on_square(sq("g1")).unwrap().0,
        Piece::King { has_moved: true }
    );
}

#[test]
fn side_toggles_on_success_and_stays_on_failure() {
    let mut game = new_game();
    assert_eq!(game.turn, Color::White);
    // a refused move leaves the side to move alone
    assert!(game.execute_move(Move::new(Piece::Pawn, sq("e2"), sq("e5"), None)).is_err());
    assert_eq!(game.turn, Color::White);
    // a successful one flips it
    assert!(game.execute_move(Move::new(Piece::Pawn, sq("e2"), sq("e4"), None)).is_ok());
    assert_eq!(game.turn, Color::Black);
    assert_eq!(game.moves.len(), 1);
}

#[test]
fn occupancy_and_piece_list_agree_after_moves() {
    let mut game = new_game();
    game.execute_move(Move::new(Piece::Pawn, sq("e2"), sq("e4"), None)).unwrap();
    game.execute_move(Move::new(Piece::Pawn, sq("d7"), sq("d5"), None)).unwrap();
    game.execute_move(Move::new(Piece::Pawn, sq("e4"), sq("d5"), None)).unwrap();
    for i in 0..64u8 {
        let s = Square::new(i).unwrap();
        assert_eq!(game.board.get_piece_on_square(s).is_some(), game.board.is_occupied(s));
    }
}

#[test]
fn moved_rook_carries_its_tag() {
    let mut game = new_game();
    game.execute_move(Move::new(Piece::Pawn, sq("a2"), sq("a4"), None)).unwrap();
    game.execute_move(Move::new(Piece::Pawn, sq("h7"), sq("h6"), None)).unwrap();
    game.execute_move(Move::new(Piece::Rook { has_moved: false }, sq("a1"), sq("a3"), None))
        .unwrap();
    assert_eq!(
        game.board.get_piece_on_square(sq("a3")).unwrap().0,
        Piece::Rook { has_moved: true }
    );
    // the other rook keeps its clean tag
    assert_eq!(
        game.board.get_piece_on_square(sq("h1")).unwrap().0,
        Piece::Rook { has_moved: false }
    );
}

#[test]
fn error_taxonomy_is_exact() {
    let mut game = new_game();
    // the source square holds no piece
    assert_eq!(
        game.execute_move(Move::new(Piece::Pawn, sq("e4"), sq("e5"), None)),
        Err(IllegalMoveError::EmptySquare { square: sq("e4") })
    );
    // the piece on the square is not the declared one
    assert_eq!(
        game.execute_move(Move::new(Piece::Knight, sq("e2"), sq("e4"), None)),
        Err(IllegalMoveError::DifferentPiece { expected: Piece::Knight, found: Piece::Pawn })
    );
    // the other side's piece
    assert_eq!(
        game.execute_move(Move::new(Piece::Pawn, sq("e7"), sq("e5"), None)),
        Err(IllegalMoveError::NotYourPiece { color: Color::Black, square: sq("e7") })
    );
    // capturing a friendly piece
    let own = Move::new(Piece::Queen, sq("d1"), sq("d2"), None);
    assert_eq!(
        game.execute_move(own),
        Err(IllegalMoveError::TakesOwnPiece { mv: own, piece: Piece::Pawn })
    );
    // a pawn capture aimed at an empty square
    let empty_cap = Move::new(Piece::Pawn, sq("e2"), sq("d3"), None);
    assert_eq!(
        game.execute_move(empty_cap),
        Err(IllegalMoveError::TakesEmptySquare { mv: empty_cap, square: sq("d3") })
    );
    // a blocked double push
    game.board.place_piece_on_square(Piece::Knight, Color::Black, sq("c3"));
    let blocked = Move::new(Piece::Pawn, sq("c2"), sq("c4"), None);
    assert_eq!(
        game.execute_move(blocked),
        Err(IllegalMoveError::Blocked { mv: blocked, square: sq("c3") })
    );
    // wrong geometry
    let jump = Move::new(Piece::Pawn, sq("e2"), sq("e5"), None);
    assert_eq!(game.execute_move(jump), Err(IllegalMoveError::MoveInvalid { mv: jump }));
}

#[test]
fn pawn_facing_enemy_two_ahead_cannot_push() {
    let mut game = new_game();
    // an enemy two squares ahead blocks the double push
    game.board.place_piece_on_square(Piece::Pawn, Color::Black, sq("e4"));
    let double = Move::new(Piece::Pawn, sq("e2"), sq("e4"), None);
    assert_eq!(
        game.execute_move(double),
        Err(IllegalMoveError::Blocked { mv: double, square: sq("e4") })
    );
    // the single push remains possible
    assert!(game.execute_move(Move::new(Piece::Pawn, sq("e2"), sq("e3"), None)).is_ok());
    // an enemy directly ahead blocks even the single push
    let mut game = new_game();
    game.board.place_piece_on_square(Piece::Pawn, Color::Black, sq("e3"));
    assert!(game.execute_move(Move::new(Piece::Pawn, sq("e2"), sq("e3"), None)).is_err());
    assert!(game.execute_move(Move::new(Piece::Pawn, sq("e2"), sq("e4"), None)).is_err());
}

#[test]
fn history_records_the_played_moves() {
    let mut game = new_game();
    assert!(game.previous_move().is_none());
    game.execute_move(Move::new(Piece::Pawn, sq("e2"), sq("e4"), None)).unwrap();
    assert_eq!(
        game.previous_move().unwrap(),
        Move::Normal { piece: Piece::Pawn, from: sq("e2"), to: sq("e4") }
    );
    game.execute_move(Move::new(Piece::Pawn, sq("d7"), sq("d5"), None)).unwrap();
    game.execute_move(Move::new(Piece::Pawn, sq("e4"), sq("d5"), None)).unwrap();
    // the capture is recorded with the taken piece written in
    assert_eq!(
        game.previous_move().unwrap(),
        Move::Capture { piece: Piece::Pawn, from: sq("e4"), to: sq("d5"), captured: Piece::Pawn }
    );
    assert_eq!(game.moves.len(), 3);
}

#[test]
fn moving_into_check_is_refused() {
    let mut game = new_game();
    // open the e-file for the black rook, with the white king exposed
    game.board.remove_piece_from_square(sq("e2"));
    game.board.remove_piece_from_square(sq("e7"));
    game.board.remove_piece_from_square(sq("d8"));
    game.board
        .place_piece_on_square(Piece::Rook { has_moved: true }, Color::Black, sq("e5"));
    // the king cannot stay pinned: any move that leaves it attacked fails
    let mv = Move::new(Piece::King { has_moved: false }, sq("e1"), sq("e2"), None);
    assert_eq!(game.execute_move(mv), Err(IllegalMoveError::IsInCheck));
    // blocking the file instead is fine
    assert!(game
        .execute_move(Move::new(Piece::Queen, sq("d1"), sq("e2"), None))
        .is_ok());
}
