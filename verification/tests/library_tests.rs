//! Squares, masks, moves and the assembled attack tables.

use athena_chess::attack_tables::AttackTables;
use athena_chess::chess_move::Move;
use athena_chess::error::ChessError;
use athena_chess::mask::BoardMask;
use athena_chess::occupancy::Occupancy;
use athena_chess::piece::{Color, Piece};
use athena_chess::square::{File, Rank, Square};

fn sq(name: &str) -> Square {
    let b = name.as_bytes();
    let file = b[0] - b'a';
    let rank = b[1] - b'1';
    Square::new(rank * 8 + file).unwrap()
}

#[test]
fn square_construction_and_decomposition() {
    assert_eq!(Square::new(9).unwrap(), sq("b2"));
    assert_eq!(Square::from_rank_file(Rank::Four, File::A), sq("a4"));
    assert_eq!(Square::from_file_rank(File::D, Rank::Four), sq("d4"));
    assert_eq!(sq("a1").as_index(), 0);
    assert_eq!(sq("b2").as_index(), 9);
    assert_eq!(sq("h8").as_u8(), 63);
    assert_eq!(sq("e4").get_rank(), Rank::Four);
    assert_eq!(sq("e4").get_file(), File::E);
    assert_eq!(sq("e4").horizontal(), 4);
    assert_eq!(sq("e4").vertical(), 3);
    assert_eq!(sq("c1").as_bbs(), 1u64 << 2);
    assert_eq!(
        Square::new(64),
        Err(ChessError::InvalidSquare { square: 64 })
    );
}

#[test]
fn square_delta_arithmetic() {
    assert_eq!(sq("e4").move_on_rank(-2).unwrap(), sq("c4"));
    assert_eq!(sq("a1").move_on_rank(1).unwrap(), sq("b1"));
    assert!(sq("h4").move_on_rank(1).is_err());
    assert_eq!(sq("e4").move_on_file(-2).unwrap(), sq("e2"));
    assert_eq!(sq("a1").move_on_file(1).unwrap(), sq("a2"));
    assert!(sq("e8").move_on_file(1).is_err());
    assert_eq!(sq("e4").get_delta_rank(sq("e8")), 4);
    assert_eq!(sq("c8").get_delta_rank(sq("c6")), -2);
    assert_eq!(sq("a4").get_delta_file(sq("e4")), 4);
    assert_eq!(sq("f8").get_delta_file(sq("c8")), -3);
}

#[test]
fn mask_set_algebra() {
    let mut mask = BoardMask::default();
    assert_eq!(mask.count_ones(), 0);
    mask.add_square(sq("e4"));
    assert!(mask.contains(sq("e4")));
    assert!(!mask.contains(sq("e5")));
    let with = mask.with_square(sq("e5"));
    assert_eq!(with.count_ones(), 2);
    let removed = with.with_square_removed(sq("e4"));
    assert!(!removed.contains(sq("e4")));
    assert!(removed.contains(sq("e5")));
    let mut many = BoardMask::default();
    many.add_squares(&vec![sq("a1"), sq("h8"), sq("a1")]);
    assert_eq!(many.count_ones(), 2);
    let squares = many.as_squares();
    assert_eq!(squares, vec![sq("a1"), sq("h8")]);
    let mut back = BoardMask::default();
    back.add_squares(&squares);
    assert_eq!(back, many);
}

#[test]
fn occupancy_bits_follow_squares() {
    let mut occ = Occupancy::default();
    occ.add_square(sq("e4"));
    assert!(occ.is_occupied(sq("e4")));
    occ.remove_square(sq("e4"));
    assert!(!occ.is_occupied(sq("e4")));
    let o = Occupancy(0).with_square(sq("b7"));
    assert!(o.is_occupied(sq("b7")));
    assert!(!o.with_square_removed(sq("b7")).is_occupied(sq("b7")));
    // the hash only reads the squares selected by the mask
    let mask = BoardMask(0).with_square(sq("b7")).with_square(sq("c7"));
    let noise = o.with_square(sq("h1"));
    assert_eq!(
        o.hash(mask, 0x1234_5678_9abc_def1, 60),
        noise.hash(mask, 0x1234_5678_9abc_def1, 60)
    );
}

#[test]
fn move_constructors_and_getters() {
    let normal = Move::new(Piece::Knight, sq("e4"), sq("f6"), None);
    assert_eq!(normal, Move::Normal { piece: Piece::Knight, from: sq("e4"), to: sq("f6") });
    assert_eq!(normal.get_from(), sq("e4"));
    assert_eq!(normal.get_to(), sq("f6"));
    assert_eq!(normal.get_piece(), Piece::Knight);
    assert_eq!(normal.get_captured(), None);
    assert!(!normal.takes());

    let capture = Move::new(Piece::Bishop, sq("c4"), sq("f7"), Some(Piece::Pawn));
    assert_eq!(capture.get_captured(), Some(Piece::Pawn));
    assert!(capture.takes());

    let ep = Move::en_pasante(sq("e5"), sq("d6"));
    assert!(ep.is_en_passant());
    assert_eq!(ep.get_piece(), Piece::Pawn);
    assert_eq!(ep.get_captured(), Some(Piece::Pawn));

    let promo = Move::promotion(sq("e7"), sq("e8"), None, Piece::Queen);
    assert!(promo.is_promotion());
    assert_eq!(promo.get_promotion(), Some(Piece::Queen));
    let promos = Move::promotions(sq("e7"), sq("e8"), None);
    assert_eq!(promos.len(), 4);

    let short = Move::castle_kingside(sq("e1"), sq("g1"), sq("h1"), sq("f1"));
    assert!(short.is_castle());
    assert_eq!(short.get_from(), sq("e1"));
    let long = Move::castle_queenside(sq("e8"), sq("c8"), sq("a8"), sq("d8"));
    assert!(long.is_castle());

    let mut m = Move::new(Piece::Pawn, sq("e4"), sq("d5"), None);
    m.set_takes(Some(Piece::Knight));
    assert_eq!(
        m,
        Move::Capture { piece: Piece::Pawn, from: sq("e4"), to: sq("d5"), captured: Piece::Knight }
    );
}

#[test]
fn piece_queries_and_display_letters() {
    let mut rook = Piece::Rook { has_moved: false };
    assert!(rook.is_rook());
    rook.make_moved();
    assert_eq!(rook, Piece::Rook { has_moved: true });
    let king = Piece::King { has_moved: false };
    assert!(king.is_king());
    assert!(Piece::Pawn.is_pawn());
    assert!(Piece::Knight.is_knight());
    assert!(Piece::Bishop.is_bishop());
    assert!(Piece::Queen.is_queen());
    assert_eq!(Piece::Queen.get_value(), 8);
    assert_eq!(Piece::Pawn.get_value(), 1);
    assert_eq!(Piece::Knight.chess_notation(), "N");
    assert_eq!(Piece::Pawn.chess_notation(), "");
    assert_eq!(Piece::Pawn.short_name(), "P");
    assert_eq!(king.chess_notation(), "K");
    let white = Color::White;
    assert!(white.is_white());
    assert!(white.opposite().is_black());
}

#[test]
fn tables_answer_with_the_ray_cast() {
    // one build of the full tables; the lookups must agree with the
    // deterministic ray cast, so a table of stale or scrambled patterns
    // would fail here
    let tables = AttackTables::create_tables().unwrap();
    let occ = Occupancy(0)
        .with_square(sq("d6"))
        .with_square(sq("f4"))
        .with_square(sq("b2"));
    let rook = tables.get_attack_pattern_rook(sq("d4"), occ);
    assert_eq!(
        rook,
        athena_chess::move_logic::create_rook_attack_pattern(sq("d4"), occ)
    );
    let bishop = tables.get_attack_pattern_bishop(sq("d4"), occ);
    assert_eq!(
        bishop,
        athena_chess::move_logic::create_bishop_attack_pattern(sq("d4"), occ)
    );
    // the queen's set is exactly the union of the rook's and the bishop's
    let queen = tables.get_attack_pattern_queen(sq("d4"), occ);
    assert_eq!(queen.0, rook.0 | bishop.0);
    // knight lookups ignore the occupancy
    assert_eq!(
        tables.get_attack_pattern_knight(sq("g1")),
        athena_chess::move_logic::create_knight_attack_pattern(sq("g1"))
    );
    // a round trip through the persistence accessors revalidates
    let rebuilt = AttackTables::from_parts(
        tables.rook_entries().clone(),
        tables.bishop_entries().clone(),
        tables.knight_entries().clone(),
    );
    assert!(rebuilt.is_some());
}

#[test]
fn square_names_and_parsing() {
    assert_eq!(sq("e4").name(), "e4");
    assert_eq!(sq("a1").name(), "a1");
    assert_eq!(sq("h8").name(), "h8");
    assert_eq!("e4".parse::<Square>().unwrap(), sq("e4"));
    assert_eq!("h8".parse::<Square>().unwrap(), sq("h8"));
    assert!("z9".parse::<Square>().is_err());
    assert!("e".parse::<Square>().is_err());
    assert!("e44".parse::<Square>().is_err());
}

#[test]
fn move_notation_renders() {
    assert_eq!(Move::new(Piece::Knight, sq("g1"), sq("f3"), None).notation(), "Ng1f3");
    assert_eq!(Move::new(Piece::Pawn, sq("e2"), sq("e4"), None).notation(), "e2e4");
    assert_eq!(
        Move::new(Piece::Bishop, sq("c4"), sq("f7"), Some(Piece::Pawn)).notation(),
        "Bc4xf7"
    );
    assert_eq!(Move::en_pasante(sq("e5"), sq("d6")).notation(), "e5xd6 e.p.");
    assert_eq!(Move::promotion(sq("e7"), sq("e8"), None, Piece::Queen).notation(), "e7e8=Q");
    assert_eq!(
        Move::promotion(sq("e7"), sq("d8"), Some(Piece::Rook { has_moved: true }), Piece::Queen)
            .notation(),
        "e7xd8=Q"
    );
    assert_eq!(Move::castle_kingside(sq("e1"), sq("g1"), sq("h1"), sq("f1")).notation(), "O-O");
    assert_eq!(
        Move::castle_queenside(sq("e1"), sq("c1"), sq("a1"), sq("d1")).notation(),
        "O-O-O"
    );
}
