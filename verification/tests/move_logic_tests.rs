//! The mask and attack-pattern generators against hand-computed square
//! sets.

use athena_chess::mask::BoardMask;
use athena_chess::move_logic::{
    create_bishop_attack_pattern, create_bishop_mask, create_knight_attack_pattern,
    create_rook_attack_pattern, create_rook_mask,
};
use athena_chess::occupancy::Occupancy;
use athena_chess::square::Square;

fn sq(name: &str) -> Square {
    let b = name.as_bytes();
    let file = b[0] - b'a';
    let rank = b[1] - b'1';
    Square::new(rank * 8 + file).unwrap()
}

fn squares_from_mask(mask: BoardMask) -> Vec<String> {
    let mut squares = Vec::new();
    for i in 0..64 {
        if mask.contains(Square::new(i).unwrap()) {
            let file = (b'a' + (i % 8)) as char;
            let rank = (b'1' + (i / 8)) as char;
            squares.push(format!("{}{}", file, rank));
        }
    }
    squares
}

fn check_bit_board_pattern(expected: BoardMask, computed: BoardMask) {
    assert_eq!(
        computed,
        expected,
        "assert failed:\nexpected: {:>64b}\ngot:      {:>64b}\nerror:    {:>64b}\nsquares:  {:?}",
        expected.0,
        computed.0,
        computed.0 ^ expected.0,
        squares_from_mask(BoardMask(computed.0 ^ expected.0)),
    )
}

#[test]
fn test_create_bishop_mask() {
    let s = sq("d4");
    let m = create_bishop_mask(s);
    let expected = BoardMask(0)
        .with_square(sq("e3"))
        .with_square(sq("f2"))
        .with_square(sq("c3"))
        .with_square(sq("b2"))
        .with_square(sq("c5"))
        .with_square(sq("b6"))
        .with_square(sq("e5"))
        .with_square(sq("f6"))
        .with_square(sq("g7"));
    check_bit_board_pattern(expected, m);
}

#[test]
fn test_create_rook_mask() {
    let s = sq("d4");
    let m = create_rook_mask(s);
    let expected = BoardMask(0)
        .with_square(sq("d5"))
        .with_square(sq("d6"))
        .with_square(sq("d7"))
        .with_square(sq("d3"))
        .with_square(sq("d2"))
        .with_square(sq("c4"))
        .with_square(sq("b4"))
        .with_square(sq("e4"))
        .with_square(sq("f4"))
        .with_square(sq("g4"));
    check_bit_board_pattern(expected, m);
}

#[test]
fn test_create_bishop_attack_pattern_no_occupants() {
    let s = sq("d4");
    let m = create_bishop_attack_pattern(s, Occupancy(0));
    let expected = BoardMask(0)
        .with_square(sq("e3"))
        .with_square(sq("f2"))
        .with_square(sq("g1"))
        .with_square(sq("c3"))
        .with_square(sq("b2"))
        .with_square(sq("a1"))
        .with_square(sq("c5"))
        .with_square(sq("b6"))
        .with_square(sq("a7"))
        .with_square(sq("e5"))
        .with_square(sq("f6"))
        .with_square(sq("g7"))
        .with_square(sq("h8"));
    check_bit_board_pattern(expected, m);
}

#[test]
fn test_create_bishop_attack_pattern_with_occupants() {
    let s = sq("d4");
    let occupancy = Occupancy(0)
        .with_square(sq("f2"))
        .with_square(sq("a1"))
        .with_square(sq("c5"))
        .with_square(sq("f6"));
    let m = create_bishop_attack_pattern(s, occupancy);
    let expected = BoardMask(0)
        .with_square(sq("e3"))
        .with_square(sq("f2"))
        .with_square(sq("c3"))
        .with_square(sq("b2"))
        .with_square(sq("a1"))
        .with_square(sq("c5"))
        .with_square(sq("e5"))
        .with_square(sq("f6"));
    check_bit_board_pattern(expected, m);
}

#[test]
fn test_create_rook_attack_pattern_no_occupants() {
    let s = sq("d4");
    let m = create_rook_attack_pattern(s, Occupancy(0));
    let expected = BoardMask(0)
        .with_square(sq("d5"))
        .with_square(sq("d6"))
        .with_square(sq("d7"))
        .with_square(sq("d8"))
        .with_square(sq("d3"))
        .with_square(sq("d2"))
        .with_square(sq("d1"))
        .with_square(sq("c4"))
        .with_square(sq("b4"))
        .with_square(sq("a4"))
        .with_square(sq("e4"))
        .with_square(sq("f4"))
        .with_square(sq("g4"))
        .with_square(sq("h4"));
    check_bit_board_pattern(expected, m);
}

#[test]
fn test_create_rook_attack_pattern_with_occupants() {
    let s = sq("d4");
    let occupancy = Occupancy(0)
        .with_square(sq("d7"))
        .with_square(sq("d3"))
        .with_square(sq("a4"))
        .with_square(sq("f4"))
        .with_square(sq("h4"))
        .with_square(sq("h8"));
    let m = create_rook_attack_pattern(s, occupancy);
    let expected = BoardMask(0)
        .with_square(sq("d5"))
        .with_square(sq("d6"))
        .with_square(sq("d7"))
        .with_square(sq("d3"))
        .with_square(sq("c4"))
        .with_square(sq("b4"))
        .with_square(sq("a4"))
        .with_square(sq("e4"))
        .with_square(sq("f4"));
    check_bit_board_pattern(expected, m);
}

#[test]
fn utlis_test_create_bishop_mask() {
    let s = sq("d4");
    let m = create_bishop_mask(s);
    let expected = sq("e3").as_bbs()
        | sq("f2").as_bbs()
        | sq("c3").as_bbs()
        | sq("b2").as_bbs()
        | sq("c5").as_bbs()
        | sq("b6").as_bbs()
        | sq("e5").as_bbs()
        | sq("f6").as_bbs()
        | sq("g7").as_bbs();
    assert_eq!(expected, m.0);
}

#[test]
fn utlis_test_create_rook_mask() {
    let s = sq("d4");
    let m = create_rook_mask(s);
    let expected = sq("d5").as_bbs()
        | sq("d6").as_bbs()
        | sq("d7").as_bbs()
        | sq("d3").as_bbs()
        | sq("d2").as_bbs()
        | sq("c4").as_bbs()
        | sq("b4").as_bbs()
        | sq("e4").as_bbs()
        | sq("f4").as_bbs()
        | sq("g4").as_bbs();
    assert_eq!(expected, m.0);
}

#[test]
fn utlis_test_create_bishop_attack_pattern_no_occupants() {
    let s = sq("d4");
    let m = create_bishop_attack_pattern(s, Occupancy(0));
    let expected = sq("e3").as_bbs()
        | sq("f2").as_bbs()
        | sq("g1").as_bbs()
        | sq("c3").as_bbs()
        | sq("b2").as_bbs()
        | sq("a1").as_bbs()
        | sq("c5").as_bbs()
        | sq("b6").as_bbs()
        | sq("a7").as_bbs()
        | sq("e5").as_bbs()
        | sq("f6").as_bbs()
        | sq("g7").as_bbs()
        | sq("h8").as_bbs();
    assert_eq!(expected, m.0);
}

#[test]
fn utlis_test_create_rook_attack_pattern_no_occupants() {
    let s = sq("d4");
    let m = create_rook_attack_pattern(s, Occupancy(0));
    let expected = sq("d5").as_bbs()
        | sq("d6").as_bbs()
        | sq("d7").as_bbs()
        | sq("d8").as_bbs()
        | sq("d3").as_bbs()
        | sq("d2").as_bbs()
        | sq("d1").as_bbs()
        | sq("c4").as_bbs()
        | sq("b4").as_bbs()
        | sq("a4").as_bbs()
        | sq("e4").as_bbs()
        | sq("f4").as_bbs()
        | sq("g4").as_bbs()
        | sq("h4").as_bbs();
    assert_eq!(expected, m.0);
}

#[test]
fn knight_pattern_center_and_corners() {
    // a knight in the interior reaches all eight destinations, on a
    // corner exactly two, on an edge square next to a corner three
    assert_eq!(create_knight_attack_pattern(sq("d4")).count_ones(), 8);
    assert_eq!(create_knight_attack_pattern(sq("a1")).count_ones(), 2);
    assert_eq!(create_knight_attack_pattern(sq("h1")).count_ones(), 2);
    assert_eq!(create_knight_attack_pattern(sq("a8")).count_ones(), 2);
    assert_eq!(create_knight_attack_pattern(sq("h8")).count_ones(), 2);
    assert_eq!(create_knight_attack_pattern(sq("b1")).count_ones(), 3);
    assert_eq!(create_knight_attack_pattern(sq("a4")).count_ones(), 4);
    let d4 = create_knight_attack_pattern(sq("d4"));
    for name in ["b3", "b5", "c2", "c6", "e2", "e6", "f3", "f5"] {
        assert!(d4.contains(sq(name)), "knight from d4 should reach {}", name);
    }
}

#[test]
fn slider_counts_on_empty_board() {
    // bishop 13, rook 14 and queen 27 attacked squares from d4 on an
    // empty board
    let bishop = create_bishop_attack_pattern(sq("d4"), Occupancy(0));
    let rook = create_rook_attack_pattern(sq("d4"), Occupancy(0));
    assert_eq!(bishop.count_ones(), 13);
    assert_eq!(rook.count_ones(), 14);
    assert_eq!(BoardMask(rook.0 | bishop.0).count_ones(), 27);
}
