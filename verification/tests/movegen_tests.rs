use crab::bitboard::Bitboard;
use crab::board::Board;
use crab::defs::{Direction, Square};
use crab::lookups::Tables;
use crab::movegen::util::ray_attack;
use crab::perft::perft;

#[test]
fn ray_attacks() {
    assert_eq!(
        ray_attack(Square(Square::A1), Bitboard(0), Direction(Direction::N)).0,
        0x0101010101010100
    );
    assert_eq!(
        ray_attack(Square(Square::A1), Bitboard(0x0100000000000000), Direction(Direction::N)).0,
        0x0101010101010100
    );
    assert_eq!(
        ray_attack(Square(Square::A1), Bitboard(0x0101000000000000), Direction(Direction::N)).0,
        0x0001010101010100
    );
    assert_eq!(
        ray_attack(Square(Square::A1), Bitboard(0x8040201008040200), Direction(Direction::NE)).0,
        0x0000000000000200
    );
    assert_eq!(
        ray_attack(Square(Square::A1), Bitboard(0x8000000000000000), Direction(Direction::NE)).0,
        0x8040201008040200
    );
    assert_eq!(
        ray_attack(Square(Square::A1), Bitboard(0x0000000000000000), Direction(Direction::NE)).0,
        0x8040201008040200
    );
    assert_eq!(
        ray_attack(Square(Square::A8), Bitboard(0x0002040801020408), Direction(Direction::SE)).0,
        0x0002000000000000
    );
    assert_eq!(
        ray_attack(Square(Square::H8), Bitboard(0x0040201008040201), Direction(Direction::SW)).0,
        0x0040000000000000
    );
}

fn perft_of(fen: &str, depth: u8) -> u64 {
    let tables = Tables::new();
    let board = match Board::from_fen(fen.as_bytes(), &tables) {
        Ok(board) => board,
        Err(_) => panic!("the FEN should parse"),
    };
    perft(&board, &tables, depth)
}

#[test]
fn perft_startpos() {
    let tables = Tables::new();
    let board = Board::startpos(&tables);
    assert_eq!(perft(&board, &tables, 0), 1);
    assert_eq!(perft(&board, &tables, 1), 20);
    assert_eq!(perft(&board, &tables, 2), 400);
    assert_eq!(perft(&board, &tables, 3), 8902);
    assert_eq!(perft(&board, &tables, 4), 197281);
}

#[test]
fn perft_kiwipete() {
    let fen = "r3k2r/p1ppqpb1/bn2pnp1/3PN3/1p2P3/2N2Q1p/PPPBBPPP/R3K2R w KQkq - 0 1";
    assert_eq!(perft_of(fen, 1), 48);
    assert_eq!(perft_of(fen, 2), 2039);
    assert_eq!(perft_of(fen, 3), 97862);
}

#[test]
fn perft_position_3() {
    let fen = "8/2p5/3p4/KP5r/1R3p1k/8/4P1P1/8 w - - 0 1";
    assert_eq!(perft_of(fen, 1), 14);
    assert_eq!(perft_of(fen, 2), 191);
    assert_eq!(perft_of(fen, 3), 2812);
    assert_eq!(perft_of(fen, 4), 43238);
}

#[test]
fn perft_position_4() {
    let fen = "r3k2r/Pppp1ppp/1b3nbN/nP6/BBP1P3/q4N2/Pp1P2PP/R2Q1RK1 w kq - 0 1";
    assert_eq!(perft_of(fen, 1), 6);
    assert_eq!(perft_of(fen, 2), 264);
    assert_eq!(perft_of(fen, 3), 9467);
}

#[test]
fn perft_position_5() {
    let fen = "rnbq1k1r/pp1Pbppp/2p5/8/2B5/8/PPP1NnPP/RNBQK2R w KQ - 1 8";
    assert_eq!(perft_of(fen, 1), 44);
    assert_eq!(perft_of(fen, 2), 1486);
    assert_eq!(perft_of(fen, 3), 62379);
}

#[test]
fn a_bitboard_is_drawn_from_the_eighth_rank_down() {
    let empty_row = "0 0 0 0 0 0 0 0";
    let mut expected = vec![empty_row; 7].join("\n");
    expected.push_str("\n1 0 0 0 0 0 0 1");
    assert_eq!(String::from_utf8(Bitboard(0x81).to_bytes()).unwrap(), expected);
    let h8 = String::from_utf8(Bitboard(1 << 63).to_bytes()).unwrap();
    assert!(h8.starts_with("0 0 0 0 0 0 0 1\n0 0 0 0 0 0 0 0\n"));
    assert_eq!(h8.len(), 8 * 15 + 7);
}
