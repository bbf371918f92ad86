use std::sync::mpsc::{channel, Receiver, Sender};

use oorandom::Rand64;

use crab::board::Board;
use crab::defs::{File, PieceType, Rank, Square};
use crab::error::ParseError;
use crab::game_parser::{make_castling_move, make_non_castle_move, GameSampler, SanMove, SanPlay};
use crab::lookups::Tables;

fn sampler(tables: &Tables) -> (GameSampler, Sender<String>, Receiver<Vec<u8>>) {
    let (commands_tx, commands_rx) = channel();
    let (output_tx, output_rx) = channel();
    (GameSampler::new(commands_rx, output_tx, Rand64::new(0), tables), commands_tx, output_rx)
}

fn board_of(fen: &str, tables: &Tables) -> Board {
    Board::from_fen(fen.as_bytes(), tables).expect("a valid FEN")
}

fn fen_of(board: &Board) -> String {
    String::from_utf8(board.to_fen()).unwrap()
}

fn san(piece_type: u8, end: &str) -> SanMove {
    SanMove {
        piece_type: PieceType(piece_type),
        file: None,
        rank: None,
        capture: false,
        end: Square::from_bytes(end.as_bytes()).unwrap(),
        promotion: None,
    }
}

#[test]
fn a_new_sampler_starts_a_drawn_game_from_the_start() {
    let tables = Tables::new();
    let (sampler, _commands, _output) = sampler(&tables);
    assert_eq!(fen_of(&sampler.board), "rnbqkbnr/pppppppp/8/8/8/8/PPPPPPPP/RNBQKBNR w KQkq - 0 1");
    assert_eq!(sampler.result, b"1/2-1/2".to_vec());
    assert!(sampler.candidates.is_empty());
}

#[test]
fn headers_set_the_board_and_the_result() {
    let tables = Tables::new();
    let (mut sampler, _commands, _output) = sampler(&tables);
    let fen = "4k3/8/8/8/8/8/8/4K2R w K - 0 1";
    assert_eq!(sampler.header(b"FEN", fen.as_bytes(), &tables), Ok(()));
    assert_eq!(fen_of(&sampler.board), fen);
    assert_eq!(sampler.header(b"Result", b"1-0", &tables), Ok(()));
    assert_eq!(sampler.result, b"1-0".to_vec());
    assert_eq!(sampler.header(b"White", b"Someone", &tables), Ok(()));
    assert_eq!(fen_of(&sampler.board), fen);
    assert_eq!(sampler.header(b"FEN", b"4k3/8/8/8 x", &tables), Err(ParseError::InvalidToken));
    assert_eq!(fen_of(&sampler.board), fen);
    sampler.end_headers();
    assert_eq!(sampler.candidates.len(), 1);
}

#[test]
fn pawn_pushes_and_knight_moves_are_played() {
    let tables = Tables::new();
    let mut board = Board::startpos(&tables);
    make_non_castle_move(&mut board, san(PieceType::PAWN, "e4"), &tables);
    assert_eq!(fen_of(&board), "rnbqkbnr/pppppppp/8/8/4P3/8/PPPP1PPP/RNBQKBNR b KQkq e3 0 1");
    make_non_castle_move(&mut board, san(PieceType::PAWN, "e6"), &tables);
    make_non_castle_move(&mut board, san(PieceType::KNIGHT, "f3"), &tables);
    assert_eq!(fen_of(&board), "rnbqkbnr/pppp1ppp/4p3/8/4P3/5N2/PPPP1PPP/RNBQKB1R b KQkq - 1 2");
}

#[test]
fn captures_en_passant_and_promotions_are_played() {
    let tables = Tables::new();
    let mut board = board_of("4k3/1P6/8/3Pp3/8/8/8/4K3 w - e6 0 1", &tables);
    let mut en_passant = san(PieceType::PAWN, "e6");
    en_passant.capture = true;
    make_non_castle_move(&mut board, en_passant, &tables);
    assert_eq!(fen_of(&board), "4k3/1P6/4P3/8/8/8/8/4K3 b - - 0 1");
    make_non_castle_move(&mut board, san(PieceType::KING, "d8"), &tables);
    let mut promotion = san(PieceType::PAWN, "b8");
    promotion.promotion = Some(PieceType(PieceType::QUEEN));
    make_non_castle_move(&mut board, promotion, &tables);
    assert_eq!(fen_of(&board), "1Q1k4/8/4P3/8/8/8/8/4K3 b - - 0 2");
}

#[test]
fn the_file_or_rank_tells_pieces_apart() {
    let tables = Tables::new();
    let board = board_of("4k3/8/8/8/8/8/8/1N2KN2 w - - 0 1", &tables);
    let mut by_file = board;
    let mut nbd2 = san(PieceType::KNIGHT, "d2");
    nbd2.file = Some(File(1));
    make_non_castle_move(&mut by_file, nbd2, &tables);
    assert_eq!(fen_of(&by_file), "4k3/8/8/8/8/8/3N4/4KN2 b - - 1 1");

    let mut by_rank = board_of("4k3/8/8/8/R7/8/8/R3K3 w - - 0 1", &tables);
    let mut r1a2 = san(PieceType::ROOK, "a2");
    r1a2.rank = Some(Rank(0));
    make_non_castle_move(&mut by_rank, r1a2, &tables);
    assert_eq!(fen_of(&by_rank), "4k3/8/8/8/R7/8/R7/4K3 b - - 1 1");
}

#[test]
fn a_pinned_piece_is_passed_over() {
    let tables = Tables::new();
    // both knights reach c3, but the one on e2 is pinned
    let mut board = board_of("4r2k/8/8/8/8/8/4N3/1N2K3 w - - 0 1", &tables);
    make_non_castle_move(&mut board, san(PieceType::KNIGHT, "c3"), &tables);
    assert_eq!(fen_of(&board), "4r2k/8/8/8/8/2N5/4N3/4K3 b - - 1 1");
}

#[test]
fn a_move_no_piece_can_make_keeps_the_board() {
    let tables = Tables::new();
    let mut board = Board::startpos(&tables);
    make_non_castle_move(&mut board, san(PieceType::QUEEN, "d4"), &tables);
    assert_eq!(fen_of(&board), fen_of(&Board::startpos(&tables)));
}

#[test]
fn castling_is_played_for_the_side_to_move() {
    let tables = Tables::new();
    let mut board = board_of("r3k2r/8/8/8/8/8/8/R3K2R w KQkq - 0 1", &tables);
    make_castling_move(&mut board, true, &tables);
    assert_eq!(fen_of(&board), "r3k2r/8/8/8/8/8/8/R4RK1 b kq - 1 1");
    make_castling_move(&mut board, false, &tables);
    assert_eq!(fen_of(&board), "2kr3r/8/8/8/8/8/8/R4RK1 w - - 2 2");
}

#[test]
fn every_position_of_the_game_is_a_candidate() {
    let tables = Tables::new();
    let (mut sampler, _commands, _output) = sampler(&tables);
    sampler.end_headers();
    sampler.san(SanPlay::Normal(san(PieceType::PAWN, "e4")), &tables);
    sampler.san(SanPlay::Normal(san(PieceType::PAWN, "e5")), &tables);
    assert_eq!(sampler.candidates.len(), 3);
    assert_eq!(fen_of(&sampler.candidates[0]), fen_of(&Board::startpos(&tables)));
    assert_eq!(fen_of(&sampler.candidates[2]), fen_of(&sampler.board));
}

#[test]
fn the_end_of_a_game_sends_three_samples_with_the_result() {
    let tables = Tables::new();
    let (mut sampler, _commands, output) = sampler(&tables);
    sampler.header(b"FEN", b"8/8/8/4k3/8/8/8/4K3 w - - 0 1", &tables).unwrap();
    sampler.end_headers();
    sampler.san(SanPlay::Normal(san(PieceType::KING, "e2")), &tables);
    sampler.san(SanPlay::Normal(san(PieceType::KING, "d4")), &tables);
    sampler.san(SanPlay::Normal(san(PieceType::KING, "d2")), &tables);
    assert_eq!(sampler.candidates.len(), 4);
    sampler.end_game(&tables);
    assert!(sampler.candidates.is_empty());
    let samples: Vec<String> = output
        .try_iter()
        .map(|line| String::from_utf8(line).unwrap())
        .filter(|line| !line.starts_with("info "))
        .collect();
    assert_eq!(samples.len(), 3);
    for sample in &samples {
        let fen = sample.strip_suffix(" 1/2-1/2").expect("the result after the position");
        Board::from_fen(fen.as_bytes(), &tables).expect("a valid FEN");
    }
}
