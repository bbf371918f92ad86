use std::sync::mpsc::channel;

use oorandom::Rand64;

use crab::board::Board;
use crab::defs::Side;
use crab::error::ParseError;
use crab::evaluation::Evaluation;
use crab::fen_generation::{
    generate_fens_from_index, generate_fens_step, generate_openings_for_board, openings_per_base, parse_args, GenfensArgs, MAX_SCORE,
    MIN_SCORE,
};
use crab::lookups::Tables;
use crab::search::depth::Depth;
use crab::search::history::BoardHistory;
use crab::search::worker::Worker;
use crab::search::Pv;
use crab::transposition_table::TranspositionTable;

fn tokens(line: &str) -> Vec<Vec<u8>> {
    line.split_whitespace().map(|token| token.as_bytes().to_vec()).collect()
}

#[test]
fn genfens_arguments_with_defaults() {
    assert_eq!(
        parse_args(&tokens("10 seed 42 book None")),
        Ok(GenfensArgs {
            required_openings: 10,
            total_openings: 10,
            seed: 42,
            book: None,
            favoured_side: Side(Side::NONE),
        })
    );
}

#[test]
fn genfens_arguments_with_total_and_side() {
    assert_eq!(
        parse_args(&tokens("5 seed 18446744073709551615 book books/a.epd 500 b")),
        Ok(GenfensArgs {
            required_openings: 5,
            total_openings: 500,
            seed: u64::MAX,
            book: Some(b"books/a.epd".to_vec()),
            favoured_side: Side(Side::BLACK),
        })
    );
    assert_eq!(
        parse_args(&tokens("5 seed 1 book None 7 w")).map(|args| args.favoured_side),
        Ok(Side(Side::WHITE))
    );
}

#[test]
fn genfens_argument_errors() {
    assert_eq!(parse_args(&tokens("")), Err(ParseError::ExpectedToken));
    assert_eq!(parse_args(&tokens("ten seed 1 book None")), Err(ParseError::ErroneousToken));
    assert_eq!(parse_args(&tokens("10")), Err(ParseError::InvalidToken));
    assert_eq!(parse_args(&tokens("10 sed 1 book None")), Err(ParseError::InvalidToken));
    assert_eq!(parse_args(&tokens("10 seed")), Err(ParseError::ExpectedToken));
    assert_eq!(parse_args(&tokens("10 seed -1 book None")), Err(ParseError::ErroneousToken));
    assert_eq!(parse_args(&tokens("10 seed 1 cook None")), Err(ParseError::InvalidToken));
    assert_eq!(parse_args(&tokens("10 seed 1 book")), Err(ParseError::ExpectedToken));
    assert_eq!(parse_args(&tokens("10 seed 1 book None x")), Err(ParseError::ErroneousToken));
    assert_eq!(parse_args(&tokens("10 seed 1 book None 20 x")), Err(ParseError::InvalidToken));
}

#[test]
fn openings_at_depth_zero_are_the_board_itself() {
    let tables = Tables::new();
    let (_commands_tx, commands_rx) = channel();
    let (output_tx, output_rx) = channel();
    let mut worker = Worker::new(TranspositionTable::with_capacity(1), commands_rx, output_tx);
    worker.set_printing(false);
    let fen = "rnbqkbnr/pppppppp/8/8/4P3/8/PPPP1PPP/RNBQKBNR b KQkq e3 0 1";
    let board = Board::from_fen(fen.as_bytes(), &tables).unwrap();
    worker.set_board(&BoardHistory::new(), &board);
    let mut pv = Pv::new();
    let mut rng = Rand64::new(7);
    let left = generate_openings_for_board(
        &mut worker,
        &mut pv,
        &board,
        3,
        Depth(0),
        Evaluation(MIN_SCORE),
        Evaluation(MAX_SCORE),
        &mut rng,
        &tables,
    );
    assert_eq!(left, 2);
    let lines: Vec<String> = output_rx.try_iter().map(|line| String::from_utf8(line).unwrap()).collect();
    assert_eq!(lines, vec![format!("info string genfens {fen}")]);
}

#[test]
fn openings_one_move_deep_are_printed_until_enough() {
    let tables = Tables::new();
    let (_commands_tx, commands_rx) = channel();
    let (output_tx, output_rx) = channel();
    let mut worker = Worker::new(TranspositionTable::with_capacity(1), commands_rx, output_tx);
    worker.set_printing(false);
    let board = Board::from_fen(b"rnbqkbnr/pppppppp/8/8/8/8/PPPPPPPP/RNBQKBNR w KQkq - 0 1", &tables).unwrap();
    worker.set_board(&BoardHistory::new(), &board);
    let mut pv = Pv::new();
    let mut rng = Rand64::new(3);
    // any score at all is within the window
    let left = generate_openings_for_board(
        &mut worker,
        &mut pv,
        &board,
        2,
        Depth(1),
        Evaluation(-30000),
        Evaluation(30000),
        &mut rng,
        &tables,
    );
    assert_eq!(left, 0);
    let lines: Vec<String> = output_rx.try_iter().map(|line| String::from_utf8(line).unwrap()).collect();
    assert_eq!(lines.len(), 2);
    for line in &lines {
        let fen = line.strip_prefix("info string genfens ").expect("an opening");
        let opening = Board::from_fen(fen.as_bytes(), &tables).expect("a valid FEN");
        assert_eq!(opening.side_to_move(), Side(Side::BLACK));
    }
    assert_ne!(lines[0], lines[1]);
}

#[test]
fn no_opening_is_kept_outside_an_empty_window() {
    let tables = Tables::new();
    let (_commands_tx, commands_rx) = channel();
    let (output_tx, output_rx) = channel();
    let mut worker = Worker::new(TranspositionTable::with_capacity(1), commands_rx, output_tx);
    worker.set_printing(false);
    let board = Board::from_fen(b"rnbqkbnr/pppppppp/8/8/8/8/PPPPPPPP/RNBQKBNR w KQkq - 0 1", &tables).unwrap();
    worker.set_board(&BoardHistory::new(), &board);
    let mut pv = Pv::new();
    let mut rng = Rand64::new(3);
    // no score after a first move from the start is a mate
    let left = generate_openings_for_board(
        &mut worker,
        &mut pv,
        &board,
        4,
        Depth(1),
        Evaluation(30000),
        Evaluation(30001),
        &mut rng,
        &tables,
    );
    assert_eq!(left, 4);
    assert_eq!(output_rx.try_iter().count(), 0);
}

#[test]
fn a_round_of_opening_generation() {
    assert_eq!(openings_per_base(10, 3), 5);
    let tables = Tables::new();
    let (_commands_tx, commands_rx) = channel();
    let (output_tx, output_rx) = channel();
    let mut worker = Worker::new(TranspositionTable::with_capacity(1), commands_rx, output_tx);
    worker.set_printing(false);
    let mut pv = Pv::new();
    let mut rng = Rand64::new(5);
    let base = vec![b"rnbqkbnr/pppppppp/8/8/8/8/PPPPPPPP/RNBQKBNR w KQkq - 0 1".to_vec()];
    let depths = vec![2i16, 1, 1];
    let left = generate_fens_step(
        &mut worker,
        &mut pv,
        Side(Side::NONE),
        &base,
        3,
        2,
        &depths,
        &mut rng,
        &tables,
    )
    .unwrap();
    assert!((1..=3).contains(&left));
    let lines = output_rx.try_iter().count();
    assert_eq!(lines, 3 - left);
    let bad = vec![b"not a position".to_vec()];
    assert!(generate_fens_step(&mut worker, &mut pv, Side(Side::WHITE), &bad, 1, 2, &depths, &mut rng, &tables)
        .is_err());
}

#[test]
fn a_round_off_a_chosen_base_opening() {
    let tables = Tables::new();
    let (_commands_tx, commands_rx) = channel();
    let (output_tx, output_rx) = channel();
    let mut worker = Worker::new(TranspositionTable::with_capacity(1), commands_rx, output_tx);
    worker.set_printing(false);
    let mut pv = Pv::new();
    let mut rng = Rand64::new(5);
    let start = "rnbqkbnr/pppppppp/8/8/8/8/PPPPPPPP/RNBQKBNR w KQkq - 0 1";
    let base = vec![b"not a position".to_vec(), start.as_bytes().to_vec()];
    let depths = vec![0i16, 0, 0];
    // at a depth of 0 the base opening itself is sent, and one opening is done
    let left = generate_fens_from_index(
        &mut worker, &mut pv, Side(Side::WHITE), &base, 1, 5, 2, &depths, &mut rng, &tables,
    );
    assert_eq!(left, Ok(4));
    let lines: Vec<String> = output_rx.try_iter().map(|line| String::from_utf8(line).unwrap()).collect();
    assert_eq!(lines, vec![format!("info string genfens {start}")]);
    let failed = generate_fens_from_index(
        &mut worker, &mut pv, Side(Side::WHITE), &base, 0, 5, 2, &depths, &mut rng, &tables,
    );
    assert_eq!(failed.err(), Board::from_fen(b"not a position", &tables).err());
    assert_eq!(output_rx.try_iter().count(), 0);
}
