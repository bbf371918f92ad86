use std::sync::mpsc::channel;

use crab::board::Board;
use crab::defs::Square;
use crab::evaluation::Evaluation;
use crab::lookups::Tables;
use crab::movegen::Move;
use crab::search::depth::CompressedDepth;
use crab::search::history::BoardHistory;
use crab::search::worker::{report_line, Worker};
use crab::search::depth::{Depth, Height};
use crab::search::{Limits, NonPvNode, Pv, PvNode, RootNode, SearchStatus};
use crab::transposition_table::TranspositionTable;

fn worker_for(fen: &str, tables: &Tables) -> (Worker, std::sync::mpsc::Sender<String>, std::sync::mpsc::Receiver<Vec<u8>>) {
    let (commands_tx, commands_rx) = channel();
    let (output_tx, output_rx) = channel();
    let mut worker = Worker::new(TranspositionTable::with_capacity(1), commands_rx, output_tx);
    let board = Board::from_fen(fen.as_bytes(), tables).expect("a valid FEN");
    worker.set_board(&BoardHistory::new(), &board);
    (worker, commands_tx, output_rx)
}

#[test]
fn the_search_finds_a_mate_in_one() {
    let tables = Tables::new();
    let (mut worker, _commands, output) = worker_for("6k1/5ppp/8/8/8/8/8/R5K1 w - - 0 1", &tables);
    worker.set_limits(Limits::Depth(CompressedDepth(4)));
    let best = worker.start_search(&tables);
    assert_eq!(best, Some(Move::new(Square(0), Square(56))));
    assert_ne!(worker.status, SearchStatus::Continue);
    let lines: Vec<String> = output.try_iter().map(|line| String::from_utf8(line).unwrap()).collect();
    assert!(!lines.is_empty());
    assert!(lines.iter().all(|line| line.starts_with("info depth ")));
    assert!(lines.last().unwrap().contains(" mate 1 "), "{lines:?}");
    assert!(lines.last().unwrap().ends_with(" pv a1a8"), "{lines:?}");
}

#[test]
fn the_search_wins_material() {
    let tables = Tables::new();
    // the rook on d5 hangs to the pawn
    let (mut worker, _commands, _output) = worker_for("4k3/8/8/3r4/4P3/8/8/4K3 w - - 0 1", &tables);
    worker.set_limits(Limits::Depth(CompressedDepth(3)));
    assert_eq!(worker.start_search(&tables), Some(Move::new(Square(28), Square(35))));
}

#[test]
fn a_node_limit_stops_the_search() {
    let tables = Tables::new();
    let (mut worker, _commands, _output) =
        worker_for("r3k2r/p1ppqpb1/bn2pnp1/3PN3/1p2P3/2N2Q1p/PPPBBPPP/R3K2R w KQkq - 0 1", &tables);
    worker.set_limits(Limits::Nodes(10_000));
    assert!(worker.start_search(&tables).is_some());
    // the count is checked each time the buffer of 2048 nodes is flushed
    assert!(worker.nodes() < 10_000 + 2 * 2049);
}

#[test]
fn stop_stops_an_infinite_search() {
    let tables = Tables::new();
    let (mut worker, commands, output) =
        worker_for("rnbqkbnr/pppppppp/8/8/8/8/PPPPPPPP/RNBQKBNR w KQkq - 0 1", &tables);
    commands.send("isready".to_string()).unwrap();
    commands.send("  stop ".to_string()).unwrap();
    worker.set_limits(Limits::Infinite);
    assert!(worker.start_search(&tables).is_some());
    let lines: Vec<Vec<u8>> = output.try_iter().collect();
    assert!(lines.contains(&b"readyok".to_vec()));
}

#[test]
fn no_legal_move_gives_no_best_move() {
    let tables = Tables::new();
    // Black is stalemated
    let (mut worker, _commands, _output) = worker_for("7k/5Q2/6K1/8/8/8/8/8 b - - 0 1", &tables);
    worker.set_limits(Limits::Depth(CompressedDepth(2)));
    assert_eq!(worker.start_search(&tables), None);
}

#[test]
fn reports_are_formatted() {
    let mut pv = Pv::new();
    pv.enqueue(Move::new(Square(12), Square(28)));
    pv.enqueue(Move::new(Square(52), Square(36)));
    let line = report_line(5, 7, Evaluation(35), 12, 3000, 150, 20_000, &pv);
    assert_eq!(
        String::from_utf8(line).unwrap(),
        "info depth 5 seldepth 7 cp 35 hashfull 12 nodes 3000 time 150 nps 20000 pv e2e4 e7e5"
    );
    let line = report_line(3, 3, Evaluation(-Evaluation::MATE + 4), 0, 1, 0, 0, &Pv::new());
    assert_eq!(
        String::from_utf8(line).unwrap(),
        "info depth 3 seldepth 3 mate -2 hashfull 0 nodes 1 time 0 nps 0 pv "
    );
    assert_eq!(Evaluation(-120).to_bytes(), b"cp -120".to_vec());
    assert_eq!(Evaluation(Evaluation::MATE - 1).to_bytes(), b"mate 1".to_vec());
    let promotion = Move::new_promo_any(Square(52), Square(60), crab::defs::PieceType(4));
    assert_eq!(promotion.to_bytes(), b"e7e8q".to_vec());
}

#[test]
fn quiescence_at_the_greatest_height_is_the_stand_pat() {
    let tables = Tables::new();
    let fen = "4k3/8/8/3r4/4P3/8/8/4K3 w - - 0 1";
    let (mut worker, _commands, _output) = worker_for(fen, &tables);
    let board = Board::from_fen(fen.as_bytes(), &tables).unwrap();
    let stand = crab::evaluation::evaluate(&board);
    let score = worker.quiescence_search(&board, Evaluation(-30000), Evaluation(30000), Height(255), &tables);
    assert_eq!(score, stand);
}

#[test]
fn quiescence_stands_pat_at_or_above_beta() {
    let tables = Tables::new();
    // White is a queen up and nothing can be taken
    let fen = "4k3/8/8/8/8/8/8/3QK3 w - - 0 1";
    let (mut worker, _commands, _output) = worker_for(fen, &tables);
    let board = Board::from_fen(fen.as_bytes(), &tables).unwrap();
    let stand = crab::evaluation::evaluate(&board);
    assert!(stand.0 > 100);
    let score = worker.quiescence_search(&board, Evaluation(-50), Evaluation(100), Height(3), &tables);
    assert_eq!(score, stand);
    // alpha already at beta is handed back when above the stand-pat score
    let score = worker.quiescence_search(&board, Evaluation(stand.0 + 5), Evaluation(stand.0 + 5), Height(3), &tables);
    assert_eq!(score, Evaluation(stand.0 + 5));
    // below beta, the search goes on and fails soft to the stand-pat score
    let score = worker.quiescence_search(&board, Evaluation(stand.0 + 5), Evaluation(stand.0 + 6), Height(3), &tables);
    assert_eq!(score, stand);
}

#[test]
fn mate_distance_pruning_cuts_a_window_beyond_the_mates() {
    let tables = Tables::new();
    let fen = "rnbqkbnr/pppppppp/8/8/8/8/PPPPPPPP/RNBQKBNR w KQkq - 0 1";
    let (mut worker, _commands, _output) = worker_for(fen, &tables);
    let board = Board::from_fen(fen.as_bytes(), &tables).unwrap();
    let mut pv = Pv::new();
    // no score 10 plies from the root beats mating with the next move
    let score = worker.search::<NonPvNode>(&mut pv, &board, Evaluation(32760), Evaluation(32761), Depth(3), Height(10), &tables);
    assert_eq!(score, Evaluation(32760));
}

#[test]
fn the_fifty_move_rule_draws_below_the_root() {
    let tables = Tables::new();
    let fen = "4k3/8/8/8/8/8/8/3QK3 w - - 100 80";
    let (mut worker, _commands, _output) = worker_for(fen, &tables);
    let board = Board::from_fen(fen.as_bytes(), &tables).unwrap();
    let mut pv = Pv::new();
    let score = worker.search::<PvNode>(&mut pv, &board, Evaluation(-1000), Evaluation(1000), Depth(2), Height(1), &tables);
    assert_eq!(score, Evaluation(0));
}

#[test]
fn a_node_without_moves_is_mated_or_stalemated() {
    let tables = Tables::new();
    let stalemate = "7k/5Q2/6K1/8/8/8/8/8 b - - 0 1";
    let (mut worker, _commands, _output) = worker_for(stalemate, &tables);
    let board = Board::from_fen(stalemate.as_bytes(), &tables).unwrap();
    let mut pv = Pv::new();
    let score = worker.search::<PvNode>(&mut pv, &board, Evaluation(-1000), Evaluation(1000), Depth(1), Height(3), &tables);
    assert_eq!(score, Evaluation(0));
    let mate = "R5k1/5ppp/8/8/8/8/8/6K1 b - - 0 1";
    let (mut worker, _commands, _output) = worker_for(mate, &tables);
    let board = Board::from_fen(mate.as_bytes(), &tables).unwrap();
    let mut pv = Pv::new();
    let score = worker.search::<PvNode>(&mut pv, &board, Evaluation(-32767), Evaluation(32767), Depth(1), Height(3), &tables);
    assert_eq!(score, Evaluation(-32767 + 3));
}

#[test]
fn a_root_score_above_alpha_comes_with_a_move() {
    let tables = Tables::new();
    let fen = "4k3/8/8/3r4/4P3/8/8/4K3 w - - 0 1";
    let (mut worker, _commands, _output) = worker_for(fen, &tables);
    worker.set_limits(Limits::Infinite);
    let board = Board::from_fen(fen.as_bytes(), &tables).unwrap();
    let mut pv = Pv::new();
    let score = worker.search::<RootNode>(&mut pv, &board, Evaluation(-32767), Evaluation(32767), Depth(2), Height(0), &tables);
    assert!(score.0 > -32767);
    assert!(pv.len() > 0);
    assert_eq!(pv.get(0), Move::new(Square(28), Square(35)));
}

#[test]
fn quiescence_takes_a_hanging_rook() {
    let tables = Tables::new();
    let fen = "4k3/8/8/3r4/4P3/8/8/4K3 w - - 0 1";
    let (mut worker, _commands, _output) = worker_for(fen, &tables);
    let board = Board::from_fen(fen.as_bytes(), &tables).unwrap();
    let stand = crab::evaluation::evaluate(&board);
    let score = worker.quiescence_search(&board, Evaluation(-30000), Evaluation(30000), Height(0), &tables);
    // the pawn takes the rook: the score comes from that capture, above
    // standing pat and at most what Black stands at after it
    assert!(score.0 > stand.0 + 300);
    let mut after = board;
    assert!(after.make_move(Move::new(Square(28), Square(35)), &tables));
    assert!(score.0 <= -crab::evaluation::evaluate(&after).0);
}
