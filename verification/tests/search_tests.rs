use crab::board::Board;
use crab::defs::{Piece, PieceType, Side, Square};
use crab::evaluation::{CompressedEvaluation, Evaluation};
use crab::lookups::reductions::base_reductions;
use crab::lookups::Tables;
use crab::movegen::{Move, Moves};
use crab::search::aspiration::AspirationWindow;
use crab::search::movepick::MovePicker;
use crab::search::depth::{CompressedDepth, Depth, Height};
use crab::search::history::{BoardHistory, Histories, HistoryItem, PieceDest};
use crab::search::time::calculate_time_window;
use crab::search::worker::next_status;
use crab::util::is_double_pawn_push;
use crab::search::{
    extension, futility_margin, late_move_reduction, null_move_reduction, Limits, NmpRights,
    NonPvNode, Pv, PvNode, SearchStatus,
};
use crab::transposition_table::{
    denormalise, normalise, Bound, TranspositionEntry, TranspositionTable,
};

#[test]
fn mate_scores_are_made_relative_and_back() {
    let mate = Evaluation(Evaluation::MATE - 5);
    assert_eq!(normalise(mate, Height(3)).0, Evaluation::MATE - 2);
    assert_eq!(denormalise(normalise(mate, Height(3)), Height(3)), mate);
    let mated = Evaluation(-Evaluation::MATE + 7);
    assert_eq!(normalise(mated, Height(4)).0, -Evaluation::MATE + 3);
    assert_eq!(denormalise(normalise(mated, Height(4)), Height(4)), mated);
    // ordinary scores are left alone
    assert_eq!(normalise(Evaluation(150), Height(9)).0, 150);
    assert_eq!(denormalise(Evaluation(-150), Height(9)).0, -150);
}

#[test]
fn tt_gives_back_what_was_stored() {
    let mut tt = TranspositionTable::with_capacity(1);
    let key = 0x1234_5678_9abc_def0;
    assert!(tt.load(key, Height(0)).is_none());
    let mv = Move::new(Square(12), Square(28));
    let entry = TranspositionEntry::new(
        key,
        Evaluation(35),
        Evaluation(Evaluation::MATE - 4),
        Some(mv),
        Depth(7),
        Bound::Lower,
        Height(2),
    );
    tt.store(entry);
    let hit = tt.load(key, Height(2)).expect("a stored entry");
    assert_eq!(hit.static_eval.0, 35);
    assert_eq!(hit.score.0, Evaluation::MATE - 4);
    assert_eq!(hit.mv, Some(mv));
    assert_eq!(hit.depth, Depth(7));
    assert_eq!(hit.bound, Bound::Lower);
    // the same mate seen from two plies further down
    assert_eq!(tt.load(key, Height(4)).expect("a stored entry").score.0, Evaluation::MATE - 6);
    // another key that lands on the same entry does not match
    assert!(tt.load(key ^ 1, Height(2)).is_none());
    assert!(tt.estimate_hashfull() <= 1);
    tt.clear();
    assert!(tt.load(key, Height(2)).is_none());
}

#[test]
fn the_window_starts_infinite_and_narrows() {
    let mut window = AspirationWindow::new();
    assert_eq!(window.alpha().0, -Evaluation::INFINITY);
    assert_eq!(window.beta().0, Evaluation::INFINITY);
    assert!(!window.can_widen_up());
    assert!(!window.can_widen_down());
    window.adjust_around(Evaluation(300), Depth(5));
    // 60 / 3 + 300 * 300 / 3000
    assert_eq!(window.margin.0, 50);
    assert_eq!(window.alpha().0, 250);
    assert_eq!(window.beta().0, 350);
    window.widen_up(Evaluation(350));
    assert_eq!(window.margin.0, 100);
    assert_eq!(window.beta().0, 450);
    assert_eq!(window.alpha().0, 250);
    window.widen_down(Evaluation(250));
    assert_eq!(window.margin.0, 200);
    assert_eq!(window.beta().0, 350);
    assert_eq!(window.alpha().0, 50);
}

#[test]
fn a_wide_margin_opens_the_window() {
    let mut window = AspirationWindow::new();
    window.adjust_around(Evaluation(3000), Depth(1));
    // 60 + 3000 * 3000 / 3000
    assert_eq!(window.margin.0, 3060);
    window.widen_up(Evaluation(6060));
    assert_eq!(window.beta().0, Evaluation::INFINITY);
    window.widen_down(Evaluation(-60));
    assert_eq!(window.alpha().0, -Evaluation::INFINITY);
}

#[test]
fn time_is_shared_among_the_moves_to_go() {
    let limits = Limits::new_timed(60_000);
    // 60 s over at most 40 moves, less the time spent and the overhead
    assert_eq!(calculate_time_window(limits, 100, 10), 1_390);
    let mut limits = limits;
    limits.set_inc(500);
    limits.set_moves_to_go(CompressedDepth(10));
    assert_eq!(limits, Limits::Timed { time: 60_000, inc: 500, moves_to_go: CompressedDepth(10) });
    assert_eq!(calculate_time_window(limits, 0, 0), 6_500);
    // too much time spent
    assert_eq!(calculate_time_window(limits, 10_000, 0), 0);
    assert_eq!(calculate_time_window(Limits::Infinite, 10_000, 0), u64::MAX);
}

#[test]
fn untimed_limits_become_infinite_when_given_an_increment() {
    let mut limits = Limits::Depth(CompressedDepth(5));
    limits.set_inc(100);
    assert_eq!(limits, Limits::Infinite);
    let mut limits = Limits::Nodes(1000);
    limits.set_moves_to_go(CompressedDepth(3));
    assert_eq!(limits, Limits::Infinite);
    assert_eq!(Limits::default(), Limits::Infinite);
}

#[test]
fn search_statuses_are_numbered() {
    for status in [SearchStatus::Continue, SearchStatus::Stop, SearchStatus::Quit] {
        assert_eq!(SearchStatus::from_number(status.number()), status);
    }
    assert_eq!(SearchStatus::from_number(200), SearchStatus::Quit);
}

#[test]
fn null_move_rights_come_and_go() {
    let mut rights = NmpRights::new();
    let white = Side(Side::WHITE);
    let black = Side(Side::BLACK);
    assert!(rights.can_make_null_move(white));
    assert!(rights.can_make_null_move(black));
    rights.remove_right(white);
    assert!(!rights.can_make_null_move(white));
    assert!(rights.can_make_null_move(black));
    rights.add_right(white);
    assert_eq!(rights, NmpRights::new());
}

#[test]
fn pruning_formulas() {
    // (400 - 0) / 200 + 9 / 3 + 3
    assert_eq!(null_move_reduction(Evaluation(400), Evaluation(0), Depth(9)), Depth(8));
    // the evaluation term is capped at 6
    assert_eq!(null_move_reduction(Evaluation(5000), Evaluation(0), Depth(3)), Depth(10));
    assert_eq!(futility_margin(Depth(4)).0, 390);
    assert_eq!(futility_margin(Depth(-1)).0, -10);
    assert_eq!(extension(true), Depth(1));
    assert_eq!(extension(false), Depth(0));
}

#[test]
fn late_moves_are_reduced() {
    assert_eq!(base_reductions(Depth(10), 20), Depth(3));
    assert_eq!(late_move_reduction::<PvNode>(Depth(10), 20), Depth(3));
    assert_eq!(late_move_reduction::<NonPvNode>(Depth(10), 20), Depth(4));
    // depths and move counts past the table are clamped
    assert_eq!(base_reductions(Depth(200), 250), base_reductions(Depth(63), 127));
    // no reduction for the first moves or at low depths
    assert_eq!(late_move_reduction::<NonPvNode>(Depth(10), 2), Depth(0));
    assert_eq!(late_move_reduction::<NonPvNode>(Depth(2), 20), Depth(0));
}

#[test]
fn the_pv_is_a_queue() {
    let mut pv = Pv::new();
    let first = Move::new(Square(12), Square(28));
    let second = Move::new(Square(52), Square(36));
    pv.enqueue(first);
    let mut other = Pv::new();
    other.enqueue(second);
    pv.append_pv(&other);
    assert_eq!(pv.len(), 2);
    assert_eq!(pv.get(0), first);
    assert_eq!(pv.get(1), second);
    pv.clear();
    assert_eq!(pv.len(), 0);
}

#[test]
fn repetitions_and_the_fifty_move_rule_draw() {
    let mut history = BoardHistory::new();
    for key in [1, 2, 3, 4, 5] {
        history.push(HistoryItem { key, piece_dest: None });
    }
    // the position 4 plies back had key 2
    assert!(history.is_draw(10, 2));
    // 2 plies back is the other side to move: no repetition looked for
    assert!(!history.is_draw(10, 4));
    // not far enough since the last irreversible move
    assert!(!history.is_draw(3, 2));
    assert!(history.is_draw(100, 99));
    assert!(!history.is_draw(99, 99));
    let mut copy = BoardHistory::new();
    copy.set_to(&history);
    assert_eq!(copy.len(), 5);
    assert_eq!(copy.last().map(|item| item.key), Some(5));
    assert_eq!(copy.pop().map(|item| item.key), Some(5));
    assert_eq!(copy.len(), 4);
}

#[test]
fn histories_reward_the_best_quiet() {
    let tables = Tables::new();
    let board = Board::startpos(&tables);
    let mut histories = Histories::new();
    let good = Move::new(Square(6), Square(21));
    let bad = Move::new(Square(12), Square(28));
    let mut quiets = Moves::new();
    quiets.push(good);
    quiets.push(bad);
    let white = Side(Side::WHITE);
    histories.update_butterfly_history(&quiets, good, white, Depth(3));
    assert_eq!(histories.butterfly_score(white, Square(6), Square(21)).0, 300);
    assert_eq!(histories.butterfly_score(white, Square(12), Square(28)).0, -300);
    // the bonus shrinks as the value grows: 300 + 300 - 300 * 300 / 16383
    histories.update_butterfly_history(&quiets, good, white, Depth(3));
    assert_eq!(histories.butterfly_score(white, Square(6), Square(21)).0, 595);
    // at depth 8 and beyond the bonus is 800
    histories.update_butterfly_history(&quiets, bad, white, Depth(20));
    // -595 + 800 - trunc(800 * -595 / 16383)
    assert_eq!(histories.butterfly_score(white, Square(12), Square(28)).0, 234);
    assert_eq!(histories.butterfly_score(white, Square(6), Square(21)).0, -234);

    // continuation history follows the last move
    histories
        .board_history
        .push(HistoryItem { key: 7, piece_dest: Some(PieceDest { piece: Piece(Piece::BPAWN), dest: Square(36) }) });
    histories.update_continuation_history(&board, &quiets, good, Depth(2));
    assert_eq!(histories.continuation_history_score(Piece(Piece::WKNIGHT), Square(21)).0, 200);
    assert_eq!(histories.continuation_history_score(Piece(Piece::WPAWN), Square(28)).0, -200);
    assert_eq!(histories.continuation_history_score(Piece(Piece::WPAWN), Square(20)).0, 0);

    // killers and counter moves
    histories.insert_into_killers(Height(4), good);
    histories.insert_into_killers(Height(4), bad);
    assert_eq!(histories.current_killers(Height(4)), [Some(bad), Some(good)]);
    histories.insert_into_killers(Height(4), bad);
    assert_eq!(histories.current_killers(Height(4)), [Some(bad), Some(good)]);
    histories.clear_next_killers(Height(3));
    assert_eq!(histories.current_killers(Height(4)), [None, None]);
    let last = histories.board_history.last().expect("an item");
    histories.insert_into_counter_moves(last, good);
    assert_eq!(histories.counter_move(last), Some(good));
    assert_eq!(histories.counter_move(HistoryItem { key: 7, piece_dest: None }), None);

    histories.clear();
    assert_eq!(histories.butterfly_score(white, Square(6), Square(21)).0, 0);
    assert_eq!(histories.counter_move(last), None);
    assert_eq!(histories.board_history.len(), 1);
    assert_eq!(CompressedEvaluation(0), histories.butterfly_history[0]);
}

#[test]
fn a_saturating_time_window() {
    let limits = Limits::Timed { time: u64::MAX, inc: u64::MAX, moves_to_go: CompressedDepth(1) };
    assert_eq!(calculate_time_window(limits, 0, 0), u64::MAX);
    assert_eq!(calculate_time_window(limits, u64::MAX, u64::MAX), 0);
}

#[test]
fn the_status_after_a_line_from_the_interface() {
    let line = |text: &str| Some(text.as_bytes().to_vec());
    assert_eq!(next_status(&line(" stop\n"), Limits::Infinite, 0, 0), (SearchStatus::Stop, false));
    assert_eq!(next_status(&line("quit"), Limits::Infinite, 0, 0), (SearchStatus::Quit, false));
    assert_eq!(next_status(&line("isready"), Limits::Infinite, 0, 0), (SearchStatus::Continue, true));
    assert_eq!(next_status(&line("isready"), Limits::Nodes(10), 10, 0), (SearchStatus::Stop, true));
    assert_eq!(next_status(&line("go"), Limits::Infinite, 0, 0), (SearchStatus::Continue, false));
    assert_eq!(next_status(&None, Limits::Movetime(100), 0, 99), (SearchStatus::Continue, false));
    assert_eq!(next_status(&None, Limits::Movetime(100), 0, 100), (SearchStatus::Stop, false));
}

#[test]
fn only_straight_two_square_pawn_pushes_are_double_pushes() {
    let pawn = PieceType(PieceType::PAWN);
    assert!(is_double_pawn_push(Square(12), Square(28), pawn));
    assert!(is_double_pawn_push(Square(52), Square(36), pawn));
    assert!(!is_double_pawn_push(Square(12), Square(28), PieceType(PieceType::KNIGHT)));
    assert!(!is_double_pawn_push(Square(12), Square(36), pawn));
    assert!(!is_double_pawn_push(Square(8), Square(31), pawn));
    assert!(!is_double_pawn_push(Square(12), Square(20), pawn));
}

#[test]
fn the_picker_hands_out_the_tt_move_first_and_once() {
    let tables = Tables::new();
    let board = Board::from_fen(b"rnbqkbnr/pppppppp/8/8/8/8/PPPPPPPP/RNBQKBNR w KQkq - 0 1", &tables).unwrap();
    let histories = Histories::new();
    let tt_move = Move::new(Square(12), Square(28));
    let killer = Move::new(Square(6), Square(21));
    let mut picker = MovePicker::new_all(Some(tt_move), [Some(killer), None], None);
    assert_eq!(picker.next(&board, &tables.attacks, &histories), Some(tt_move));
    assert_eq!(picker.next(&board, &tables.attacks, &histories), Some(killer));
    let mut rest = Vec::new();
    while let Some(mv) = picker.next(&board, &tables.attacks, &histories) {
        rest.push(mv);
    }
    assert_eq!(rest.len(), 18);
    assert!(!rest.contains(&tt_move));
    assert!(!rest.contains(&killer));
}
