use crab::board::Board;
use crab::defs::Side;
use crab::lookups::Tables;
use crab::search::depth::CompressedDepth;
use crab::search::Limits;
use crab::transposition_table::{Bound, TranspositionEntry, TranspositionTable};
use crab::evaluation::Evaluation;
use crab::search::depth::{Depth, Height};
use crab::uci::{
    parse_go, parse_i32, parse_option_command, parse_u64, set_option, set_position, GoCommand,
    OptionCommand, UciOptions,
};

fn tokens(command: &str) -> Vec<Vec<u8>> {
    command.split_whitespace().map(|token| token.as_bytes().to_vec()).collect()
}

#[test]
fn numbers_parse_as_rust_parses_them() {
    assert_eq!(parse_u64(b"42", u64::MAX), Some(42));
    assert_eq!(parse_u64(b"+12", 100), Some(12));
    assert_eq!(parse_u64(b"007", 100), Some(7));
    assert_eq!(parse_u64(b"", 100), None);
    assert_eq!(parse_u64(b"+", 100), None);
    assert_eq!(parse_u64(b"-1", 100), None);
    assert_eq!(parse_u64(b"1a", 100), None);
    assert_eq!(parse_u64(b"101", 100), None);
    assert_eq!(parse_u64(b"18446744073709551615", u64::MAX), Some(u64::MAX));
    assert_eq!(parse_u64(b"18446744073709551616", u64::MAX), None);
    assert_eq!(parse_i32(b"-2147483648"), Some(i32::MIN));
    assert_eq!(parse_i32(b"2147483647"), Some(i32::MAX));
    assert_eq!(parse_i32(b"2147483648"), None);
    assert_eq!(parse_i32(b"-0"), Some(0));
    assert_eq!(parse_i32(b"-"), None);
    assert_eq!(parse_i32(b"+-1"), None);
    assert_eq!(parse_i32(b"-+1"), None);
}

#[test]
fn options_have_defaults_and_ranges() {
    let mut options = UciOptions::new();
    assert_eq!((options.move_overhead(), options.threads(), options.hash()), (1, 1, 32));
    options.set_move_overhead(5000);
    assert_eq!(options.move_overhead(), 1000);
    options.set_move_overhead(0);
    assert_eq!(options.move_overhead(), 0);
    options.set_threads(0);
    assert_eq!(options.threads(), 1);
    options.set_threads(8);
    assert_eq!(options.threads(), 1);
    options.set_hash(0);
    assert_eq!(options.hash(), 1);
    options.set_hash(usize::MAX);
    assert_eq!(options.hash(), 268_435_456);
}

#[test]
fn setoption_commands() {
    assert_eq!(parse_option_command(&tokens("name Move Overhead value 50")), OptionCommand::MoveOverhead(50));
    assert_eq!(parse_option_command(&tokens("name Threads value 8")), OptionCommand::Threads(8));
    assert_eq!(parse_option_command(&tokens("name Hash value 16")), OptionCommand::Hash(16));
    assert_eq!(parse_option_command(&tokens("name Clear Hash")), OptionCommand::ClearHash);
    assert_eq!(parse_option_command(&tokens("name Hash 16")), OptionCommand::Ignored);
    assert_eq!(parse_option_command(&tokens("Hash value 16")), OptionCommand::Ignored);
    assert_eq!(parse_option_command(&tokens("name Move Overhead value fast")), OptionCommand::Ignored);
    assert_eq!(parse_option_command(&tokens("name Clear")), OptionCommand::Ignored);
    assert_eq!(parse_option_command(&tokens("name Ponder value true")), OptionCommand::Ignored);

    let mut options = UciOptions::new();
    let mut tt = TranspositionTable::with_capacity(1);
    set_option(&tokens("name Move Overhead value 50"), &mut options, &mut tt);
    assert_eq!(options.move_overhead(), 50);
    set_option(&tokens("name Move Overhead value 99999"), &mut options, &mut tt);
    assert_eq!(options.move_overhead(), 1000);
    set_option(&tokens("name Hash value 2"), &mut options, &mut tt);
    assert_eq!(options.hash(), 2);

    let key = 0xdead_beef;
    let entry =
        TranspositionEntry::new(key, Evaluation(0), Evaluation(10), None, Depth(1), Bound::Exact, Height(0));
    tt.store(entry);
    assert!(tt.load(key, Height(0)).is_some());
    set_option(&tokens("name Clear Hash"), &mut options, &mut tt);
    assert!(tt.load(key, Height(0)).is_none());
    assert_eq!(options.hash(), 2);

    // a hash of 0 MiB is stored as 1 MiB, and the table is that size
    set_option(&tokens("name Hash value 0"), &mut options, &mut tt);
    assert_eq!(options.hash(), 1);
    assert!(!tt.is_empty());
    tt.store(entry);
    assert!(tt.load(key, Height(0)).is_some());
}

#[test]
fn go_commands() {
    let white = Side(Side::WHITE);
    let black = Side(Side::BLACK);
    let timed = |time, inc, moves_to_go| {
        GoCommand::Search(Limits::Timed { time, inc, moves_to_go: CompressedDepth(moves_to_go) })
    };
    let clock = tokens("wtime 1000 btime 2000 winc 10 binc 20");
    assert_eq!(parse_go(&clock, white), timed(1000, 10, 255));
    assert_eq!(parse_go(&clock, black), timed(2000, 20, 255));
    assert_eq!(parse_go(&tokens("wtime 100 movestogo 5"), white), timed(100, 0, 5));
    // a negative time counts as a second
    assert_eq!(parse_go(&tokens("wtime -5"), white), timed(1000, 0, 255));
    assert_eq!(parse_go(&tokens("depth 7"), white), GoCommand::Search(Limits::Depth(CompressedDepth(7))));
    assert_eq!(parse_go(&tokens("depth 0"), white), GoCommand::Search(Limits::Infinite));
    assert_eq!(parse_go(&tokens("depth 256"), white), GoCommand::Search(Limits::Infinite));
    assert_eq!(parse_go(&tokens("nodes 1000"), white), GoCommand::Search(Limits::Nodes(1000)));
    assert_eq!(parse_go(&tokens("movetime 500"), white), GoCommand::Search(Limits::Movetime(500)));
    assert_eq!(parse_go(&tokens(""), white), GoCommand::Search(Limits::Infinite));
    assert_eq!(parse_go(&tokens("depth 5 infinite"), white), GoCommand::Search(Limits::Infinite));
    // names and values come in pairs, even after `infinite`
    assert_eq!(parse_go(&tokens("infinite depth 5"), white), GoCommand::Search(Limits::Infinite));
    assert_eq!(parse_go(&tokens("perft 3"), white), GoCommand::Perft(3));
    assert_eq!(parse_go(&tokens("depth 5 perft 2 depth 9"), white), GoCommand::Perft(2));
    assert_eq!(parse_go(&tokens("perft 0"), white), GoCommand::Nothing);
    assert_eq!(parse_go(&tokens("perft"), white), GoCommand::Nothing);
}

fn position(command: &str, tables: &Tables) -> Option<(Vec<u8>, usize)> {
    let mut board = Board::new();
    let mut keys = Vec::new();
    set_position(&tokens(command), &mut keys, &mut board, tables);
    if keys.is_empty() {
        None
    } else {
        Some((board.to_fen(), keys.len()))
    }
}

#[test]
fn position_commands() {
    let tables = Tables::new();
    let fen = |s: &str| s.as_bytes().to_vec();
    assert_eq!(
        position("startpos", &tables),
        Some((fen("rnbqkbnr/pppppppp/8/8/8/8/PPPPPPPP/RNBQKBNR w KQkq - 0 1"), 1))
    );
    assert_eq!(
        position("startpos moves e2e4 e7e5", &tables),
        Some((fen("rnbqkbnr/pppp1ppp/8/4p3/4P3/8/PPPP1PPP/RNBQKBNR w KQkq e6 0 2"), 1))
    );
    assert_eq!(
        position("startpos moves g1f3 g8f6", &tables),
        Some((fen("rnbqkb1r/pppppppp/5n2/8/8/5N2/PPPPPPPP/RNBQKB1R w KQkq - 2 2"), 3))
    );
    assert_eq!(
        position("fen 4k3/P7/8/8/8/8/8/4K3 w - - 0 1 moves a7a8q", &tables),
        Some((fen("Q3k3/8/8/8/8/8/8/4K3 b - - 0 1"), 1))
    );
    assert_eq!(
        position("fen 4k3/P7/8/8/8/8/8/4K3 w - - 0 1 moves a7a8n", &tables),
        Some((fen("N3k3/8/8/8/8/8/8/4K3 b - - 0 1"), 1))
    );
    assert_eq!(
        position("fen 4k3/P7/8/8/8/8/8/4K3 w - - 0 1 moves a7a8k", &tables),
        Some((fen("N3k3/8/8/8/8/8/8/4K3 b - - 0 1"), 1))
    );
    assert_eq!(position("fen 4k3/P7/8/8/8/8/8/4K3 w - - 0 1 moves a7a8p", &tables), None);
    // a move that does not exist
    assert_eq!(position("startpos moves e2e5", &tables), None);
    assert_eq!(position("startpos moves e2", &tables), None);
    // an illegal move: the bishop is pinned
    assert_eq!(position("fen 4k3/4r3/8/8/8/8/4B3/4K3 w - - 0 1 moves e2d3", &tables), None);
    // malformed commands
    assert_eq!(position("startpos e2e4", &tables), None);
    assert_eq!(position("fen 4k3/8/8/8/8/8/8/4K3 w", &tables), None);
    assert_eq!(position("fen 4k3/8/8/8/8/8/8/4K3 x - - 0 1", &tables), None);
    assert_eq!(position("somewhere", &tables), None);
}

#[test]
fn a_failed_position_command_changes_nothing() {
    let tables = Tables::new();
    let mut board = Board::startpos(&tables);
    let mut keys = vec![board.key()];
    set_position(&tokens("startpos moves e2e4 e7e6 e4e6"), &mut keys, &mut board, &tables);
    assert_eq!(board.to_fen(), Board::startpos(&tables).to_fen());
    assert_eq!(keys, vec![Board::startpos(&tables).key()]);
}
