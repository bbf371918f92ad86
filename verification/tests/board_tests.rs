use crab::board::Board;
use crab::defs::{PieceType, Side, Square};
use crab::error::ParseError;
use crab::evaluation::{evaluate, Evaluation, Phase, Score};
use crab::lookups::Tables;
use crab::movegen::Move;
use crab::perft::perft_divide;

const STARTPOS: &str = "rnbqkbnr/pppppppp/8/8/8/8/PPPPPPPP/RNBQKBNR w KQkq - 0 1";
const KIWIPETE: &str = "r3k2r/p1ppqpb1/bn2pnp1/3PN3/1p2P3/2N2Q1p/PPPBBPPP/R3K2R w KQkq - 0 1";

fn board_of(fen: &str, tables: &Tables) -> Board {
    Board::from_fen(fen.as_bytes(), tables).expect("a valid FEN")
}

#[test]
fn startpos_prints_its_fen() {
    let tables = Tables::new();
    let board = Board::startpos(&tables);
    assert_eq!(board.to_fen(), STARTPOS.as_bytes().to_vec());
}

#[test]
fn fen_round_trips() {
    let tables = Tables::new();
    for fen in [
        STARTPOS,
        KIWIPETE,
        "8/2p5/3p4/KP5r/1R3p1k/8/4P1P1/8 w - - 0 1",
        "r3k2r/Pppp1ppp/1b3nbN/nP6/BBP1P3/q4N2/Pp1P2PP/R2Q1RK1 w kq - 0 1",
        "rnbq1k1r/pp1Pbppp/2p5/8/2B5/8/PPP1NnPP/RNBQK2R w KQ - 1 8",
        "4k3/8/8/8/8/8/8/4K3 b - e3 42 100",
    ] {
        let board = board_of(fen, &tables);
        assert_eq!(board.to_fen(), fen.as_bytes().to_vec(), "{fen}");
    }
}

#[test]
fn a_written_fen_reads_back_as_the_board() {
    let tables = Tables::new();
    for fen in [
        KIWIPETE,
        "r3k2r/Pppp1ppp/1b3nbN/nP6/BBP1P3/q4N2/Pp1P2PP/R2Q1RK1 w kq - 0 1",
        "8/8/8/8/8/8/8/8 b Kq h6 255 65535",
    ] {
        let board = board_of(fen, &tables);
        let again = Board::from_fen(&board.to_fen(), &tables).expect("a written FEN");
        assert_eq!(again.to_fen(), board.to_fen());
        assert_eq!(again.key(), board.key());
        assert_eq!(again.side_to_move(), board.side_to_move());
    }
}

#[test]
fn fen_defaults_missing_fields() {
    let tables = Tables::new();
    let board = board_of("4k3/8/8/8/8/8/8/4K3 b", &tables);
    assert_eq!(board.to_fen(), b"4k3/8/8/8/8/8/8/4K3 b - - 0 1".to_vec());
    assert_eq!(board.side_to_move(), Side(Side::BLACK));
    assert_eq!(board.halfmoves(), 0);
    assert_eq!(board.fullmoves(), 1);
}

#[test]
fn fen_errors() {
    let tables = Tables::new();
    let error = |fen: &str| Board::from_fen(fen.as_bytes(), &tables).err();
    assert_eq!(error(""), Some(ParseError::ExpectedToken));
    assert_eq!(error("8/8/8/8/8/8/8/8"), Some(ParseError::ExpectedToken));
    assert_eq!(error("8/8/8/8/8/8/8/8 x"), Some(ParseError::InvalidToken));
    assert_eq!(error("rnbqkbnr/ppppxppp/8/8/8/8/PPPPPPPP/RNBQKBNR w"), Some(ParseError::InvalidToken));
    // a ninth piece on the eighth rank lands off the board
    assert_eq!(error("ppppppppp/8/8/8/8/8/8/8 w"), Some(ParseError::ErroneousToken));
    assert_eq!(error("8/8/8/8/8/8/8/8 w - z9"), Some(ParseError::ErroneousToken));
    assert_eq!(error("8/8/8/8/8/8/8/8 w - - 256"), Some(ParseError::ErroneousToken));
    assert_eq!(error("8/8/8/8/8/8/8/8 w - - 0 65536"), Some(ParseError::ErroneousToken));
    assert_eq!(error("8/8/8/8/8/8/8/8 w - - x"), Some(ParseError::ErroneousToken));
}

#[test]
fn startpos_is_balanced() {
    let tables = Tables::new();
    let board = Board::startpos(&tables);
    assert_eq!(evaluate(&board).0, 0);
}

#[test]
fn material_counts_for_the_side_to_move() {
    let tables = Tables::new();
    let white = board_of("4k3/8/8/8/8/8/8/Q3K3 w - - 0 1", &tables);
    let black = board_of("4k3/8/8/8/8/8/8/Q3K3 b - - 0 1", &tables);
    assert!(evaluate(&white).0 > 0);
    assert_eq!(evaluate(&white).0, -evaluate(&black).0);
}

#[test]
fn checks_are_seen() {
    let tables = Tables::new();
    let checked = board_of("4k3/8/8/8/8/8/8/4K2r w - - 0 1", &tables);
    assert!(checked.is_in_check(&tables.attacks));
    let quiet = board_of("4k3/8/8/8/8/8/6r1/4K3 w - - 0 1", &tables);
    assert!(!quiet.is_in_check(&tables.attacks));
    assert!(quiet.is_square_attacked(&tables.attacks, Square(12)));
    assert!(!quiet.is_square_attacked(&tables.attacks, Square(Square::F1)));
    assert_eq!(quiet.king_square(), Square(Square::E1));
}

#[test]
fn castling_through_check_moves_the_king_alone() {
    let tables = Tables::new();
    let mut board = board_of("4k3/8/8/8/8/8/5r2/4K2R w K - 3 7", &tables);
    assert!(!board.make_move(Move::new_castle::<true, true>(), &tables));
    assert_eq!(board.to_fen(), b"4k3/8/8/8/8/8/5r2/6KR w K - 4 7".to_vec());
}

#[test]
fn a_pinned_piece_cannot_move() {
    let tables = Tables::new();
    let mut board = board_of("4k3/4r3/8/8/8/8/4B3/4K3 w - - 0 1", &tables);
    // Be2-d3 exposes the king to the rook
    assert!(!board.make_move(Move::new(Square(12), Square(19)), &tables));
    // the refused move is left half made: the bishop moved, White still to move
    assert_eq!(board.to_fen(), b"4k3/4r3/8/8/8/3B4/8/4K3 w - - 1 1".to_vec());
    let mut board = board_of("4k3/4r3/8/8/8/8/4B3/4K3 w - - 0 1", &tables);
    // Ke1-d1 steps out of the pin
    assert!(board.make_move(Move::new(Square(4), Square(3)), &tables));
    assert_eq!(board.to_fen(), b"4k3/4r3/8/8/8/8/4B3/3K4 b - - 1 1".to_vec());
}

#[test]
fn moves_update_the_position() {
    let tables = Tables::new();
    let mut board = Board::startpos(&tables);
    assert!(board.make_move(Move::new(Square(6), Square(21)), &tables));
    assert_eq!(
        board.to_fen(),
        b"rnbqkbnr/pppppppp/8/8/8/5N2/PPPPPPPP/RNBQKB1R b KQkq - 1 1".to_vec()
    );
    assert!(board.make_move(Move::new(Square(62), Square(45)), &tables));
    assert_eq!(
        board.to_fen(),
        b"rnbqkb1r/pppppppp/5n2/8/8/5N2/PPPPPPPP/RNBQKB1R w KQkq - 2 2".to_vec()
    );
}

#[test]
fn the_same_position_has_the_same_key() {
    let tables = Tables::new();
    let mut board = Board::startpos(&tables);
    let start_key = board.key();
    // knights out and back
    for (start, end) in [(6, 21), (62, 45), (21, 6), (45, 62)] {
        assert!(board.make_move(Move::new(Square(start), Square(end)), &tables));
    }
    assert_eq!(board.key(), start_key);
    assert_ne!(board.to_fen(), Board::startpos(&tables).to_fen());
}

#[test]
fn castling_moves_the_rook() {
    let tables = Tables::new();
    let mut board = board_of(KIWIPETE, &tables);
    assert!(board.make_move(Move::new_castle::<true, true>(), &tables));
    assert_eq!(
        board.to_fen(),
        b"r3k2r/p1ppqpb1/bn2pnp1/3PN3/1p2P3/2N2Q1p/PPPBBPPP/R4RK1 b kq - 1 1".to_vec()
    );
}

#[test]
fn null_moves_pass_the_turn() {
    let tables = Tables::new();
    let mut board = board_of("4k3/8/8/8/4Pp2/8/8/4K3 b - e3 0 1", &tables);
    board.make_null_move(&tables);
    assert_eq!(board.to_fen(), b"4k3/8/8/8/4Pp2/8/8/4K3 w - - 0 1".to_vec());
}

#[test]
fn exchanges_are_evaluated() {
    let tables = Tables::new();
    let free_pawn = board_of("4k3/8/8/3p4/4P3/8/8/4K3 w - - 0 1", &tables);
    assert!(free_pawn.is_winning_exchange(&tables.attacks, Move::new(Square(28), Square(35))));
    let defended_pawn = board_of("4k3/2p5/3p4/8/8/8/8/3QK3 w - - 0 1", &tables);
    assert!(!defended_pawn.is_winning_exchange(&tables.attacks, Move::new(Square(3), Square(43))));
}

#[test]
fn pseudolegality_is_checked() {
    let tables = Tables::new();
    let board = Board::startpos(&tables);
    assert!(board.is_pseudolegal(&tables.attacks, Move::new(Square(12), Square(28))));
    assert!(board.is_pseudolegal(&tables.attacks, Move::new(Square(6), Square(21))));
    assert!(!board.is_pseudolegal(&tables.attacks, Move::new(Square(12), Square(36))));
    assert!(!board.is_pseudolegal(&tables.attacks, Move::new(Square(5), Square(26))));
    assert!(!board.is_pseudolegal(&tables.attacks, Move::new(Square(52), Square(36))));
}

#[test]
fn perft_divide_splits_the_count() {
    let tables = Tables::new();
    let board = Board::startpos(&tables);
    let divided = perft_divide(&board, &tables, 2);
    assert_eq!(divided.len(), 20);
    assert!(divided.iter().all(|&(_, count)| count == 20));
    let board = board_of(KIWIPETE, &tables);
    let total: u64 = perft_divide(&board, &tables, 2).iter().map(|&(_, count)| count).sum();
    assert_eq!(total, 2039);
}

#[test]
fn pieces_and_types_convert() {
    assert_eq!(PieceType::try_from('q'), Ok(PieceType(PieceType::QUEEN)));
    assert_eq!(PieceType::try_from('N'), Ok(PieceType(PieceType::KNIGHT)));
    assert_eq!(PieceType::try_from('x'), Err(ParseError::InvalidToken));
    assert_eq!(Square::from_bytes(b"e4"), Ok(Square(28)));
    assert_eq!(Square::from_bytes(b"-"), Ok(Square(Square::NONE)));
    assert_eq!(Square::from_bytes(b"e"), Err(ParseError::ExpectedToken));
    assert_eq!(Square::from_bytes(b"i4"), Err(ParseError::ErroneousToken));
    assert_eq!(Square(28).to_bytes(), b"e4".to_vec());
}

#[test]
fn a_made_move_reads_back_from_its_fen() {
    let tables = Tables::new();
    let mut board = board_of(KIWIPETE, &tables);
    // castling kingside: the FEN written after it reads back the same
    assert!(board.make_move(Move::new_castle::<true, true>(), &tables));
    let reparsed = board_of(std::str::from_utf8(&board.to_fen()).unwrap(), &tables);
    assert_eq!(reparsed.key(), board.key());
    assert_eq!(reparsed.pawn_key(), board.pawn_key());
    assert_eq!(evaluate(&reparsed), evaluate(&board));
    assert_eq!(reparsed.side_to_move(), Side(Side::BLACK));
    assert_eq!(reparsed.to_fen(), board.to_fen());
}

#[test]
fn lerping_holds_scores_far_apart() {
    let score = Score(Evaluation(-80_000_000), Evaluation(80_000_000));
    assert_eq!(score.lerp_to(Phase(12)), Evaluation(0));
    assert_eq!(score.lerp_to(Phase(24)), Evaluation(-80_000_000));
    assert_eq!(score.lerp_to(Phase(0)), Evaluation(80_000_000));
    assert_eq!(Score(Evaluation(10), Evaluation(-13)).lerp_to(Phase(5)), Evaluation(-13 + 4));
}

#[test]
fn a_canonical_fen_prints_back() {
    let tables = Tables::new();
    for fen in [KIWIPETE, "rnbqkbnr/ppp1p1pp/8/3pPp2/8/8/PPPP1PPP/RNBQKBNR w KQkq f6 0 3", "8/2p5/3p4/KP5r/1R3p1k/8/4P1P1/8 b - - 12 40"] {
        assert_eq!(board_of(fen, &tables).to_fen(), fen.as_bytes().to_vec());
    }
}

fn colour_mirror(fen: &str) -> String {
    let fields: Vec<&str> = fen.split(' ').collect();
    let ranks: Vec<String> = fields[0]
        .split('/')
        .rev()
        .map(|rank| {
            rank.chars()
                .map(|c| if c.is_ascii_uppercase() { c.to_ascii_lowercase() } else { c.to_ascii_uppercase() })
                .collect()
        })
        .collect();
    let side = if fields[1] == "w" { "b" } else { "w" };
    format!("{} {} - - {} {}", ranks.join("/"), side, fields[4], fields[5])
}

#[test]
fn a_colour_mirrored_position_evaluates_the_same() {
    let tables = Tables::new();
    assert_eq!(evaluate(&Board::startpos(&tables)), Evaluation(0));
    for fen in [KIWIPETE, "8/2p5/3p4/KP5r/1R3p1k/8/4P1P1/8 b - - 12 40", "4k3/8/8/3r4/4P3/8/8/3QK3 w - - 0 1"] {
        let mirrored = colour_mirror(fen);
        assert_eq!(evaluate(&board_of(fen, &tables)), evaluate(&board_of(&mirrored, &tables)), "{mirrored}");
    }
}

#[test]
fn the_key_recomputed_from_scratch_is_the_kept_key() {
    let tables = Tables::new();
    let mut board = board_of(KIWIPETE, &tables);
    assert_eq!(board.refresh_zobrist(&tables.keys), board.key());
    assert!(board.make_move(Move::new(Square(12), Square(40)), &tables));
    assert_eq!(board.refresh_zobrist(&tables.keys), board.key());
    assert_ne!(board.key(), board_of(KIWIPETE, &tables).key());
}
