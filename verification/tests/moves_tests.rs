use crab::board::Board;
use crab::defs::{PieceType, Square};
use crab::lookups::Tables;
use crab::movegen::generate::{generate_moves, AllMoves, CapturesOnly, Evasions, KingMovesOnly, QuietsOnly};
use crab::movegen::{Move, Moves, ScoredMove};
use oorandom::Rand64;

#[test]
fn moves_are_found_by_their_squares() {
    let mut moves = Moves::new();
    assert!(moves.is_empty());
    let quiet = Move::new(Square(12), Square(20));
    let queen = Move::new_promo_any(Square(52), Square(60), PieceType(PieceType::QUEEN));
    let knight = Move::new_promo_any(Square(52), Square(60), PieceType(PieceType::KNIGHT));
    moves.push(quiet);
    moves.push(queen);
    moves.push(knight);
    assert_eq!(moves.len(), 3);
    assert_eq!(moves.move_with(Square(12), Square(20)), Some(quiet));
    // the first move between the squares
    assert_eq!(moves.move_with(Square(52), Square(60)), Some(queen));
    assert_eq!(moves.move_with_promo(Square(52), Square(60), PieceType(PieceType::KNIGHT)), Some(knight));
    assert_eq!(moves.move_with_promo(Square(52), Square(60), PieceType(PieceType::ROOK)), None);
    assert_eq!(moves.move_with(Square(12), Square(28)), None);
    assert_eq!(queen.promotion_piece(), PieceType(PieceType::QUEEN));
}

#[test]
fn a_random_move_is_popped() {
    let mut moves = Moves::new();
    let all = [
        Move::new(Square(12), Square(20)),
        Move::new(Square(12), Square(28)),
        Move::new(Square(6), Square(21)),
    ];
    for mv in all {
        moves.push(mv);
    }
    let mut seed = Rand64::new(7);
    let mut popped = Vec::new();
    while let Some(scored) = moves.pop_random(&mut seed) {
        popped.push(scored.mv);
    }
    assert_eq!(popped.len(), 3);
    for mv in all {
        assert!(popped.contains(&mv));
    }
    assert!(moves.pop_random(&mut seed).is_none());
}

#[test]
fn swap_pop_replaces_with_the_last() {
    let mut moves = Moves::new();
    let a = Move::new(Square(1), Square(18));
    let b = Move::new(Square(6), Square(21));
    let c = Move::new(Square(12), Square(28));
    moves.push(a);
    moves.push(b);
    moves.push_scored_move(ScoredMove { mv: c, score: crab::evaluation::CompressedEvaluation(5) });
    assert_eq!(moves.swap_pop(0).map(|scored| scored.mv), Some(a));
    assert_eq!(moves.get(0).mv, c);
    assert_eq!(moves.get(0).score.0, 5);
    assert_eq!(moves.get(1).mv, b);
    assert_eq!(moves.swap_pop(5), None);
    moves.clear();
    assert_eq!(moves.len(), 0);
}

#[test]
fn generation_splits_into_captures_and_quiets() {
    let tables = Tables::new();
    let board = Board::from_fen(
        b"r3k2r/p1ppqpb1/bn2pnp1/3PN3/1p2P3/2N2Q1p/PPPBBPPP/R3K2R w KQkq - 0 1",
        &tables,
    )
    .expect("a valid FEN");
    let mut all = Moves::new();
    generate_moves::<AllMoves>(&board, &tables.attacks, &mut all);
    let mut captures = Moves::new();
    generate_moves::<CapturesOnly>(&board, &tables.attacks, &mut captures);
    let mut quiets = Moves::new();
    generate_moves::<QuietsOnly>(&board, &tables.attacks, &mut quiets);
    assert_eq!(all.len(), 48);
    assert_eq!(captures.len(), 8);
    assert_eq!(captures.len() + quiets.len(), all.len());
}

#[test]
fn every_generated_move_is_pseudolegal() {
    let tables = Tables::new();
    for fen in [
        "rnbqkbnr/pppppppp/8/8/8/8/PPPPPPPP/RNBQKBNR w KQkq - 0 1",
        "r3k2r/p1ppqpb1/bn2pnp1/3PN3/1p2P3/2N2Q1p/PPPBBPPP/R3K2R w KQkq - 0 1",
        "r3k2r/Pppp1ppp/1b3nbN/nP6/BBP1P3/q4N2/Pp1P2PP/R2Q1RK1 w kq - 0 1",
        "rnbqkbnr/ppp1p1pp/8/3pPp2/8/8/PPPP1PPP/RNBQKBNR w KQkq f6 0 3",
        "8/2p5/3p4/KP5r/1R3p1k/8/4P1P1/8 b - - 0 1",
    ] {
        let board = Board::from_fen(fen.as_bytes(), &tables).unwrap();
        let mut moves = Moves::new();
        generate_moves::<AllMoves>(&board, &tables.attacks, &mut moves);
        assert!(moves.len() > 0);
        for i in 0..moves.len() {
            let mv = moves.get(i).mv;
            assert!(board.is_pseudolegal(&tables.attacks, mv), "{fen}: {:?}", mv);
        }
    }
}

fn sorted_moves(moves: &Moves) -> Vec<u16> {
    let mut list: Vec<u16> = (0..moves.len()).map(|i| moves.get(i).mv.bits).collect();
    list.sort();
    list
}

#[test]
fn all_moves_are_the_captures_and_quiets_and_evasions_the_captures_and_king_moves() {
    let tables = Tables::new();
    for fen in [
        "r3k2r/p1ppqpb1/bn2pnp1/3PN3/1p2P3/2N2Q1p/PPPBBPPP/R3K2R w KQkq - 0 1",
        "r3k2r/Pppp1ppp/1b3nbN/nP6/BBP1P3/q4N2/Pp1P2PP/R2Q1RK1 w kq - 0 1",
        "rnbqkbnr/ppp1p1pp/8/3pPp2/8/8/PPPP1PPP/RNBQKBNR w KQkq f6 0 3",
    ] {
        let board = Board::from_fen(fen.as_bytes(), &tables).unwrap();
        let mut all = Moves::new();
        generate_moves::<AllMoves>(&board, &tables.attacks, &mut all);
        let mut captures = Moves::new();
        generate_moves::<CapturesOnly>(&board, &tables.attacks, &mut captures);
        let mut quiets = Moves::new();
        generate_moves::<QuietsOnly>(&board, &tables.attacks, &mut quiets);
        let mut evasions = Moves::new();
        generate_moves::<Evasions>(&board, &tables.attacks, &mut evasions);
        let mut king = Moves::new();
        generate_moves::<KingMovesOnly>(&board, &tables.attacks, &mut king);
        let mut split = sorted_moves(&captures);
        split.extend(sorted_moves(&quiets));
        split.sort();
        assert_eq!(sorted_moves(&all), split, "{fen}");
        let mut split = sorted_moves(&captures);
        split.extend(sorted_moves(&king));
        split.sort();
        assert_eq!(sorted_moves(&evasions), split, "{fen}");
    }
}
