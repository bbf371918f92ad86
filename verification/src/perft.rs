//! Perft: counting the leaf nodes of the tree of legal moves, the standard
//! check of a move generator.
use vstd::prelude::*;

use crate::board::attacks::has_king;
use crate::board::make::{after_move, legal_move, move_ok};
use crate::board::{Board, BoardState};
use crate::lookups::Tables;
use crate::movegen::generate::{generate_moves, generated_moves, AllMoves};
use crate::movegen::list::{unscored, Moves, MAX_LEGAL_MOVES};
use crate::movegen::Move;

verus! {

/// All the pseudo-legal moves of a position.
pub open spec fn all_moves(state: BoardState) -> Seq<Move> {
    generated_moves(state, true, true, true)
}

/// The number of leaf nodes `depth` legal moves ahead.
pub open spec fn perft_count(state: BoardState, depth: nat) -> nat
    decreases depth, 0nat, 0nat,
{
    if depth == 0 {
        1
    } else {
        count_moves(state, all_moves(state), (depth - 1) as nat)
    }
}

/// The number of leaf nodes `depth` legal moves after each of the legal
/// moves among `moves`.
pub open spec fn count_moves(state: BoardState, moves: Seq<Move>, depth: nat) -> nat
    decreases depth, 1nat, moves.len(),
{
    if moves.len() == 0 {
        0
    } else {
        (if legal_move(state, moves[0]) {
            perft_count(after_move(state, moves[0]), depth)
        } else {
            0
        }) + count_moves(state, moves.drop_first(), depth)
    }
}

/// Every position of the tree down to `depth` is one the move generator
/// and `make_move` handle: the side to move has a king, its moves fit in a
/// list, and each can be made.
pub open spec fn perft_ok(state: BoardState, depth: nat) -> bool
    decreases depth,
{
    depth == 0 || {
        &&& state.side_to_move < 2
        &&& has_king(state)
        &&& all_moves(state).len() <= MAX_LEGAL_MOVES
        &&& forall|i: int|
            0 <= i < all_moves(state).len() ==> move_ok(state, #[trigger] all_moves(state)[i]) && (
            legal_move(state, all_moves(state)[i]) ==> perft_ok(
                after_move(state, all_moves(state)[i]),
                (depth - 1) as nat,
            ))
    }
}

/// A suffix of the moves counts no more than all of them.
proof fn lemma_count_suffix(state: BoardState, moves: Seq<Move>, i: int, depth: nat)
    requires
        0 <= i <= moves.len(),
    ensures
        count_moves(state, moves.subrange(i, moves.len() as int), depth) <= count_moves(
            state,
            moves,
            depth,
        ),
    decreases i,
{
    if i > 0 {
        lemma_count_suffix(state, moves.drop_first(), i - 1, depth);
        assert(moves.drop_first().subrange(i - 1, moves.drop_first().len() as int) =~= moves.subrange(
            i,
            moves.len() as int,
        ));
    } else {
        assert(moves.subrange(0, moves.len() as int) =~= moves);
    }
}

/// The nodes a move adds to the count: the perft after it if it is legal.
pub open spec fn move_count(state: BoardState, mv: Move, depth: nat) -> nat {
    if legal_move(state, mv) {
        perft_count(after_move(state, mv), depth)
    } else {
        0
    }
}

/// Counting one more move adds its nodes.
proof fn lemma_count_push(state: BoardState, moves: Seq<Move>, mv: Move, depth: nat)
    ensures
        count_moves(state, moves.push(mv), depth) == count_moves(state, moves, depth) + move_count(
            state,
            mv,
            depth,
        ),
    decreases moves.len(),
{
    if moves.len() == 0 {
        assert(moves.push(mv).drop_first() =~= Seq::<Move>::empty());
        assert(moves.push(mv)[0] == mv);
        assert(count_moves(state, Seq::<Move>::empty(), depth) == 0);
    } else {
        assert(moves.push(mv).drop_first() =~= moves.drop_first().push(mv));
        assert(moves.push(mv)[0] == moves[0]);
        lemma_count_push(state, moves.drop_first(), mv, depth);
    }
}

/// The legal moves among `moves`, in order.
pub open spec fn legal_moves_in(state: BoardState, moves: Seq<Move>) -> Seq<Move>
    decreases moves.len(),
{
    if moves.len() == 0 {
        Seq::empty()
    } else if legal_move(state, moves.last()) {
        legal_moves_in(state, moves.drop_last()).push(moves.last())
    } else {
        legal_moves_in(state, moves.drop_last())
    }
}

/// The sum of the counts of a divided perft.
pub open spec fn divided_total(divided: Seq<(Move, u64)>) -> nat
    decreases divided.len(),
{
    if divided.len() == 0 {
        0
    } else {
        divided_total(divided.drop_last()) + divided.last().1 as nat
    }
}

/// Returns the number of leaf nodes `depth` moves in the future.
pub fn perft(board: &Board, tables: &Tables, depth: u8) -> (nodes: u64)
    requires
        board.wf(),
        tables.wf(),
        perft_ok(board@, depth as nat),
        perft_count(board@, depth as nat) <= u64::MAX,
    ensures
        nodes == perft_count(board@, depth as nat),
    decreases depth,
{
    if depth == 0 {
        return 1;
    }
    let ghost st = board@;
    let ghost list = all_moves(st);
    let ghost d = (depth - 1) as nat;
    let mut moves = Moves::new();
    generate_moves::<AllMoves>(board, &tables.attacks, &mut moves);
    assert(moves@ =~= unscored(list));

    let mut total: u64 = 0;
    let mut i: usize = 0;
    let len = moves.len();
    assert(list.subrange(0, len as int) =~= list);
    while i < len
        invariant
            board.wf(),
            tables.wf(),
            board@ == st,
            depth > 0,
            d == depth - 1,
            len == moves@.len() == list.len(),
            moves@ == unscored(list),
            i <= len,
            perft_ok(st, depth as nat),
            list == all_moves(st),
            perft_count(st, depth as nat) <= u64::MAX,
            perft_count(st, depth as nat) == count_moves(st, list, d),
            total + count_moves(st, list.subrange(i as int, len as int), d) == count_moves(st, list, d),
        decreases len - i,
    {
        let mv = moves.get(i).mv;
        assert(mv == list[i as int]);
        let ghost rest = list.subrange(i as int, len as int);
        assert(rest.drop_first() =~= list.subrange(i + 1, len as int));
        assert(rest[0] == mv);
        proof {
            lemma_count_suffix(st, list, i + 1, d);
        }
        let mut copy = *board;
        if copy.make_move(mv, tables) {
            let nodes = perft(&copy, tables, depth - 1);
            total = total + nodes;
        }
        i = i + 1;
    }
    assert(list.subrange(len as int, len as int) =~= Seq::<Move>::empty());
    total
}

/// The legal moves of the position with the number of leaf nodes `depth -
/// 1` moves after each, in the order they are generated; the nodes sum to
/// the perft of `depth`.
#[verifier::rlimit(40)]
pub fn perft_divide(board: &Board, tables: &Tables, depth: u8) -> (divided: Vec<(Move, u64)>)
    requires
        board.wf(),
        tables.wf(),
        depth > 0,
        perft_ok(board@, depth as nat),
        perft_count(board@, depth as nat) <= u64::MAX,
    ensures
        forall|j: int|
            0 <= j < divided@.len() ==> legal_move(board@, #[trigger] divided@[j].0)
                && divided@[j].1 == perft_count(after_move(board@, divided@[j].0), (depth - 1) as nat),
        divided@.map_values(|entry: (Move, u64)| entry.0) == legal_moves_in(board@, all_moves(board@)),
        divided_total(divided@) == perft_count(board@, depth as nat),
{
    let ghost st = board@;
    let ghost list = all_moves(st);
    let ghost d = (depth - 1) as nat;
    let mut moves = Moves::new();
    generate_moves::<AllMoves>(board, &tables.attacks, &mut moves);
    assert(moves@ =~= unscored(list));

    let mut divided: Vec<(Move, u64)> = Vec::new();
    let mut i: usize = 0;
    let len = moves.len();
    assert(list.take(0) =~= Seq::<Move>::empty());
    assert(divided@.map_values(|entry: (Move, u64)| entry.0) =~= Seq::<Move>::empty());
    while i < len
        invariant
            board.wf(),
            tables.wf(),
            board@ == st,
            depth > 0,
            d == depth - 1,
            len == moves@.len() == list.len(),
            moves@ == unscored(list),
            i <= len,
            perft_ok(st, depth as nat),
            list == all_moves(st),
            perft_count(st, depth as nat) <= u64::MAX,
            perft_count(st, depth as nat) == count_moves(st, list, d),
            forall|j: int|
                0 <= j < divided@.len() ==> legal_move(st, #[trigger] divided@[j].0)
                    && divided@[j].1 == perft_count(after_move(st, divided@[j].0), d),
            divided@.map_values(|entry: (Move, u64)| entry.0) == legal_moves_in(st, list.take(i as int)),
            divided_total(divided@) == count_moves(st, list.take(i as int), d),
        decreases len - i,
    {
        let mv = moves.get(i).mv;
        assert(mv == list[i as int]);
        let ghost before = divided@;
        proof {
            assert(list.take(i + 1) =~= list.take(i as int).push(mv));
            assert(list.take(i + 1).drop_last() =~= list.take(i as int));
            lemma_count_push(st, list.take(i as int), mv, d);
        }
        let mut copy = *board;
        if copy.make_move(mv, tables) {
            proof {
                let rest = list.subrange(i as int, len as int);
                lemma_count_suffix(st, list, i as int, d);
                assert(rest[0] == mv);
                assert(perft_count(after_move(st, mv), d) <= count_moves(st, rest, d));
            }
            let nodes = perft(&copy, tables, depth - 1);
            divided.push((mv, nodes));
            assert(divided@.drop_last() =~= before);
            assert(divided@.map_values(|entry: (Move, u64)| entry.0) =~= before.map_values(
                |entry: (Move, u64)| entry.0,
            ).push(mv));
        }
        i = i + 1;
    }
    assert(list.take(len as int) =~= list);
    divided
}

} // verus!
