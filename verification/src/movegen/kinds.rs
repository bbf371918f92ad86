//! How the kinds of generated moves fit together: all the moves are the
//! captures and the quiet moves, and the evasions are the captures and the
//! king's quiet moves, counted with repeats.
use vstd::prelude::*;

use crate::bitboard::{group_sq_in, lemma_sq_in_ext, lemma_squares_of, sq_in, squares_of};
use crate::board::BoardState;
use crate::movegen::generate::{
    castling_moves, generated_moves, moves_to, non_sliding_moves, pawn_moves_of, piece_moves,
    promotion_moves, regular_pawn_moves, side_bb, sliding_moves, spec_move, target_squares,
};
use crate::movegen::Move;

verus! {

broadcast use group_sq_in;

/// The normal moves from `start` to the squares of `targets` are those
/// squares mapped to a move each.
proof fn lemma_moves_to_map(start: int, targets: Seq<u8>)
    ensures
        moves_to(start, targets) =~= targets.map_values(
            |x: u8| spec_move(start, x as int, Move::NORMAL, 0),
        ),
    decreases targets.len(),
{
    if targets.len() > 0 {
        lemma_moves_to_map(start, targets.drop_first());
    }
}

/// Target lists holding the same squares, as often each, give moves that
/// are the same, as often each.
proof fn lemma_moves_to_same_multiset(start: int, a: Seq<u8>, b: Seq<u8>)
    requires
        a.to_multiset() =~= b.to_multiset(),
    ensures
        moves_to(start, a).to_multiset() =~= moves_to(start, b).to_multiset(),
    decreases a.len(),
{
    broadcast use vstd::multiset::group_multiset_axioms;
    broadcast use vstd::seq_lib::group_seq_properties;

    let f = |x: u8| spec_move(start, x as int, Move::NORMAL, 0);
    lemma_moves_to_map(start, a);
    lemma_moves_to_map(start, b);
    if a.len() == 0 {
        assert(b.to_multiset().len() == 0);
        assert(b.len() == 0);
        assert(b =~= a);
    } else {
        let x = a[0];
        assert(a.to_multiset().count(x) > 0) by {
            assert(a.contains(x));
        }
        assert(b.contains(x));
        let i = choose|i: int| 0 <= i < b.len() && b[i] == x;
        let rest = b.remove(i);
        assert(a =~= seq![x] + a.drop_first());
        vstd::seq_lib::lemma_multiset_commutative(seq![x], a.drop_first());
        assert(a.drop_first().to_multiset() =~= rest.to_multiset());
        lemma_moves_to_same_multiset(start, a.drop_first(), rest);
        lemma_moves_to_map(start, a.drop_first());
        lemma_moves_to_map(start, rest);
        assert(b.map_values(f).remove(i) =~= rest.map_values(f));
        assert(moves_to(start, a) =~= seq![f(x)] + moves_to(start, a.drop_first()));
        vstd::seq_lib::lemma_multiset_commutative(seq![f(x)], moves_to(start, a.drop_first()));
    }
}

/// The moves to the squares of two lists one after the other are those
/// to the first and those to the second.
proof fn lemma_moves_to_concat(start: int, a: Seq<u8>, b: Seq<u8>)
    ensures
        moves_to(start, a + b) =~= moves_to(start, a) + moves_to(start, b),
{
    lemma_moves_to_map(start, a);
    lemma_moves_to_map(start, b);
    lemma_moves_to_map(start, a + b);
}

/// A square is listed once in [`squares_of`] if it is in the set, and not
/// at all if it is not.
proof fn lemma_squares_of_count(bb: u64, x: u8)
    ensures
        squares_of(bb).to_multiset().count(x) == if sq_in(bb, x as int) {
            1nat
        } else {
            0nat
        },
{
    broadcast use vstd::seq_lib::group_seq_properties;

    lemma_squares_of(bb);
    let s = squares_of(bb);
    assert(s.no_duplicates()) by {
        assert forall|i: int, j: int| 0 <= i < s.len() && 0 <= j < s.len() && i != j implies s[i]
            != s[j] by {
            if i < j {
                assert(s[i] < s[j]);
            } else {
                assert(s[j] < s[i]);
            }
        }
    }
    s.lemma_multiset_has_no_duplicates();
    if sq_in(bb, x as int) {
        assert(s.contains(x as int as u8));
    } else {
        if s.contains(x) {
            let i = choose|i: int| 0 <= i < s.len() && s[i] == x;
            assert(sq_in(bb, s[i] as int));
        }
    }
}

/// The squares of two disjoint sets together are those of each.
proof fn lemma_squares_of_split(a: u64, b: u64)
    requires
        a & b == 0,
    ensures
        squares_of(a | b).to_multiset() =~= squares_of(a).to_multiset().add(
            squares_of(b).to_multiset(),
        ),
{
    broadcast use vstd::multiset::group_multiset_axioms;

    assert forall|x: u8|
        squares_of(a | b).to_multiset().count(x) == squares_of(a).to_multiset().count(x)
            + squares_of(b).to_multiset().count(x) by {
        lemma_squares_of_count(a | b, x);
        lemma_squares_of_count(a, x);
        lemma_squares_of_count(b, x);
        assert(!sq_in(a & b, x as int));
    }
}

/// The normal moves from `start` to two disjoint sets together are those
/// to each.
proof fn lemma_moves_to_split(start: int, a: u64, b: u64)
    requires
        a & b == 0,
    ensures
        moves_to(start, squares_of(a | b)).to_multiset() =~= moves_to(
            start,
            squares_of(a),
        ).to_multiset().add(moves_to(start, squares_of(b)).to_multiset()),
{
    lemma_squares_of_split(a, b);
    vstd::seq_lib::lemma_multiset_commutative(squares_of(a), squares_of(b));
    lemma_moves_to_same_multiset(start, squares_of(a | b), squares_of(a) + squares_of(b));
    lemma_moves_to_concat(start, squares_of(a), squares_of(b));
    vstd::seq_lib::lemma_multiset_commutative(
        moves_to(start, squares_of(a)),
        moves_to(start, squares_of(b)),
    );
}

/// The moves of pieces onto two disjoint sets of targets together are
/// those onto each.
proof fn lemma_piece_moves_split(starts: Seq<u8>, kind: int, occupancies: u64, t1: u64, t2: u64)
    requires
        t1 & t2 == 0,
    ensures
        piece_moves(starts, kind, occupancies, t1 | t2).to_multiset() =~= piece_moves(
            starts,
            kind,
            occupancies,
            t1,
        ).to_multiset().add(piece_moves(starts, kind, occupancies, t2).to_multiset()),
    decreases starts.len(),
{
    broadcast use vstd::multiset::group_multiset_axioms;

    if starts.len() > 0 {
        let s = starts[0] as int;
        let attacks = crate::movegen::generate::attacks_of(kind, s, occupancies);
        lemma_sq_in_ext(attacks & (t1 | t2), (attacks & t1) | (attacks & t2));
        lemma_sq_in_ext((attacks & t1) & (attacks & t2), 0);
        lemma_moves_to_split(s, attacks & t1, attacks & t2);
        lemma_piece_moves_split(starts.drop_first(), kind, occupancies, t1, t2);
        let rest = starts.drop_first();
        vstd::seq_lib::lemma_multiset_commutative(
            moves_to(s, squares_of(attacks & (t1 | t2))),
            piece_moves(rest, kind, occupancies, t1 | t2),
        );
        vstd::seq_lib::lemma_multiset_commutative(
            moves_to(s, squares_of(attacks & t1)),
            piece_moves(rest, kind, occupancies, t1),
        );
        vstd::seq_lib::lemma_multiset_commutative(
            moves_to(s, squares_of(attacks & t2)),
            piece_moves(rest, kind, occupancies, t2),
        );
        assert(attacks & (t1 | t2) == (attacks & t1) | (attacks & t2));
    } else {
        broadcast use vstd::seq_lib::group_seq_properties;

        assert(piece_moves(starts, kind, occupancies, t1 | t2).len() == 0);
        assert(piece_moves(starts, kind, occupancies, t1).len() == 0);
        assert(piece_moves(starts, kind, occupancies, t2).len() == 0);
    }
}

/// The squares not of `us` are those of `them` and the others, which do
/// not overlap, when the two sides share no square.
proof fn lemma_targets_split(us: u64, them: u64)
    requires
        us & them == 0,
    ensures
        target_squares(true, true, us, them) == target_squares(false, true, us, them)
            | target_squares(true, false, us, them),
        target_squares(false, true, us, them) & target_squares(true, false, us, them) == 0,
{
    assert forall|i: int| 0 <= i < 64 implies sq_in(!us, i) == sq_in(them | (!us ^ them), i) by {
        assert(!sq_in(us & them, i));
    }
    lemma_sq_in_ext(!us, them | (!us ^ them));
    assert forall|i: int| 0 <= i < 64 implies sq_in(them & (!us ^ them), i) == sq_in(0, i) by {
        assert(!sq_in(us & them, i));
    }
    lemma_sq_in_ext(them & (!us ^ them), 0);
}

/// The multisets of three sequences, the first two concatenated, add up.
proof fn lemma_multiset_concat3(a: Seq<Move>, b: Seq<Move>, c: Seq<Move>, d: Seq<Move>)
    ensures
        (a + b + c + d).to_multiset() =~= a.to_multiset().add(b.to_multiset()).add(
            c.to_multiset(),
        ).add(d.to_multiset()),
{
    vstd::seq_lib::lemma_multiset_commutative(a + b + c, d);
    vstd::seq_lib::lemma_multiset_commutative(a + b, c);
    vstd::seq_lib::lemma_multiset_commutative(a, b);
}

/// Every move generated with both quiet moves and captures is generated
/// once with captures alone or with quiet moves alone, and nothing else
/// is: all the moves are the captures and the quiet moves, counted with
/// repeats. Likewise the evasions are the captures and the king's quiet
/// moves.
pub proof fn lemma_captures_and_quiets_are_all_moves(state: BoardState)
    requires
        state.side_to_move < 2,
    ensures
        generated_moves(state, true, true, true).to_multiset() =~= generated_moves(
            state,
            false,
            false,
            true,
        ).to_multiset().add(generated_moves(state, true, true, false).to_multiset()),
        generated_moves(state, false, true, true).to_multiset() =~= generated_moves(
            state,
            false,
            false,
            true,
        ).to_multiset().add(generated_moves(state, false, true, false).to_multiset()),
{
    broadcast use vstd::multiset::group_multiset_axioms;
    broadcast use vstd::seq_lib::group_seq_properties;

    let side = state.side_to_move as int;
    let us = side_bb(state, side);
    let occ = crate::board::attacks::occupancy(state.mailbox);
    // the two sides share no square, and a side's squares are occupied
    assert forall|i: int| 0 <= i < 64 implies !sq_in(us & side_bb(state, 1 - side), i) && (sq_in(
        us,
        i,
    ) ==> sq_in(occ, i)) by {
        crate::board::lemma_kind_bb(state.mailbox, 6 + side, 64, i);
        crate::board::lemma_kind_bb(state.mailbox, 7 - side, 64, i);
        crate::board::lemma_kind_bb(state.mailbox, 6, 64, i);
        crate::board::lemma_kind_bb(state.mailbox, 7, 64, i);
    }
    lemma_sq_in_ext(us & side_bb(state, 1 - side), 0);
    let them_s = us ^ occ;
    assert forall|i: int| 0 <= i < 64 implies sq_in(us & them_s, i) == sq_in(0, i) by {}
    lemma_sq_in_ext(us & them_s, 0);
    let them_n = side_bb(state, 1 - side);
    lemma_targets_split(us, them_n);
    lemma_targets_split(us, them_s);
    // knights and the king
    let knights = squares_of(
        crate::board::kind_bb(state.mailbox, crate::defs::PieceType::KNIGHT as int, 64) & us,
    );
    let kings = crate::board::kind_bb(state.mailbox, crate::defs::PieceType::KING as int, 64) & us;
    let king = vstd::std_specs::bits::u64_trailing_zeros(kings) as int;
    let kn = crate::lookups::king_bb(king);
    lemma_piece_moves_split(
        knights,
        crate::defs::PieceType::KNIGHT as int,
        occ,
        target_squares(false, true, us, them_n),
        target_squares(true, false, us, them_n),
    );
    lemma_sq_in_ext(
        kn & target_squares(true, true, us, them_n),
        (kn & target_squares(false, true, us, them_n)) | (kn & target_squares(true, false, us, them_n)),
    );
    lemma_sq_in_ext(
        (kn & target_squares(false, true, us, them_n)) & (kn & target_squares(true, false, us, them_n)),
        0,
    );
    lemma_moves_to_split(
        king,
        kn & target_squares(false, true, us, them_n),
        kn & target_squares(true, false, us, them_n),
    );
    let kn_all = piece_moves(knights, crate::defs::PieceType::KNIGHT as int, occ, target_squares(true, true, us, them_n));
    let kn_cap = piece_moves(knights, crate::defs::PieceType::KNIGHT as int, occ, target_squares(false, true, us, them_n));
    let kn_q = piece_moves(knights, crate::defs::PieceType::KNIGHT as int, occ, target_squares(true, false, us, them_n));
    let k_all = moves_to(king, squares_of(kn & target_squares(true, true, us, them_n)));
    let k_cap = moves_to(king, squares_of(kn & target_squares(false, true, us, them_n)));
    let k_q = moves_to(king, squares_of(kn & target_squares(true, false, us, them_n)));
    assert(non_sliding_moves(state, true, true, true) == kn_all + k_all);
    assert(non_sliding_moves(state, false, false, true) == kn_cap + k_cap);
    assert(non_sliding_moves(state, true, true, false) == kn_q + k_q);
    assert(non_sliding_moves(state, false, true, true) == Seq::<Move>::empty() + kn_cap + k_all);
    assert(non_sliding_moves(state, false, true, false) == Seq::<Move>::empty() + k_q);
    vstd::seq_lib::lemma_multiset_commutative(kn_all, k_all);
    vstd::seq_lib::lemma_multiset_commutative(kn_cap, k_cap);
    vstd::seq_lib::lemma_multiset_commutative(kn_q, k_q);
    vstd::seq_lib::lemma_multiset_commutative(Seq::<Move>::empty() + kn_cap, k_all);
    vstd::seq_lib::lemma_multiset_commutative(Seq::<Move>::empty(), k_q);
    assert(Seq::<Move>::empty() + kn_cap =~= kn_cap);
    // bishops, rooks and queens
    let b_starts = squares_of(crate::board::kind_bb(state.mailbox, 2, 64) & us);
    let r_starts = squares_of(crate::board::kind_bb(state.mailbox, 3, 64) & us);
    let q_starts = squares_of(crate::board::kind_bb(state.mailbox, 4, 64) & us);
    let ta = target_squares(true, true, us, them_s);
    let tc = target_squares(false, true, us, them_s);
    let tq = target_squares(true, false, us, them_s);
    lemma_piece_moves_split(b_starts, 2, occ, tc, tq);
    lemma_piece_moves_split(r_starts, 3, occ, tc, tq);
    lemma_piece_moves_split(q_starts, 4, occ, tc, tq);
    assert(sliding_moves(state, true, true) == piece_moves(b_starts, 2, occ, ta) + piece_moves(r_starts, 3, occ, ta) + piece_moves(q_starts, 4, occ, ta));
    assert(sliding_moves(state, false, true) == piece_moves(b_starts, 2, occ, tc) + piece_moves(r_starts, 3, occ, tc) + piece_moves(q_starts, 4, occ, tc));
    assert(sliding_moves(state, true, false) == piece_moves(b_starts, 2, occ, tq) + piece_moves(r_starts, 3, occ, tq) + piece_moves(q_starts, 4, occ, tq));
    assert(sliding_moves(state, false, false) == Seq::<Move>::empty());
    vstd::seq_lib::lemma_multiset_commutative(piece_moves(b_starts, 2, occ, ta) + piece_moves(r_starts, 3, occ, ta), piece_moves(q_starts, 4, occ, ta));
    vstd::seq_lib::lemma_multiset_commutative(piece_moves(b_starts, 2, occ, ta), piece_moves(r_starts, 3, occ, ta));
    vstd::seq_lib::lemma_multiset_commutative(piece_moves(b_starts, 2, occ, tc) + piece_moves(r_starts, 3, occ, tc), piece_moves(q_starts, 4, occ, tc));
    vstd::seq_lib::lemma_multiset_commutative(piece_moves(b_starts, 2, occ, tc), piece_moves(r_starts, 3, occ, tc));
    vstd::seq_lib::lemma_multiset_commutative(piece_moves(b_starts, 2, occ, tq) + piece_moves(r_starts, 3, occ, tq), piece_moves(q_starts, 4, occ, tq));
    vstd::seq_lib::lemma_multiset_commutative(piece_moves(b_starts, 2, occ, tq), piece_moves(r_starts, 3, occ, tq));
    // pawns: the quiet part and the capture part are generated apart
    reveal_pawn_parts(state);
    // the four parts of each kind
    lemma_multiset_concat3(pawn_moves_of(state, true, true), non_sliding_moves(state, true, true, true), sliding_moves(state, true, true), castling_moves(state, true));
    lemma_multiset_concat3(pawn_moves_of(state, false, true), non_sliding_moves(state, false, false, true), sliding_moves(state, false, true), castling_moves(state, false));
    lemma_multiset_concat3(pawn_moves_of(state, true, false), non_sliding_moves(state, true, true, false), sliding_moves(state, true, false), castling_moves(state, true));
    lemma_multiset_concat3(pawn_moves_of(state, false, true), non_sliding_moves(state, false, true, true), sliding_moves(state, false, true), castling_moves(state, false));
    lemma_multiset_concat3(pawn_moves_of(state, false, false), non_sliding_moves(state, false, true, false), sliding_moves(state, false, false), castling_moves(state, false));
}

/// The pawn moves with both kinds are the quiet ones and the captures.
proof fn reveal_pawn_parts(state: BoardState)
    ensures
        pawn_moves_of(state, true, true).to_multiset() =~= pawn_moves_of(state, false, true).to_multiset().add(
            pawn_moves_of(state, true, false).to_multiset(),
        ),
        pawn_moves_of(state, false, false).len() == 0,
        castling_moves(state, false).len() == 0,
{
    broadcast use vstd::multiset::group_multiset_axioms;

    let rq = regular_pawn_moves(state, true, false);
    let rc = regular_pawn_moves(state, false, true);
    let pq = promotion_moves(state, true, false);
    let pc = promotion_moves(state, false, true);
    assert(regular_pawn_moves(state, true, true) =~= rq + rc);
    assert(promotion_moves(state, true, true) =~= pq + pc);
    assert(regular_pawn_moves(state, false, false).len() == 0);
    assert(promotion_moves(state, false, false).len() == 0);
    vstd::seq_lib::lemma_multiset_commutative(rq + rc, pq + pc);
    vstd::seq_lib::lemma_multiset_commutative(rq, rc);
    vstd::seq_lib::lemma_multiset_commutative(pq, pc);
    vstd::seq_lib::lemma_multiset_commutative(rc, pc);
    vstd::seq_lib::lemma_multiset_commutative(rq, pq);
}

} // verus!
