//! Every move the generator produces is pseudo-legal: move generation and
//! the check of moves from elsewhere agree.
use vstd::prelude::*;

use vstd::std_specs::bits::u64_trailing_zeros;

use crate::bitboard::{
    castling_space, group_sq_in, lemma_lowest_bit, lemma_shifted_bits, lemma_squares_of,
    squares_of, sq_in,
};
use crate::board::attacks::{has_king, occupancy};
use crate::board::{kind_bb, lemma_kind_bb, mailbox_ok, BoardState, CastlingRights};
use crate::board::pseudo::{piece_attacks, pseudolegal, step_from};
use crate::defs::{Direction, Piece, PieceType, Side, Square};
use crate::lookups::{king_bb, lemma_steps_bb, pawn_bb, pawn_step};
use crate::movegen::generate::{
    generated_moves, attacks_of, behind, castle_if_clear, castle_move, castling_moves, diagonal_of, ep_moves,
    forward_of, moves_to, non_sliding_moves, pawn_moves, pawn_moves_of, pawn_start, piece_moves,
    promotion_moves, promotions, regular_pawn_moves, side_bb, sliding_moves, spec_move,
    target_squares,
};
use crate::movegen::{lemma_move_roundtrip, Move};

verus! {

/// Each move of `moves_to(start, targets)` goes from `start` to a square of
/// `targets`, and is a normal move.
proof fn lemma_moves_to(start: int, targets: Seq<u8>)
    ensures
        moves_to(start, targets).len() == targets.len(),
        forall|i: int|
            0 <= i < targets.len() ==> #[trigger] moves_to(start, targets)[i] == spec_move(
                start,
                targets[i] as int,
                Move::NORMAL,
                0,
            ),
    decreases targets.len(),
{
    if targets.len() > 0 {
        lemma_moves_to(start, targets.drop_first());
        let rest = moves_to(start, targets.drop_first());
        assert forall|i: int| 0 <= i < targets.len() implies #[trigger] moves_to(start, targets)[i]
            == spec_move(start, targets[i] as int, Move::NORMAL, 0) by {
            if i > 0 {
                assert(moves_to(start, targets)[i] == rest[i - 1]);
                assert(targets.drop_first()[i - 1] == targets[i]);
            }
        }
    }
}

/// A normal move is pseudo-legal when a piece of the side to move that is
/// not a pawn goes to a square it attacks that holds no piece of its own.
proof fn lemma_piece_move_pseudolegal(state: BoardState, kind: int, s: int, e: int)
    requires
        mailbox_ok(state.mailbox),
        state.side_to_move < 2,
        1 <= kind <= 5,
        0 <= s < 64,
        0 <= e < 64,
        state.mailbox[s].0 == kind * 2 + state.side_to_move,
        sq_in(attacks_of(kind, s, occupancy(state.mailbox)), e),
        !(state.mailbox[e].0 != Piece::NONE && state.mailbox[e].side_of() == state.side_to_move),
    ensures
        pseudolegal(state, spec_move(s, e, Move::NORMAL, 0)),
{
    lemma_move_roundtrip(s as u16, e as u16, Move::NORMAL, 0);
    assert(piece_attacks(kind, state.side_to_move as int, s, occupancy(state.mailbox)) == attacks_of(
        kind,
        s,
        occupancy(state.mailbox),
    ));
}

/// A square of a set of pieces of the side to move holds such a piece, and
/// a square of the targets holds no piece of that side.
proof fn lemma_own_piece(state: BoardState, kind: int, s: int)
    requires
        mailbox_ok(state.mailbox),
        state.side_to_move < 2,
        0 <= kind < 6,
        sq_in(kind_bb(state.mailbox, kind, 64) & side_bb(state, state.side_to_move as int), s),
    ensures
        0 <= s < 64,
        state.mailbox[s].0 == kind * 2 + state.side_to_move,
{
    broadcast use group_sq_in;

    lemma_kind_bb(state.mailbox, kind, 64, s);
    lemma_kind_bb(state.mailbox, 6 + state.side_to_move, 64, s);
}

/// A target square holds no piece of the side to move.
proof fn lemma_target(state: BoardState, quiets: bool, captures: bool, them: u64, e: int)
    requires
        mailbox_ok(state.mailbox),
        state.side_to_move < 2,
        them == side_bb(state, 1 - state.side_to_move) || them == side_bb(
            state,
            state.side_to_move as int,
        ) ^ occupancy(state.mailbox),
        quiets || captures,
        sq_in(
            target_squares(quiets, captures, side_bb(state, state.side_to_move as int), them),
            e,
        ),
    ensures
        0 <= e < 64,
        !(state.mailbox[e].0 != Piece::NONE && state.mailbox[e].side_of() == state.side_to_move),
{
    broadcast use group_sq_in;

    let side = state.side_to_move as int;
    lemma_kind_bb(state.mailbox, 6 + side, 64, e);
    lemma_kind_bb(state.mailbox, 7 - side, 64, e);
    lemma_kind_bb(state.mailbox, 6, 64, e);
    lemma_kind_bb(state.mailbox, 7, 64, e);
}

/// Every move of `piece_moves` from the squares of pieces of type `kind`
/// of the side to move, to targets, is pseudo-legal.
proof fn lemma_piece_moves_pseudolegal(
    state: BoardState,
    starts: Seq<u8>,
    kind: int,
    quiets: bool,
    captures: bool,
    them: u64,
)
    requires
        mailbox_ok(state.mailbox),
        state.side_to_move < 2,
        1 <= kind <= 5,
        quiets || captures,
        them == side_bb(state, 1 - state.side_to_move) || them == side_bb(
            state,
            state.side_to_move as int,
        ) ^ occupancy(state.mailbox),
        forall|j: int|
            0 <= j < starts.len() ==> sq_in(
                kind_bb(state.mailbox, kind, 64) & side_bb(state, state.side_to_move as int),
                #[trigger] starts[j] as int,
            ),
    ensures
        forall|i: int|
            0 <= i < piece_moves(
                starts,
                kind,
                occupancy(state.mailbox),
                target_squares(quiets, captures, side_bb(state, state.side_to_move as int), them),
            ).len() ==> pseudolegal(
                state,
                #[trigger] piece_moves(
                    starts,
                    kind,
                    occupancy(state.mailbox),
                    target_squares(
                        quiets,
                        captures,
                        side_bb(state, state.side_to_move as int),
                        them,
                    ),
                )[i],
            ),
    decreases starts.len(),
{
    broadcast use group_sq_in;

    let occ = occupancy(state.mailbox);
    let targets = target_squares(quiets, captures, side_bb(state, state.side_to_move as int), them);
    if starts.len() > 0 {
        let s = starts[0] as int;
        let bb = attacks_of(kind, s, occ) & targets;
        let first = moves_to(s, squares_of(bb));
        let rest = piece_moves(starts.drop_first(), kind, occ, targets);
        assert forall|j: int| 0 <= j < starts.drop_first().len() implies sq_in(
            kind_bb(state.mailbox, kind, 64) & side_bb(state, state.side_to_move as int),
            #[trigger] starts.drop_first()[j] as int,
        ) by {
            assert(starts.drop_first()[j] == starts[j + 1]);
        }
        lemma_piece_moves_pseudolegal(state, starts.drop_first(), kind, quiets, captures, them);
        lemma_moves_to(s, squares_of(bb));
        lemma_squares_of(bb);
        assert(sq_in(
            kind_bb(state.mailbox, kind, 64) & side_bb(state, state.side_to_move as int),
            starts[0] as int,
        ));
        lemma_own_piece(state, kind, s);
        let all = piece_moves(starts, kind, occ, targets);
        assert(all == first + rest);
        assert forall|i: int| 0 <= i < all.len() implies pseudolegal(state, #[trigger] all[i]) by {
            if i < first.len() {
                let e = squares_of(bb)[i] as int;
                assert(sq_in(bb, e));
                lemma_target(state, quiets, captures, them, e);
                lemma_piece_move_pseudolegal(state, kind, s, e);
            } else {
                assert(all[i] == rest[i - first.len()]);
            }
        }
    }
}

/// Every knight and king move the generator produces is pseudo-legal.
proof fn lemma_non_sliding_pseudolegal(state: BoardState, quiets: bool, king_quiets: bool, captures: bool)
    requires
        mailbox_ok(state.mailbox),
        state.side_to_move < 2,
        has_king(state),
    ensures
        forall|i: int|
            0 <= i < non_sliding_moves(state, quiets, king_quiets, captures).len() ==> pseudolegal(
                state,
                #[trigger] non_sliding_moves(state, quiets, king_quiets, captures)[i],
            ),
{
    broadcast use group_sq_in;

    let side = state.side_to_move as int;
    let us = side_bb(state, side);
    let them = side_bb(state, 1 - side);
    let occ = occupancy(state.mailbox);
    let knights = kind_bb(state.mailbox, PieceType::KNIGHT as int, 64) & us;
    let kings = kind_bb(state.mailbox, PieceType::KING as int, 64) & us;
    let king = u64_trailing_zeros(kings) as int;
    let first: Seq<Move> = if quiets || captures {
        piece_moves(squares_of(knights), PieceType::KNIGHT as int, occ, target_squares(quiets, captures, us, them))
    } else {
        Seq::empty()
    };
    let king_targets = king_bb(king) & target_squares(king_quiets, captures, us, them);
    let second: Seq<Move> = if king_quiets || captures {
        moves_to(king, squares_of(king_targets))
    } else {
        Seq::empty()
    };
    assert(non_sliding_moves(state, quiets, king_quiets, captures) == first + second);
    if quiets || captures {
        lemma_squares_of(knights);
        lemma_piece_moves_pseudolegal(state, squares_of(knights), PieceType::KNIGHT as int, quiets, captures, them);
    }
    if king_quiets || captures {
        lemma_lowest_bit(kings);
        lemma_own_piece(state, PieceType::KING as int, king);
        lemma_moves_to(king, squares_of(king_targets));
        lemma_squares_of(king_targets);
        assert forall|i: int| 0 <= i < second.len() implies pseudolegal(state, #[trigger] second[i]) by {
            let e = squares_of(king_targets)[i] as int;
            assert(sq_in(king_targets, e));
            lemma_target(state, king_quiets, captures, them, e);
            lemma_piece_move_pseudolegal(state, PieceType::KING as int, king, e);
        }
    }
    let all = non_sliding_moves(state, quiets, king_quiets, captures);
    assert forall|i: int| 0 <= i < all.len() implies pseudolegal(state, #[trigger] all[i]) by {
        if i < first.len() {
            assert(all[i] == first[i]);
        } else {
            assert(all[i] == second[i - first.len()]);
        }
    }
}

/// Every bishop, rook and queen move the generator produces is
/// pseudo-legal.
proof fn lemma_sliding_pseudolegal(state: BoardState, quiets: bool, captures: bool)
    requires
        mailbox_ok(state.mailbox),
        state.side_to_move < 2,
    ensures
        forall|i: int|
            0 <= i < sliding_moves(state, quiets, captures).len() ==> pseudolegal(
                state,
                #[trigger] sliding_moves(state, quiets, captures)[i],
            ),
{
    let side = state.side_to_move as int;
    let us = side_bb(state, side);
    let occ = occupancy(state.mailbox);
    let them = us ^ occ;
    let targets = target_squares(quiets, captures, us, them);
    if quiets || captures {
        let bishops = kind_bb(state.mailbox, PieceType::BISHOP as int, 64) & us;
        let rooks = kind_bb(state.mailbox, PieceType::ROOK as int, 64) & us;
        let queens = kind_bb(state.mailbox, PieceType::QUEEN as int, 64) & us;
        let a = piece_moves(squares_of(bishops), PieceType::BISHOP as int, occ, targets);
        let b = piece_moves(squares_of(rooks), PieceType::ROOK as int, occ, targets);
        let c = piece_moves(squares_of(queens), PieceType::QUEEN as int, occ, targets);
        lemma_squares_of(bishops);
        lemma_squares_of(rooks);
        lemma_squares_of(queens);
        lemma_piece_moves_pseudolegal(state, squares_of(bishops), PieceType::BISHOP as int, quiets, captures, them);
        lemma_piece_moves_pseudolegal(state, squares_of(rooks), PieceType::ROOK as int, quiets, captures, them);
        lemma_piece_moves_pseudolegal(state, squares_of(queens), PieceType::QUEEN as int, quiets, captures, them);
        let all = sliding_moves(state, quiets, captures);
        assert(all == a + b + c);
        assert forall|i: int| 0 <= i < all.len() implies pseudolegal(state, #[trigger] all[i]) by {
            if i < a.len() {
                assert(all[i] == a[i]);
            } else if i < a.len() + b.len() {
                assert(all[i] == b[i - a.len()]);
            } else {
                assert(all[i] == c[i - a.len() - b.len()]);
            }
        }
    }
}

/// The king of the side to move stands on its starting square wherever
/// that side keeps a castling right.
pub open spec fn castling_kings_home(state: BoardState) -> bool {
    let white = state.side_to_move == Side::WHITE;
    let home = if white { 4int } else { 60int };
    &&& state.castling_rights & CastlingRights::right(white, true) != 0 ==> state.mailbox[home].0
        == PieceType::KING * 2 + state.side_to_move
    &&& state.castling_rights & CastlingRights::right(white, false) != 0 ==> state.mailbox[home].0
        == PieceType::KING * 2 + state.side_to_move
}

/// The square a castling king lands on is among those that must be empty.
proof fn lemma_castling_space_ends()
    by (bit_vector)
    ensures
        (0x0000_0000_0000_0060u64 >> 6u64) & 1u64 == 1u64,
        (0x0000_0000_0000_000eu64 >> 2u64) & 1u64 == 1u64,
        (0x6000_0000_0000_0000u64 >> 62u64) & 1u64 == 1u64,
        (0x0e00_0000_0000_0000u64 >> 58u64) & 1u64 == 1u64,
{
}

/// Every castling move the generator produces is pseudo-legal.
proof fn lemma_castling_pseudolegal(state: BoardState, quiets: bool)
    requires
        mailbox_ok(state.mailbox),
        state.side_to_move < 2,
        castling_kings_home(state),
    ensures
        forall|i: int|
            0 <= i < castling_moves(state, quiets).len() ==> pseudolegal(
                state,
                #[trigger] castling_moves(state, quiets)[i],
            ),
{
    broadcast use group_sq_in;

    let white = state.side_to_move == Side::WHITE;
    let occ = occupancy(state.mailbox);
    lemma_castling_space_ends();
    if quiets {
        let a = castle_if_clear(state.castling_rights, occ, white, true);
        let b = castle_if_clear(state.castling_rights, occ, white, false);
        assert forall|ks: bool| #[trigger] castle_if_clear(state.castling_rights, occ, white, ks).len()
            > 0 implies pseudolegal(state, castle_move(white, ks)) by {
            let mv = castle_move(white, ks);
            let e = mv.end_sq();
            lemma_move_roundtrip(
                if white { 4 } else { 60 },
                if white {
                    if ks { 6 } else { 2 }
                } else {
                    if ks { 62 } else { 58 }
                },
                Move::CASTLING,
                if ks { 3 } else { 0 },
            );
            assert(sq_in(castling_space(white, ks), e));
            assert(occ & castling_space(white, ks) == 0);
            assert(!sq_in(occ & castling_space(white, ks), e));
            assert(!sq_in(occ, e));
            lemma_kind_bb(state.mailbox, 6, 64, e);
            lemma_kind_bb(state.mailbox, 7, 64, e);
        }
        let all = castling_moves(state, quiets);
        assert(all == a + b);
        assert forall|i: int| 0 <= i < all.len() implies pseudolegal(state, #[trigger] all[i]) by {
            if i < a.len() {
                assert(all[i] == castle_move(white, true));
            } else {
                assert(all[i] == castle_move(white, false));
            }
        }
    }
}

/// The square one step forward for `white`.
pub open spec fn forward_step(white: bool) -> int {
    if white { Direction::N as int } else { Direction::S as int }
}

/// A pawn of the side to move on `s` pushing to the empty square `d` in
/// front of it makes a pseudo-legal move: a promotion exactly on the last
/// rank.
proof fn lemma_pawn_push_pseudolegal(state: BoardState, s: int, d: int, flag: u16, extra: int)
    requires
        mailbox_ok(state.mailbox),
        state.side_to_move < 2,
        0 <= s < 64,
        0 <= d < 64,
        state.mailbox[s].0 == state.side_to_move,
        state.mailbox[d].0 == Piece::NONE,
        d == s + forward_step(state.side_to_move == Side::WHITE),
        flag == Move::NORMAL || flag == Move::PROMOTION,
        0 <= extra < 4,
        flag == Move::NORMAL ==> extra == 0,
        (flag == Move::PROMOTION) == (d / 8 == 7 || d / 8 == 0),
    ensures
        pseudolegal(state, spec_move(s, d, flag, extra)),
{
    lemma_move_roundtrip(s as u16, d as u16, flag, extra as u16);
}

/// A pawn of the side to move on its second rank pushing two squares to
/// an empty square over an empty one makes a pseudo-legal move.
proof fn lemma_pawn_double_pseudolegal(state: BoardState, s: int, d: int)
    requires
        mailbox_ok(state.mailbox),
        state.side_to_move < 2,
        0 <= s < 64,
        0 <= d < 64,
        state.mailbox[s].0 == state.side_to_move,
        state.mailbox[d].0 == Piece::NONE,
        state.mailbox[(s + d) / 2].0 == Piece::NONE,
        d == s + 2 * forward_step(state.side_to_move == Side::WHITE),
        s / 8 == 1 || s / 8 == 6,
    ensures
        pseudolegal(state, spec_move(s, d, Move::NORMAL, 0)),
{
    lemma_move_roundtrip(s as u16, d as u16, Move::NORMAL, 0);
}

/// A pawn of the side to move capturing an enemy piece on a square it
/// attacks makes a pseudo-legal move: a promotion exactly on the last rank.
proof fn lemma_pawn_capture_pseudolegal(state: BoardState, s: int, d: int, flag: u16, extra: int)
    requires
        mailbox_ok(state.mailbox),
        state.side_to_move < 2,
        0 <= s < 64,
        0 <= d < 64,
        state.mailbox[s].0 == state.side_to_move,
        state.mailbox[d].0 < 12,
        state.mailbox[d].side_of() != state.side_to_move,
        pawn_step(state.side_to_move as int, s, d),
        flag == Move::NORMAL || flag == Move::PROMOTION,
        0 <= extra < 4,
        flag == Move::NORMAL ==> extra == 0,
        (flag == Move::PROMOTION) == (d / 8 == 7 || d / 8 == 0),
    ensures
        pseudolegal(state, spec_move(s, d, flag, extra)),
{
    lemma_move_roundtrip(s as u16, d as u16, flag, extra as u16);
    lemma_steps_bb(2, state.side_to_move as int, s, 64, d);
}

/// The pawn moves to `d` that [`pawn_moves`] makes are pseudo-legal: the
/// plain move when `last` is 0, and each promotion to `first..=last`
/// otherwise.
pub open spec fn pawn_dest_ok(state: BoardState, d: int, dir: int, twice: bool, first: int, last: int) -> bool {
    let start = pawn_start(d, dir, twice);
    if last == 0 {
        pseudolegal(state, spec_move(start, d, Move::NORMAL, 0))
    } else {
        forall|f: int| first <= f <= last ==> #[trigger] pseudolegal(
            state,
            spec_move(start, d, Move::PROMOTION, f - 1),
        )
    }
}

/// The promotions from `start` to `end` are to `first..=last` in order.
proof fn lemma_promotions(start: int, end: int, first: int, last: int)
    ensures
        first <= last + 1 ==> promotions(start, end, first, last).len() == last + 1 - first,
        forall|i: int|
            0 <= i < promotions(start, end, first, last).len() ==> #[trigger] promotions(
                start,
                end,
                first,
                last,
            )[i] == spec_move(start, end, Move::PROMOTION, first + i - 1) && first + i <= last,
    decreases last + 1 - first,
{
    if first <= last {
        lemma_promotions(start, end, first + 1, last);
        let all = promotions(start, end, first, last);
        let rest = promotions(start, end, first + 1, last);
        assert forall|i: int| 0 <= i < all.len() implies #[trigger] all[i] == spec_move(
            start,
            end,
            Move::PROMOTION,
            first + i - 1,
        ) && first + i <= last by {
            if i > 0 {
                assert(all[i] == rest[i - 1]);
            }
        }
    }
}

/// Every move of [`pawn_moves`] is pseudo-legal when every destination is.
proof fn lemma_pawn_moves_pseudolegal(
    state: BoardState,
    dests: Seq<u8>,
    dir: int,
    twice: bool,
    first: int,
    last: int,
)
    requires
        forall|k: int|
            0 <= k < dests.len() ==> pawn_dest_ok(state, #[trigger] dests[k] as int, dir, twice, first, last),
    ensures
        forall|i: int|
            0 <= i < pawn_moves(dests, dir, twice, first, last).len() ==> pseudolegal(
                state,
                #[trigger] pawn_moves(dests, dir, twice, first, last)[i],
            ),
    decreases dests.len(),
{
    if dests.len() > 0 {
        let d = dests[0] as int;
        let start = pawn_start(d, dir, twice);
        assert(pawn_dest_ok(state, dests[0] as int, dir, twice, first, last));
        let head: Seq<Move> = if last == 0 {
            seq![spec_move(start, d, Move::NORMAL, 0)]
        } else {
            promotions(start, d, first, last)
        };
        let rest = pawn_moves(dests.drop_first(), dir, twice, first, last);
        assert forall|k: int| 0 <= k < dests.drop_first().len() implies pawn_dest_ok(
            state,
            #[trigger] dests.drop_first()[k] as int,
            dir,
            twice,
            first,
            last,
        ) by {
            assert(dests.drop_first()[k] == dests[k + 1]);
        }
        lemma_pawn_moves_pseudolegal(state, dests.drop_first(), dir, twice, first, last);
        lemma_promotions(start, d, first, last);
        let all = pawn_moves(dests, dir, twice, first, last);
        assert(all == head + rest);
        assert forall|i: int| 0 <= i < all.len() implies pseudolegal(state, #[trigger] all[i]) by {
            if i < head.len() {
                if last != 0 {
                    assert(head[i] == spec_move(start, d, Move::PROMOTION, first + i - 1));
                    assert(pseudolegal(state, spec_move(start, d, Move::PROMOTION, (first + i) - 1)));
                }
                assert(all[i] == head[i]);
            } else {
                assert(all[i] == rest[i - head.len()]);
            }
        }
    }
}

/// Every en passant capture of [`ep_moves`] is pseudo-legal when each is.
proof fn lemma_ep_moves_pseudolegal(state: BoardState, starts: Seq<u8>, ep: int)
    requires
        forall|k: int|
            0 <= k < starts.len() ==> pseudolegal(
                state,
                spec_move(#[trigger] starts[k] as int, ep, Move::EN_PASSANT, 0),
            ),
    ensures
        forall|i: int|
            0 <= i < ep_moves(starts, ep).len() ==> pseudolegal(state, #[trigger] ep_moves(starts, ep)[i]),
    decreases starts.len(),
{
    if starts.len() > 0 {
        assert forall|k: int| 0 <= k < starts.drop_first().len() implies pseudolegal(
            state,
            spec_move(#[trigger] starts.drop_first()[k] as int, ep, Move::EN_PASSANT, 0),
        ) by {
            assert(starts.drop_first()[k] == starts[k + 1]);
        }
        lemma_ep_moves_pseudolegal(state, starts.drop_first(), ep);
        let all = ep_moves(starts, ep);
        let rest = ep_moves(starts.drop_first(), ep);
        assert forall|i: int| 0 <= i < all.len() implies pseudolegal(state, #[trigger] all[i]) by {
            if i > 0 {
                assert(all[i] == rest[i - 1]);
            } else {
                assert(pseudolegal(state, spec_move(starts[0] as int, ep, Move::EN_PASSANT, 0)));
            }
        }
    }
}

/// The step of a pawn capture for `white` towards the east or the west.
pub open spec fn capture_step(white: bool, east: bool) -> int {
    if east {
        if white {
            Direction::NE as int
        } else {
            Direction::SE as int
        }
    } else {
        if white {
            Direction::NW as int
        } else {
            Direction::SW as int
        }
    }
}

/// The squares of a set moved one rank forward for `white`.
proof fn lemma_forward(a: u64, white: bool, d: int)
    ensures
        sq_in(forward_of(a, white), d) ==> 0 <= d < 64 && if white {
            d >= 8 && sq_in(a, d - 8)
        } else {
            d < 56 && sq_in(a, d + 8)
        },
{
    if 0 <= d < 64 {
        lemma_shifted_bits(a, d as u64);
    }
}

/// The squares of a set moved diagonally forward for `white`, towards the
/// east or the west.
proof fn lemma_diagonal(a: u64, white: bool, east: bool, d: int)
    ensures
        sq_in(diagonal_of(a, white, east), d) ==> 0 <= d < 64 && if east {
            d % 8 != 0 && sq_in(forward_of(a, white), d - 1)
        } else {
            d % 8 != 7 && sq_in(forward_of(a, white), d + 1)
        },
{
    if 0 <= d < 64 {
        lemma_shifted_bits(forward_of(a, white), d as u64);
    }
}

/// The squares of the rank masks the pawn generator uses.
proof fn lemma_rank_masks(i: u64)
    by (bit_vector)
    ensures
        i < 64 ==> ((((0xffu64 << 48u64) >> i) & 1u64 == 1u64) <==> i / 8 == 6),
        i < 64 ==> ((((0xffu64 << 8u64) >> i) & 1u64 == 1u64) <==> i / 8 == 1),
        i < 64 ==> ((((0xffu64 << 24u64) >> i) & 1u64 == 1u64) <==> i / 8 == 3),
        i < 64 ==> ((((0xffu64 << 32u64) >> i) & 1u64 == 1u64) <==> i / 8 == 4),
{
}

/// An empty square holds no piece; a square of the other side holds one of
/// its pieces.
proof fn lemma_square_contents(state: BoardState, d: int)
    requires
        mailbox_ok(state.mailbox),
        state.side_to_move < 2,
    ensures
        sq_in(!occupancy(state.mailbox), d) ==> 0 <= d < 64 && state.mailbox[d].0 == Piece::NONE,
        sq_in(occupancy(state.mailbox) ^ side_bb(state, state.side_to_move as int), d) ==> 0 <= d
            < 64 && state.mailbox[d].0 < 12 && state.mailbox[d].side_of() != state.side_to_move,
{
    broadcast use group_sq_in;

    lemma_kind_bb(state.mailbox, 6, 64, d);
    lemma_kind_bb(state.mailbox, 7, 64, d);
}

/// Pawns of the side to move on the squares of `src`, on the rank before
/// the last exactly when they promote (`last` not 0).
pub open spec fn pawn_sources(state: BoardState, src: u64, first: int, last: int) -> bool {
    let white = state.side_to_move == Side::WHITE;
    let penultimate = if white { 6int } else { 1int };
    &&& last == 0 || 1 <= first <= last <= 4
    &&& forall|s: int|
        #[trigger] sq_in(src, s) ==> state.mailbox[s].0 == state.side_to_move && ((s / 8
            == penultimate) == (last != 0))
}

/// The pushes of pawns on `src` to the empty squares in front of them are
/// pseudo-legal.
proof fn lemma_push_dests(state: BoardState, src: u64, first: int, last: int)
    requires
        mailbox_ok(state.mailbox),
        state.side_to_move < 2,
        pawn_sources(state, src, first, last),
    ensures
        ({
            let white = state.side_to_move == Side::WHITE;
            let dests = squares_of(forward_of(src, white) & !occupancy(state.mailbox));
            forall|k: int|
                0 <= k < dests.len() ==> pawn_dest_ok(
                    state,
                    #[trigger] dests[k] as int,
                    forward_step(white),
                    false,
                    first,
                    last,
                )
        }),
{
    broadcast use group_sq_in;

    let white = state.side_to_move == Side::WHITE;
    let targets = forward_of(src, white) & !occupancy(state.mailbox);
    let dests = squares_of(targets);
    lemma_squares_of(targets);
    assert forall|k: int| 0 <= k < dests.len() implies pawn_dest_ok(
        state,
        #[trigger] dests[k] as int,
        forward_step(white),
        false,
        first,
        last,
    ) by {
        let d = dests[k] as int;
        assert(sq_in(targets, d));
        lemma_forward(src, white, d);
        lemma_square_contents(state, d);
        let s = if white { d - 8 } else { d + 8 };
        assert(sq_in(src, s));
        assert(pawn_start(d, forward_step(white), false) == s);
        if last == 0 {
            lemma_pawn_push_pseudolegal(state, s, d, Move::NORMAL, 0);
        } else {
            assert forall|f: int| first <= f <= last implies #[trigger] pseudolegal(
                state,
                spec_move(s, d, Move::PROMOTION, f - 1),
            ) by {
                lemma_pawn_push_pseudolegal(state, s, d, Move::PROMOTION, f - 1);
            }
        }
    }
}

/// The captures of pawns on `src` onto enemy pieces diagonally in front of
/// them, towards the east or the west, are pseudo-legal.
proof fn lemma_capture_dests(state: BoardState, src: u64, east: bool, first: int, last: int)
    requires
        mailbox_ok(state.mailbox),
        state.side_to_move < 2,
        pawn_sources(state, src, first, last),
    ensures
        ({
            let white = state.side_to_move == Side::WHITE;
            let us = side_bb(state, state.side_to_move as int);
            let them = occupancy(state.mailbox) ^ us;
            let dir = capture_step(white, east);
            let dests = squares_of(diagonal_of(src, white, east) & them);
            forall|k: int|
                0 <= k < dests.len() ==> pawn_dest_ok(
                    state,
                    #[trigger] dests[k] as int,
                    dir,
                    false,
                    first,
                    last,
                )
        }),
{
    broadcast use group_sq_in;

    let white = state.side_to_move == Side::WHITE;
    let us = side_bb(state, state.side_to_move as int);
    let them = occupancy(state.mailbox) ^ us;
    let dir = capture_step(white, east);
    let targets = diagonal_of(src, white, east) & them;
    let dests = squares_of(targets);
    lemma_squares_of(targets);
    assert forall|k: int| 0 <= k < dests.len() implies pawn_dest_ok(
        state,
        #[trigger] dests[k] as int,
        dir,
        false,
        first,
        last,
    ) by {
        let d = dests[k] as int;
        assert(sq_in(targets, d));
        lemma_diagonal(src, white, east, d);
        let n = if east { d - 1 } else { d + 1 };
        lemma_forward(src, white, n);
        assert(occupancy(state.mailbox) ^ us == occupancy(state.mailbox) ^ side_bb(
            state,
            state.side_to_move as int,
        ));
        lemma_square_contents(state, d);
        let s = if white { n - 8 } else { n + 8 };
        assert(sq_in(src, s));
        assert(pawn_start(d, dir, false) == s);
        assert(pawn_step(state.side_to_move as int, s, d));
        if last == 0 {
            lemma_pawn_capture_pseudolegal(state, s, d, Move::NORMAL, 0);
        } else {
            assert forall|f: int| first <= f <= last implies #[trigger] pseudolegal(
                state,
                spec_move(s, d, Move::PROMOTION, f - 1),
            ) by {
                lemma_pawn_capture_pseudolegal(state, s, d, Move::PROMOTION, f - 1);
            }
        }
    }
}

/// Every move of a list is pseudo-legal.
pub open spec fn all_pseudolegal(state: BoardState, moves: Seq<Move>) -> bool {
    forall|i: int| 0 <= i < moves.len() ==> pseudolegal(state, #[trigger] moves[i])
}

/// Two lists of pseudo-legal moves make one.
proof fn lemma_all_concat(state: BoardState, a: Seq<Move>, b: Seq<Move>)
    requires
        all_pseudolegal(state, a),
        all_pseudolegal(state, b),
    ensures
        all_pseudolegal(state, a + b),
{
    assert forall|i: int| 0 <= i < (a + b).len() implies pseudolegal(state, #[trigger] (a + b)[i]) by {
        if i < a.len() {
            assert((a + b)[i] == a[i]);
        } else {
            assert((a + b)[i] == b[i - a.len()]);
        }
    }
}

/// The en passant square, if there is one, is an empty square on the rank
/// a pawn of the other side has just crossed.
pub open spec fn en_passant_consistent(state: BoardState) -> bool {
    let ep = state.ep_square as int;
    state.ep_square != Square::NONE ==> {
        &&& ep < 64
        &&& state.mailbox[ep].0 == Piece::NONE
        &&& ep / 8 == (if state.side_to_move == Side::WHITE { 5int } else { 2int })
    }
}

/// The pawns of the side to move off the rank before the last, and those
/// on it, are pawn sources for plain moves and for promotions.
proof fn lemma_pawn_split(state: BoardState, first: int, last: int)
    requires
        mailbox_ok(state.mailbox),
        state.side_to_move < 2,
        1 <= first <= last <= 4,
    ensures
        ({
            let white = state.side_to_move == Side::WHITE;
            let us = side_bb(state, state.side_to_move as int);
            let pawns = kind_bb(state.mailbox, PieceType::PAWN as int, 64) & us;
            let penultimate = if white { 0xffu64 << 48u64 } else { 0xffu64 << 8u64 };
            &&& pawn_sources(state, pawns & !penultimate, 0, 0)
            &&& pawn_sources(state, pawns & penultimate, first, last)
        }),
{
    broadcast use group_sq_in;

    let white = state.side_to_move == Side::WHITE;
    let us = side_bb(state, state.side_to_move as int);
    let pawns = kind_bb(state.mailbox, PieceType::PAWN as int, 64) & us;
    let penultimate = if white { 0xffu64 << 48u64 } else { 0xffu64 << 8u64 };
    assert forall|s: int| #[trigger] sq_in(pawns, s) implies state.mailbox[s].0 == state.side_to_move
        && (sq_in(penultimate, s) == (s / 8 == if white { 6int } else { 1int })) by {
        lemma_own_piece(state, PieceType::PAWN as int, s);
        lemma_rank_masks(s as u64);
    }
    assert forall|s: int| #[trigger] sq_in(pawns & !penultimate, s) implies state.mailbox[s].0
        == state.side_to_move && ((s / 8 == if white { 6int } else { 1int }) == (0int != 0)) by {
        assert(sq_in(pawns, s));
    }
    assert forall|s: int| #[trigger] sq_in(pawns & penultimate, s) implies state.mailbox[s].0
        == state.side_to_move && ((s / 8 == if white { 6int } else { 1int }) == (last != 0)) by {
        assert(sq_in(pawns, s));
    }
}

/// The double pushes of pawns off the rank before the last are
/// pseudo-legal.
proof fn lemma_double_dests(state: BoardState, targets: u64)
    requires
        mailbox_ok(state.mailbox),
        state.side_to_move < 2,
        ({
            let white = state.side_to_move == Side::WHITE;
            let us = side_bb(state, state.side_to_move as int);
            let empty = !occupancy(state.mailbox);
            let pawns = kind_bb(state.mailbox, PieceType::PAWN as int, 64) & us;
            let penultimate = if white { 0xffu64 << 48u64 } else { 0xffu64 << 8u64 };
            let double_push_rank = if white { 0xffu64 << 24u64 } else { 0xffu64 << 32u64 };
            let normal = pawns & !penultimate;
            let single = forward_of(normal, white) & empty;
            targets == forward_of(single, white) & empty & double_push_rank
        }),
    ensures
        forall|k: int|
            0 <= k < squares_of(targets).len() ==> pawn_dest_ok(
                state,
                #[trigger] squares_of(targets)[k] as int,
                forward_step(state.side_to_move == Side::WHITE),
                true,
                0,
                0,
            ),
{
    broadcast use group_sq_in;

    let white = state.side_to_move == Side::WHITE;
    let us = side_bb(state, state.side_to_move as int);
    let empty = !occupancy(state.mailbox);
    let pawns = kind_bb(state.mailbox, PieceType::PAWN as int, 64) & us;
    let penultimate = if white { 0xffu64 << 48u64 } else { 0xffu64 << 8u64 };
    let normal = pawns & !penultimate;
    let single = forward_of(normal, white) & empty;
    let dests = squares_of(targets);
    lemma_squares_of(targets);
    lemma_pawn_split(state, 1, 4);
    assert forall|k: int| 0 <= k < dests.len() implies pawn_dest_ok(
        state,
        #[trigger] dests[k] as int,
        forward_step(white),
        true,
        0,
        0,
    ) by {
        let d = dests[k] as int;
        assert(sq_in(targets, d));
        lemma_rank_masks(d as u64);
        lemma_forward(single, white, d);
        let m = if white { d - 8 } else { d + 8 };
        assert(sq_in(single, m));
        lemma_forward(normal, white, m);
        let s = if white { m - 8 } else { m + 8 };
        assert(sq_in(normal, s));
        lemma_rank_masks(s as u64);
        lemma_square_contents(state, d);
        lemma_square_contents(state, m);
        assert(pawn_start(d, forward_step(white), true) == s);
        assert((s + d) / 2 == m);
        lemma_pawn_double_pseudolegal(state, s, d);
    }
}

/// The en passant captures of pawns off the rank before the last are
/// pseudo-legal.
proof fn lemma_ep_starts(state: BoardState, set: u64)
    requires
        mailbox_ok(state.mailbox),
        state.side_to_move < 2,
        en_passant_consistent(state),
        state.ep_square != Square::NONE,
        ({
            let white = state.side_to_move == Side::WHITE;
            let us = side_bb(state, state.side_to_move as int);
            let pawns = kind_bb(state.mailbox, PieceType::PAWN as int, 64) & us;
            let penultimate = if white { 0xffu64 << 48u64 } else { 0xffu64 << 8u64 };
            set == pawn_bb(1 - state.side_to_move, state.ep_square as int) & (pawns & !penultimate)
        }),
    ensures
        forall|k: int|
            0 <= k < squares_of(set).len() ==> pseudolegal(
                state,
                spec_move(#[trigger] squares_of(set)[k] as int, state.ep_square as int, Move::EN_PASSANT, 0),
            ),
{
    broadcast use group_sq_in;

    let white = state.side_to_move == Side::WHITE;
    let us = side_bb(state, state.side_to_move as int);
    let pawns = kind_bb(state.mailbox, PieceType::PAWN as int, 64) & us;
    let penultimate = if white { 0xffu64 << 48u64 } else { 0xffu64 << 8u64 };
    let normal = pawns & !penultimate;
    let ep = state.ep_square as int;
    let starts = squares_of(set);
    lemma_squares_of(set);
    lemma_pawn_split(state, 1, 4);
    assert forall|k: int| 0 <= k < starts.len() implies pseudolegal(
        state,
        spec_move(#[trigger] starts[k] as int, ep, Move::EN_PASSANT, 0),
    ) by {
        let st = starts[k] as int;
        assert(sq_in(set, st));
        assert(sq_in(normal, st));
        lemma_move_roundtrip(st as u16, ep as u16, Move::EN_PASSANT, 0);
    }
}

/// Every pawn move the generator produces is pseudo-legal.
proof fn lemma_pawn_moves_pseudolegal_all(state: BoardState, quiets: bool, captures: bool)
    requires
        mailbox_ok(state.mailbox),
        state.side_to_move < 2,
        en_passant_consistent(state),
    ensures
        all_pseudolegal(state, pawn_moves_of(state, quiets, captures)),
{
    let side = state.side_to_move as int;
    let white = side == Side::WHITE;
    let us = side_bb(state, side);
    let occ = occupancy(state.mailbox);
    let them = occ ^ us;
    let empty = !occ;
    let pawns = kind_bb(state.mailbox, PieceType::PAWN as int, 64) & us;
    let penultimate = if white { 0xffu64 << 48u64 } else { 0xffu64 << 8u64 };
    let forward = forward_step(white);
    let right = capture_step(white, true);
    let left = capture_step(white, false);
    let double_push_rank = if white { 0xffu64 << 24u64 } else { 0xffu64 << 32u64 };
    let normal = pawns & !penultimate;
    let promoting = pawns & penultimate;
    let single = forward_of(normal, white) & empty;
    let double = forward_of(single, white) & empty & double_push_rank;
    let ep = state.ep_square as int;
    lemma_pawn_split(state, 1, 3);
    lemma_pawn_split(state, 4, 4);
    lemma_pawn_split(state, 1, 4);
    // regular moves
    lemma_push_dests(state, normal, 0, 0);
    lemma_pawn_moves_pseudolegal(state, squares_of(single), forward, false, 0, 0);
    lemma_double_dests(state, double);
    lemma_pawn_moves_pseudolegal(state, squares_of(double), forward, true, 0, 0);
    let pushes = pawn_moves(squares_of(single), forward, false, 0, 0);
    let doubles = pawn_moves(squares_of(double), forward, true, 0, 0);
    lemma_all_concat(state, pushes, doubles);
    lemma_capture_dests(state, normal, true, 0, 0);
    lemma_capture_dests(state, normal, false, 0, 0);
    let east_caps = pawn_moves(squares_of(diagonal_of(normal, white, true) & them), right, false, 0, 0);
    let west_caps = pawn_moves(squares_of(diagonal_of(normal, white, false) & them), left, false, 0, 0);
    lemma_pawn_moves_pseudolegal(state, squares_of(diagonal_of(normal, white, true) & them), right, false, 0, 0);
    lemma_pawn_moves_pseudolegal(state, squares_of(diagonal_of(normal, white, false) & them), left, false, 0, 0);
    lemma_all_concat(state, east_caps, west_caps);
    let eps: Seq<Move> = if ep != Square::NONE {
        ep_moves(squares_of(pawn_bb(1 - side, ep) & normal), ep)
    } else {
        Seq::empty()
    };
    if ep != Square::NONE {
        lemma_ep_starts(state, pawn_bb(1 - side, ep) & normal);
        lemma_ep_moves_pseudolegal(state, squares_of(pawn_bb(1 - side, ep) & normal), ep);
    }
    lemma_all_concat(state, east_caps + west_caps, eps);
    let quiet_part: Seq<Move> = if quiets { pushes + doubles } else { Seq::empty() };
    let capture_part: Seq<Move> = if captures { east_caps + west_caps + eps } else { Seq::empty() };
    lemma_all_concat(state, quiet_part, capture_part);
    assert(regular_pawn_moves(state, quiets, captures) == quiet_part + capture_part);
    // promotions
    let promo_single = forward_of(promoting, white) & empty;
    lemma_push_dests(state, promoting, 1, 3);
    lemma_push_dests(state, promoting, 4, 4);
    lemma_capture_dests(state, promoting, true, 1, 4);
    lemma_capture_dests(state, promoting, false, 1, 4);
    let quiet_promos = pawn_moves(squares_of(promo_single), forward, false, 1, 3);
    let queen_promos = pawn_moves(squares_of(promo_single), forward, false, 4, 4);
    let east_promos = pawn_moves(squares_of(diagonal_of(promoting, white, true) & them), right, false, 1, 4);
    let west_promos = pawn_moves(squares_of(diagonal_of(promoting, white, false) & them), left, false, 1, 4);
    lemma_pawn_moves_pseudolegal(state, squares_of(promo_single), forward, false, 1, 3);
    lemma_pawn_moves_pseudolegal(state, squares_of(promo_single), forward, false, 4, 4);
    lemma_pawn_moves_pseudolegal(state, squares_of(diagonal_of(promoting, white, true) & them), right, false, 1, 4);
    lemma_pawn_moves_pseudolegal(state, squares_of(diagonal_of(promoting, white, false) & them), left, false, 1, 4);
    lemma_all_concat(state, queen_promos, east_promos);
    lemma_all_concat(state, queen_promos + east_promos, west_promos);
    let quiet_promo_part: Seq<Move> = if quiets { quiet_promos } else { Seq::empty() };
    let capture_promo_part: Seq<Move> = if captures { queen_promos + east_promos + west_promos } else { Seq::empty() };
    lemma_all_concat(state, quiet_promo_part, capture_promo_part);
    assert(promotion_moves(state, quiets, captures) == quiet_promo_part + capture_promo_part);
    lemma_all_concat(state, quiet_part + capture_part, quiet_promo_part + capture_promo_part);
}

/// Every move the generator produces, of any kind asked for, is
/// pseudo-legal, in a position with a side to move that has a king, that
/// keeps castling rights only where its king stands on its home square,
/// and whose en passant square, if any, is an empty square just behind an
/// enemy pawn's double push.
pub proof fn lemma_generated_moves_pseudolegal(
    state: BoardState,
    quiets: bool,
    king_quiets: bool,
    captures: bool,
)
    requires
        mailbox_ok(state.mailbox),
        state.side_to_move < 2,
        has_king(state),
        castling_kings_home(state),
        en_passant_consistent(state),
    ensures
        forall|i: int|
            0 <= i < generated_moves(state, quiets, king_quiets, captures).len() ==> pseudolegal(
                state,
                #[trigger] generated_moves(state, quiets, king_quiets, captures)[i],
            ),
{
    lemma_pawn_moves_pseudolegal_all(state, quiets, captures);
    lemma_non_sliding_pseudolegal(state, quiets, king_quiets, captures);
    lemma_sliding_pseudolegal(state, quiets, captures);
    lemma_castling_pseudolegal(state, quiets);
    let a = pawn_moves_of(state, quiets, captures);
    let b = non_sliding_moves(state, quiets, king_quiets, captures);
    let c = sliding_moves(state, quiets, captures);
    let d = castling_moves(state, quiets);
    lemma_all_concat(state, a, b);
    lemma_all_concat(state, a + b, c);
    lemma_all_concat(state, a + b + c, d);
    assert(generated_moves(state, quiets, king_quiets, captures) == a + b + c + d);
    assert(all_pseudolegal(state, generated_moves(state, quiets, king_quiets, captures)));
}

} // verus!
