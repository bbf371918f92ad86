//! The evaluation is the same for both colours: a position with the pieces
//! of each side given to the other, the ranks mirrored and the other side
//! to move evaluates the same.
use vstd::prelude::*;

use crate::board::{phase_fold, score_fold, BoardState};
use crate::defs::Piece;
use crate::evaluation::static_evaluation;
use crate::evaluation::values::{mirror, psqt, PHASE_WEIGHTS};

verus! {

/// The piece of the same type of the other side; no piece stays none.
pub open spec fn recoloured(piece: Piece) -> Piece {
    if piece.0 < 12 {
        if piece.0 % 2 == 0 {
            Piece((piece.0 + 1) as u8)
        } else {
            Piece((piece.0 - 1) as u8)
        }
    } else {
        piece
    }
}

/// The position with each piece given to the other side on the square of
/// the mirrored rank, and the other side to move.
pub open spec fn colour_mirrored(state: BoardState) -> BoardState {
    BoardState {
        mailbox: Seq::new(64, |s: int| recoloured(state.mailbox[mirror(s)])),
        side_to_move: (1 - state.side_to_move) as u8,
        ..state
    }
}

/// The sum of `f` over the squares `0..n`.
spec fn square_sum(f: spec_fn(int) -> int, n: int) -> int
    decreases n,
{
    if n <= 0 {
        0
    } else {
        square_sum(f, n - 1) + f(n - 1)
    }
}

/// Summing over the board with the ranks mirrored sums the same.
proof fn lemma_mirrored_sum(f: spec_fn(int) -> int)
    ensures
        square_sum(|s: int| f(mirror(s)), 64) == square_sum(f, 64),
{
    reveal_with_fuel(square_sum, 65);
}

/// Two functions equal on the squares `0..n` sum the same there.
proof fn lemma_sum_ext(f: spec_fn(int) -> int, g: spec_fn(int) -> int, n: int)
    requires
        forall|s: int| 0 <= s < n ==> #[trigger] f(s) == g(s),
    ensures
        square_sum(f, n) == square_sum(g, n),
    decreases n,
{
    if n > 0 {
        lemma_sum_ext(f, g, n - 1);
    }
}

/// The sum of a negated function is the negated sum.
proof fn lemma_sum_neg(f: spec_fn(int) -> int, n: int)
    ensures
        square_sum(|s: int| -f(s), n) == -square_sum(f, n),
    decreases n,
{
    if n > 0 {
        lemma_sum_neg(f, n - 1);
    }
}

/// The value of each square of `mailbox`.
spec fn square_values(mailbox: Seq<Piece>, endgame: bool) -> spec_fn(int) -> int {
    |s: int| psqt(mailbox[s].0 as int, s, endgame)
}

/// The score fold is a sum over the squares.
proof fn lemma_score_fold_sum(mailbox: Seq<Piece>, n: int, endgame: bool)
    ensures
        score_fold(mailbox, n, endgame) == square_sum(square_values(mailbox, endgame), n),
    decreases n,
{
    reveal(score_fold);
    if n > 0 {
        lemma_score_fold_sum(mailbox, n - 1, endgame);
        assert(square_values(mailbox, endgame)(n - 1) == psqt(mailbox[n - 1].0 as int, n - 1, endgame));
    }
}

/// The phase fold is a sum over the squares.
proof fn lemma_phase_fold_sum(mailbox: Seq<Piece>, n: int)
    ensures
        phase_fold(mailbox, n) == square_sum(|s: int| PHASE_WEIGHTS[mailbox[s].0 as int] as int, n),
    decreases n,
{
    reveal(phase_fold);
    if n > 0 {
        lemma_phase_fold_sum(mailbox, n - 1);
    }
}

/// A piece of the other side on the mirrored square is worth the opposite.
proof fn lemma_psqt_recoloured(piece: Piece, s: int, endgame: bool)
    requires
        piece.0 <= 12,
        0 <= s < 64,
    ensures
        psqt(recoloured(piece).0 as int, mirror(s), endgame) == -psqt(piece.0 as int, s, endgame),
        PHASE_WEIGHTS[recoloured(piece).0 as int] == PHASE_WEIGHTS[piece.0 as int],
{
    assert(mirror(mirror(s)) == s);
    assert(0 <= mirror(s) < 64);
    assert(recoloured(piece).0 / 2 == piece.0 / 2);
}

/// The truncating division by 24 of a negated number is the negated
/// quotient.
proof fn lemma_trunc_div_neg(a: int)
    ensures
        crate::evaluation::trunc_div(-a, 24) == -crate::evaluation::trunc_div(a, 24),
{
}

/// The scores of the colour-mirrored position are the opposite ones.
proof fn lemma_score_mirrored(state: BoardState, endgame: bool)
    requires
        forall|s: int| 0 <= s < 64 ==> (#[trigger] state.mailbox[s]).0 <= 12,
    ensures
        score_fold(colour_mirrored(state).mailbox, 64, endgame) == -score_fold(
            state.mailbox,
            64,
            endgame,
        ),
{
    let mb = state.mailbox;
    let m = colour_mirrored(state).mailbox;
    let f = square_values(mb, endgame);
    let g = square_values(m, endgame);
    let h = |s: int| f(mirror(s));
    let nh = |s: int| -h(s);
    assert forall|s: int| 0 <= s < 64 implies #[trigger] g(s) == nh(s) by {
        assert(0 <= mirror(s) < 64);
        assert(m[s] == recoloured(mb[mirror(s)]));
        lemma_psqt_recoloured(mb[mirror(s)], mirror(s), endgame);
        assert(mirror(mirror(s)) == s);
    }
    lemma_sum_ext(g, nh, 64);
    lemma_sum_neg(h, 64);
    assert(square_sum(nh, 64) == square_sum(|s: int| -h(s), 64));
    lemma_mirrored_sum(f);
    assert(square_sum(h, 64) == square_sum(|s: int| f(mirror(s)), 64));
    lemma_score_fold_sum(mb, 64, endgame);
    lemma_score_fold_sum(m, 64, endgame);
}

/// A position and its colour-mirrored one evaluate the same, for the side
/// to move of each: the evaluation favours neither colour.
pub proof fn lemma_colour_mirror_evaluates_the_same(state: BoardState)
    requires
        state.mailbox.len() == 64,
        forall|s: int| 0 <= s < 64 ==> (#[trigger] state.mailbox[s]).0 <= 12,
        state.side_to_move < 2,
    ensures
        static_evaluation(colour_mirrored(state)) == static_evaluation(state),
{
    let mb = state.mailbox;
    let m = colour_mirrored(state).mailbox;
    assert forall|s: int| 0 <= s < 64 implies #[trigger] m[s] == recoloured(mb[mirror(s)]) by {}
    lemma_score_mirrored(state, false);
    lemma_score_mirrored(state, true);
    let wf = |s: int| PHASE_WEIGHTS[mb[s].0 as int] as int;
    let wg = |s: int| PHASE_WEIGHTS[m[s].0 as int] as int;
    let wh = |s: int| wf(mirror(s));
    assert forall|s: int| 0 <= s < 64 implies #[trigger] wg(s) == wh(s) by {
        assert(0 <= mirror(s) < 64);
        assert(m[s] == recoloured(mb[mirror(s)]));
        lemma_psqt_recoloured(mb[mirror(s)], mirror(s), false);
    }
    lemma_sum_ext(wg, wh, 64);
    lemma_mirrored_sum(wf);
    assert(square_sum(wh, 64) == square_sum(|s: int| wf(mirror(s)), 64));
    lemma_phase_fold_sum(mb, 64);
    lemma_phase_fold_sum(m, 64);
    let mg = score_fold(mb, 64, false);
    let eg = score_fold(mb, 64, true);
    let phase = phase_fold(mb, 64) % 256;
    let w = if phase < 24 { phase } else { 24 };
    assert((-eg - -mg) * w == -((eg - mg) * w)) by (nonlinear_arith);
    lemma_trunc_div_neg((eg - mg) * w);
}

} // verus!
