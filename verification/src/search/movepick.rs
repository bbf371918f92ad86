//! Staged move picking: the move from the transposition table, then the
//! captures that win or trade material, best first, then the killers and the
//! counter move, then everything else, best first.
use vstd::prelude::*;

use crate::board::attacks::has_king;
use crate::board::make::castling_rook_start;
use crate::board::pseudo::{pseudolegal, pseudolegal_killer};
use crate::board::{Board, BoardState};
use crate::defs::spec_mvv_bonus;
use crate::defs::{PieceType, Side};
use crate::evaluation::CompressedEvaluation;
use crate::lookups::Lookup;
use crate::movegen::generate::{
    generate_moves, generated_moves, CapturesOnly, KingMovesOnly, QuietsOnly,
};
use crate::movegen::list::{unscored, Moves, ScoredMove, MAX_LEGAL_MOVES};
use crate::movegen::{lemma_move_ranges, Move};
use crate::search::history::{butterfly_index, Histories};

verus! {

/// The score of a capture with a winning static exchange evaluation.
pub const WINNING_CAPTURE_SCORE: i16 = 0x2000;
/// The score of a quiet move.
pub const QUIET_SCORE: i16 = 0x1000;

/// `mv` is one of the moves some kind of generation gives in `state`.
pub open spec fn generated_in(state: BoardState, mv: Move) -> bool {
    exists|quiets: bool, king_quiets: bool, captures: bool, i: int|
        0 <= i < generated_moves(state, quiets, king_quiets, captures).len() && #[trigger] generated_moves(
            state,
            quiets,
            king_quiets,
            captures,
        )[i] == mv
}

/// A move the picker may hand out in `state`: a generated move, or a
/// pseudo-legal one, or a pseudo-legal killer.
pub open spec fn candidate(state: BoardState, mv: Move) -> bool {
    generated_in(state, mv) || pseudolegal(state, mv) || pseudolegal_killer(state, mv)
}

/// The captures and then the quiets (or the king's quiets) of `state` fit
/// in one list of moves.
pub open spec fn picking_room(state: BoardState) -> bool {
    let captures = generated_moves(state, false, false, true).len();
    &&& captures + generated_moves(state, true, true, false).len() <= MAX_LEGAL_MOVES
    &&& captures + generated_moves(state, false, true, false).len() <= MAX_LEGAL_MOVES
}

/// The type of the piece a capture takes for its MVV bonus: a pawn for en
/// passant, and none (a pawn's bonus of 0) for a promotion that takes
/// nothing.
pub open spec fn victim_type(state: BoardState, mv: Move) -> int {
    if mv.en_passant() {
        0
    } else {
        let t = state.mailbox[mv.end_sq()].type_of();
        if t < 5 {
            t
        } else {
            0
        }
    }
}

/// The score a capture first gets: it is taken to win material, with a
/// bonus for the most valuable victim.
pub open spec fn capture_score(state: BoardState, mv: Move) -> int {
    WINNING_CAPTURE_SCORE + spec_mvv_bonus(victim_type(state, mv))
}

/// The score of a quiet move: its butterfly history.
pub open spec fn quiet_score(state: BoardState, butterfly: Seq<CompressedEvaluation>, mv: Move) -> int {
    QUIET_SCORE + butterfly[butterfly_index(
        state.side_to_move as int,
        mv.start_sq(),
        mv.end_sq(),
    )].0
}

/// The number of moves of `list` scored as winning captures.
pub open spec fn winning_count(list: Seq<ScoredMove>) -> nat
    decreases list.len(),
{
    if list.len() == 0 {
        0
    } else {
        winning_count(list.drop_last()) + if list.last().score.0 >= WINNING_CAPTURE_SCORE {
            1nat
        } else {
            0
        }
    }
}

/// A move counts as a winning capture.
pub open spec fn winning(scored: ScoredMove) -> nat {
    if scored.score.0 >= WINNING_CAPTURE_SCORE {
        1
    } else {
        0
    }
}

/// There are no more winning captures than moves.
proof fn lemma_winning_count_len(list: Seq<ScoredMove>)
    ensures
        winning_count(list) <= list.len(),
    decreases list.len(),
{
    if list.len() > 0 {
        lemma_winning_count_len(list.drop_last());
    }
}

/// Replacing a move changes the count by what the two moves count.
proof fn lemma_winning_count_update(list: Seq<ScoredMove>, i: int, scored: ScoredMove)
    requires
        0 <= i < list.len(),
    ensures
        winning_count(list.update(i, scored)) + winning(list[i]) == winning_count(list) + winning(
            scored,
        ),
    decreases list.len(),
{
    let updated = list.update(i, scored);
    if i < list.len() - 1 {
        assert(updated.drop_last() =~= list.drop_last().update(i, scored));
        lemma_winning_count_update(list.drop_last(), i, scored);
    } else {
        assert(updated.drop_last() =~= list.drop_last());
    }
}

/// Removing a move by swapping in the last one takes away what it counts.
proof fn lemma_winning_count_swap_pop(list: Seq<ScoredMove>, i: int)
    requires
        0 <= i < list.len(),
    ensures
        winning_count(list.update(i, list.last()).drop_last()) + winning(list[i]) == winning_count(
            list,
        ),
{
    let last = list.len() - 1;
    if i < last {
        lemma_winning_count_update(list.drop_last(), i, list.last());
        assert(list.update(i, list.last()).drop_last() =~= list.drop_last().update(i, list.last()));
    } else {
        assert(list.update(i, list.last()).drop_last() =~= list.drop_last());
    }
}

/// The stage of move picking.
#[derive(Clone, Copy, Debug, PartialEq, Eq, Structural)]
pub enum Stage {
    /// Return the TT move.
    TtMove,
    /// Generate all captures.
    GenerateCaptures,
    /// Return all good captures.
    GoodCaptures,
    /// Return the first killer.
    FirstKiller,
    /// Return the second killer.
    SecondKiller,
    /// Return the counter move.
    CounterMove,
    /// Generate all remaining moves (i.e. quiets).
    GenerateRemaining,
    /// Return all remaining moves (bad captures and quiets).
    Remaining,
}

impl Stage {
    /// How many stages are left after this one.
    pub open spec fn stages_left(self) -> nat {
        match self {
            Stage::TtMove => 7,
            Stage::GenerateCaptures => 6,
            Stage::GoodCaptures => 5,
            Stage::FirstKiller => 4,
            Stage::SecondKiller => 3,
            Stage::CounterMove => 2,
            Stage::GenerateRemaining => 1,
            Stage::Remaining => 0,
        }
    }
}

/// The two options hold the same move, or are both empty.
fn same_move(a: Option<Move>, b: Option<Move>) -> (same: bool)
    ensures
        same == (a == b),
{
    match (a, b) {
        (Some(x), Some(y)) => x == y,
        (None, None) => true,
        _ => false,
    }
}

/// A selector of the next best move in a position.
pub struct MovePicker {
    /// The generated moves not yet handed out.
    pub moves: Moves,
    /// The move from the transposition table.
    pub tt_move: Option<Move>,
    /// The killers of the node's height.
    pub killers: [Option<Move>; 2],
    /// The answer to the previous move.
    pub counter_move: Option<Move>,
    /// The stage of picking.
    pub stage: Stage,
    /// If quiet moves are handed out. For a quiescence picker that does not
    /// generate regular quiets, it is if the king's quiets are.
    pub do_quiets: bool,
    /// The picker of the main search, which goes through every stage; else
    /// a quiescence picker, which hands out captures and maybe king moves.
    pub all_moves: bool,
}

impl MovePicker {
    /// The picker hands out candidate moves of `state` only, and its list
    /// leaves room for the moves still to be generated.
    pub open spec fn wf(&self, state: BoardState) -> bool {
        &&& forall|i: int|
            0 <= i < self.moves@.len() ==> candidate(state, (#[trigger] self.moves@[i]).mv)
        &&& self.tt_move matches Some(m) ==> candidate(state, m)
        &&& (self.stage == Stage::TtMove || self.stage == Stage::GenerateCaptures) ==> self.moves@.len()
            == 0
        &&& self.stage.stages_left() >= 1 ==> self.moves@.len() <= generated_moves(
            state,
            false,
            false,
            true,
        ).len()
        &&& self.stage.stages_left() >= 5 ==> forall|i: int|
            0 <= i < self.moves@.len() ==> (#[trigger] self.moves@[i]).score.0 < 2
                * WINNING_CAPTURE_SCORE
        &&& !self.all_moves ==> self.stage != Stage::TtMove
    }

    /// How much picking is left: it goes down with each move handed out.
    pub open spec fn measure(&self) -> nat {
        self.stage.stages_left() * 100_000 + winning_count(self.moves@) * 256 + self.moves@.len()
    }

    /// Creates a picker for the main search, which hands out every move.
    pub fn new_all(tt_move: Option<Move>, killers: [Option<Move>; 2], counter_move: Option<Move>) -> (picker: Self)
        ensures
            picker.moves@.len() == 0,
            picker.tt_move == tt_move,
            picker.stage == Stage::TtMove,
            picker.all_moves,
            picker.do_quiets,
    {
        Self {
            moves: Moves::new(),
            tt_move,
            killers,
            counter_move,
            stage: Stage::TtMove,
            do_quiets: true,
            all_moves: true,
        }
    }

    /// Creates a picker for the quiescence search, which hands out the
    /// captures, and the quiet king moves if `king_quiets` (in check).
    pub fn new_quiescence(king_quiets: bool) -> (picker: Self)
        ensures
            picker.moves@.len() == 0,
            picker.tt_move is None,
            picker.stage == Stage::GenerateCaptures,
            !picker.all_moves,
    {
        Self {
            moves: Moves::new(),
            tt_move: None,
            killers: [None, None],
            counter_move: None,
            stage: Stage::GenerateCaptures,
            do_quiets: king_quiets,
            all_moves: false,
        }
    }

    /// Skips any future quiets.
    pub fn skip_quiets(&mut self)
        ensures
            final(self).moves@ == old(self).moves@,
            final(self).tt_move == old(self).tt_move,
            final(self).stage == old(self).stage,
            final(self).all_moves == old(self).all_moves,
            !final(self).do_quiets,
    {
        self.do_quiets = false;
    }

    /// Scores the moves at `start..` as captures (`captures`) or quiets.
    fn score(&mut self, board: &Board, histories: &Histories, start: usize, captures: bool)
        requires
            board.wf(),
            histories.wf(),
            board@.side_to_move < 2,
            start <= old(self).moves@.len(),
        ensures
            final(self).moves@.len() == old(self).moves@.len(),
            forall|i: int|
                0 <= i < start ==> #[trigger] final(self).moves@[i] == old(self).moves@[i],
            forall|i: int|
                start <= i < old(self).moves@.len() ==> (#[trigger] final(self).moves@[i]).mv
                    == old(self).moves@[i].mv && final(self).moves@[i].score.0 == if captures {
                    capture_score(board@, old(self).moves@[i].mv)
                } else {
                    quiet_score(board@, histories.butterfly_history@, old(self).moves@[i].mv)
                },
            final(self).tt_move == old(self).tt_move,
            final(self).killers == old(self).killers,
            final(self).counter_move == old(self).counter_move,
            final(self).stage == old(self).stage,
            final(self).do_quiets == old(self).do_quiets,
            final(self).all_moves == old(self).all_moves,
    {
        let len = self.moves.len();
        let mut i = start;
        while i < len
            invariant
                start <= i <= len == self.moves@.len() == old(self).moves@.len(),
                board.wf(),
                histories.wf(),
                board@.side_to_move < 2,
                forall|j: int| 0 <= j < start ==> #[trigger] self.moves@[j] == old(self).moves@[j],
                forall|j: int| i <= j < len ==> #[trigger] self.moves@[j] == old(self).moves@[j],
                forall|j: int|
                    start <= j < i ==> (#[trigger] self.moves@[j]).mv == old(self).moves@[j].mv
                        && self.moves@[j].score.0 == if captures {
                        capture_score(board@, old(self).moves@[j].mv)
                    } else {
                        quiet_score(board@, histories.butterfly_history@, old(self).moves@[j].mv)
                    },
                self.tt_move == old(self).tt_move,
                self.killers == old(self).killers,
                self.counter_move == old(self).counter_move,
                self.stage == old(self).stage,
                self.do_quiets == old(self).do_quiets,
                self.all_moves == old(self).all_moves,
            decreases len - i,
        {
            let mut scored = self.moves.get(i);
            let mv = scored.mv;
            proof {
                lemma_move_ranges(mv);
            }
            if captures {
                let victim = if mv.is_en_passant() {
                    PieceType(0)
                } else {
                    let t = board.piece_on(mv.end()).piece_type();
                    if t.0 < 5 {
                        t
                    } else {
                        PieceType(0)
                    }
                };
                scored.score = CompressedEvaluation(WINNING_CAPTURE_SCORE + victim.mvv_bonus());
            } else {
                let history = histories.butterfly_score(board.side_to_move(), mv.start(), mv.end());
                scored.score = CompressedEvaluation(QUIET_SCORE + history.0 as i16);
            }
            self.moves.set(i, scored);
            i = i + 1;
        }
    }

    /// Finds and removes the best capture that wins or trades material,
    /// skipping the moves handed out in other stages; `None` once the best
    /// capture left is not a winning one.
    fn find_best_good_capture(&mut self, board: &Board, lookup: &Lookup) -> (mv: Option<Move>)
        requires
            old(self).wf(board@),
            old(self).stage == Stage::GoodCaptures,
            board.wf(),
            lookup.wf(),
            board@.side_to_move < 2,
        ensures
            final(self).wf(board@),
            final(self).stage == Stage::GoodCaptures,
            final(self).tt_move == old(self).tt_move,
            final(self).killers == old(self).killers,
            final(self).counter_move == old(self).counter_move,
            final(self).do_quiets == old(self).do_quiets,
            final(self).all_moves == old(self).all_moves,
            final(self).measure() <= old(self).measure(),
            mv matches Some(m) ==> candidate(board@, m) && final(self).measure() < old(
                self,
            ).measure(),
            mv matches Some(m) ==> Some(m) != old(self).tt_move && Some(m) != old(self).killers[0]
                && Some(m) != old(self).killers[1] && Some(m) != old(self).counter_move,
    {
        loop
            invariant
                self.wf(board@),
                self.stage == Stage::GoodCaptures,
                board.wf(),
                lookup.wf(),
                board@.side_to_move < 2,
                self.tt_move == old(self).tt_move,
                self.killers == old(self).killers,
                self.counter_move == old(self).counter_move,
                self.do_quiets == old(self).do_quiets,
                self.all_moves == old(self).all_moves,
                self.measure() <= old(self).measure(),
            decreases winning_count(self.moves@) * 256 + self.moves@.len(),
        {
            let len = self.moves.len();
            if len == 0 {
                return None;
            }
            let mut best_index: usize = 0;
            let mut best_score: i16 = -32767;
            let mut i: usize = 0;
            while i < len
                invariant
                    i <= len == self.moves@.len(),
                    best_index < len,
                    i > 0 ==> best_score == self.moves@[best_index as int].score.0,
                    i == 0 ==> best_index == 0,
                    forall|j: int|
                        0 <= j < i ==> (#[trigger] self.moves@[j]).score.0 <= best_score,
                decreases len - i,
            {
                let score = self.moves.get(i).score.0;
                if score > best_score || i == 0 {
                    best_index = i;
                    best_score = score;
                }
                i = i + 1;
            }
            let best = self.moves.get(best_index);
            let mv = best.mv;
            let old_moves = Ghost(self.moves@);
            proof {
                lemma_winning_count_swap_pop(self.moves@, best_index as int);
            }
            if same_move(self.tt_move, Some(mv)) || same_move(self.killers[0], Some(mv))
                || same_move(self.killers[1], Some(mv)) || same_move(self.counter_move, Some(mv)) {
                self.moves.swap_pop(best_index);
                continue;
            }
            if best.score.0 >= WINNING_CAPTURE_SCORE {
                if !board.is_winning_exchange(lookup, mv) {
                    let lowered = ScoredMove {
                        mv,
                        score: CompressedEvaluation(best.score.0 - WINNING_CAPTURE_SCORE),
                    };
                    proof {
                        lemma_winning_count_update(self.moves@, best_index as int, lowered);
                    }
                    self.moves.set(best_index, lowered);
                    continue;
                }
            } else {
                return None;
            }
            assert(candidate(board@, old_moves@[best_index as int].mv));
            self.moves.swap_pop(best_index);
            return Some(mv);
        }
    }

    /// Finds and removes the best remaining move, skipping the moves handed
    /// out in other stages.
    fn find_best_remaining(&mut self, board: &Board) -> (mv: Option<Move>)
        requires
            old(self).wf(board@),
            old(self).stage == Stage::Remaining,
        ensures
            final(self).wf(board@),
            final(self).stage == Stage::Remaining,
            final(self).tt_move == old(self).tt_move,
            final(self).killers == old(self).killers,
            final(self).counter_move == old(self).counter_move,
            final(self).do_quiets == old(self).do_quiets,
            final(self).all_moves == old(self).all_moves,
            final(self).measure() <= old(self).measure(),
            mv matches Some(m) ==> candidate(board@, m) && final(self).measure() < old(
                self,
            ).measure(),
            mv matches Some(m) ==> Some(m) != old(self).tt_move && Some(m) != old(self).killers[0]
                && Some(m) != old(self).killers[1] && Some(m) != old(self).counter_move,
            mv is None ==> final(self).moves@.len() == 0,
    {
        loop
            invariant
                self.wf(board@),
                self.stage == Stage::Remaining,
                self.tt_move == old(self).tt_move,
                self.killers == old(self).killers,
                self.counter_move == old(self).counter_move,
                self.do_quiets == old(self).do_quiets,
                self.all_moves == old(self).all_moves,
                self.measure() <= old(self).measure(),
            decreases self.moves@.len(),
        {
            let len = self.moves.len();
            if len == 0 {
                return None;
            }
            let mut best_index: usize = 0;
            let mut best_score: i16 = -32767;
            let mut i: usize = 0;
            while i < len
                invariant
                    i <= len == self.moves@.len(),
                    best_index < len,
                decreases len - i,
            {
                let score = self.moves.get(i).score.0;
                if score > best_score || i == 0 {
                    best_index = i;
                    best_score = score;
                }
                i = i + 1;
            }
            let mv = self.moves.get(best_index).mv;
            proof {
                lemma_winning_count_swap_pop(self.moves@, best_index as int);
            }
            assert(candidate(board@, self.moves@[best_index as int].mv));
            self.moves.swap_pop(best_index);
            if same_move(self.tt_move, Some(mv)) || same_move(self.killers[0], Some(mv))
                || same_move(self.killers[1], Some(mv)) || same_move(self.counter_move, Some(mv)) {
                continue;
            }
            return Some(mv);
        }
    }

    /// Generates and scores the captures.
    fn generate_captures(&mut self, board: &Board, lookup: &Lookup, histories: &Histories)
        requires
            old(self).wf(board@),
            old(self).stage == Stage::GenerateCaptures,
            board.wf(),
            lookup.wf(),
            histories.wf(),
            board@.side_to_move < 2,
            has_king(board@),
            picking_room(board@),
        ensures
            final(self).wf(board@),
            final(self).stage == Stage::GoodCaptures,
            final(self).tt_move == old(self).tt_move,
            final(self).killers == old(self).killers,
            final(self).counter_move == old(self).counter_move,
            final(self).do_quiets == old(self).do_quiets,
            final(self).all_moves == old(self).all_moves,
            final(self).measure() < old(self).measure(),
    {
        let ghost state = board@;
        self.stage = Stage::GoodCaptures;
        generate_moves::<CapturesOnly>(board, lookup, &mut self.moves);
        self.score(board, histories, 0, true);
        proof {
            let generated = generated_moves(state, false, false, true);
            assert forall|j: int|
                0 <= j < self.moves@.len() implies candidate(state, (#[trigger] self.moves@[j]).mv) by {
                assert(generated[j] == self.moves@[j].mv);
            }
            assert forall|j: int|
                0 <= j < self.moves@.len() implies (#[trigger] self.moves@[j]).score.0 < 2
                * WINNING_CAPTURE_SCORE by {
                lemma_move_ranges(self.moves@[j].mv);
            }
            lemma_winning_count_len(self.moves@);
        }
    }

    /// Generates and scores the quiets: all of them for the main search,
    /// the king's for a quiescence search that hands them out.
    fn generate_remaining(&mut self, board: &Board, lookup: &Lookup, histories: &Histories)
        requires
            old(self).wf(board@),
            old(self).stage == Stage::GenerateRemaining,
            board.wf(),
            lookup.wf(),
            histories.wf(),
            board@.side_to_move < 2,
            has_king(board@),
            picking_room(board@),
        ensures
            final(self).wf(board@),
            final(self).stage == Stage::Remaining,
            final(self).tt_move == old(self).tt_move,
            final(self).killers == old(self).killers,
            final(self).counter_move == old(self).counter_move,
            final(self).do_quiets == old(self).do_quiets,
            final(self).all_moves == old(self).all_moves,
            final(self).measure() < old(self).measure(),
    {
        let ghost state = board@;
        proof {
            lemma_winning_count_len(self.moves@);
        }
        self.stage = Stage::Remaining;
        let total_non_quiets = self.moves.len();
        if self.all_moves {
            generate_moves::<QuietsOnly>(board, lookup, &mut self.moves);
            self.score(board, histories, total_non_quiets, false);
            proof {
                let generated = generated_moves(state, true, true, false);
                assert forall|j: int|
                    0 <= j < self.moves@.len() implies candidate(state, (#[trigger] self.moves@[j]).mv) by {
                    if j >= total_non_quiets {
                        assert(generated[j - total_non_quiets] == self.moves@[j].mv);
                    }
                }
            }
        } else if self.do_quiets {
            generate_moves::<KingMovesOnly>(board, lookup, &mut self.moves);
            self.score(board, histories, total_non_quiets, false);
            proof {
                let generated = generated_moves(state, false, true, false);
                assert forall|j: int|
                    0 <= j < self.moves@.len() implies candidate(state, (#[trigger] self.moves@[j]).mv) by {
                    if j >= total_non_quiets {
                        assert(generated[j - total_non_quiets] == self.moves@[j].mv);
                    }
                }
            }
        }
        proof {
            lemma_winning_count_len(self.moves@);
        }
    }

    /// Returns the next best move: the TT move, then the good captures, the
    /// killers and the counter move, then the remaining moves (a killer or
    /// counter move only if it is pseudo-legal here, and the TT move,
    /// killers and counter move passed over where they come again); `None`
    /// when there are no more, or only quiets after
    /// [`skip_quiets`](Self::skip_quiets). Each move handed out is a
    /// candidate of the board, and the picking left goes down.
    pub fn next(&mut self, board: &Board, lookup: &Lookup, histories: &Histories) -> (mv: Option<Move>)
        requires
            old(self).wf(board@),
            board.wf(),
            lookup.wf(),
            histories.wf(),
            board@.side_to_move < 2,
            has_king(board@),
            picking_room(board@),
        ensures
            final(self).wf(board@),
            final(self).all_moves == old(self).all_moves,
            final(self).measure() <= old(self).measure(),
            mv matches Some(m) ==> candidate(board@, m) && final(self).measure() < old(
                self,
            ).measure(),
            final(self).tt_move == old(self).tt_move,
            final(self).killers == old(self).killers,
            final(self).counter_move == old(self).counter_move,
            final(self).do_quiets == old(self).do_quiets,
            final(self).stage.stages_left() <= old(self).stage.stages_left(),
            old(self).stage == Stage::TtMove && old(self).tt_move is Some ==> mv == old(self).tt_move,
            final(self).stage == Stage::GenerateCaptures && mv is Some ==> mv == old(self).tt_move,
            final(self).stage == Stage::SecondKiller && mv is Some ==> mv == old(self).killers[0]
                && mv != old(self).tt_move,
            final(self).stage == Stage::CounterMove && mv is Some ==> mv == old(self).killers[1]
                && mv != old(self).tt_move,
            final(self).stage == Stage::GenerateRemaining && mv is Some ==> mv
                == old(self).counter_move && mv != old(self).tt_move && mv != old(self).killers[0]
                && mv != old(self).killers[1],
            final(self).stage == Stage::GoodCaptures || final(self).stage == Stage::Remaining ==> (mv
                matches Some(m) ==> Some(m) != old(self).tt_move && Some(m) != old(self).killers[0]
                && Some(m) != old(self).killers[1] && Some(m) != old(self).counter_move),
            mv is None && old(self).do_quiets ==> final(self).stage == Stage::Remaining
                && final(self).moves@.len() == 0,
    {
        let ghost state = board@;
        proof {
            lemma_winning_count_len(self.moves@);
        }
        if self.stage == Stage::TtMove {
            self.stage = Stage::GenerateCaptures;
            if let Some(mv) = self.tt_move {
                return Some(mv);
            }
        }
        if self.stage == Stage::GenerateCaptures {
            self.generate_captures(board, lookup, histories);
        }
        if self.stage == Stage::GoodCaptures {
            if let Some(mv) = self.find_best_good_capture(board, lookup) {
                return Some(mv);
            }
            proof {
                lemma_winning_count_len(self.moves@);
            }
            if self.all_moves {
                self.stage = Stage::FirstKiller;
            } else {
                // this also skips bad captures
                if !self.do_quiets {
                    return None;
                }
                self.stage = Stage::GenerateRemaining;
            }
        }
        if self.stage == Stage::FirstKiller {
            self.stage = Stage::SecondKiller;
            if self.do_quiets && !same_move(self.killers[0], self.tt_move) {
                if let Some(mv) = self.killers[0] {
                    if rook_start_on_board(mv) && board.is_pseudolegal_killer(lookup, mv) {
                        return Some(mv);
                    }
                }
            }
        }
        if self.stage == Stage::SecondKiller {
            self.stage = Stage::CounterMove;
            if self.do_quiets && !same_move(self.killers[1], self.tt_move) {
                if let Some(mv) = self.killers[1] {
                    if rook_start_on_board(mv) && board.is_pseudolegal_killer(lookup, mv) {
                        return Some(mv);
                    }
                }
            }
        }
        if self.stage == Stage::CounterMove {
            self.stage = Stage::GenerateRemaining;
            if self.do_quiets && !same_move(self.counter_move, self.tt_move) && !same_move(
                self.counter_move,
                self.killers[0],
            ) && !same_move(self.counter_move, self.killers[1]) {
                if let Some(mv) = self.counter_move {
                    if board.is_pseudolegal(lookup, mv) {
                        return Some(mv);
                    }
                }
            }
        }
        if self.stage == Stage::GenerateRemaining {
            self.generate_remaining(board, lookup, histories);
        }
        if self.do_quiets {
            self.find_best_remaining(board)
        } else {
            None
        }
    }
}

/// The rook of a castling move starts on the board.
fn rook_start_on_board(mv: Move) -> (on_board: bool)
    ensures
        on_board == (mv.castling() ==> 0 <= castling_rook_start(mv) < 64),
{
    if !mv.is_castling() {
        return true;
    }
    proof {
        lemma_move_ranges(mv);
    }
    let start = mv.end().0 as i8 + mv.castling_rook_offset();
    0 <= start && start < 64
}

} // verus!
