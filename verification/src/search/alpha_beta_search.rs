//! The alpha-beta search and the quiescence search at its leaves.
use vstd::prelude::*;

use crate::board::{Board, BoardState};
use crate::board::attacks::in_check;
use crate::board::make::{after_move, legal_move, move_ok};
use crate::evaluation::static_evaluation;
use crate::search::history::drawn;
use crate::evaluation::{evaluate, Evaluation};
use crate::lookups::Tables;
use crate::movegen::Move;
use crate::search::depth::{Depth, Height};
use crate::transposition_table::{Bound, TranspositionEntry, TranspositionHit};
use crate::search::movepick::MovePicker;
use crate::search::history::item_ok;
use crate::search::movepick::candidate;
use crate::search::outside::send_line;
use crate::search::worker::{first_move_legal, lemma_recent_items_ok, tree_ok, Worker};
use crate::search::{
    extension, futility_margin, late_move_reduction, null_move_reduction, Node, NonPvNode, Pv, PvNode,
};
use crate::movegen::list::{Moves, MAX_LEGAL_MOVES};
use crate::util::{push_all, push_decimal};
use crate::bitops::lemma_u8_ops;
use crate::search::SearchStatus;

verus! {

/// The greater of two evaluations.
fn max_eval(a: Evaluation, b: Evaluation) -> (m: Evaluation)
    ensures
        m.0 == if a.0 >= b.0 { a.0 } else { b.0 },
{
    if a.0 >= b.0 {
        a
    } else {
        b
    }
}

/// The lesser of two evaluations.
fn min_eval(a: Evaluation, b: Evaluation) -> (m: Evaluation)
    ensures
        m.0 == if a.0 <= b.0 { a.0 } else { b.0 },
{
    if a.0 <= b.0 {
        a
    } else {
        b
    }
}

/// The stand-pat score of a node `height` plies from the root: mated there
/// if in check, the static evaluation if not.
pub open spec fn stand_pat(state: BoardState, height: int) -> int {
    if in_check(state) {
        -Evaluation::MATE + height
    } else {
        static_evaluation(state)
    }
}

/// What a quiescence search within `alpha..beta` returns without looking
/// at a move: the stand-pat score at the greatest height, and, when the
/// stand-pat score already reaches `beta`, alpha raised to it.
pub open spec fn quiescence_settled(state: BoardState, alpha: int, beta: int, height: int, score: int) -> bool {
    let stand = stand_pat(state, height);
    let raised = if alpha >= stand { alpha } else { stand };
    &&& height == 255 ==> score == stand
    &&& height < 255 && settled_by_stand_pat(state, alpha, beta, height) ==> score == raised
}

/// The stand-pat score, or alpha if greater, already reaches `beta`.
pub open spec fn settled_by_stand_pat(state: BoardState, alpha: int, beta: int, height: int) -> bool {
    let stand = stand_pat(state, height);
    (if alpha >= stand { alpha } else { stand }) >= beta
}

/// A move the side to move can make, into a position whose own stand-pat
/// score, seen from there, is at most `-score`: the move a quiescence
/// score above the stand-pat score comes from.
pub open spec fn backed_by_move(state: BoardState, height: int, score: int) -> bool {
    exists|m: Move|
        #[trigger] move_ok(state, m) && legal_move(state, m) && score <= -stand_pat(
            after_move(state, m),
            height + 1,
        )
}

/// The window of a node below the root once mate distance pruning has
/// narrowed it: no score there is worse than being mated at once, nor
/// better than mating with the next move.
pub open spec fn mate_window(alpha: int, beta: int, height: int) -> (int, int) {
    let mated = -Evaluation::MATE + height;
    let mating = Evaluation::MATE - (height + 1);
    (if alpha >= mated { alpha } else { mated }, if beta <= mating { beta } else { mating })
}

/// No move can be made on the board of `state` that leaves the king safe.
pub open spec fn no_legal_move(state: BoardState) -> bool {
    forall|m: Move| !(#[trigger] move_ok(state, m) && legal_move(state, m))
}

/// The score of a node without a legal move `height` plies from the root:
/// mated if in check, a draw (stalemate) if not.
pub open spec fn no_move_score(state: BoardState, height: int) -> int {
    if in_check(state) {
        -Evaluation::MATE + height
    } else {
        Evaluation::DRAW as int
    }
}

impl Worker {
    /// Performs a search that only considers captures (and, in check, the
    /// king's quiet moves) and uses a static evaluation at the leaf nodes.
    ///
    /// This should be called at the leaf nodes of the main search.
    pub fn quiescence_search(
        &mut self,
        board: &Board,
        alpha: Evaluation,
        beta: Evaluation,
        height: Height,
        tables: &Tables,
    ) -> (score: Evaluation)
        requires
            old(self).wf(),
            board.wf(),
            tables.wf(),
            tree_ok(board@, (255 - height.0) as nat),
            alpha.in_range(),
            beta.in_range(),
        ensures
            final(self).board == old(self).board,
            final(self).wf(),
            score.in_range(),
            final(self).histories.board_history@ == old(self).histories.board_history@,
            final(self).nmp_rights == old(self).nmp_rights,
            quiescence_settled(board@, alpha.0 as int, beta.0 as int, height.0 as int, score.0 as int),
            final(self).status == SearchStatus::Continue ==> score.0 >= stand_pat(board@, height.0 as int),
            final(self).status == SearchStatus::Continue && score.0 > stand_pat(board@, height.0 as int)
                && !(height.0 < 255 && settled_by_stand_pat(board@, alpha.0 as int, beta.0 as int, height.0 as int))
                ==> backed_by_move(board@, height.0 as int, score.0 as int),
        decreases 255 - height.0,
    {
        if height.0 > self.seldepth.0 {
            self.seldepth = height;
        }
        self.count_node();
        let ghost plies = (255 - height.0) as nat;
        let is_in_check = board.is_in_check(&tables.attacks);
        let mut best_score = if is_in_check {
            Evaluation::mated_after(height)
        } else {
            evaluate(board)
        };
        if height.is_maximum() {
            return best_score;
        }
        let mut window_alpha = max_eval(alpha, best_score);
        if window_alpha.0 >= beta.0 {
            return window_alpha;
        }
        let mut picker = MovePicker::new_quiescence(is_in_check);
        loop
            invariant
                self.wf(),
                board.wf(),
                tables.wf(),
                height.0 < 255,
                plies == 255 - height.0,
                tree_ok(board@, plies),
                picker.wf(board@),
                window_alpha.in_range(),
                beta.in_range(),
                best_score.in_range(),
                self.histories.board_history@ == old(self).histories.board_history@,
                self.nmp_rights == old(self).nmp_rights,
                self.board == old(self).board,
                best_score.0 >= stand_pat(board@, height.0 as int),
                window_alpha.0 >= stand_pat(board@, height.0 as int),
                best_score.0 > stand_pat(board@, height.0 as int) ==> backed_by_move(
                    board@,
                    height.0 as int,
                    best_score.0 as int,
                ),
                window_alpha.0 > (if alpha.0 as int >= stand_pat(board@, height.0 as int) {
                    alpha.0 as int
                } else {
                    stand_pat(board@, height.0 as int)
                }) ==> backed_by_move(board@, height.0 as int, window_alpha.0 as int),
                window_alpha.0 >= (if alpha.0 as int >= stand_pat(board@, height.0 as int) {
                    alpha.0 as int
                } else {
                    stand_pat(board@, height.0 as int)
                }),
                (if alpha.0 as int >= stand_pat(board@, height.0 as int) {
                    alpha.0 as int
                } else {
                    stand_pat(board@, height.0 as int)
                }) < beta.0,
            decreases picker.measure(),
        {
            let mv = match picker.next(board, &tables.attacks, &self.histories) {
                Some(mv) => mv,
                None => {
                    break ;
                },
            };
            let mut copy = *board;
            if !copy.can_make(mv) {
                continue ;
            }
            if !copy.make_move(mv, tables) {
                continue ;
            }
            let score = Evaluation(
                -self.quiescence_search(
                    &copy,
                    Evaluation(-beta.0),
                    Evaluation(-window_alpha.0),
                    Height(height.0 + 1),
                    tables,
                ).0,
            );
            if self.check_status() != SearchStatus::Continue {
                return Evaluation(0);
            }
            assert(move_ok(board@, mv) && legal_move(board@, mv) && score.0 <= -stand_pat(
                after_move(board@, mv),
                height.0 + 1,
            ));
            best_score = max_eval(best_score, score);
            window_alpha = max_eval(window_alpha, score);
            if window_alpha.0 >= beta.0 {
                return window_alpha;
            }
        }
        best_score
    }

    /// The entry the transposition table holds for `board`, if any, with
    /// its evaluations in range and its depth a real one.
    fn probe(&self, board: &Board, height: Height) -> (hit: Option<TranspositionHit>)
        ensures
            hit matches Some(h) ==> h.score.in_range() && h.static_eval.in_range() && 0 <= h.depth.0
                <= 255,
    {
        if self.tt.is_empty() {
            return None;
        }
        match self.tt.load(board.key(), height) {
            Some(h) => {
                if -Evaluation::INFINITY <= h.score.0 && h.score.0 <= Evaluation::INFINITY
                    && -Evaluation::INFINITY <= h.static_eval.0 && h.static_eval.0
                    <= Evaluation::INFINITY && 0 <= h.depth.0 && h.depth.0 <= 255 {
                    Some(h)
                } else {
                    None
                }
            },
            None => None,
        }
    }

    /// Stores what the search found of `board` in the transposition table,
    /// if there is one and the score, made relative to the node, fits.
    fn store(
        &mut self,
        board: &Board,
        static_eval: Evaluation,
        score: Evaluation,
        mv: Option<Move>,
        depth: Depth,
        bound: Bound,
        height: Height,
    )
        requires
            old(self).wf(),
            static_eval.in_range(),
            score.in_range(),
            0 <= depth.0 <= 255,
        ensures
            final(self).wf(),
            *final(self) == (Worker { tt: final(self).tt, ..*old(self) }),
    {
        if self.tt.is_empty() {
            return ;
        }
        let h = height.0 as i32;
        let fits = if score.0 >= Evaluation::MATE_BOUND {
            score.0 + h <= 32767
        } else if score.0 <= -Evaluation::MATE_BOUND {
            score.0 - h >= -32768
        } else {
            true
        };
        if !fits {
            return ;
        }
        let entry = TranspositionEntry::new(board.key(), static_eval, score, mv, depth, bound, height);
        self.tt.store(entry);
    }

    /// Performs a search on `board` of `depth` plies at `height` plies from
    /// the root, within the window `alpha..beta`, with check extensions,
    /// mate distance pruning, draw detection, transposition table cutoffs,
    /// null move pruning, futility pruning, late move reductions and
    /// principal variation search.
    ///
    /// Returns the evaluation after searching to the given depth; `pv`
    /// receives the principal variation of a PV node. At the root, a score
    /// above `alpha` comes with a legal first move in `pv`, and a `pv` that
    /// held a move still holds one.
    #[verifier::rlimit(60)]
    pub fn search<NodeType: Node>(
        &mut self,
        pv: &mut Pv,
        board: &Board,
        alpha: Evaluation,
        beta: Evaluation,
        depth: Depth,
        height: Height,
        tables: &Tables,
    ) -> (score: Evaluation)
        requires
            old(self).wf(),
            board.wf(),
            tables.wf(),
            tree_ok(board@, (255 - height.0) as nat),
            alpha.in_range(),
            beta.in_range(),
            alpha.0 < beta.0,
            -300 <= depth.0 <= 255,
            NodeType::is_root() ==> NodeType::is_pv(),
            NodeType::is_root() ==> first_move_legal(board@, old(pv)@),
        ensures
            final(self).board == old(self).board,
            final(self).wf(),
            score.in_range(),
            final(self).histories.board_history@ == old(self).histories.board_history@,
            final(self).nmp_rights == old(self).nmp_rights,
            NodeType::is_root() ==> first_move_legal(board@, final(pv)@),
            depth.0 <= 0 || height.0 == 255 ==> quiescence_settled(
                board@,
                alpha.0 as int,
                beta.0 as int,
                height.0 as int,
                score.0 as int,
            ),
            (depth.0 <= 0 || height.0 == 255) && final(self).status == SearchStatus::Continue
                ==> score.0 >= stand_pat(board@, height.0 as int),
            (depth.0 <= 0 || height.0 == 255) && final(self).status == SearchStatus::Continue
                && score.0 > stand_pat(board@, height.0 as int) && !(height.0 < 255
                && settled_by_stand_pat(board@, alpha.0 as int, beta.0 as int, height.0 as int))
                ==> backed_by_move(board@, height.0 as int, score.0 as int),
            !NodeType::is_root() && depth.0 > 0 && height.0 < 255 ==> {
                let (a, b) = mate_window(alpha.0 as int, beta.0 as int, height.0 as int);
                let draw = drawn(
                    old(self).histories.board_history@,
                    board@.halfmoves as int,
                    board.spec_key(),
                );
                &&& a >= b ==> score.0 == a
                &&& a < b && draw ==> score.0 == Evaluation::DRAW
                &&& a < b && !draw && NodeType::is_pv() && no_legal_move(board@) ==> score.0
                    == no_move_score(board@, height.0 as int)
            },
            NodeType::is_root() && old(pv)@.len() > 0 ==> final(pv)@.len() > 0,
            NodeType::is_root() && depth.0 > 0 && height.0 < 255 && score.0 > alpha.0
                ==> final(pv)@.len() > 0,
        decreases 255 - height.0, depth.0 + 1000, 2nat,
    {
        if depth.0 <= 0 || height.0 == 255 {
            return self.quiescence_search(board, alpha, beta, height, tables);
        }
        let is_in_check = board.is_in_check(&tables.attacks);
        if height.0 > self.seldepth.0 {
            self.seldepth = height;
        }
        self.count_node();
        let mut alpha = alpha;
        let mut beta = beta;
        if !NodeType::node_is_root() {
            // Mate distance pruning: if the score of mating in the next move
            // is still unable to exceed alpha, we can prune. Likewise, if
            // we're getting mated right now and we're still exceeding beta,
            // we can prune.
            alpha = max_eval(alpha, Evaluation::mated_after(height));
            beta = min_eval(beta, Evaluation::mate_after(Height(height.0 + 1)));
            if alpha.0 >= beta.0 {
                return alpha;
            }
            // draw by repetition or 50mr
            if self.histories.board_history.is_draw(board.halfmoves(), board.key()) {
                return Evaluation(Evaluation::DRAW);
            }
        }
        let tt_hit = self.probe(board, height);
        if let Some(h) = tt_hit {
            if !NodeType::node_is_pv() && h.depth.0 >= depth.0 && (h.bound == Bound::Exact || (
            h.bound == Bound::Lower && h.score.0 >= beta.0) || (h.bound == Bound::Upper
                && h.score.0 <= alpha.0)) {
                return h.score;
            }
        }
        // only a move that can be made here is tried
        let tt_move = match tt_hit {
            Some(h) => match h.mv {
                Some(mv) => if board.is_pseudolegal(&tables.attacks, mv) {
                    Some(mv)
                } else {
                    None
                },
                None => None,
            },
            None => None,
        };
        let static_eval = if is_in_check {
            Evaluation(-Evaluation::INFINITY)
        } else {
            match tt_hit {
                Some(h) => h.static_eval,
                None => evaluate(board),
            }
        };
        self.histories.clear_next_killers(height);
        if !NodeType::node_is_pv() && !is_in_check {
            // Null move pruning: if we can give the opponent a free move (by
            // not moving a piece this move) and the resulting evaluation on
            // a reduced-depth search is above beta, we will probably be able
            // to beat beta if we do have a move. The only time this isn't
            // true is in zugzwang, which usually happens in king + pawn
            // endgames.
            let side = board.side_to_move();
            if self.nmp_rights.can_make_null_move(side) && depth.0 >= 3 && static_eval.0 >= beta.0
                && beta.0 > -Evaluation::MATE_BOUND && board.has_non_pawn_pieces()
                && self.histories.board_history.len() < 255 {
                let reduction = null_move_reduction(static_eval, beta, depth);
                let mut copy = *board;
                self.make_null_move(&mut copy, tables);
                let mut new_pv = Pv::new();
                let mut score = Evaluation(
                    -self.search::<NonPvNode>(
                        &mut new_pv,
                        &copy,
                        Evaluation(-beta.0),
                        Evaluation(-alpha.0),
                        Depth(depth.0 - reduction.0),
                        Height(height.0 + 1),
                        tables,
                    ).0,
                );
                self.unmake_null_move(board);
                proof {
                    lemma_u8_ops(old(self).nmp_rights.rights, (board@.side_to_move + 1) as u8);
                }
                if score.0 >= beta.0 && score.0 < Evaluation::MATE_BOUND {
                    if depth.0 <= 8 {
                        return score;
                    }
                    self.nmp_rights.remove_right(side);
                    new_pv.clear();
                    // do a verification search at higher depths
                    score = self.search::<NonPvNode>(
                        &mut new_pv,
                        board,
                        alpha,
                        beta,
                        Depth(depth.0 - reduction.0),
                        height,
                        tables,
                    );
                    self.nmp_rights.add_right(side);
                    proof {
                        lemma_u8_ops(old(self).nmp_rights.rights, (board@.side_to_move + 1) as u8);
                    }
                    if score.0 >= beta.0 {
                        return score;
                    }
                }
            }
        }
        self.search_moves::<NodeType>(
            pv,
            board,
            alpha,
            beta,
            depth,
            height,
            tables,
            tt_move,
            is_in_check,
            static_eval,
        )
    }

    /// The moves of a node of [`search`](Self::search), once it was not cut
    /// short: each is searched in turn, and the best updates the histories
    /// and the transposition table.
    #[verifier::rlimit(40)]
    fn search_moves<NodeType: Node>(
        &mut self,
        pv: &mut Pv,
        board: &Board,
        alpha: Evaluation,
        beta: Evaluation,
        depth: Depth,
        height: Height,
        tables: &Tables,
        tt_move: Option<Move>,
        is_in_check: bool,
        static_eval: Evaluation,
    ) -> (score: Evaluation)
        requires
            old(self).wf(),
            board.wf(),
            tables.wf(),
            tree_ok(board@, (255 - height.0) as nat),
            height.0 < 255,
            alpha.in_range(),
            beta.in_range(),
            alpha.0 < beta.0,
            1 <= depth.0 <= 255,
            tt_move matches Some(m) ==> candidate(board@, m),
            static_eval.in_range(),
            is_in_check == in_check(board@),
            NodeType::is_root() ==> NodeType::is_pv(),
            NodeType::is_root() ==> first_move_legal(board@, old(pv)@),
        ensures
            final(self).board == old(self).board,
            final(self).wf(),
            score.in_range(),
            final(self).histories.board_history@ == old(self).histories.board_history@,
            final(self).nmp_rights == old(self).nmp_rights,
            NodeType::is_root() ==> first_move_legal(board@, final(pv)@),
            !NodeType::is_root() && no_legal_move(board@) ==> score.0 == no_move_score(
                board@,
                height.0 as int,
            ),
            NodeType::is_root() && old(pv)@.len() > 0 ==> final(pv)@.len() > 0,
            NodeType::is_root() && score.0 > alpha.0 ==> final(pv)@.len() > 0,
        decreases 255 - height.0, depth.0 + 1000, 1nat,
    {
        let ghost plies = (255 - height.0) as nat;
        let ghost alpha0 = alpha.0;
        let ghost pv0 = pv@;
        let ghost history = self.histories.board_history@;
        let mut alpha = alpha;
        let mut best_score = Evaluation(-Evaluation::INFINITY);
        let mut best_move: Option<Move> = None;
        let mut new_pv = Pv::new();
        let killers = self.histories.current_killers(height);
        let counter_move = match self.histories.board_history.last() {
            Some(item) => self.histories.counter_move(item),
            None => None,
        };
        let mut picker = MovePicker::new_all(tt_move, killers, counter_move);
        let mut total_moves: u8 = 0;
        let mut quiet_moves = Moves::new();
        loop
            invariant_except_break
                alpha.0 < beta.0,
            invariant
                self.wf(),
                board.wf(),
                tables.wf(),
                height.0 < 255,
                plies == 255 - height.0,
                tree_ok(board@, plies),
                picker.wf(board@),
                picker.all_moves,
                NodeType::is_root() ==> first_move_legal(board@, pv@),
                NodeType::is_root() && pv0.len() > 0 ==> pv@.len() > 0,
                NodeType::is_root() && alpha.0 > alpha0 ==> pv@.len() > 0,
                NodeType::is_root() && best_score.0 > alpha0 ==> pv@.len() > 0,
                alpha.0 >= alpha0,
                pv0 == old(pv)@,
                no_legal_move(board@) ==> total_moves == 0,
                is_in_check == in_check(board@),
                alpha.in_range(),
                beta.in_range(),
                best_score.in_range(),
                static_eval.in_range(),
                1 <= depth.0 <= 255,
                NodeType::is_root() ==> NodeType::is_pv(),
                self.histories.board_history@ == history,
                history == old(self).histories.board_history@,
                self.nmp_rights == old(self).nmp_rights,
                quiet_moves@.len() <= MAX_LEGAL_MOVES,
                forall|i: int|
                    0 <= i < quiet_moves@.len() ==> board@.mailbox[(
                    #[trigger] quiet_moves@[i]).mv.start_sq()].0 < 12,
                self.board == old(self).board,
            decreases picker.measure(),
        {
            let mv = match picker.next(board, &tables.attacks, &self.histories) {
                Some(mv) => mv,
                None => {
                    break ;
                },
            };
            let is_quiet = board.is_quiet(mv);
            let mut copy = *board;
            if self.histories.board_history.len() >= 255 {
                continue ;
            }
            if !copy.can_make(mv) {
                continue ;
            }
            if !self.make_move(&mut copy, mv, tables) {
                continue ;
            }
            if total_moves < 255 {
                total_moves = total_moves + 1;
            }
            if NodeType::node_is_root() && self.should_print() {
                self.print_current_move(total_moves, mv);
            }
            let lmr = late_move_reduction::<NodeType>(depth, total_moves);
            let reduction = if lmr.0 < 0 {
                Depth(0)
            } else if lmr.0 > 255 {
                Depth(255)
            } else {
                lmr
            };
            let mut new_depth = Depth(depth.0 - 1);
            if !NodeType::node_is_pv() && !is_in_check {
                let lmr_depth = Depth(new_depth.0 - reduction.0);
                // Futility pruning: if the static evaluation is too bad, it's
                // not worth it to search quiet moves, whether or not the
                // score exceeds/can exceed alpha
                if is_quiet && !best_score.is_mate() && lmr_depth.0 <= 5 && static_eval.0
                    + futility_margin(lmr_depth).0 <= alpha.0 {
                    picker.skip_quiets();
                }
            }
            if is_quiet && quiet_moves.len() < MAX_LEGAL_MOVES {
                quiet_moves.push(mv);
            }
            new_depth = Depth(new_depth.0 + extension(is_in_check).0);
            let score = self.search_child::<NodeType>(
                &mut new_pv,
                &copy,
                alpha,
                beta,
                new_depth,
                reduction,
                height,
                total_moves,
                depth,
                tables,
            );
            self.unmake_move();
            // if the search was stopped early, we can't trust its results
            if self.check_status() != SearchStatus::Continue {
                if NodeType::node_is_root() && pv.len() == 0 {
                    pv.enqueue(mv);
                }
                return if NodeType::node_is_root() {
                    alpha
                } else {
                    Evaluation(0)
                };
            }
            best_score = max_eval(best_score, score);
            // the move is even better than what we originally had
            if score.0 > alpha.0 {
                best_move = Some(mv);
                // in a zero-window search, raising alpha raises beta
                if !NodeType::node_is_pv() {
                    break ;
                }
                alpha = score;
                pv.clear();
                pv.enqueue(mv);
                if new_pv.len() < 255 {
                    pv.append_pv(&new_pv);
                }
                // the move is too good: our opponent will avoid it
                if alpha.0 >= beta.0 {
                    break ;
                }
            }
            new_pv.clear();
        }
        if !NodeType::node_is_root() && total_moves == 0 {
            return if is_in_check {
                Evaluation::mated_after(height)
            } else {
                Evaluation(Evaluation::DRAW)
            };
        }
        if let Some(best) = best_move {
            if board.is_quiet(best) {
                self.histories.insert_into_killers(height, best);
                match self.histories.board_history.last() {
                    Some(last) => {
                        assert(item_ok(self.histories.board_history@.last()));
                        self.histories.insert_into_counter_moves(last, best);
                    },
                    None => {},
                }
                self.histories.update_butterfly_history(
                    &quiet_moves,
                    best,
                    board.side_to_move(),
                    depth,
                );
                proof {
                    lemma_recent_items_ok(self.histories.board_history@);
                }
                self.histories.update_continuation_history(board, &quiet_moves, best, depth);
            }
        }
        let bound = if best_score.0 >= beta.0 {
            Bound::Lower
        } else if best_move.is_none() {
            Bound::Upper
        } else {
            Bound::Exact
        };
        self.store(board, static_eval, best_score, best_move, depth, bound, height);
        best_score
    }

    /// Searches the position after a move of a node of
    /// [`search`](Self::search) by principal variation search and late move
    /// reduction: a move of a non-PV node, and any but the first of a PV
    /// node, is searched with a zero window at the depth less the
    /// reduction, then without the reduction if it raises alpha; a move of
    /// a PV node that raises alpha, or its first, then gets the full
    /// window. The score is the node's, the child's negated.
    fn search_child<NodeType: Node>(
        &mut self,
        new_pv: &mut Pv,
        child: &Board,
        alpha: Evaluation,
        beta: Evaluation,
        new_depth: Depth,
        reduction: Depth,
        height: Height,
        total_moves: u8,
        depth: Depth,
        tables: &Tables,
    ) -> (score: Evaluation)
        requires
            old(self).wf(),
            child.wf(),
            tables.wf(),
            height.0 < 255,
            tree_ok(child@, (254 - height.0) as nat),
            alpha.in_range(),
            beta.in_range(),
            alpha.0 < beta.0,
            0 <= new_depth.0 <= 255,
            0 <= reduction.0 <= 255,
            1 <= depth.0 <= 255,
        ensures
            final(self).board == old(self).board,
            final(self).wf(),
            score.in_range(),
            final(self).histories.board_history@ == old(self).histories.board_history@,
            final(self).nmp_rights == old(self).nmp_rights,
        decreases 255 - height.0, depth.0 + 1000, 0nat,
    {
        let mut score = Evaluation(0);
        if !NodeType::node_is_pv() || total_moves > 1 {
            score = Evaluation(
                -self.search::<NonPvNode>(
                    new_pv,
                    child,
                    Evaluation(-alpha.0 - 1),
                    Evaluation(-alpha.0),
                    Depth(new_depth.0 - reduction.0),
                    Height(height.0 + 1),
                    tables,
                ).0,
            );
            if score.0 > alpha.0 && reduction.0 > 0 {
                score = Evaluation(
                    -self.search::<NonPvNode>(
                        new_pv,
                        child,
                        Evaluation(-alpha.0 - 1),
                        Evaluation(-alpha.0),
                        new_depth,
                        Height(height.0 + 1),
                        tables,
                    ).0,
                );
            }
        }
        if NodeType::node_is_pv() && (score.0 > alpha.0 || total_moves == 1) {
            score = Evaluation(
                -self.search::<PvNode>(
                    new_pv,
                    child,
                    Evaluation(-beta.0),
                    Evaluation(-alpha.0),
                    new_depth,
                    Height(height.0 + 1),
                    tables,
                ).0,
            );
        }
        score
    }

    /// Sends which move the root is on: `info currmovenumber` and its
    /// number, then `currmove` and the move.
    fn print_current_move(&self, number: u8, mv: Move) {
        let mut line: Vec<u8> = Vec::new();
        push_all(&mut line, &INFO_CURRMOVENUMBER);
        push_decimal(&mut line, number as u64);
        push_all(&mut line, &INFO_CURRMOVE);
        let mv_bytes = mv.to_bytes();
        push_all(&mut line, mv_bytes.as_slice());
        send_line(&self.output, line);
    }
}

/// `info currmovenumber `
pub const INFO_CURRMOVENUMBER: [u8; 20] = [
    105, 110, 102, 111, 32, 99, 117, 114, 114, 109, 111, 118, 101, 110, 117, 109, 98, 101, 114, 32,
];
/// ` currmove `
pub const INFO_CURRMOVE: [u8; 10] = [32, 99, 117, 114, 114, 109, 111, 118, 101, 32];

} // verus!
