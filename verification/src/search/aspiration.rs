//! Aspiration windows: bounds around the expected score of a search,
//! widened when the score falls outside them.
use vstd::prelude::*;

use crate::evaluation::{trunc_div, Evaluation};
use crate::lookups::Tables;
use crate::search::depth::{Depth, Height};
use crate::search::worker::{first_move_legal, tree_ok, Worker};
use crate::search::{Pv, RootNode, SearchStatus};

verus! {

/// An aspiration window: a set of bounds used for the search and updated if
/// the returned score fails high or low.
#[derive(Clone, Copy, Debug, PartialEq, Eq, Structural)]
pub struct AspirationWindow {
    /// The lower bound.
    pub alpha: Evaluation,
    /// The upper bound.
    pub beta: Evaluation,
    /// How much higher or lower the bounds are set above the returned score
    /// (if the score is a bound).
    pub margin: Evaluation,
}

/// The margin the window is set with around `score` after a search of
/// `depth`: 60 divided by the depth (at most 3), plus `score² / 3000`.
pub open spec fn adjusted_margin(score: int, depth: int) -> int {
    trunc_div(60, if depth < 3 { depth } else { 3 }) + trunc_div(score * score, 3000)
}

impl AspirationWindow {
    /// The highest a margin can be before it is doubled; beyond it, a
    /// widened bound becomes infinite.
    pub const MARGIN_LIMIT: i32 = 700;

    /// The bounds and the margin stay small enough to compute with.
    pub open spec fn wf(self) -> bool {
        &&& -1_000_000 <= self.alpha.0 <= 1_000_000
        &&& -1_000_000 <= self.beta.0 <= 1_000_000
        &&& 0 <= self.margin.0 <= 400_000
    }

    /// Returns a new [`AspirationWindow`] with infinite bounds and no
    /// margin.
    pub fn new() -> (window: Self)
        ensures
            window.alpha.0 == -Evaluation::INFINITY,
            window.beta.0 == Evaluation::INFINITY,
            window.margin.0 == 0,
            window.wf(),
    {
        Self {
            alpha: Evaluation(-Evaluation::INFINITY),
            beta: Evaluation(Evaluation::INFINITY),
            margin: Evaluation(0),
        }
    }

    /// Sets the window around `score` after a search of `depth` (see
    /// [`adjusted_margin`]).
    pub fn adjust_around(&mut self, score: Evaluation, depth: Depth)
        requires
            -Evaluation::INFINITY <= score.0 <= Evaluation::INFINITY,
            depth.0 >= 1,
        ensures
            final(self).margin.0 == adjusted_margin(score.0 as int, depth.0 as int),
            final(self).alpha.0 == score.0 - final(self).margin.0,
            final(self).beta.0 == score.0 + final(self).margin.0,
            final(self).wf(),
    {
        let d = if depth.0 < 3 {
            depth.0 as i32
        } else {
            3
        };
        let s = score.0;
        assert(0 <= s * s <= 32767 * 32767) by (nonlinear_arith)
            requires
                -32767 <= s <= 32767,
        ;
        let unbounded_margin = 60 / d + s * s / 3000;
        self.margin = Evaluation(unbounded_margin);
        self.alpha = Evaluation(s - unbounded_margin);
        self.beta = Evaluation(s + unbounded_margin);
    }

    /// Returns the lower bound, at least `-INFINITY`.
    pub fn alpha(&self) -> (alpha: Evaluation)
        ensures
            alpha.0 == if self.alpha.0 > -Evaluation::INFINITY {
                self.alpha.0 as int
            } else {
                -Evaluation::INFINITY
            },
    {
        if self.alpha.0 > -Evaluation::INFINITY {
            self.alpha
        } else {
            Evaluation(-Evaluation::INFINITY)
        }
    }

    /// Returns the upper bound, at most `INFINITY`.
    pub fn beta(&self) -> (beta: Evaluation)
        ensures
            beta.0 == if self.beta.0 < Evaluation::INFINITY {
                self.beta.0
            } else {
                Evaluation::INFINITY
            },
    {
        if self.beta.0 < Evaluation::INFINITY {
            self.beta
        } else {
            Evaluation(Evaluation::INFINITY)
        }
    }

    /// Raises the upper bound above `score`: the margin doubles, or, once
    /// past [`MARGIN_LIMIT`](Self::MARGIN_LIMIT), the bound becomes
    /// infinite.
    pub fn widen_up(&mut self, score: Evaluation)
        requires
            old(self).wf(),
            -Evaluation::INFINITY <= score.0 <= Evaluation::INFINITY,
        ensures
            final(self).alpha == old(self).alpha,
            old(self).margin.0 > AspirationWindow::MARGIN_LIMIT ==> final(self).beta.0
                == Evaluation::INFINITY && final(self).margin == old(self).margin,
            old(self).margin.0 <= AspirationWindow::MARGIN_LIMIT ==> final(self).margin.0
                == old(self).margin.0 * 2 && final(self).beta.0 == score.0 + old(self).margin.0 * 2,
            final(self).wf(),
    {
        if self.margin.0 > Self::MARGIN_LIMIT {
            self.beta = Evaluation(Evaluation::INFINITY);
            return ;
        }
        self.margin = Evaluation(self.margin.0 * 2);
        self.beta = Evaluation(score.0 + self.margin.0);
    }

    /// Checks if the upper bound can be raised.
    pub fn can_widen_up(&self) -> (can: bool)
        ensures
            can == (self.beta.0 < Evaluation::INFINITY),
    {
        self.beta().0 < Evaluation::INFINITY
    }

    /// Lowers the lower bound below `score`: the margin doubles and the
    /// upper bound drops to the middle of the old window, or, once past
    /// [`MARGIN_LIMIT`](Self::MARGIN_LIMIT), the lower bound becomes
    /// infinite.
    pub fn widen_down(&mut self, score: Evaluation)
        requires
            old(self).wf(),
            -Evaluation::INFINITY <= score.0 <= Evaluation::INFINITY,
        ensures
            old(self).margin.0 > AspirationWindow::MARGIN_LIMIT ==> final(self).alpha.0
                == -Evaluation::INFINITY && final(self).beta == old(self).beta && final(self).margin
                == old(self).margin,
            old(self).margin.0 <= AspirationWindow::MARGIN_LIMIT ==> final(self).margin.0
                == old(self).margin.0 * 2 && final(self).beta.0 == trunc_div(
                old(self).alpha.0 + old(self).beta.0,
                2,
            ) && final(self).alpha.0 == score.0 - old(self).margin.0 * 2,
            final(self).wf(),
    {
        if self.margin.0 > Self::MARGIN_LIMIT {
            self.alpha = Evaluation(-Evaluation::INFINITY);
            return ;
        }
        self.margin = Evaluation(self.margin.0 * 2);
        self.beta = Evaluation((self.alpha.0 + self.beta.0) / 2);
        self.alpha = Evaluation(score.0 - self.margin.0);
    }

    /// Checks if the lower bound can be lowered.
    pub fn can_widen_down(&self) -> (can: bool)
        ensures
            can == (self.alpha.0 > -Evaluation::INFINITY),
    {
        self.alpha().0 > -Evaluation::INFINITY
    }
}

/// How far the window can still widen: the doublings of its margin left,
/// then its finite bounds.
pub open spec fn widening_left(window: AspirationWindow) -> int {
    100 * (800 - if window.margin.0 < 800 {
        window.margin.0 as int
    } else {
        800
    }) + (if window.alpha.0 > -Evaluation::INFINITY {
        1int
    } else {
        0
    }) + (if window.beta.0 < Evaluation::INFINITY {
        1int
    } else {
        0
    })
}

/// A window with a finite bound has a margin to widen it by.
pub open spec fn widens(window: AspirationWindow) -> bool {
    window.margin.0 >= 20 || (window.alpha.0 <= -Evaluation::INFINITY && window.beta.0
        >= Evaluation::INFINITY)
}

impl Worker {
    /// Runs the aspiration loop on the worker's board: the root is searched
    /// within the window, which is widened and the search run again while
    /// the score falls outside it.
    ///
    /// See <https://www.chessprogramming.org/Aspiration_Windows>. `pv` does
    /// not need to be empty.
    pub fn aspiration_loop(
        &mut self,
        pv: &mut Pv,
        asp_window: &mut AspirationWindow,
        depth: Depth,
        tables: &Tables,
    ) -> (score: Evaluation)
        requires
            old(self).wf(),
            tables.wf(),
            tree_ok(old(self).board@, 255),
            old(asp_window).wf(),
            widens(*old(asp_window)),
            1 <= depth.0 <= 255,
            first_move_legal(old(self).board@, old(pv)@),
        ensures
            final(self).wf(),
            first_move_legal(old(self).board@, final(pv)@),
            old(pv)@.len() > 0 ==> final(pv)@.len() > 0,
            final(asp_window).wf(),
            widens(*final(asp_window)),
            score.in_range(),
            final(self).board == old(self).board,
            final(self).histories.board_history@ == old(self).histories.board_history@,
            final(self).nmp_rights == old(self).nmp_rights,
    {
        let board = self.board;
        loop
            invariant
                self.wf(),
                tables.wf(),
                self.board == board,
                board == old(self).board,
                tree_ok(board@, 255),
                asp_window.wf(),
                widens(*asp_window),
                1 <= depth.0 <= 255,
                self.histories.board_history@ == old(self).histories.board_history@,
                self.nmp_rights == old(self).nmp_rights,
                first_move_legal(board@, pv@),
                old(pv)@.len() > 0 ==> pv@.len() > 0,
            decreases widening_left(*asp_window),
        {
            let window_alpha = asp_window.alpha();
            let window_beta = asp_window.beta();
            let (alpha, beta) = if window_alpha.0 < window_beta.0 {
                (window_alpha, window_beta)
            } else {
                (Evaluation(-Evaluation::INFINITY), Evaluation(Evaluation::INFINITY))
            };
            let score = self.search::<RootNode>(pv, &board, alpha, beta, depth, Height(0), tables);
            if self.can_print {
                self.nodes.flush();
                self.print_report(score, pv, depth);
            }
            if self.check_status() != SearchStatus::Continue {
                return score;
            }
            // fail-low
            if score.0 <= asp_window.alpha().0 && asp_window.can_widen_down() {
                asp_window.widen_down(score);
                continue ;
            }
            // fail-high
            if score.0 >= asp_window.beta().0 && asp_window.can_widen_up() {
                asp_window.widen_up(score);
                continue ;
            }
            // exact score
            return score;
        }
    }
}

} // verus!
