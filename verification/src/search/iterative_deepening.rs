//! Iterative deepening: searches of increasing depth until the search has
//! to stop.
use vstd::prelude::*;

use crate::evaluation::trunc_div;
use crate::lookups::Tables;
use crate::movegen::Move;
use crate::search::aspiration::{widens, AspirationWindow};
use crate::search::depth::{Depth, Height};
use crate::search::outside::instant_now;
use crate::search::time::calculate_time_window;
use crate::search::worker::{first_move_legal, tree_ok, Worker};
use crate::board::make::{legal_move, move_ok};
use crate::search::{Limits, NmpRights, Pv, SearchStatus};

verus! {

impl Worker {
    /// Performs iterative deepening on the worker's board: aspiration
    /// searches of depth 1, 2, ... up to [`Depth::MAX`], until the search
    /// should stop. The final principal variation becomes the root PV.
    ///
    /// Returns the best move: the first of the PV, `None` if the search
    /// found no legal move.
    pub fn iterative_deepening(&mut self, tables: &Tables) -> (best_move: Option<Move>)
        requires
            old(self).wf(),
            tables.wf(),
            tree_ok(old(self).board@, 255),
        ensures
            final(self).wf(),
            final(self).status != SearchStatus::Continue,
            final(self).board == old(self).board,
            final(self).histories.board_history@ == old(self).histories.board_history@,
            best_move == if final(self).root_pv@.len() > 0 {
                Some(final(self).root_pv@[0])
            } else {
                None
            },
            best_move matches Some(m) ==> move_ok(old(self).board@, m) && legal_move(
                old(self).board@,
                m,
            ),
    {
        let mut asp_window = AspirationWindow::new();
        let mut pv = Pv::new();
        let mut depth: i16 = 1;
        while depth <= Depth::MAX
            invariant
                self.wf(),
                tables.wf(),
                tree_ok(self.board@, 255),
                self.board == old(self).board,
                self.histories.board_history@ == old(self).histories.board_history@,
                asp_window.wf(),
                widens(asp_window),
                1 <= depth <= 256,
                first_move_legal(self.board@, pv@),
            decreases 256 - depth,
        {
            self.seldepth = Height(0);
            let score = self.aspiration_loop(&mut pv, &mut asp_window, Depth(depth), tables);
            if self.should_stop(Depth(depth)) {
                break ;
            }
            asp_window.adjust_around(score, Depth(depth));
            proof {
                let s = score.0 as int;
                assert(s * s >= 0) by (nonlinear_arith);
                assert(trunc_div(s * s, 3000) >= 0);
                if depth == 1 {
                    assert(60int / 1 == 60) by (nonlinear_arith);
                } else if depth == 2 {
                    assert(60int / 2 == 30) by (nonlinear_arith);
                } else {
                    assert(trunc_div(60, 3) == 20);
                }
            }
            depth = depth + 1;
        }
        self.status = SearchStatus::Stop;
        self.root_pv.clear();
        let _ = pv.len();
        self.root_pv.append_pv(&pv);
        self.nodes.flush();
        if self.root_pv.len() > 0 {
            Some(self.root_pv.get(0))
        } else {
            None
        }
    }

    /// Starts the search: each per-search field is reset, the time for it
    /// is allocated, then the iterative deepening runs.
    ///
    /// Returns the best move, `None` if there is no legal one.
    pub fn start_search(&mut self, tables: &Tables) -> (best_move: Option<Move>)
        requires
            old(self).wf(),
            tables.wf(),
            tree_ok(old(self).board@, 255),
        ensures
            final(self).wf(),
            final(self).status != SearchStatus::Continue,
            final(self).board == old(self).board,
            final(self).histories.board_history@ == old(self).histories.board_history@,
            best_move == if final(self).root_pv@.len() > 0 {
                Some(final(self).root_pv@[0])
            } else {
                None
            },
            best_move matches Some(m) ==> move_ok(old(self).board@, m) && legal_move(
                old(self).board@,
                m,
            ),
    {
        self.start = instant_now();
        self.seldepth = Height(0);
        self.nodes.clear();
        self.nmp_rights = NmpRights::new();
        self.status = SearchStatus::Continue;
        self.calculate_time_window();
        self.iterative_deepening(tables)
    }

    /// Allocates the time of the search (see [`calculate_time_window`]):
    /// all there is unless it is timed, and all there is if the limits
    /// are ones the allocation cannot compute with.
    pub fn calculate_time_window(&mut self)
        requires
            old(self).wf(),
        ensures
            final(self).wf(),
            *final(self) == (Worker { allocated: final(self).allocated, ..*old(self) }),
    {
        let elapsed = self.elapsed_time();
        let computable = match self.limits {
            Limits::Timed { moves_to_go, .. } => moves_to_go.0 > 0,
            _ => true,
        };
        self.allocated = if computable {
            calculate_time_window(self.limits, elapsed, self.move_overhead)
        } else {
            u64::MAX
        };
    }
}

} // verus!
