//! Time management.
use vstd::prelude::*;

use crate::search::Limits;

verus! {

/// The maximum number of effective moves to go until the next time
/// control: the time manager treats the moves to go as at most this.
pub const MAX_MOVES_TO_GO: u8 = 40;

/// The window of time for a timed search: the time left shared among the
/// moves to go (at most [`MAX_MOVES_TO_GO`]), plus the increment, less the
/// time already spent and the move overhead, and no less than 0; each sum
/// saturates at `u64::MAX`. Any other search has all the time there is.
pub open spec fn time_window(limits: Limits, elapsed: int, move_overhead: int) -> int {
    match limits {
        Limits::Timed { time, inc, moves_to_go } => {
            let mtg = if moves_to_go.0 < MAX_MOVES_TO_GO { moves_to_go.0 as int } else { MAX_MOVES_TO_GO as int };
            let budget = (time as int) / mtg + inc;
            let spent = elapsed + move_overhead;
            let window = (if budget > u64::MAX { u64::MAX as int } else { budget }) - (if spent
                > u64::MAX { u64::MAX as int } else { spent });
            if window > 0 { window } else { 0 }
        },
        _ => u64::MAX as int,
    }
}

/// Calculates the maximum window of time, in milliseconds, that should be
/// used for the next iterative deepening loop, `elapsed` milliseconds after
/// the search started.
pub fn calculate_time_window(limits: Limits, elapsed: u64, move_overhead: u64) -> (window: u64)
    requires
        match limits {
            Limits::Timed { time, inc, moves_to_go } => moves_to_go.0 > 0,
            _ => true,
        },
    ensures
        window == time_window(limits, elapsed as int, move_overhead as int),
{
    match limits {
        Limits::Timed { time, inc, moves_to_go } => {
            // prioritise a low number of moves to go, but if it's sudden
            // death (let's say), cap the apparent moves to go to avoid
            // allocating too little time
            let mtg = if moves_to_go.0 < MAX_MOVES_TO_GO {
                moves_to_go.0
            } else {
                MAX_MOVES_TO_GO
            };
            let share = time / mtg as u64;
            assert(share <= time) by (nonlinear_arith)
                requires
                    share == (time as int) / (mtg as int),
                    mtg >= 1,
            ;
            share.saturating_add(inc).saturating_sub(elapsed.saturating_add(move_overhead))
        },
        _ => u64::MAX,
    }
}

} // verus!
