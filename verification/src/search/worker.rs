//! The searcher: its state, the moves it makes and takes back, and the
//! checks of whether it should go on.
use vstd::prelude::*;

use std::sync::mpsc::{Receiver, Sender};
use std::time::Instant;

use crate::board::attacks::has_king;
use crate::board::make::{abandoned_move, after_move, legal_move, move_ok};
use crate::board::{Board, BoardState, Key};
use crate::defs::{Piece, Square};
use crate::evaluation::{static_evaluation, Evaluation};
use crate::lookups::Tables;
use crate::movegen::Move;
use crate::search::depth::{Depth, Height};
use crate::search::history::{
    item_ok, recent_items, BoardHistory, Histories, HistoryItem, PieceDest,
};
use crate::search::movepick::{candidate, picking_room};
use crate::search::outside::{
    duration_micros, duration_millis, instant_elapsed, instant_now, send_line, try_receive,
};
use crate::search::time::calculate_time_window;
use crate::search::{Limits, NmpRights, Pv, SearchStatus};
use crate::transposition_table::TranspositionTable;
use crate::board::fen::decimal;
use crate::search::pv_bytes;
use crate::util::{push_all, push_decimal, BufferedAtomicU64Counter};

verus! {

// ---------------------------------------------------------------------------
// The positions a search can go through.

/// A position the search can work on: there is a side to move with a king,
/// its captures and then its quiets fit in a list of moves, and its
/// evaluation is far from the mate scores.
pub open spec fn search_ready(state: BoardState) -> bool {
    &&& state.side_to_move < 2
    &&& has_king(state)
    &&& picking_room(state)
    &&& -32000 <= static_evaluation(state) <= 32000
}

/// The position after a null move: the other side to move and no en
/// passant square.
pub open spec fn null_after(state: BoardState) -> BoardState {
    BoardState { ep_square: Square::NONE, side_to_move: (1 - state.side_to_move) as u8, ..state }
}

/// Every position the search can reach within `plies` moves or null moves
/// is ready for it: each move it can be handed there, which the board can
/// make and which is legal, leads to such a position. (The search tests
/// that a move can be made before making it.) Positions whose lists of
/// moves overflow are left out: there the move list cannot hold the moves.
pub open spec fn tree_ok(state: BoardState, plies: nat) -> bool
    decreases plies,
{
    &&& search_ready(state)
    &&& plies > 0 ==> {
        &&& forall|mv: Move|
            #[trigger] candidate(state, mv) && move_ok(state, mv) && legal_move(state, mv)
                ==> tree_ok(after_move(state, mv), (plies - 1) as nat)
        &&& tree_ok(null_after(state), (plies - 1) as nat)
    }
}

/// The first move of `pv`, if there is one, is a legal move of `state` that
/// the board can make.
pub open spec fn first_move_legal(state: BoardState, pv: Seq<Move>) -> bool {
    pv.len() > 0 ==> move_ok(state, pv[0]) && legal_move(state, pv[0])
}

/// The last items of a history of real moves are real moves.
pub proof fn lemma_recent_items_ok(history: Seq<HistoryItem>)
    requires
        forall|i: int| 0 <= i < history.len() ==> item_ok(#[trigger] history[i]),
    ensures
        forall|k: int|
            0 <= k < recent_items(history).len() ==> item_ok(#[trigger] recent_items(history)[k]),
{
    if history.len() >= 2 {
        assert(item_ok(history[history.len() - 1]));
        assert(item_ok(history[history.len() - 2]));
    }
}

// ---------------------------------------------------------------------------
// The worker.

/// Performs the searching.
///
/// It retains the working information of the search, so it can be queried
/// for the final statistics of the search (nodes, time taken, etc.).
pub struct Worker {
    /// The moment the search started.
    pub start: Instant,
    /// The maximum height reached.
    pub seldepth: Height,
    /// The number of positions searched.
    pub nodes: BufferedAtomicU64Counter,
    /// The final PV from the initial position.
    pub root_pv: Pv,
    /// Which side (if at all) null move pruning is allowed for.
    pub nmp_rights: NmpRights,
    /// The histories used exclusively within the search.
    pub histories: Histories,
    /// If the search may send information lines.
    pub can_print: bool,
    /// The limits of the search.
    pub limits: Limits,
    /// How much time the search is allocated, in milliseconds.
    pub allocated: u64,
    /// The overhead of sending a move, in milliseconds.
    pub move_overhead: u64,
    /// The initial board.
    pub board: Board,
    /// The status of the search.
    pub status: SearchStatus,
    /// A hash table of previously-encountered positions.
    pub tt: TranspositionTable,
    /// The lines the interface sends while the search runs.
    pub commands: Receiver<String>,
    /// Where the search sends its lines of output.
    pub output: Sender<Vec<u8>>,
}

/// The bytes of `stop`.
pub const WORD_STOP: [u8; 4] = [115, 116, 111, 112];
/// The bytes of `quit`.
pub const WORD_QUIT: [u8; 4] = [113, 117, 105, 116];
/// The bytes of `isready`.
pub const WORD_ISREADY: [u8; 7] = [105, 115, 114, 101, 97, 100, 121];
/// The bytes of `readyok`.
pub const WORD_READYOK: [u8; 7] = [114, 101, 97, 100, 121, 111, 107];

/// The byte is ASCII whitespace.
pub open spec fn is_blank(c: u8) -> bool {
    c == 32 || (9 <= c <= 13)
}

/// A line without the whitespace at either end.
pub open spec fn trimmed(line: Seq<u8>, start: int, end: int) -> bool {
    &&& 0 <= start <= end <= line.len()
    &&& forall|i: int| 0 <= i < start ==> is_blank(#[trigger] line[i])
    &&& forall|i: int| end <= i < line.len() ==> is_blank(#[trigger] line[i])
    &&& start < end ==> !is_blank(line[start]) && !is_blank(line[end - 1])
}

/// `line` without the whitespace at either end.
pub open spec fn stripped(line: Seq<u8>) -> Seq<u8>
    decreases line.len(),
{
    if line.len() > 0 && is_blank(line[0]) {
        stripped(line.drop_first())
    } else if line.len() > 0 && is_blank(line.last()) {
        stripped(line.drop_last())
    } else {
        line
    }
}

/// The bounds of a trimmed line cut out [`stripped`].
proof fn lemma_stripped(line: Seq<u8>, start: int, end: int)
    requires
        trimmed(line, start, end),
    ensures
        line.subrange(start, end) == stripped(line),
    decreases line.len(),
{
    if line.len() > 0 && is_blank(line[0]) {
        let rest = line.drop_first();
        if start > 0 {
            assert forall|i: int| 0 <= i < start - 1 implies is_blank(#[trigger] rest[i]) by {
                assert(rest[i] == line[i + 1]);
            }
            assert forall|i: int| end - 1 <= i < rest.len() implies is_blank(#[trigger] rest[i]) by {
                assert(rest[i] == line[i + 1]);
            }
            lemma_stripped(rest, start - 1, end - 1);
            assert(line.subrange(start, end) =~= rest.subrange(start - 1, end - 1));
        } else {
            assert forall|i: int| 0 <= i < rest.len() implies is_blank(#[trigger] rest[i]) by {
                assert(rest[i] == line[i + 1]);
            }
            lemma_stripped(rest, 0, 0);
            assert(line.subrange(start, end) =~= rest.subrange(0, 0));
        }
    } else if line.len() > 0 && is_blank(line.last()) {
        let rest = line.drop_last();
        assert(end < line.len());
        assert forall|i: int| end <= i < rest.len() implies is_blank(#[trigger] rest[i]) by {
            assert(rest[i] == line[i]);
        }
        assert forall|i: int| 0 <= i < start implies is_blank(#[trigger] rest[i]) by {
            assert(rest[i] == line[i]);
        }
        lemma_stripped(rest, start, end);
        assert(line.subrange(start, end) =~= rest.subrange(start, end));
    } else {
        if line.len() > 0 {
            assert(start == 0);
            assert(end == line.len());
        }
        assert(line.subrange(start, end) =~= line);
    }
}

/// Where a line starts and ends without its surrounding whitespace.
fn trim_bounds(line: &[u8]) -> (bounds: (usize, usize))
    ensures
        trimmed(line@, bounds.0 as int, bounds.1 as int),
{
    let mut start: usize = 0;
    while start < line.len() && (line[start] == 32 || (9 <= line[start] && line[start] <= 13))
        invariant
            start <= line@.len(),
            forall|i: int| 0 <= i < start ==> is_blank(#[trigger] line@[i]),
        decreases line@.len() - start,
    {
        start = start + 1;
    }
    let mut end: usize = line.len();
    while end > start && (line[end - 1] == 32 || (9 <= line[end - 1] && line[end - 1] <= 13))
        invariant
            start <= end <= line@.len(),
            forall|i: int| end <= i < line@.len() ==> is_blank(#[trigger] line@[i]),
            forall|i: int| 0 <= i < start ==> is_blank(#[trigger] line@[i]),
            start < line@.len() ==> !is_blank(line@[start as int]),
        decreases end - start,
    {
        end = end - 1;
    }
    (start, end)
}

/// The trimmed line is `word`.
fn trimmed_is(line: &[u8], start: usize, end: usize, word: &[u8]) -> (is: bool)
    requires
        start <= end <= line@.len(),
    ensures
        is == (line@.subrange(start as int, end as int) == word@),
{
    if end - start != word.len() {
        return false;
    }
    let mut i: usize = 0;
    while i < word.len()
        invariant
            i <= word@.len() == end - start,
            start <= end <= line@.len(),
            forall|j: int| 0 <= j < i ==> line@[start + j] == word@[j],
        decreases word@.len() - i,
    {
        if line[start + i] != word[i] {
            return false;
        }
        i = i + 1;
    }
    assert(line@.subrange(start as int, end as int) =~= word@);
    true
}

impl Worker {
    /// The worker's state is consistent: the histories are, the board
    /// history refers to real pieces and squares, and the node count can
    /// still grow.
    pub open spec fn wf(&self) -> bool {
        &&& self.histories.wf()
        &&& forall|i: int|
            0 <= i < self.histories.board_history@.len() ==> item_ok(
                #[trigger] self.histories.board_history@[i],
            )
        &&& self.nodes@.0 + self.nodes@.1 < u64::MAX
        &&& self.board.wf()
    }

    /// Creates a new [`Worker`] with the given transposition table and ways
    /// to hear from and talk to the interface.
    ///
    /// Each other field starts off zeroed, and the worker may print.
    pub fn new(tt: TranspositionTable, commands: Receiver<String>, output: Sender<Vec<u8>>) -> (worker: Self)
        ensures
            worker.wf(),
            worker.tt == tt,
            worker.histories.board_history@.len() == 0,
            worker.limits == Limits::Infinite,
            worker.status == SearchStatus::Continue,
            worker.can_print,
            worker.allocated == u64::MAX,
            worker.move_overhead == 0,
    {
        Self {
            start: instant_now(),
            seldepth: Height(0),
            nodes: BufferedAtomicU64Counter::new(),
            root_pv: Pv::new(),
            nmp_rights: NmpRights::new(),
            histories: Histories::new(),
            can_print: true,
            limits: Limits::default(),
            allocated: u64::MAX,
            move_overhead: 0,
            board: Board::new(),
            status: SearchStatus::Continue,
            tt,
            commands,
            output,
        }
    }

    /// Sets the limits of the worker.
    pub fn set_limits(&mut self, limits: Limits)
        ensures
            *final(self) == (Worker { limits, ..*old(self) }),
    {
        self.limits = limits;
    }

    /// Sets whether or not the worker may print.
    pub fn set_printing(&mut self, can_print: bool)
        ensures
            *final(self) == (Worker { can_print, ..*old(self) }),
    {
        self.can_print = can_print;
    }

    /// Sets the overhead of sending the best move, in milliseconds.
    pub fn set_move_overhead(&mut self, move_overhead: u64)
        ensures
            *final(self) == (Worker { move_overhead, ..*old(self) }),
    {
        self.move_overhead = move_overhead;
    }

    /// Sets the board of the worker to the given board and board history.
    pub fn set_board(&mut self, board_history: &BoardHistory, board: &Board)
        requires
            old(self).wf(),
            board.wf(),
            forall|i: int|
                0 <= i < board_history@.len() ==> item_ok(#[trigger] board_history@[i]),
        ensures
            final(self).wf(),
            final(self).histories.board_history@ == board_history@,
            final(self).board == *board,
            final(self).tt == old(self).tt,
    {
        self.histories.board_history.set_to(board_history);
        self.board = *board;
    }

    /// Clears the board history and sets the board to `board`.
    pub fn reset_board(&mut self, board: &Board)
        requires
            old(self).wf(),
            board.wf(),
        ensures
            final(self).wf(),
            final(self).histories.board_history@.len() == 0,
            final(self).board == *board,
            final(self).tt == old(self).tt,
    {
        self.histories.board_history.clear();
        self.board = *board;
    }

    /// Returns the number of searched nodes.
    pub fn nodes(&self) -> (nodes: u64)
        requires
            self.wf(),
        ensures
            nodes == self.nodes@.0 + self.nodes@.1,
    {
        self.nodes.count()
    }

    /// Counts one more searched node, unless the count is at its limit.
    pub fn count_node(&mut self)
        requires
            old(self).wf(),
        ensures
            final(self).wf(),
            *final(self) == (Worker { nodes: final(self).nodes, ..*old(self) }),
    {
        if self.nodes.count() < u64::MAX - 1 {
            self.nodes.increment();
        }
    }

    /// Returns the time taken since the search started, in milliseconds.
    pub fn elapsed_time(&self) -> (elapsed: u64) {
        let millis = duration_millis(&instant_elapsed(&self.start));
        if millis > u64::MAX as u128 {
            u64::MAX
        } else {
            millis as u64
        }
    }

    /// Makes `mv` on `board` and returns whether or not the move was legal;
    /// a legal move is pushed onto the board history, with the key of the
    /// position before it and the piece that lands and where.
    pub fn make_move(&mut self, board: &mut Board, mv: Move, tables: &Tables) -> (legal: bool)
        requires
            old(self).wf(),
            old(board).wf(),
            tables.wf(),
            move_ok(old(board)@, mv),
            old(self).histories.board_history@.len() < 255,
        ensures
            final(self).board == old(self).board,
            final(self).wf(),
            final(board).wf(),
            legal == legal_move(old(board)@, mv),
            legal ==> final(board)@ == after_move(old(board)@, mv),
            !legal ==> final(board)@ == abandoned_move(old(board)@, mv),
            legal ==> final(self).histories.board_history@.len()
                == old(self).histories.board_history@.len() + 1,
            legal ==> final(self).histories.board_history@.drop_last()
                == old(self).histories.board_history@,
            !legal ==> final(self).histories.board_history@ == old(self).histories.board_history@,
            final(self).tt == old(self).tt,
            final(self).nmp_rights == old(self).nmp_rights,
            final(self).status == old(self).status,
    {
        let old_key = board.key();
        if !board.make_move(mv, tables) {
            return false;
        }
        let dest = mv.end();
        let piece = board.piece_on(dest);
        let piece_dest = if piece.0 < 12 {
            Some(PieceDest { piece, dest })
        } else {
            None
        };
        self.push_board_history(HistoryItem { key: old_key, piece_dest });
        true
    }

    /// Makes a null move on `board`, taking away the right to make another.
    pub fn make_null_move(&mut self, board: &mut Board, tables: &Tables)
        requires
            old(self).wf(),
            old(board).wf(),
            tables.wf(),
            old(board)@.side_to_move < 2,
            old(self).nmp_rights.rights & (old(board)@.side_to_move + 1) as u8 != 0,
            old(self).histories.board_history@.len() < 255,
        ensures
            final(self).board == old(self).board,
            final(self).wf(),
            final(board).wf(),
            final(board)@ == null_after(old(board)@),
            final(self).histories.board_history@ == old(self).histories.board_history@.push(
                HistoryItem { key: old(board).spec_key(), piece_dest: None },
            ),
            final(self).nmp_rights.rights == old(self).nmp_rights.rights ^ (old(board)@.side_to_move
                + 1) as u8,
            final(self).nmp_rights.rights & (old(board)@.side_to_move + 1) as u8 == 0,
            final(self).tt == old(self).tt,
            final(self).status == old(self).status,
    {
        self.nmp_rights.remove_right(board.side_to_move());
        self.push_board_history(HistoryItem { key: board.key(), piece_dest: None });
        board.make_null_move(tables);
    }

    /// Unmakes the most recent move.
    pub fn unmake_move(&mut self)
        requires
            old(self).wf(),
        ensures
            final(self).board == old(self).board,
            final(self).wf(),
            final(self).histories.board_history@ == if old(self).histories.board_history@.len()
                > 0 {
                old(self).histories.board_history@.drop_last()
            } else {
                old(self).histories.board_history@
            },
            final(self).tt == old(self).tt,
            final(self).nmp_rights == old(self).nmp_rights,
            final(self).status == old(self).status,
    {
        self.pop_board_history();
    }

    /// Unmakes a null move, given the board before it, giving back the right
    /// to make one.
    pub fn unmake_null_move(&mut self, board: &Board)
        requires
            old(self).wf(),
            board@.side_to_move < 2,
            old(self).nmp_rights.rights & (board@.side_to_move + 1) as u8 == 0,
        ensures
            final(self).board == old(self).board,
            final(self).wf(),
            final(self).histories.board_history@ == if old(self).histories.board_history@.len()
                > 0 {
                old(self).histories.board_history@.drop_last()
            } else {
                old(self).histories.board_history@
            },
            final(self).nmp_rights.rights == old(self).nmp_rights.rights ^ (board@.side_to_move
                + 1) as u8,
            final(self).nmp_rights.rights & (board@.side_to_move + 1) as u8 != 0,
            final(self).tt == old(self).tt,
            final(self).status == old(self).status,
    {
        self.nmp_rights.add_right(board.side_to_move());
        self.pop_board_history();
    }

    /// Adds a history item to the stack, which must not be full.
    fn push_board_history(&mut self, item: HistoryItem)
        requires
            old(self).wf(),
            item_ok(item),
            old(self).histories.board_history@.len() < 255,
        ensures
            final(self).wf(),
            final(self).histories.board_history@ == old(self).histories.board_history@.push(item),
            *final(self) == (Worker { histories: final(self).histories, ..*old(self) }),
            final(self).histories.butterfly_history == old(self).histories.butterfly_history,
    {
        self.histories.board_history.push(item);
    }

    /// Pops a history item off the stack.
    fn pop_board_history(&mut self) -> (item: Option<HistoryItem>)
        requires
            old(self).wf(),
        ensures
            final(self).wf(),
            final(self).histories.board_history@ == if old(self).histories.board_history@.len()
                > 0 {
                old(self).histories.board_history@.drop_last()
            } else {
                old(self).histories.board_history@
            },
            *final(self) == (Worker { histories: final(self).histories, ..*old(self) }),
    {
        self.histories.board_history.pop()
    }
}

/// `info depth `
pub const INFO_DEPTH: [u8; 11] = [105, 110, 102, 111, 32, 100, 101, 112, 116, 104, 32];
/// ` seldepth `
pub const INFO_SELDEPTH: [u8; 10] = [32, 115, 101, 108, 100, 101, 112, 116, 104, 32];
/// ` hashfull `
pub const INFO_HASHFULL: [u8; 10] = [32, 104, 97, 115, 104, 102, 117, 108, 108, 32];
/// ` nodes `
pub const INFO_NODES: [u8; 7] = [32, 110, 111, 100, 101, 115, 32];
/// ` time `
pub const INFO_TIME: [u8; 6] = [32, 116, 105, 109, 101, 32];
/// ` nps `
pub const INFO_NPS: [u8; 5] = [32, 110, 112, 115, 32];
/// ` pv `
pub const INFO_PV: [u8; 4] = [32, 112, 118, 32];

/// The line reporting a completed iteration of the search.
pub open spec fn report_bytes(
    depth: u8,
    seldepth: u8,
    score: Evaluation,
    hashfull: u64,
    nodes: u64,
    time: u64,
    nps: u64,
    pv: Seq<Move>,
) -> Seq<u8> {
    INFO_DEPTH@ + decimal(depth as nat) + INFO_SELDEPTH@ + decimal(seldepth as nat) + seq![32u8]
        + score.uci_bytes() + INFO_HASHFULL@ + decimal(hashfull as nat) + INFO_NODES@ + decimal(
        nodes as nat,
    ) + INFO_TIME@ + decimal(time as nat) + INFO_NPS@ + decimal(nps as nat) + INFO_PV@ + pv_bytes(
        pv,
    )
}

/// Writes the line reporting a completed iteration of the search (see
/// [`report_bytes`]).
pub fn report_line(
    depth: u8,
    seldepth: u8,
    score: Evaluation,
    hashfull: u64,
    nodes: u64,
    time: u64,
    nps: u64,
    pv: &Pv,
) -> (line: Vec<u8>)
    requires
        score.in_range(),
    ensures
        line@ == report_bytes(depth, seldepth, score, hashfull, nodes, time, nps, pv@),
{
    let mut line: Vec<u8> = Vec::new();
    push_all(&mut line, &INFO_DEPTH);
    push_decimal(&mut line, depth as u64);
    push_all(&mut line, &INFO_SELDEPTH);
    push_decimal(&mut line, seldepth as u64);
    line.push(32u8);
    let score_bytes = score.to_bytes();
    push_all(&mut line, score_bytes.as_slice());
    push_all(&mut line, &INFO_HASHFULL);
    push_decimal(&mut line, hashfull);
    push_all(&mut line, &INFO_NODES);
    push_decimal(&mut line, nodes);
    push_all(&mut line, &INFO_TIME);
    push_decimal(&mut line, time);
    push_all(&mut line, &INFO_NPS);
    push_decimal(&mut line, nps);
    push_all(&mut line, &INFO_PV);
    let pv_text = pv.to_bytes();
    push_all(&mut line, pv_text.as_slice());
    line
}

/// The search has reached a limit: its node count, its move time, or the
/// time left on its clock.
pub open spec fn limit_reached(limits: Limits, nodes: u64, elapsed: u64) -> bool {
    match limits {
        Limits::Nodes(n) => nodes >= n,
        Limits::Movetime(m) => elapsed >= m,
        Limits::Timed { time, .. } => elapsed >= time,
        _ => false,
    }
}

/// The status of a running search after it heard `line` from the
/// interface (if anything) with `nodes` searched and `elapsed`
/// milliseconds gone, and whether `readyok` is owed: `stop` stops it and
/// `quit` stops it to exit; otherwise `isready` is answered, and the
/// search stops if a limit is reached and goes on if not.
pub open spec fn status_after(line: Option<Seq<u8>>, limits: Limits, nodes: u64, elapsed: u64) -> (
    SearchStatus,
    bool,
) {
    let command = match line {
        Some(l) => stripped(l),
        None => Seq::empty(),
    };
    if line is Some && command == WORD_STOP@ {
        (SearchStatus::Stop, false)
    } else if line is Some && command == WORD_QUIT@ {
        (SearchStatus::Quit, false)
    } else {
        (
            if limit_reached(limits, nodes, elapsed) {
                SearchStatus::Stop
            } else {
                SearchStatus::Continue
            },
            line is Some && command == WORD_ISREADY@,
        )
    }
}

/// Decides the status of a running search (see [`status_after`]).
pub fn next_status(line: &Option<Vec<u8>>, limits: Limits, nodes: u64, elapsed: u64) -> (result: (
    SearchStatus,
    bool,
))
    ensures
        result == status_after(
            match line {
                Some(l) => Some(l@),
                None => None,
            },
            limits,
            nodes,
            elapsed,
        ),
{
    let mut ready = false;
    match line {
        Some(l) => {
            let (start, end) = trim_bounds(l.as_slice());
            proof {
                lemma_stripped(l@, start as int, end as int);
            }
            if trimmed_is(l.as_slice(), start, end, &WORD_STOP) {
                return (SearchStatus::Stop, false);
            }
            if trimmed_is(l.as_slice(), start, end, &WORD_QUIT) {
                return (SearchStatus::Quit, false);
            }
            ready = trimmed_is(l.as_slice(), start, end, &WORD_ISREADY);
        },
        None => {},
    }
    let reached = match limits {
        Limits::Nodes(n) => nodes >= n,
        Limits::Movetime(m) => elapsed >= m,
        Limits::Timed { time, .. } => elapsed >= time,
        _ => false,
    };
    (if reached {
        SearchStatus::Stop
    } else {
        SearchStatus::Continue
    }, ready)
}

impl Worker {
    /// Checks the status of the search.
    ///
    /// Once the node buffer has just been flushed (and the search is still
    /// going), this reads a line from the interface: `stop` stops the
    /// search, `quit` stops it to exit, `isready` is answered; then the
    /// search stops if it has reached its node count or used its time.
    pub fn check_status(&mut self) -> (status: SearchStatus)
        requires
            old(self).wf(),
        ensures
            final(self).wf(),
            status == final(self).status,
            *final(self) == (Worker { status, ..*old(self) }),
            old(self).status != SearchStatus::Continue || old(self).nodes@.1 != 0 ==> status
                == old(self).status,
            old(self).status == SearchStatus::Continue && old(self).nodes@.1 == 0 ==> exists|
                line: Option<Seq<u8>>,
                elapsed: u64,
            |
                status == #[trigger] status_after(
                    line,
                    old(self).limits,
                    (old(self).nodes@.0 + old(self).nodes@.1) as u64,
                    elapsed,
                ).0,
    {
        let status = self.status;
        if !self.nodes.has_empty_buffer() || status != SearchStatus::Continue {
            return status;
        }
        let line = try_receive(&self.commands);
        let nodes = self.nodes();
        let elapsed = self.elapsed_time();
        let (next, ready) = next_status(&line, self.limits, nodes, elapsed);
        proof {
            let heard = match line {
                Some(l) => Some(l@),
                None => None,
            };
            assert(next == status_after(heard, self.limits, nodes, elapsed).0);
            assert(nodes == (old(self).nodes@.0 + old(self).nodes@.1) as u64);
            assert(self.limits == old(self).limits);
            assert(next == status_after(
                heard,
                old(self).limits,
                (old(self).nodes@.0 + old(self).nodes@.1) as u64,
                elapsed,
            ).0);
        }
        if ready {
            let mut answer: Vec<u8> = Vec::new();
            push_all(&mut answer, &WORD_READYOK);
            send_line(&self.output, answer);
        }
        self.status = next;
        next
    }

    /// Calculates if the iterative deepening loop should be exited after an
    /// iteration of `depth`: the search was stopped, or it has reached its
    /// depth, or (for a timed search) it has used more than 40% of its
    /// allocated time and so is unlikely to finish another iteration.
    pub fn should_stop(&mut self, depth: Depth) -> (stop: bool)
        requires
            old(self).wf(),
        ensures
            final(self).wf(),
            *final(self) == (Worker { status: final(self).status, ..*old(self) }),
            old(self).status != SearchStatus::Continue ==> stop,
            (old(self).limits matches Limits::Depth(d) && depth.0 >= d.0) ==> stop,
            !stop ==> final(self).status == SearchStatus::Continue,
    {
        if self.check_status() != SearchStatus::Continue {
            return true;
        }
        match self.limits {
            Limits::Depth(d) => {
                if depth.0 >= d.0 as i16 {
                    self.status = SearchStatus::Stop;
                    return true;
                }
            },
            Limits::Timed { .. } => {
                let elapsed = self.elapsed_time() as u128;
                if elapsed * 5 > self.allocated as u128 * 2 {
                    self.status = SearchStatus::Stop;
                    return true;
                }
            },
            _ => {},
        }
        false
    }

    /// Returns if the root node should print extra information: the search
    /// may print and has run for more than 3 seconds.
    pub fn should_print(&self) -> (print: bool)
        ensures
            print ==> self.can_print,
    {
        self.can_print && self.elapsed_time() > 3000
    }

    /// Sends the line reporting a completed iteration of the search (see
    /// [`report_line`]).
    pub fn print_report(&self, score: Evaluation, pv: &Pv, depth: Depth)
        requires
            self.wf(),
            score.in_range(),
            0 <= depth.0 <= 255,
    {
        let elapsed = instant_elapsed(&self.start);
        let millis = duration_millis(&elapsed);
        let micros = duration_micros(&elapsed);
        let nodes = self.nodes();
        let time: u64 = if millis > u64::MAX as u128 {
            u64::MAX
        } else {
            millis as u64
        };
        let divisor: u128 = if micros > 1 {
            micros
        } else {
            1
        };
        let nps_wide = 1_000_000 * nodes as u128 / divisor;
        let nps: u64 = if nps_wide > u64::MAX as u128 {
            u64::MAX
        } else {
            nps_wide as u64
        };
        let hashfull = self.tt.estimate_hashfull() as u64;
        let line = report_line(depth.0 as u8, self.seldepth.0, score, hashfull, nodes, time, nps, pv);
        send_line(&self.output, line);
    }
}

} // verus!
