//! Histories of the search: the keys of previous positions, quiet move
//! histories, killers and counter moves.
use vstd::prelude::*;

use crate::board::{Board, Key};
use crate::defs::{Piece, Side, Square};
use crate::evaluation::{trunc_div, CompressedEvaluation, Evaluation};
use crate::movegen::list::{Moves, ScoredMove};
use crate::movegen::Move;
use crate::search::depth::{Depth, Height};
use arrayvec::ArrayVec;

verus! {

/// A piece and its destination square.
#[derive(Clone, Copy, Debug, PartialEq, Eq, Structural)]
pub struct PieceDest {
    pub piece: Piece,
    pub dest: Square,
}

/// An item of the board history.
#[derive(Clone, Copy, Debug, PartialEq, Eq, Structural)]
pub struct HistoryItem {
    /// The key of the item.
    pub key: Key,
    /// The last piece that moved and its destination: `None` after a null
    /// move.
    pub piece_dest: Option<PieceDest>,
}

/// The items an `ArrayVec` of capacity [`Depth::MAX`] holds, in order.
pub uninterp spec fn history_items_in(items: ArrayVec<HistoryItem, 255>) -> Seq<HistoryItem>;

/// `ArrayVec::new`: an empty vector.
#[verifier::external_body]
fn history_array_new() -> (items: ArrayVec<HistoryItem, 255>)
    ensures
        history_items_in(items) == Seq::<HistoryItem>::empty(),
{
    ArrayVec::new()
}

/// `ArrayVec::len`: the number of items held, which the capacity bounds.
#[verifier::external_body]
fn history_array_len(items: &ArrayVec<HistoryItem, 255>) -> (len: usize)
    ensures
        len == history_items_in(*items).len(),
        len <= 255,
{
    items.len()
}

/// `ArrayVec::push`, on a vector that is not full (it panics on a full
/// one): the item goes at the end.
#[verifier::external_body]
fn history_array_push(items: &mut ArrayVec<HistoryItem, 255>, item: HistoryItem)
    requires
        history_items_in(*old(items)).len() < 255,
    ensures
        history_items_in(*final(items)) == history_items_in(*old(items)).push(item),
{
    items.push(item);
}

/// `ArrayVec::pop`: removes and returns the last item, if any.
#[verifier::external_body]
fn history_array_pop(items: &mut ArrayVec<HistoryItem, 255>) -> (item: Option<HistoryItem>)
    ensures
        history_items_in(*old(items)).len() == 0 ==> item is None && history_items_in(
            *final(items),
        ) == history_items_in(*old(items)),
        history_items_in(*old(items)).len() > 0 ==> item == Some(
            history_items_in(*old(items)).last(),
        ) && history_items_in(*final(items)) == history_items_in(*old(items)).drop_last(),
{
    items.pop()
}

/// Indexing through the slice an `ArrayVec` dereferences to: the item at
/// `index`, which must be held.
#[verifier::external_body]
fn history_array_get(items: &ArrayVec<HistoryItem, 255>, index: usize) -> (item: HistoryItem)
    requires
        index < history_items_in(*items).len(),
    ensures
        item == history_items_in(*items)[index as int],
{
    items[index]
}

/// `ArrayVec::clear`: removes every item.
#[verifier::external_body]
fn history_array_clear(items: &mut ArrayVec<HistoryItem, 255>)
    ensures
        history_items_in(*final(items)) == Seq::<HistoryItem>::empty(),
{
    items.clear();
}

/// The history of a board, excluding the current state of the board.
///
/// Each item corresponds to a previous state of the board, and is the
/// previous item with a single move applied to it. Applying a move to the
/// most recent item gives the current board state.
pub struct BoardHistory {
    history: ArrayVec<HistoryItem, 255>,
}

impl View for BoardHistory {
    type V = Seq<HistoryItem>;

    closed spec fn view(&self) -> Seq<HistoryItem> {
        history_items_in(self.history)
    }
}

/// A position with key `key` and `halfmoves` halfmoves since the last
/// capture or pawn move is drawn after the positions `history` (oldest
/// first): by the fifty-move rule, or because it repeats a position with the
/// same side to move since the last irreversible move, the one before last
/// being the nearest such candidate.
pub open spec fn drawn(history: Seq<HistoryItem>, halfmoves: int, key: u64) -> bool {
    halfmoves >= 100 || exists|t: int|
        0 <= t && 2 * t < halfmoves - 3 && 3 + 2 * t < history.len() && (#[trigger] history[history.len()
            - 1 - (3 + 2 * t)]).key == key
}

impl BoardHistory {
    /// Creates a new, empty [`BoardHistory`].
    pub fn new() -> (history: Self)
        ensures
            history@ == Seq::<HistoryItem>::empty(),
    {
        Self { history: history_array_new() }
    }

    /// The number of items.
    pub fn len(&self) -> (len: usize)
        ensures
            len == self@.len(),
            len <= 255,
    {
        history_array_len(&self.history)
    }

    /// The item at `index`, oldest first.
    pub fn get(&self, index: usize) -> (item: HistoryItem)
        requires
            index < self@.len(),
        ensures
            item == self@[index as int],
    {
        history_array_get(&self.history, index)
    }

    /// The most recent item, if any.
    pub fn last(&self) -> (item: Option<HistoryItem>)
        ensures
            item == (if self@.len() > 0 {
                Some(self@.last())
            } else {
                None
            }),
    {
        let len = self.len();
        if len > 0 {
            Some(self.get(len - 1))
        } else {
            None
        }
    }

    /// Adds an item, on a history that is not full.
    pub fn push(&mut self, item: HistoryItem)
        requires
            old(self)@.len() < 255,
        ensures
            final(self)@ == old(self)@.push(item),
    {
        history_array_push(&mut self.history, item);
    }

    /// Removes and returns the most recent item, if any.
    pub fn pop(&mut self) -> (item: Option<HistoryItem>)
        ensures
            old(self)@.len() == 0 ==> item is None && final(self)@ == old(self)@,
            old(self)@.len() > 0 ==> item == Some(old(self)@.last()) && final(self)@ == old(
                self,
            )@.drop_last(),
    {
        history_array_pop(&mut self.history)
    }

    /// Removes every item.
    pub fn clear(&mut self)
        ensures
            final(self)@ == Seq::<HistoryItem>::empty(),
    {
        history_array_clear(&mut self.history);
    }

    /// Sets the items of `self` to those of `other`.
    pub fn set_to(&mut self, other: &Self)
        ensures
            final(self)@ == other@,
    {
        self.clear();
        let len = other.len();
        let mut i: usize = 0;
        while i < len
            invariant
                i <= len == other@.len(),
                len <= 255,
                self@ == other@.take(i as int),
            decreases len - i,
        {
            self.push(other.get(i));
            i = i + 1;
            assert(self@ =~= other@.take(i as int));
        }
        assert(other@.take(len as int) =~= other@);
    }

    /// Checks if the position with key `key`, reached after this history,
    /// is drawn, either because of repetition or because of the fifty-move
    /// rule (see [`drawn`]).
    pub fn is_draw(&self, halfmoves: u8, key: Key) -> (is_draw: bool)
        ensures
            is_draw == drawn(self@, halfmoves as int, key),
    {
        // 50mr
        if halfmoves >= 100 {
            return true;
        }
        let len = self.len();
        // it is impossible to get a repetition within the past 4 halfmoves,
        // and positions with the other side to move can't repeat this one
        let limit: usize = if halfmoves > 3 {
            (halfmoves - 3) as usize
        } else {
            0
        };
        let mut t: usize = 0;
        while 2 * t < limit && 3 + 2 * t < len
            invariant
                len == self@.len(),
                len <= 255,
                limit == if halfmoves > 3 { halfmoves - 3 } else { 0 },
                halfmoves < 100,
                t <= 128,
                forall|u: int|
                    0 <= u < t ==> (#[trigger] self@[self@.len() - 1 - (3 + 2 * u)]).key != key,
            decreases 128 - t,
        {
            let item = self.get(len - 1 - (3 + 2 * t));
            if item.key == key {
                return true;
            }
            t = t + 1;
        }
        proof {
            assert forall|u: int|
                0 <= u && 2 * u < halfmoves - 3 && 3 + 2 * u < self@.len() implies (#[trigger] self@[self@.len()
                - 1 - (3 + 2 * u)]).key != key by {
                assert(u < t);
            }
        }
        false
    }
}

// ---------------------------------------------------------------------------
// Quiet move histories.

/// The maximum of any history value.
pub const MAX_HISTORY_VAL: i32 = 16383;

/// The bonus of a good move at `depth`: 100 per ply, up to 8 plies.
pub open spec fn history_bonus(depth: int) -> int {
    (if depth < 8 { depth } else { 8 }) * 100
}

/// A history value after a bonus (`is_bonus`) or a malus at `depth`: the
/// bonus is lerped between its full value (for a value of 0) and 0 (for a
/// value of [`MAX_HISTORY_VAL`] in its direction), so that values stay
/// within `MAX_HISTORY_VAL` of 0.
pub open spec fn updated_history(value: int, depth: int, is_bonus: bool) -> int {
    let bonus = history_bonus(depth);
    (if is_bonus { bonus } else { -bonus }) - trunc_div(bonus * value, MAX_HISTORY_VAL as int) + value
}

/// The lerped bonus cannot push a value past [`MAX_HISTORY_VAL`]: with
/// `q` the quotient of `b * w` by the maximum, `b + w - q` stays within it.
proof fn lemma_lerp_bound(b: int, w: int, q: int)
    requires
        0 <= w <= MAX_HISTORY_VAL,
        0 <= b <= 800,
        q * MAX_HISTORY_VAL <= b * w < q * MAX_HISTORY_VAL + MAX_HISTORY_VAL,
    ensures
        b + w - q <= MAX_HISTORY_VAL,
        0 <= q <= b,
{
    let m = MAX_HISTORY_VAL as int;
    assert((m - w) * (m - b) >= 0) by (nonlinear_arith)
        requires
            m - w >= 0,
            m - b >= 0,
    ;
    assert(b * w >= m * b + m * w - m * m) by (nonlinear_arith)
        requires
            (m - w) * (m - b) >= 0,
    ;
    assert(q * m > b * w - m);
    assert(q * m > m * (b + w - m - 1)) by (nonlinear_arith)
        requires
            q * m > b * w - m,
            b * w >= m * b + m * w - m * m,
    ;
    assert(q > b + w - m - 1) by (nonlinear_arith)
        requires
            q * m > m * (b + w - m - 1),
            m > 0,
    ;
    assert(0 <= q <= b) by (nonlinear_arith)
        requires
            q * m <= b * w,
            b * w < q * m + m,
            0 <= w <= m,
            0 <= b,
            m > 0,
    ;
}

/// An update keeps a history value within [`MAX_HISTORY_VAL`] of 0.
pub proof fn lemma_updated_history_bound(value: int, depth: int, is_bonus: bool)
    requires
        -MAX_HISTORY_VAL <= value <= MAX_HISTORY_VAL,
        0 <= depth,
    ensures
        -MAX_HISTORY_VAL <= updated_history(value, depth, is_bonus) <= MAX_HISTORY_VAL,
{
    let b = history_bonus(depth);
    let m = MAX_HISTORY_VAL as int;
    assert(0 <= b <= 800);
    let w = if value >= 0 { value } else { -value };
    let q = (b * w) / m;
    assert(q * m <= b * w < q * m + m) by (nonlinear_arith)
        requires
            q == (b * w) / m,
            m > 0,
            b * w >= 0,
    ;
    lemma_lerp_bound(b, w, q);
    if value >= 0 {
        assert(trunc_div(b * value, m) == q);
    } else {
        assert(b * value == -(b * w)) by (nonlinear_arith)
            requires
                w == -value,
        ;
        assert(trunc_div(b * value, m) == -q);
    }
}

// ---------------------------------------------------------------------------
// The tables.

/// The number of entries of the butterfly history: side, start, end.
pub const BUTTERFLY_SIZE: usize = 8192;
/// The number of entries of the continuation history: previous piece,
/// previous end, piece, end.
pub const CONTINUATION_SIZE: usize = 589824;
/// The number of heights with killers.
pub const KILLER_HEIGHTS: usize = 256;
/// The number of entries of the counter moves: piece, destination.
pub const COUNTER_SIZE: usize = 768;

/// Where the butterfly history keeps a move of `side` from `start` to `end`.
pub open spec fn butterfly_index(side: int, start: int, end: int) -> int {
    side * 4096 + start * 64 + end
}

/// Where the continuation history keeps `piece` going to `end` after
/// `prev_piece` went to `prev_end`.
pub open spec fn continuation_index(prev_piece: int, prev_end: int, piece: int, end: int) -> int {
    ((prev_piece * 64 + prev_end) * 12 + piece) * 64 + end
}

/// Where the counter moves keep the answer to `piece` landing on `dest`.
pub open spec fn counter_index(piece: int, dest: int) -> int {
    piece * 64 + dest
}

/// Every value of a history table is within [`MAX_HISTORY_VAL`] of 0.
pub open spec fn bounded(table: Seq<CompressedEvaluation>) -> bool {
    forall|i: int| 0 <= i < table.len() ==> -MAX_HISTORY_VAL <= #[trigger] table[i].0 <= MAX_HISTORY_VAL
}

/// A table of `len` zeroes.
pub open spec fn zeroes(table: Seq<CompressedEvaluation>, len: int) -> bool {
    table.len() == len && forall|i: int| 0 <= i < len ==> #[trigger] table[i].0 == 0
}

/// A table entry after an update.
pub open spec fn updated_entry(entry: CompressedEvaluation, depth: int, is_bonus: bool) -> CompressedEvaluation {
    CompressedEvaluation(updated_history(entry.0 as int, depth, is_bonus) as i16)
}

/// The butterfly history after updating it, in order, for each of `moves`
/// of `side`: a bonus for `best`, a malus for the others.
pub open spec fn butterfly_after(
    table: Seq<CompressedEvaluation>,
    moves: Seq<ScoredMove>,
    best: Move,
    side: int,
    depth: int,
) -> Seq<CompressedEvaluation>
    decreases moves.len(),
{
    if moves.len() == 0 {
        table
    } else {
        let before = butterfly_after(table, moves.drop_last(), best, side, depth);
        let mv = moves.last().mv;
        let i = butterfly_index(side, mv.start_sq(), mv.end_sq());
        before.update(i, updated_entry(before[i], depth, mv == best))
    }
}

/// The continuation history after updating it, in order, for each of
/// `moves` following `prev`, each move's piece read off `mailbox`.
pub open spec fn continuation_after_moves(
    table: Seq<CompressedEvaluation>,
    moves: Seq<ScoredMove>,
    mailbox: Seq<Piece>,
    prev: PieceDest,
    best: Move,
    depth: int,
) -> Seq<CompressedEvaluation>
    decreases moves.len(),
{
    if moves.len() == 0 {
        table
    } else {
        let before = continuation_after_moves(table, moves.drop_last(), mailbox, prev, best, depth);
        let mv = moves.last().mv;
        let i = continuation_index(
            prev.piece.0 as int,
            prev.dest.0 as int,
            mailbox[mv.start_sq()].0 as int,
            mv.end_sq(),
        );
        before.update(i, updated_entry(before[i], depth, mv == best))
    }
}

/// The history items a continuation is measured from: the last two, most
/// recent first.
pub open spec fn recent_items(history: Seq<HistoryItem>) -> Seq<HistoryItem> {
    if history.len() >= 2 {
        seq![history[history.len() - 1], history[history.len() - 2]]
    } else {
        history
    }
}

/// The continuation history after updating it for each of `items` in
/// order, those after a null move being skipped.
pub open spec fn continuation_after(
    table: Seq<CompressedEvaluation>,
    items: Seq<HistoryItem>,
    moves: Seq<ScoredMove>,
    mailbox: Seq<Piece>,
    best: Move,
    depth: int,
) -> Seq<CompressedEvaluation>
    decreases items.len(),
{
    if items.len() == 0 {
        table
    } else {
        let before = continuation_after(table, items.drop_last(), moves, mailbox, best, depth);
        match items.last().piece_dest {
            Some(prev) => continuation_after_moves(before, moves, mailbox, prev, best, depth),
            None => before,
        }
    }
}

/// The continuation score of `piece` going to `end` after `items`: the sum
/// of the entries for each item that was not a null move.
pub open spec fn continuation_sum(
    table: Seq<CompressedEvaluation>,
    items: Seq<HistoryItem>,
    piece: int,
    end: int,
) -> int
    decreases items.len(),
{
    if items.len() == 0 {
        0
    } else {
        continuation_sum(table, items.drop_last(), piece, end) + match items.last().piece_dest {
            Some(prev) => table[continuation_index(
                prev.piece.0 as int,
                prev.dest.0 as int,
                piece,
                end,
            )].0 as int,
            None => 0,
        }
    }
}

/// A history item refers to a real piece on a real square, if to any.
pub open spec fn item_ok(item: HistoryItem) -> bool {
    match item.piece_dest {
        Some(pd) => pd.piece.0 < 12 && pd.dest.0 < 64,
        None => true,
    }
}

/// A struct containing various histories relating to the board.
pub struct Histories {
    /// A history of bonuses for previous quiets, indexed by side to move,
    /// start square then end square (see [`butterfly_index`]).
    ///
    /// So called because the wasted space looks a little like a butterfly's
    /// wings.
    pub butterfly_history: Vec<CompressedEvaluation>,
    /// A score for a piece/destination square depending on the previous
    /// piece that moved and its destination square, indexed by previous
    /// piece, previous end square, current piece then current end square
    /// (see [`continuation_index`]).
    pub continuation_history: Vec<CompressedEvaluation>,
    /// For each height, the best moves from previous searches at the same
    /// height.
    pub killers: Vec<[Option<Move>; 2]>,
    /// The previous best response to a certain piece landing on a certain
    /// square (see [`counter_index`]).
    pub counter_moves: Vec<Option<Move>>,
    /// A stack of keys of previous board states, beginning from the initial
    /// `position fen ...` command.
    pub board_history: BoardHistory,
}

/// A table of `len` zero entries.
fn zero_table(len: usize) -> (table: Vec<CompressedEvaluation>)
    ensures
        zeroes(table@, len as int),
{
    let mut table: Vec<CompressedEvaluation> = Vec::with_capacity(len);
    let mut i: usize = 0;
    while i < len
        invariant
            i <= len,
            table@.len() == i,
            forall|j: int| 0 <= j < i ==> #[trigger] table@[j].0 == 0,
        decreases len - i,
    {
        table.push(CompressedEvaluation(0));
        i = i + 1;
    }
    table
}

/// A table of `len` empty moves.
fn empty_move_table(len: usize) -> (table: Vec<Option<Move>>)
    ensures
        table@.len() == len,
        forall|i: int| 0 <= i < len ==> #[trigger] table@[i] is None,
{
    let mut table: Vec<Option<Move>> = Vec::with_capacity(len);
    let mut i: usize = 0;
    while i < len
        invariant
            i <= len,
            table@.len() == i,
            forall|j: int| 0 <= j < i ==> #[trigger] table@[j] is None,
        decreases len - i,
    {
        table.push(None);
        i = i + 1;
    }
    table
}

impl Histories {
    /// The tables have their sizes and the history values their bounds.
    pub open spec fn wf(&self) -> bool {
        &&& self.butterfly_history@.len() == BUTTERFLY_SIZE
        &&& self.continuation_history@.len() == CONTINUATION_SIZE
        &&& self.killers@.len() == KILLER_HEIGHTS
        &&& self.counter_moves@.len() == COUNTER_SIZE
        &&& bounded(self.butterfly_history@)
        &&& bounded(self.continuation_history@)
    }

    /// Creates new, empty [`Histories`].
    pub fn new() -> (histories: Self)
        ensures
            histories.wf(),
            zeroes(histories.butterfly_history@, BUTTERFLY_SIZE as int),
            zeroes(histories.continuation_history@, CONTINUATION_SIZE as int),
            forall|h: int| 0 <= h < KILLER_HEIGHTS ==> #[trigger] histories.killers@[h] == [
                None::<Move>,
                None,
            ],
            forall|i: int| 0 <= i < COUNTER_SIZE ==> #[trigger] histories.counter_moves@[i] is None,
            histories.board_history@ == Seq::<HistoryItem>::empty(),
    {
        let mut killers: Vec<[Option<Move>; 2]> = Vec::with_capacity(KILLER_HEIGHTS);
        let mut i: usize = 0;
        while i < KILLER_HEIGHTS
            invariant
                i <= KILLER_HEIGHTS,
                killers@.len() == i,
                forall|h: int| 0 <= h < i ==> #[trigger] killers@[h] == [None::<Move>, None],
            decreases KILLER_HEIGHTS - i,
        {
            killers.push([None, None]);
            i = i + 1;
        }
        Self {
            butterfly_history: zero_table(BUTTERFLY_SIZE),
            continuation_history: zero_table(CONTINUATION_SIZE),
            killers,
            counter_moves: empty_move_table(COUNTER_SIZE),
            board_history: BoardHistory::new(),
        }
    }

    /// Clears all the histories apart from the board history and the killers
    /// of heights above 0.
    pub fn clear(&mut self)
        requires
            old(self).wf(),
        ensures
            final(self).wf(),
            zeroes(final(self).butterfly_history@, BUTTERFLY_SIZE as int),
            zeroes(final(self).continuation_history@, CONTINUATION_SIZE as int),
            forall|i: int| 0 <= i < COUNTER_SIZE ==> #[trigger] final(self).counter_moves@[i] is None,
            final(self).killers@ == old(self).killers@.update(0, [None::<Move>, None]),
            final(self).board_history@ == old(self).board_history@,
    {
        self.butterfly_history = zero_table(BUTTERFLY_SIZE);
        self.continuation_history = zero_table(CONTINUATION_SIZE);
        self.counter_moves = empty_move_table(COUNTER_SIZE);
        self.killers.set(0, [None, None]);
    }

    /// The bonus of a good move: 100 per ply of depth, up to 8 plies.
    fn bonus(depth: Depth) -> (bonus: Evaluation)
        requires
            depth.0 >= 0,
        ensures
            bonus.0 == history_bonus(depth.0 as int),
    {
        let d: i32 = if depth.0 < 8 {
            depth.0 as i32
        } else {
            8
        };
        Evaluation(d * 100)
    }

    /// Updates a particular item of a history table, with a bonus
    /// (`is_bonus`) or a malus.
    fn update_history_value(value: &mut CompressedEvaluation, depth: Depth, is_bonus: bool)
        requires
            -MAX_HISTORY_VAL <= old(value).0 <= MAX_HISTORY_VAL,
            depth.0 >= 0,
        ensures
            *final(value) == updated_entry(*old(value), depth.0 as int, is_bonus),
            -MAX_HISTORY_VAL <= final(value).0 <= MAX_HISTORY_VAL,
    {
        let abs_bonus = Self::bonus(depth);
        let signed_bonus = if is_bonus {
            abs_bonus.0
        } else {
            -abs_bonus.0
        };
        let v = value.0 as i32;
        proof {
            lemma_updated_history_bound(v as int, depth.0 as int, is_bonus);
        }
        assert(-800 * 16383 <= abs_bonus.0 * v <= 800 * 16383) by (nonlinear_arith)
            requires
                0 <= abs_bonus.0 <= 800,
                -16383 <= v <= 16383,
        ;
        let product = abs_bonus.0 * v;
        let quotient = if product >= 0 {
            product / MAX_HISTORY_VAL
        } else {
            -((-product) / MAX_HISTORY_VAL)
        };
        let delta = signed_bonus - quotient;
        *value = CompressedEvaluation((v + delta) as i16);
    }

    /// Updates the butterfly history with a bonus for `best_move` and a
    /// malus for all other moves in `quiet_moves`, in order.
    ///
    /// `quiet_moves` may or may not contain `best_move`.
    pub fn update_butterfly_history(&mut self, quiet_moves: &Moves, best_move: Move, side: Side, depth: Depth)
        requires
            old(self).wf(),
            side.0 < 2,
            depth.0 >= 0,
        ensures
            final(self).wf(),
            final(self).butterfly_history@ == butterfly_after(
                old(self).butterfly_history@,
                quiet_moves@,
                best_move,
                side.0 as int,
                depth.0 as int,
            ),
            final(self).continuation_history@ == old(self).continuation_history@,
            final(self).killers@ == old(self).killers@,
            final(self).counter_moves@ == old(self).counter_moves@,
            final(self).board_history@ == old(self).board_history@,
    {
        let side_index = side.0 as usize;
        let len = quiet_moves.len();
        let mut i: usize = 0;
        while i < len
            invariant
                i <= len == quiet_moves@.len(),
                side_index == side.0 < 2,
                depth.0 >= 0,
                self.wf(),
                self.butterfly_history@ == butterfly_after(
                    old(self).butterfly_history@,
                    quiet_moves@.take(i as int),
                    best_move,
                    side.0 as int,
                    depth.0 as int,
                ),
                self.continuation_history@ == old(self).continuation_history@,
                self.killers@ == old(self).killers@,
                self.counter_moves@ == old(self).counter_moves@,
                self.board_history@ == old(self).board_history@,
            decreases len - i,
        {
            let mv = quiet_moves.get(i).mv;
            let start = mv.start().0 as usize;
            let end = mv.end().0 as usize;
            let index = side_index * 4096 + start * 64 + end;
            let mut value = self.butterfly_history[index];
            Self::update_history_value(&mut value, depth, best_move == mv);
            self.butterfly_history.set(index, value);
            proof {
                let next = quiet_moves@.take(i + 1);
                assert(next.drop_last() =~= quiet_moves@.take(i as int));
                assert(next.last() == quiet_moves@[i as int]);
                assert(bounded(self.butterfly_history@));
            }
            i = i + 1;
        }
        assert(quiet_moves@.take(len as int) =~= quiet_moves@);
    }

    /// Returns the butterfly score of a move by the given side from `start`
    /// to `end`.
    pub fn butterfly_score(&self, side: Side, start: Square, end: Square) -> (score: Evaluation)
        requires
            self.wf(),
            side.0 < 2,
            start.valid(),
            end.valid(),
        ensures
            score.0 == self.butterfly_history@[butterfly_index(
                side.0 as int,
                start.0 as int,
                end.0 as int,
            )].0,
    {
        let index = side.0 as usize * 4096 + start.0 as usize * 64 + end.0 as usize;
        Evaluation(self.butterfly_history[index].0 as i32)
    }

    /// Updates the continuation history with a bonus for `best_move` and a
    /// malus for all other moves in `quiet_moves`, following each of the
    /// last two moves of the board history that were not null moves, the
    /// most recent first. The piece of each move is the one on its start
    /// square on `board`.
    ///
    /// `quiet_moves` may or may not contain `best_move`.
    pub fn update_continuation_history(
        &mut self,
        board: &Board,
        quiet_moves: &Moves,
        best_move: Move,
        depth: Depth,
    )
        requires
            old(self).wf(),
            board.wf(),
            depth.0 >= 0,
            forall|k: int|
                0 <= k < recent_items(old(self).board_history@).len() ==> item_ok(
                    #[trigger] recent_items(old(self).board_history@)[k],
                ),
            forall|i: int|
                0 <= i < quiet_moves@.len() ==> board@.mailbox[(#[trigger] quiet_moves@[i]).mv.start_sq()].0
                    < 12,
        ensures
            final(self).wf(),
            final(self).continuation_history@ == continuation_after(
                old(self).continuation_history@,
                recent_items(old(self).board_history@),
                quiet_moves@,
                board@.mailbox,
                best_move,
                depth.0 as int,
            ),
            final(self).butterfly_history@ == old(self).butterfly_history@,
            final(self).killers@ == old(self).killers@,
            final(self).counter_moves@ == old(self).counter_moves@,
            final(self).board_history@ == old(self).board_history@,
    {
        let ghost items = recent_items(self.board_history@);
        let history_len = self.board_history.len();
        let count: usize = if history_len >= 2 {
            2
        } else {
            history_len
        };
        let moves_len = quiet_moves.len();
        let mut k: usize = 0;
        while k < count
            invariant
                k <= count == items.len(),
                history_len == self.board_history@.len(),
                items == recent_items(self.board_history@),
                moves_len == quiet_moves@.len(),
                board.wf(),
                depth.0 >= 0,
                forall|j: int| 0 <= j < items.len() ==> item_ok(#[trigger] items[j]),
                forall|i: int|
                    0 <= i < quiet_moves@.len() ==> board@.mailbox[(#[trigger] quiet_moves@[i]).mv.start_sq()].0
                        < 12,
                self.wf(),
                self.continuation_history@ == continuation_after(
                    old(self).continuation_history@,
                    items.take(k as int),
                    quiet_moves@,
                    board@.mailbox,
                    best_move,
                    depth.0 as int,
                ),
                self.butterfly_history@ == old(self).butterfly_history@,
                self.killers@ == old(self).killers@,
                self.counter_moves@ == old(self).counter_moves@,
                self.board_history@ == old(self).board_history@,
            decreases count - k,
        {
            let item = self.board_history.get(history_len - 1 - k);
            assert(item == items[k as int]);
            assert(items.take(k + 1).drop_last() =~= items.take(k as int));
            assert(items.take(k + 1).last() == items[k as int]);
            assert(item_ok(items[k as int]));
            match item.piece_dest {
                Some(prev) => {
                    let ghost before = self.continuation_history@;
                    let prev_base = (prev.piece.0 as usize * 64 + prev.dest.0 as usize) * 12;
                    let mut i: usize = 0;
                    while i < moves_len
                        invariant
                            i <= moves_len == quiet_moves@.len(),
                            prev.piece.0 < 12,
                            prev.dest.0 < 64,
                            prev_base == (prev.piece.0 * 64 + prev.dest.0) * 12,
                            board.wf(),
                            depth.0 >= 0,
                            forall|j: int|
                                0 <= j < quiet_moves@.len() ==> board@.mailbox[(
                                #[trigger] quiet_moves@[j]).mv.start_sq()].0 < 12,
                            self.wf(),
                            self.continuation_history@ == continuation_after_moves(
                                before,
                                quiet_moves@.take(i as int),
                                board@.mailbox,
                                prev,
                                best_move,
                                depth.0 as int,
                            ),
                            self.butterfly_history@ == old(self).butterfly_history@,
                            self.killers@ == old(self).killers@,
                            self.counter_moves@ == old(self).counter_moves@,
                            self.board_history@ == old(self).board_history@,
                        decreases moves_len - i,
                    {
                        let mv = quiet_moves.get(i).mv;
                        let piece = board.piece_on(mv.start());
                        assert(piece.0 < 12) by {
                            assert(board@.mailbox[quiet_moves@[i as int].mv.start_sq()].0 < 12);
                        }
                        let end = mv.end().0 as usize;
                        let index = ((prev_base + piece.0 as usize) * 64) + end;
                        let mut value = self.continuation_history[index];
                        Self::update_history_value(&mut value, depth, best_move == mv);
                        self.continuation_history.set(index, value);
                        proof {
                            let next = quiet_moves@.take(i + 1);
                            assert(next.drop_last() =~= quiet_moves@.take(i as int));
                            assert(next.last() == quiet_moves@[i as int]);
                            assert(bounded(self.continuation_history@));
                        }
                        i = i + 1;
                    }
                    assert(quiet_moves@.take(moves_len as int) =~= quiet_moves@);
                },
                None => {},
            }
            k = k + 1;
        }
        assert(items.take(count as int) =~= items);
    }

    /// Returns the continuation score of the given piece moving to the given
    /// square, summed over the last two moves of the board history that
    /// were not null moves.
    pub fn continuation_history_score(&self, piece: Piece, end: Square) -> (score: Evaluation)
        requires
            self.wf(),
            piece.valid(),
            end.valid(),
            forall|k: int|
                0 <= k < recent_items(self.board_history@).len() ==> item_ok(
                    #[trigger] recent_items(self.board_history@)[k],
                ),
        ensures
            score.0 == continuation_sum(
                self.continuation_history@,
                recent_items(self.board_history@),
                piece.0 as int,
                end.0 as int,
            ),
    {
        let ghost items = recent_items(self.board_history@);
        let history_len = self.board_history.len();
        let count: usize = if history_len >= 2 {
            2
        } else {
            history_len
        };
        let mut sum: i32 = 0;
        let mut k: usize = 0;
        while k < count
            invariant
                k <= count == items.len(),
                count <= 2,
                history_len == self.board_history@.len(),
                items == recent_items(self.board_history@),
                piece.valid(),
                end.valid(),
                forall|j: int| 0 <= j < items.len() ==> item_ok(#[trigger] items[j]),
                self.wf(),
                sum == continuation_sum(
                    self.continuation_history@,
                    items.take(k as int),
                    piece.0 as int,
                    end.0 as int,
                ),
                -16383 * k <= sum <= 16383 * k,
            decreases count - k,
        {
            let item = self.board_history.get(history_len - 1 - k);
            assert(item == items[k as int]);
            assert(items.take(k + 1).drop_last() =~= items.take(k as int));
            assert(items.take(k + 1).last() == items[k as int]);
            assert(item_ok(items[k as int]));
            match item.piece_dest {
                Some(prev) => {
                    let index = ((prev.piece.0 as usize * 64 + prev.dest.0 as usize) * 12
                        + piece.0 as usize) * 64 + end.0 as usize;
                    let value = self.continuation_history[index].0 as i32;
                    assert(-MAX_HISTORY_VAL <= self.continuation_history@[index as int].0 <= MAX_HISTORY_VAL);
                    sum = sum + value;
                },
                None => {},
            }
            k = k + 1;
        }
        assert(items.take(count as int) =~= items);
        Evaluation(sum)
    }

    /// Makes `mv` the first killer of `height`, the previous first killer
    /// becoming the second, unless `mv` is already the first killer.
    pub fn insert_into_killers(&mut self, height: Height, mv: Move)
        requires
            old(self).wf(),
        ensures
            final(self).wf(),
            final(self).killers@ == (if old(self).killers@[height.0 as int][0] == Some(mv) {
                old(self).killers@
            } else {
                old(self).killers@.update(
                    height.0 as int,
                    [Some(mv), old(self).killers@[height.0 as int][0]],
                )
            }),
            final(self).butterfly_history@ == old(self).butterfly_history@,
            final(self).continuation_history@ == old(self).continuation_history@,
            final(self).counter_moves@ == old(self).counter_moves@,
            final(self).board_history@ == old(self).board_history@,
    {
        let h = height.0 as usize;
        let current = self.killers[h];
        let is_first = match current[0] {
            Some(first) => first == mv,
            None => false,
        };
        if is_first {
            return;
        }
        self.killers.set(h, [Some(mv), current[0]]);
    }

    /// Returns the killers of the given height.
    pub fn current_killers(&self, height: Height) -> (killers: [Option<Move>; 2])
        requires
            self.wf(),
        ensures
            killers == self.killers@[height.0 as int],
    {
        self.killers[height.0 as usize]
    }

    /// Clears the killers of the height after the given one, which must not
    /// be the last.
    pub fn clear_next_killers(&mut self, height: Height)
        requires
            old(self).wf(),
            height.0 < 255,
        ensures
            final(self).wf(),
            final(self).killers@ == old(self).killers@.update(height.0 + 1, [None::<Move>, None]),
            final(self).butterfly_history@ == old(self).butterfly_history@,
            final(self).continuation_history@ == old(self).continuation_history@,
            final(self).counter_moves@ == old(self).counter_moves@,
            final(self).board_history@ == old(self).board_history@,
    {
        self.killers.set(height.0 as usize + 1, [None, None]);
    }

    /// Records `mv` as the answer to the move of `history_item`, unless
    /// that was a null move.
    pub fn insert_into_counter_moves(&mut self, history_item: HistoryItem, mv: Move)
        requires
            old(self).wf(),
            item_ok(history_item),
        ensures
            final(self).wf(),
            final(self).counter_moves@ == match history_item.piece_dest {
                Some(pd) => old(self).counter_moves@.update(
                    counter_index(pd.piece.0 as int, pd.dest.0 as int),
                    Some(mv),
                ),
                None => old(self).counter_moves@,
            },
            final(self).butterfly_history@ == old(self).butterfly_history@,
            final(self).continuation_history@ == old(self).continuation_history@,
            final(self).killers@ == old(self).killers@,
            final(self).board_history@ == old(self).board_history@,
    {
        if let Some(piece_dest) = history_item.piece_dest {
            let index = piece_dest.piece.0 as usize * 64 + piece_dest.dest.0 as usize;
            self.counter_moves.set(index, Some(mv));
        }
    }

    /// Gets the answer recorded to the move of `history_item`, if any.
    pub fn counter_move(&self, history_item: HistoryItem) -> (mv: Option<Move>)
        requires
            self.wf(),
            item_ok(history_item),
        ensures
            mv == match history_item.piece_dest {
                Some(pd) => self.counter_moves@[counter_index(pd.piece.0 as int, pd.dest.0 as int)],
                None => None,
            },
    {
        match history_item.piece_dest {
            Some(piece_dest) => {
                let index = piece_dest.piece.0 as usize * 64 + piece_dest.dest.0 as usize;
                self.counter_moves[index]
            },
            None => None,
        }
    }
}

/// The fifty-move rule and repetition, counted in plies back from the
/// current position (the last item of the history is one ply back): below
/// 100 halfmoves, a position is drawn exactly when a position an even
/// number of plies back, at least four and at most the halfmoves since the
/// last irreversible move, has its key. Positions two plies back cannot
/// repeat it, and those an odd number back have the other side to move.
pub proof fn lemma_drawn_by_repetition(history: Seq<HistoryItem>, halfmoves: int, key: u64)
    ensures
        drawn(history, halfmoves, key) <==> halfmoves >= 100 || exists|plies: int|
            4 <= plies <= halfmoves && plies % 2 == 0 && plies <= history.len() && (#[trigger] history[history.len() - plies]).key
                == key,
{
    if halfmoves < 100 {
        if drawn(history, halfmoves, key) {
            let t = choose|t: int|
                0 <= t && 2 * t < halfmoves - 3 && 3 + 2 * t < history.len() && (#[trigger] history[history.len()
                    - 1 - (3 + 2 * t)]).key == key;
            let plies = 2 * t + 4;
            assert(history[history.len() - plies] == history[history.len() - 1 - (3 + 2 * t)]);
        }
        if exists|plies: int|
            4 <= plies <= halfmoves && plies % 2 == 0 && plies <= history.len() && (#[trigger] history[history.len() - plies]).key
                == key {
            let plies = choose|plies: int|
                4 <= plies <= halfmoves && plies % 2 == 0 && plies <= history.len() && (#[trigger] history[history.len() - plies]).key
                    == key;
            let t = (plies - 4) / 2;
            assert(history[history.len() - 1 - (3 + 2 * t)] == history[history.len() - plies]);
        }
    }
}

} // verus!
