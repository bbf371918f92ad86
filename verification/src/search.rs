//! Items related to searching: the limits and status of a search, the
//! principal variation, null move rights and the pruning and reduction
//! formulas.
use vstd::prelude::*;

use crate::defs::Side;
use crate::evaluation::Evaluation;
use crate::lookups::reductions::{base_reduction_of, base_reductions};
use crate::movegen::{move_bytes, Move};
use crate::util::push_all;
use arrayvec::ArrayVec;
use depth::{CompressedDepth, Depth};

pub mod alpha_beta_search;
pub mod aspiration;
pub mod depth;
pub mod history;
pub mod iterative_deepening;
pub mod movepick;
pub mod outside;
pub mod time;
pub mod worker;

verus! {

/// A marker for a type of node to allow searches with generic node types.
pub trait Node {
    /// The node may be in the final principal variation.
    spec fn is_pv() -> bool;

    /// The node is the root of the search.
    spec fn is_root() -> bool;

    /// See [`Node::is_pv`].
    fn node_is_pv() -> (b: bool)
        ensures
            b == Self::is_pv(),
    ;

    /// See [`Node::is_root`].
    fn node_is_root() -> (b: bool)
        ensures
            b == Self::is_root(),
    ;
}

/// A node with a zero window: it is expected not to be in the final PV.
pub struct NonPvNode;

/// A node that could be in the final PV.
pub struct PvNode;

/// The node from which the search starts.
pub struct RootNode;

impl Node for NonPvNode {
    open spec fn is_pv() -> bool {
        false
    }

    open spec fn is_root() -> bool {
        false
    }

    fn node_is_pv() -> (b: bool) {
        false
    }

    fn node_is_root() -> (b: bool) {
        false
    }
}

impl Node for PvNode {
    open spec fn is_pv() -> bool {
        true
    }

    open spec fn is_root() -> bool {
        false
    }

    fn node_is_pv() -> (b: bool) {
        true
    }

    fn node_is_root() -> (b: bool) {
        false
    }
}

impl Node for RootNode {
    open spec fn is_pv() -> bool {
        true
    }

    open spec fn is_root() -> bool {
        true
    }

    fn node_is_pv() -> (b: bool) {
        true
    }

    fn node_is_root() -> (b: bool) {
        true
    }
}

/// The type of a search and its limits. Times are in milliseconds.
#[derive(Clone, Copy, Debug, PartialEq, Eq, Structural)]
pub enum Limits {
    /// Go under timed conditions.
    Timed {
        /// The time left.
        time: u64,
        /// The increment.
        inc: u64,
        /// Moves until the next time control: [`Depth::MAX`] if not given.
        moves_to_go: CompressedDepth,
    },
    /// Go to an exact depth.
    Depth(CompressedDepth),
    /// Go to an an exact number of nodes.
    Nodes(u64),
    /// Go for an exact amount of time.
    Movetime(u64),
    /// Go until told to stop.
    Infinite,
}

/// The current status of the search.
#[derive(Clone, Copy, Debug, PartialEq, Eq, Structural)]
pub enum SearchStatus {
    /// Do nothing: continue the search as normal.
    Continue,
    /// Stop the search.
    Stop,
    /// Stop the search and then exit the process.
    Quit,
}

/// Whether White, Black or both sides can do a null move within a search.
#[derive(Clone, Copy, Debug, PartialEq, Eq, Structural)]
pub struct NmpRights {
    /// Bit `side + 1` is set when `side` may make a null move.
    pub rights: u8,
}

/// Moves in long algebraic notation, separated by spaces.
pub open spec fn pv_bytes(moves: Seq<Move>) -> Seq<u8>
    decreases moves.len(),
{
    if moves.len() == 0 {
        Seq::empty()
    } else if moves.len() == 1 {
        move_bytes(moves[0])
    } else {
        pv_bytes(moves.drop_last()) + seq![32u8] + move_bytes(moves.last())
    }
}

/// The moves an `ArrayVec` of capacity [`Depth::MAX`] holds, in order.
pub uninterp spec fn pv_moves_in(moves: ArrayVec<Move, 255>) -> Seq<Move>;

/// `ArrayVec::new`: an empty vector.
#[verifier::external_body]
fn pv_array_new() -> (moves: ArrayVec<Move, 255>)
    ensures
        pv_moves_in(moves) == Seq::<Move>::empty(),
{
    ArrayVec::new()
}

/// `ArrayVec::len`: the number of moves held, which the capacity bounds.
#[verifier::external_body]
fn pv_array_len(moves: &ArrayVec<Move, 255>) -> (len: usize)
    ensures
        len == pv_moves_in(*moves).len(),
        len <= 255,
{
    moves.len()
}

/// `ArrayVec::push`, on a vector that is not full (it panics on a full
/// one): the move goes at the end.
#[verifier::external_body]
fn pv_array_push(moves: &mut ArrayVec<Move, 255>, mv: Move)
    requires
        pv_moves_in(*old(moves)).len() < 255,
    ensures
        pv_moves_in(*final(moves)) == pv_moves_in(*old(moves)).push(mv),
{
    moves.push(mv);
}

/// Indexing through the slice an `ArrayVec` dereferences to: the move at
/// `index`, which must be held.
#[verifier::external_body]
fn pv_array_get(moves: &ArrayVec<Move, 255>, index: usize) -> (mv: Move)
    requires
        index < pv_moves_in(*moves).len(),
    ensures
        mv == pv_moves_in(*moves)[index as int],
{
    moves[index]
}

/// `ArrayVec::clear`: removes every move.
#[verifier::external_body]
fn pv_array_clear(moves: &mut ArrayVec<Move, 255>)
    ensures
        pv_moves_in(*final(moves)) == Seq::<Move>::empty(),
{
    moves.clear();
}

/// The principal variation: the current best sequence of moves for both
/// sides.
pub struct Pv {
    /// A non-circular queue of moves.
    moves: ArrayVec<Move, 255>,
}

impl View for Pv {
    type V = Seq<Move>;

    closed spec fn view(&self) -> Seq<Move> {
        pv_moves_in(self.moves)
    }
}

impl Limits {
    /// The default limits: go until told to stop.
    pub fn default() -> (limits: Self)
        ensures
            limits == Limits::Infinite,
    {
        Limits::Infinite
    }

    /// Sets the increment.
    ///
    /// If `self` is not [`Timed`](Self::Timed), it will be set to
    /// [`Infinite`](Self::Infinite).
    pub fn set_inc(&mut self, increment: u64)
        ensures
            *final(self) == (match *old(self) {
                Limits::Timed { time, moves_to_go, .. } => Limits::Timed {
                    time,
                    inc: increment,
                    moves_to_go,
                },
                _ => Limits::Infinite,
            }),
    {
        match *self {
            Limits::Timed { time, moves_to_go, .. } => {
                *self = Limits::Timed { time, inc: increment, moves_to_go };
            },
            _ => {
                *self = Limits::Infinite;
            },
        }
    }

    /// Sets the moves to go until the next time control.
    ///
    /// If `self` is not [`Timed`](Self::Timed), it will be set to
    /// [`Infinite`](Self::Infinite).
    pub fn set_moves_to_go(&mut self, mtg: CompressedDepth)
        ensures
            *final(self) == (match *old(self) {
                Limits::Timed { time, inc, .. } => Limits::Timed { time, inc, moves_to_go: mtg },
                _ => Limits::Infinite,
            }),
    {
        match *self {
            Limits::Timed { time, inc, .. } => {
                *self = Limits::Timed { time, inc, moves_to_go: mtg };
            },
            _ => {
                *self = Limits::Infinite;
            },
        }
    }

    /// Constructs a new [`Limits::Timed`] variant with the given time, no
    /// increment and the maximum moves to go.
    pub fn new_timed(time: u64) -> (limits: Self)
        ensures
            limits == (Limits::Timed { time, inc: 0, moves_to_go: CompressedDepth(255) }),
    {
        Limits::Timed { time, inc: 0, moves_to_go: CompressedDepth(255) }
    }
}

impl SearchStatus {
    /// The status of a number: 0 continues, 1 stops and anything else quits.
    pub fn from_number(number: u8) -> (status: Self)
        ensures
            status == (if number == 0 {
                SearchStatus::Continue
            } else if number == 1 {
                SearchStatus::Stop
            } else {
                SearchStatus::Quit
            }),
    {
        if number == 0 {
            SearchStatus::Continue
        } else if number == 1 {
            SearchStatus::Stop
        } else {
            SearchStatus::Quit
        }
    }

    /// The number of a status: 0, 1 and 2 in the order of the variants.
    pub fn number(self) -> (number: u8)
        ensures
            number == (match self {
                SearchStatus::Continue => 0u8,
                SearchStatus::Stop => 1u8,
                SearchStatus::Quit => 2u8,
            }),
    {
        match self {
            SearchStatus::Continue => 0,
            SearchStatus::Stop => 1,
            SearchStatus::Quit => 2,
        }
    }
}

/// Turning a status into its number and back gives the status back.
pub proof fn lemma_status_number(status: SearchStatus)
    ensures
        (match status {
            SearchStatus::Continue => 0u8,
            SearchStatus::Stop => 1u8,
            SearchStatus::Quit => 2u8,
        }) == 0 ==> status == SearchStatus::Continue,
        (match status {
            SearchStatus::Continue => 0u8,
            SearchStatus::Stop => 1u8,
            SearchStatus::Quit => 2u8,
        }) == 1 ==> status == SearchStatus::Stop,
        (match status {
            SearchStatus::Continue => 0u8,
            SearchStatus::Stop => 1u8,
            SearchStatus::Quit => 2u8,
        }) >= 2 ==> status == SearchStatus::Quit,
{
}

impl NmpRights {
    /// The flag for Black being able to make a null move.
    pub const BLACK: u8 = 0b01;
    /// The flag for White being able to make a null move.
    pub const WHITE: u8 = 0b10;
    /// The flag for both sides being able to make a null move.
    pub const BOTH: u8 = 0b11;

    /// Creates new [`NmpRights`] with both rights enabled.
    pub fn new() -> (rights: Self)
        ensures
            rights.rights == NmpRights::BOTH,
    {
        Self { rights: Self::BOTH }
    }

    /// Checks if `side` can make a null move.
    pub fn can_make_null_move(&self, side: Side) -> (can: bool)
        requires
            side.0 < 2,
        ensures
            can == (self.rights & (side.0 + 1) as u8 != 0),
    {
        self.rights & (side.0 + 1) != 0
    }

    /// Gives `side` back the right to make a null move, which it must not
    /// have.
    pub fn add_right(&mut self, side: Side)
        requires
            side.0 < 2,
            old(self).rights & (side.0 + 1) as u8 == 0,
        ensures
            final(self).rights == old(self).rights ^ (side.0 + 1) as u8,
            final(self).rights & (side.0 + 1) as u8 != 0,
    {
        let r = self.rights;
        let f = side.0 + 1;
        assert(f == 1 || f == 2);
        assert((r & f == 0 && (f == 1 || f == 2)) ==> (r ^ f) & f != 0) by (bit_vector);
        self.rights = r ^ f;
    }

    /// Takes the right to make a null move from `side`, which must have it.
    pub fn remove_right(&mut self, side: Side)
        requires
            side.0 < 2,
            old(self).rights & (side.0 + 1) as u8 != 0,
        ensures
            final(self).rights == old(self).rights ^ (side.0 + 1) as u8,
            final(self).rights & (side.0 + 1) as u8 == 0,
    {
        let r = self.rights;
        let f = side.0 + 1;
        assert(f == 1 || f == 2);
        assert((r & f != 0 && (f == 1 || f == 2)) ==> (r ^ f) & f == 0) by (bit_vector);
        self.rights = r ^ f;
    }
}

/// Taking a side's right to make a null move and giving it back leaves the
/// rights as they were.
pub proof fn lemma_null_move_rights_restored(rights: u8, side: u8)
    requires
        side < 2,
    ensures
        (rights ^ (side + 1) as u8) ^ (side + 1) as u8 == rights,
{
    crate::bitops::lemma_u8_ops(rights, (side + 1) as u8);
}

impl Pv {
    /// Returns a new, empty [`Pv`].
    pub fn new() -> (pv: Self)
        ensures
            pv@ == Seq::<Move>::empty(),
    {
        Self { moves: pv_array_new() }
    }

    /// Adds a [`Move`] to the back of the queue, which must not be full.
    pub fn enqueue(&mut self, mv: Move)
        requires
            old(self)@.len() < 255,
        ensures
            final(self)@ == old(self)@.push(mv),
    {
        pv_array_push(&mut self.moves, mv);
    }

    /// Appends another [`Pv`], if both fit in one.
    pub fn append_pv(&mut self, other_pv: &Self)
        requires
            old(self)@.len() + other_pv@.len() <= 255,
        ensures
            final(self)@ == old(self)@ + other_pv@,
    {
        let len = other_pv.len();
        let mut i: usize = 0;
        while i < len
            invariant
                i <= len == other_pv@.len(),
                old(self)@.len() + len <= 255,
                self@ == old(self)@ + other_pv@.take(i as int),
            decreases len - i,
        {
            let mv = other_pv.get(i);
            self.enqueue(mv);
            i = i + 1;
            assert(self@ =~= old(self)@ + other_pv@.take(i as int));
        }
        assert(other_pv@.take(len as int) =~= other_pv@);
    }

    /// Clears all moves from the queue.
    pub fn clear(&mut self)
        ensures
            final(self)@ == Seq::<Move>::empty(),
    {
        pv_array_clear(&mut self.moves);
    }

    /// Returns the move at `index`.
    pub fn get(&self, index: usize) -> (mv: Move)
        requires
            index < self@.len(),
        ensures
            mv == self@[index as int],
    {
        pv_array_get(&self.moves, index)
    }

    /// Writes the moves in long algebraic notation, separated by spaces
    /// (see [`pv_bytes`]).
    pub fn to_bytes(&self) -> (bytes: Vec<u8>)
        ensures
            bytes@ == pv_bytes(self@),
    {
        let mut bytes: Vec<u8> = Vec::new();
        let len = self.len();
        let mut i: usize = 0;
        while i < len
            invariant
                i <= len == self@.len(),
                bytes@ == pv_bytes(self@.take(i as int)),
            decreases len - i,
        {
            if i > 0 {
                bytes.push(32u8);
            }
            let mv = self.get(i).to_bytes();
            push_all(&mut bytes, mv.as_slice());
            i = i + 1;
            assert(self@.take(i as int).drop_last() =~= self@.take(i - 1));
            assert(bytes@ =~= pv_bytes(self@.take(i as int)));
        }
        assert(self@.take(len as int) =~= self@);
        bytes
    }

    /// Returns the length of the queue.
    pub fn len(&self) -> (len: usize)
        ensures
            len == self@.len(),
            len <= 255,
    {
        pv_array_len(&self.moves)
    }
}

// ---------------------------------------------------------------------------
// Pruning and reductions.

/// The reduction of a null move search: between 3 and 9 more than a third of
/// the depth, more the further the static evaluation is above beta.
pub open spec fn spec_null_move_reduction(static_eval: int, beta: int, depth: int) -> int {
    let scaled = crate::evaluation::trunc_div(static_eval - beta, 200);
    (if scaled < 6 { scaled } else { 6 }) + crate::evaluation::trunc_div(depth, 3) + 3
}

/// Calculates the reduction of a null move search.
pub fn null_move_reduction(static_eval: Evaluation, beta: Evaluation, depth: Depth) -> (reduction:
    Depth)
    requires
        -Evaluation::INFINITY <= static_eval.0 <= Evaluation::INFINITY,
        -Evaluation::INFINITY <= beta.0 <= Evaluation::INFINITY,
        static_eval.0 >= beta.0,
        0 <= depth.0 <= Depth::MAX,
    ensures
        reduction.0 == spec_null_move_reduction(static_eval.0 as int, beta.0 as int, depth.0 as int),
{
    let scaled = (static_eval.0 - beta.0) / 200;
    let capped = if scaled < 6 {
        scaled
    } else {
        6
    };
    Depth(capped as i16 + depth.0 / 3 + 3)
}

/// Calculates the margin for futility pruning: 80 per ply plus 70.
pub fn futility_margin(depth: Depth) -> (margin: Evaluation)
    ensures
        margin.0 == depth.0 * 80 + 70,
{
    Evaluation(depth.0 as i32 * 80 + 70)
}

/// Calculates how much to extend the search by: one ply when in check.
pub fn extension(is_in_check: bool) -> (extension: Depth)
    ensures
        extension.0 == if is_in_check { 1int } else { 0 },
{
    let mut extension = Depth(0);
    if is_in_check {
        extension = Depth(extension.0 + 1);
    }
    extension
}

/// Calculates how much to reduce the search by during late move
/// reductions: from the third move at depth 3 on, the base reduction, one
/// more at nodes off the principal variation.
pub fn late_move_reduction<NodeType: Node>(depth: Depth, total_moves: u8) -> (reduction: Depth)
    ensures
        reduction.0 == (if depth.0 >= 3 && total_moves >= 3 {
            vstd::wrapping::i16_specs::wrapping_add(
                base_reduction_of(depth.0, total_moves),
                if NodeType::is_pv() {
                    0
                } else {
                    1
                },
            )
        } else {
            0
        }),
{
    if depth.0 >= 3 && total_moves >= 3 {
        let base = base_reductions(depth, total_moves);
        Depth(base.0.wrapping_add(if NodeType::node_is_pv() {
            0
        } else {
            1
        }))
    } else {
        Depth(0)
    }
}

} // verus!
