//! Lists of scored moves, held in a fixed-capacity `ArrayVec`.
use vstd::prelude::*;

use crate::defs::{PieceType, Square};
use crate::evaluation::CompressedEvaluation;
use crate::movegen::{Move, pack};
use arrayvec::ArrayVec;
use oorandom::Rand64;

verus! {

/// Maximum number of legal moves that can be reached in a standard chess
/// game.
///
/// Example: `R6R/3Q4/1Q4Q1/4Q3/2Q4Q/Q4Q2/pp1Q4/kBNN1KB1 w - - 0 1`
pub const MAX_LEGAL_MOVES: usize = 218;

/// A [`Move`] that has been given a certain score.
#[derive(Clone, Copy, Debug, PartialEq, Eq, Structural)]
pub struct ScoredMove {
    pub mv: Move,
    pub score: CompressedEvaluation,
}

#[verifier::external_type_specification]
#[verifier::external_body]
#[verifier::reject_recursive_types(T)]
pub struct ExArrayVec<T, const CAP: usize>(arrayvec::ArrayVec<T, CAP>);

#[verifier::external_type_specification]
#[verifier::external_body]
pub struct ExRand64(oorandom::Rand64);

/// The scored moves an `ArrayVec` of capacity [`MAX_LEGAL_MOVES`] holds, in
/// order.
pub uninterp spec fn scored_moves_in(moves: ArrayVec<ScoredMove, 218>) -> Seq<ScoredMove>;

/// `ArrayVec::new`: an empty vector.
#[verifier::external_body]
fn array_new() -> (moves: ArrayVec<ScoredMove, 218>)
    ensures
        scored_moves_in(moves) == Seq::<ScoredMove>::empty(),
{
    ArrayVec::new()
}

/// `ArrayVec::len`: the number of items held, which the capacity bounds.
#[verifier::external_body]
fn array_len(moves: &ArrayVec<ScoredMove, 218>) -> (len: usize)
    ensures
        len == scored_moves_in(*moves).len(),
        len <= 218,
{
    moves.len()
}

/// `ArrayVec::push`, on a vector that is not full (it panics on a full
/// one): the item goes at the end.
#[verifier::external_body]
fn array_push(moves: &mut ArrayVec<ScoredMove, 218>, item: ScoredMove)
    requires
        scored_moves_in(*old(moves)).len() < 218,
    ensures
        scored_moves_in(*final(moves)) == scored_moves_in(*old(moves)).push(item),
{
    moves.push(item);
}

/// Indexing through the slice an `ArrayVec` dereferences to: the item at
/// `index`, which must be held (indexing panics otherwise).
#[verifier::external_body]
fn array_get(moves: &ArrayVec<ScoredMove, 218>, index: usize) -> (item: ScoredMove)
    requires
        index < scored_moves_in(*moves).len(),
    ensures
        item == scored_moves_in(*moves)[index as int],
{
    moves[index]
}

/// Assigning through the mutable slice an `ArrayVec` dereferences to:
/// replaces the item at `index`, which must be held.
#[verifier::external_body]
fn array_set(moves: &mut ArrayVec<ScoredMove, 218>, index: usize, item: ScoredMove)
    requires
        index < scored_moves_in(*old(moves)).len(),
    ensures
        scored_moves_in(*final(moves)) == scored_moves_in(*old(moves)).update(index as int, item),
{
    moves[index] = item;
}

/// `ArrayVec::swap_pop`: if `index` is held, swaps its item with the last
/// and pops it; otherwise returns `None` and changes nothing.
#[verifier::external_body]
fn array_swap_pop(moves: &mut ArrayVec<ScoredMove, 218>, index: usize) -> (item: Option<
    ScoredMove,
>)
    ensures
        match item {
            Some(x) => {
                &&& index < scored_moves_in(*old(moves)).len()
                &&& x == scored_moves_in(*old(moves))[index as int]
                &&& scored_moves_in(*final(moves)) == scored_moves_in(*old(moves)).update(
                    index as int,
                    scored_moves_in(*old(moves)).last(),
                ).drop_last()
            },
            None => index >= scored_moves_in(*old(moves)).len() && scored_moves_in(*final(moves))
                == scored_moves_in(*old(moves)),
        },
{
    moves.swap_pop(index)
}

/// `ArrayVec::clear`: removes every item.
#[verifier::external_body]
fn array_clear(moves: &mut ArrayVec<ScoredMove, 218>)
    ensures
        scored_moves_in(*final(moves)) == Seq::<ScoredMove>::empty(),
{
    moves.clear();
}

/// `Rand64::rand_range` on `start..end`, with `start < end`: some number in
/// the range. Which one depends on the state of the generator, which is not
/// modelled.
#[verifier::external_body]
pub(crate) fn random_in_range(seed: &mut Rand64, start: u64, end: u64) -> (n: u64)
    requires
        start < end,
    ensures
        start <= n < end,
{
    seed.rand_range(start..end)
}

/// A stack of scored moves.
pub struct Moves {
    moves: ArrayVec<ScoredMove, 218>,
}

impl View for Moves {
    type V = Seq<ScoredMove>;

    closed spec fn view(&self) -> Seq<ScoredMove> {
        scored_moves_in(self.moves)
    }
}

/// The moves of a list of scored moves.
pub open spec fn moves_of(list: Seq<ScoredMove>) -> Seq<Move> {
    list.map_values(|scored: ScoredMove| scored.mv)
}

/// The moves of a list, each with a score of 0.
pub open spec fn unscored(moves: Seq<Move>) -> Seq<ScoredMove> {
    moves.map_values(|mv: Move| ScoredMove { mv, score: CompressedEvaluation(0) })
}

/// The index of the first move of `list` for which `is_match` holds, if any.
pub open spec fn first_match(list: Seq<ScoredMove>, is_match: spec_fn(Move) -> bool) -> Option<
    int,
> {
    if exists|i: int| 0 <= i < list.len() && is_match(#[trigger] list[i].mv) {
        Some(
            choose|i: int|
                0 <= i < list.len() && is_match(#[trigger] list[i].mv) && forall|j: int|
                    0 <= j < i ==> !is_match(#[trigger] list[j].mv),
        )
    } else {
        None
    }
}

impl ScoredMove {
    /// Creates a new [`ScoredMove`] with a score of `0`.
    pub fn new(mv: Move) -> (scored: Self)
        ensures
            scored.mv == mv,
            scored.score.0 == 0,
    {
        Self { mv, score: CompressedEvaluation(0) }
    }
}

impl Moves {
    /// Creates a new, empty list of moves.
    pub fn new() -> (moves: Self)
        ensures
            moves@ == Seq::<ScoredMove>::empty(),
    {
        Self { moves: array_new() }
    }

    /// The number of moves in the list.
    pub fn len(&self) -> (len: usize)
        ensures
            len == self@.len(),
            len <= MAX_LEGAL_MOVES,
    {
        array_len(&self.moves)
    }

    /// Checks if the list is empty.
    pub fn is_empty(&self) -> (empty: bool)
        ensures
            empty == (self@.len() == 0),
    {
        array_len(&self.moves) == 0
    }

    /// The scored move at `index`.
    pub fn get(&self, index: usize) -> (scored: ScoredMove)
        requires
            index < self@.len(),
        ensures
            scored == self@[index as int],
    {
        array_get(&self.moves, index)
    }

    /// Replaces the scored move at `index`.
    pub fn set(&mut self, index: usize, scored: ScoredMove)
        requires
            index < old(self)@.len(),
        ensures
            final(self)@ == old(self)@.update(index as int, scored),
    {
        array_set(&mut self.moves, index, scored);
    }

    /// Pushes `mv` with a score of `0`, on a list that is not full.
    pub fn push(&mut self, mv: Move)
        requires
            old(self)@.len() < MAX_LEGAL_MOVES,
        ensures
            final(self)@ == old(self)@.push(ScoredMove { mv, score: CompressedEvaluation(0) }),
    {
        self.push_scored_move(ScoredMove::new(mv));
    }

    /// Pushes `scored_move`, on a list that is not full.
    pub fn push_scored_move(&mut self, scored_move: ScoredMove)
        requires
            old(self)@.len() < MAX_LEGAL_MOVES,
        ensures
            final(self)@ == old(self)@.push(scored_move),
    {
        array_push(&mut self.moves, scored_move);
    }

    /// Removes every move.
    pub fn clear(&mut self)
        ensures
            final(self)@ == Seq::<ScoredMove>::empty(),
    {
        array_clear(&mut self.moves);
    }

    /// Removes the move at `index`, putting the last move in its place, and
    /// returns it; returns `None`, leaving the list alone, if there is no
    /// such move.
    pub fn swap_pop(&mut self, index: usize) -> (scored: Option<ScoredMove>)
        ensures
            match scored {
                Some(x) => index < old(self)@.len() && x == old(self)@[index as int]
                    && final(self)@ == old(self)@.update(index as int, old(self)@.last()).drop_last(),
                None => index >= old(self)@.len() && final(self)@ == old(self)@,
            },
    {
        array_swap_pop(&mut self.moves, index)
    }

    /// Finds and returns, if it exists, the first [`Move`] that has start
    /// square `start` and end square `end`.
    pub fn move_with(&self, start: Square, end: Square) -> (mv: Option<Move>)
        requires
            start.valid(),
            end.valid(),
        ensures
            mv == (match first_match(
                self@,
                |m: Move| m.start_sq() == start.0 && m.end_sq() == end.0,
            ) {
                Some(i) => Some(self@[i].mv),
                None => None,
            }),
    {
        let ghost is_match = |m: Move| m.start_sq() == start.0 && m.end_sq() == end.0;
        let len = self.len();
        let mut i: usize = 0;
        while i < len
            invariant
                i <= len == self@.len(),
                start.valid(),
                end.valid(),
                is_match == (|m: Move| m.start_sq() == start.0 && m.end_sq() == end.0),
                forall|j: int| 0 <= j < i ==> !is_match(#[trigger] self@[j].mv),
            decreases len - i,
        {
            let scored = self.get(i);
            if scored.mv.is_moving_from_to(start, end) {
                assert(is_match(self@[i as int].mv));
                proof {
                    let k = choose|k: int|
                        0 <= k < self@.len() && is_match(#[trigger] self@[k].mv) && forall|j: int|
                            0 <= j < k ==> !is_match(#[trigger] self@[j].mv);
                    assert(k == i) by {
                        if k < i {
                            assert(!is_match(self@[k].mv));
                        }
                        if k > i {
                            assert(!is_match(self@[i as int].mv));
                        }
                    }
                }
                return Some(scored.mv);
            }
            i = i + 1;
        }
        None
    }

    /// Finds and returns, if it exists, the first [`Move`] that is the
    /// promotion from `start` to `end` to `piece_type` (knight to queen).
    pub fn move_with_promo(&self, start: Square, end: Square, piece_type: PieceType) -> (mv:
        Option<Move>)
        requires
            start.valid(),
            end.valid(),
            1 <= piece_type.0 <= 4,
        ensures
            mv == (match first_match(
                self@,
                |m: Move| m.bits == pack(start.0 as u16, end.0 as u16, Move::PROMOTION, (piece_type.0 - 1) as u16),
            ) {
                Some(i) => Some(self@[i].mv),
                None => None,
            }),
    {
        let ghost is_match = |m: Move|
            m.bits == pack(start.0 as u16, end.0 as u16, Move::PROMOTION, (piece_type.0 - 1) as u16);
        let wanted = Move::new_promo_any(start, end, piece_type);
        let len = self.len();
        let mut i: usize = 0;
        while i < len
            invariant
                i <= len == self@.len(),
                is_match == (|m: Move|
                    m.bits == pack(start.0 as u16, end.0 as u16, Move::PROMOTION, (piece_type.0 - 1) as u16)),
                wanted.bits == pack(start.0 as u16, end.0 as u16, Move::PROMOTION, (piece_type.0 - 1) as u16),
                forall|j: int| 0 <= j < i ==> !is_match(#[trigger] self@[j].mv),
            decreases len - i,
        {
            let scored = self.get(i);
            if scored.mv.bits == wanted.bits {
                assert(is_match(self@[i as int].mv));
                proof {
                    let k = choose|k: int|
                        0 <= k < self@.len() && is_match(#[trigger] self@[k].mv) && forall|j: int|
                            0 <= j < k ==> !is_match(#[trigger] self@[j].mv);
                    assert(k == i) by {
                        if k < i {
                            assert(!is_match(self@[k].mv));
                        }
                        if k > i {
                            assert(!is_match(self@[i as int].mv));
                        }
                    }
                }
                return Some(scored.mv);
            }
            i = i + 1;
        }
        None
    }

    /// Picks a random move, swaps it with the last one and pops it; `None`
    /// if the list is empty. With one move, that move is popped.
    pub fn pop_random(&mut self, seed: &mut Rand64) -> (scored: Option<ScoredMove>)
        ensures
            old(self)@.len() == 0 ==> scored is None && final(self)@ == old(self)@,
            old(self)@.len() > 0 ==> exists|index: int|
                0 <= index < old(self)@.len() && scored == Some(old(self)@[index])
                    && final(self)@ == old(self)@.update(index, old(self)@.last()).drop_last(),
    {
        let total_moves = self.len();
        let index = if total_moves >= 2 {
            random_in_range(seed, 0, total_moves as u64) as usize
        } else {
            0
        };
        self.swap_pop(index)
    }
}

} // verus!
