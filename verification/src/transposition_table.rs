//! The transposition table: a hash of previously searched positions and
//! what the search learned about each.
use vstd::prelude::*;

use crate::board::Key;
use crate::evaluation::{CompressedEvaluation, Evaluation};
use crate::movegen::Move;
use crate::search::depth::{CompressedDepth, Depth, Height};

verus! {

/// The bound of a score depending on how it was obtained.
#[derive(Clone, Copy, Debug, PartialEq, Eq, Structural)]
pub enum Bound {
    /// A lower bound: `best_score >= beta`.
    Lower,
    /// An exact bound: `alpha < best_score < beta`.
    Exact,
    /// An upper bound: `best_score <= alpha`.
    Upper,
}

/// A single entry in a transposition table.
///
/// It contains a key as a checksum and various other fields that are useful
/// in future identical positions.
#[derive(Clone, Copy, Debug, PartialEq, Eq, Structural)]
pub struct TranspositionEntry {
    /// The key, used as a checksum.
    pub key: Key,
    /// The static evaluation of the position.
    pub static_eval: CompressedEvaluation,
    /// The score of the position, relative to the node it was found in.
    pub score: CompressedEvaluation,
    /// The best move in the position.
    pub mv: Option<Move>,
    /// The depth at which the score was obtained.
    pub depth: CompressedDepth,
    /// The bound of the score.
    pub bound: Bound,
}

/// The information from a successful transposition table lookup.
#[derive(Clone, Copy, Debug, PartialEq, Eq, Structural)]
pub struct TranspositionHit {
    /// The static evaluation of the position.
    pub static_eval: Evaluation,
    /// The score of the position.
    pub score: Evaluation,
    /// The best move in the position.
    pub mv: Option<Move>,
    /// The depth at which the score was obtained.
    pub depth: Depth,
    /// The bound of the score.
    pub bound: Bound,
}

/// A transposition table: a hash of previous board positions and
/// information about each position, two words per entry.
pub struct TranspositionTable {
    tt: Vec<[u64; 2]>,
}

// ---------------------------------------------------------------------------
// Mate scores relative to a node.

/// If `score` is a mate score relative to the root node, the same mate
/// relative to a node `height` plies from the root.
pub open spec fn spec_normalise(score: int, height: int) -> int {
    if score <= -Evaluation::MATE_BOUND {
        score - height
    } else if score >= Evaluation::MATE_BOUND {
        score + height
    } else {
        score
    }
}

/// If `score` is a mate score relative to a node `height` plies from the
/// root, the same mate relative to the root node.
pub open spec fn spec_denormalise(score: int, height: int) -> int {
    if score <= -Evaluation::MATE_BOUND {
        score + height
    } else if score >= Evaluation::MATE_BOUND {
        score - height
    } else {
        score
    }
}

/// Making a score relative to a node and then back to the root gives the
/// score back.
pub proof fn lemma_denormalise_normalise(score: int, height: int)
    requires
        height >= 0,
    ensures
        spec_denormalise(spec_normalise(score, height), height) == score,
{
}

/// If `score` is a mate score, assume it is a mate score relative to the
/// root node and turn it in to a mate score relative to the current node.
pub fn normalise(score: Evaluation, height: Height) -> (result: Evaluation)
    requires
        -Evaluation::INFINITY <= score.0 <= Evaluation::INFINITY,
    ensures
        result.0 == spec_normalise(score.0 as int, height.0 as int),
{
    if score.0 <= -Evaluation::MATE_BOUND {
        Evaluation(score.0 - height.0 as i32)
    } else if score.0 >= Evaluation::MATE_BOUND {
        Evaluation(score.0 + height.0 as i32)
    } else {
        score
    }
}

/// If `score` is a mate score, assume it is a mate score relative to the
/// current node and turn it into a mate score relative to the root node.
pub fn denormalise(score: Evaluation, height: Height) -> (result: Evaluation)
    requires
        i16::MIN <= score.0 <= i16::MAX,
    ensures
        result.0 == spec_denormalise(score.0 as int, height.0 as int),
{
    if score.0 <= -Evaluation::MATE_BOUND {
        Evaluation(score.0 + height.0 as i32)
    } else if score.0 >= Evaluation::MATE_BOUND {
        Evaluation(score.0 - height.0 as i32)
    } else {
        score
    }
}

// ---------------------------------------------------------------------------
// The two words of an entry.

/// The number of a bound: 0 for lower, 1 for exact, 2 for upper.
pub open spec fn bound_number(bound: Bound) -> u8 {
    match bound {
        Bound::Lower => 0,
        Bound::Exact => 1,
        Bound::Upper => 2,
    }
}

/// The bound of a number: lower for 0, exact for 1, upper for anything
/// else.
pub open spec fn number_bound(number: u8) -> Bound {
    if number == 0 {
        Bound::Lower
    } else if number == 1 {
        Bound::Exact
    } else {
        Bound::Upper
    }
}

/// The 16 bits of an optional move: those of the move, or 0 for none.
pub open spec fn move_bits(mv: Option<Move>) -> u16 {
    match mv {
        Some(m) => m.bits,
        None => 0,
    }
}

/// The optional move of 16 bits: none for 0.
pub open spec fn bits_move(bits: u16) -> Option<Move> {
    if bits == 0 {
        None
    } else {
        Some(Move { bits })
    }
}

/// The word holding everything but the key: from the lowest bits, the
/// static evaluation, the score, the move, the depth and the bound.
pub open spec fn data_word(entry: TranspositionEntry) -> u64 {
    (entry.static_eval.0 as u16 as u64) | ((entry.score.0 as u16 as u64) << 16u64) | ((move_bits(
        entry.mv,
    ) as u64) << 32u64) | ((entry.depth.0 as u64) << 48u64) | ((bound_number(entry.bound) as u64)
        << 56u64)
}

/// The entry two stored words hold: the first is the key xor the second.
pub open spec fn decode(words: [u64; 2]) -> TranspositionEntry {
    let data = words[1];
    TranspositionEntry {
        key: words[0] ^ data,
        static_eval: CompressedEvaluation((data & 0xffff) as u16 as i16),
        score: CompressedEvaluation(((data >> 16u64) & 0xffff) as u16 as i16),
        mv: bits_move(((data >> 32u64) & 0xffff) as u16),
        depth: CompressedDepth(((data >> 48u64) & 0xff) as u8),
        bound: number_bound((data >> 56u64) as u8),
    }
}

/// The two words an entry is stored as: the key xor the data word, so that
/// an entry torn between two writes is unlikely to match a key, and the
/// data word.
pub open spec fn encode(entry: TranspositionEntry) -> [u64; 2] {
    [entry.key ^ data_word(entry), data_word(entry)]
}

/// Packing the fields of an entry into its words and reading them back
/// gives the fields back.
proof fn lemma_words(key: u64, static_eval: i16, score: i16, mv: u16, depth: u8, bound: u8)
    by (bit_vector)
    requires
        bound <= 2,
    ensures
        ({
            let data = (static_eval as u16 as u64) | ((score as u16 as u64) << 16u64) | ((
            mv as u64) << 32u64) | ((depth as u64) << 48u64) | ((bound as u64) << 56u64);
            &&& (key ^ data) ^ data == key
            &&& ((data & 0xffff) as u16 as i16) == static_eval
            &&& (((data >> 16u64) & 0xffff) as u16 as i16) == score
            &&& (((data >> 32u64) & 0xffff) as u16) == mv
            &&& (((data >> 48u64) & 0xff) as u8) == depth
            &&& ((data >> 56u64) as u8) == bound
        }),
{
}

/// Decoding the encoding of an entry gives the entry back, as long as its
/// move, if any, is not the null move.
pub proof fn lemma_decode_encode(entry: TranspositionEntry)
    requires
        match entry.mv {
            Some(m) => m.bits != 0,
            None => true,
        },
    ensures
        decode(encode(entry)) == entry,
{
    lemma_words(
        entry.key,
        entry.static_eval.0,
        entry.score.0,
        move_bits(entry.mv),
        entry.depth.0,
        bound_number(entry.bound),
    );
}

/// The index of the entry of `key` in a table of `len` entries: the key
/// scaled from `0..2^64` to `0..len`.
pub open spec fn index_of(key: u64, len: nat) -> int {
    ((key as int) * (len as int)) / 0x1_0000_0000_0000_0000int
}

/// The index of a key is within the table.
pub proof fn lemma_index_in_range(key: u64, len: nat)
    requires
        len > 0,
    ensures
        0 <= index_of(key, len) < len,
{
    assert(0 <= (key as int) * (len as int) < len * 0x1_0000_0000_0000_0000int) by (nonlinear_arith)
        requires
            key < 0x1_0000_0000_0000_0000int,
            len > 0,
    ;
    assert(index_of(key, len) < len) by (nonlinear_arith)
        requires
            0 <= (key as int) * (len as int) < len * 0x1_0000_0000_0000_0000int,
            index_of(key, len) == ((key as int) * (len as int)) / 0x1_0000_0000_0000_0000int,
    ;
}

impl TranspositionEntry {
    /// Creates a new [`TranspositionEntry`] with the given attributes, the
    /// score made relative to the node `height` plies from the root.
    pub fn new(
        key: Key,
        static_eval: Evaluation,
        score: Evaluation,
        mv: Option<Move>,
        depth: Depth,
        bound: Bound,
        height: Height,
    ) -> (entry: Self)
        requires
            i16::MIN <= static_eval.0 <= i16::MAX,
            -Evaluation::INFINITY <= score.0 <= Evaluation::INFINITY,
            i16::MIN <= spec_normalise(score.0 as int, height.0 as int) <= i16::MAX,
            0 <= depth.0 <= Depth::MAX,
        ensures
            entry.key == key,
            entry.static_eval.0 == static_eval.0,
            entry.score.0 == spec_normalise(score.0 as int, height.0 as int),
            entry.mv == mv,
            entry.depth.0 == depth.0,
            entry.bound == bound,
    {
        Self {
            key,
            static_eval: CompressedEvaluation(static_eval.0 as i16),
            score: CompressedEvaluation(normalise(score, height).0 as i16),
            mv,
            depth: depth.compress(),
            bound,
        }
    }

    /// Checks if a given key matches the stored key.
    fn matches(self, key: Key) -> (is_match: bool)
        ensures
            is_match == (self.key == key),
    {
        self.key == key
    }

    /// The data word of the entry (see [`data_word`]).
    fn data(self) -> (data: u64)
        ensures
            data == data_word(self),
    {
        let bound: u8 = match self.bound {
            Bound::Lower => 0,
            Bound::Exact => 1,
            Bound::Upper => 2,
        };
        let mv: u16 = match self.mv {
            Some(m) => m.bits,
            None => 0,
        };
        (self.static_eval.0 as u16 as u64) | ((self.score.0 as u16 as u64) << 16u64) | ((
        mv as u64) << 32u64) | ((self.depth.0 as u64) << 48u64) | ((bound as u64) << 56u64)
    }

    /// The entry two stored words hold (see [`decode`]).
    fn from_words(words: [u64; 2]) -> (entry: Self)
        ensures
            entry == decode(words),
    {
        let data = words[1];
        let bound_bits = (data >> 56u64) as u8;
        let mv_bits = ((data >> 32u64) & 0xffff) as u16;
        Self {
            key: words[0] ^ data,
            static_eval: CompressedEvaluation((data & 0xffff) as u16 as i16),
            score: CompressedEvaluation(((data >> 16u64) & 0xffff) as u16 as i16),
            mv: if mv_bits == 0 {
                None
            } else {
                Some(Move { bits: mv_bits })
            },
            depth: CompressedDepth(((data >> 48u64) & 0xff) as u8),
            bound: if bound_bits == 0 {
                Bound::Lower
            } else if bound_bits == 1 {
                Bound::Exact
            } else {
                Bound::Upper
            },
        }
    }
}

/// The hit a load makes of an entry, the score made relative to the root
/// from the node `height` plies from it.
pub open spec fn hit_of(entry: TranspositionEntry, height: int) -> TranspositionHit {
    TranspositionHit {
        static_eval: Evaluation(entry.static_eval.0 as i32),
        score: Evaluation(spec_denormalise(entry.score.0 as int, height) as i32),
        mv: entry.mv,
        depth: Depth(entry.depth.0 as i16),
        bound: entry.bound,
    }
}

impl TranspositionHit {
    /// Returns the static evaluation.
    pub fn static_eval(self) -> (static_eval: Evaluation)
        ensures
            static_eval == self.static_eval,
    {
        self.static_eval
    }

    /// Returns the score.
    pub fn score(self) -> (score: Evaluation)
        ensures
            score == self.score,
    {
        self.score
    }

    /// Returns the best move.
    pub fn mv(self) -> (mv: Option<Move>)
        ensures
            mv == self.mv,
    {
        self.mv
    }

    /// Returns the depth at which the score was obtained.
    pub fn depth(self) -> (depth: Depth)
        ensures
            depth == self.depth,
    {
        self.depth
    }

    /// Returns the bound of the score.
    pub fn bound(self) -> (bound: Bound)
        ensures
            bound == self.bound,
    {
        self.bound
    }
}

impl View for TranspositionTable {
    type V = Seq<[u64; 2]>;

    closed spec fn view(&self) -> Seq<[u64; 2]> {
        self.tt@
    }
}

impl TranspositionTable {
    /// Creates a new, empty, zero-sized [`TranspositionTable`].
    pub fn new() -> (tt: Self)
        ensures
            tt@ == Seq::<[u64; 2]>::empty(),
    {
        Self { tt: Vec::new() }
    }

    /// The number of entries that `size_mib` MiB hold.
    pub open spec fn entries_in(size_mib: int) -> int {
        size_mib * 1024 * 1024 / 16
    }

    /// Creates a new, zeroed transposition table with the given size in
    /// MiB.
    pub fn with_capacity(size_mib: usize) -> (tt: Self)
        requires
            size_mib * 1024 * 1024 <= usize::MAX,
        ensures
            tt@ == Seq::new(Self::entries_in(size_mib as int) as nat, |i: int| [0u64, 0u64]),
    {
        let mut tt = Self::new();
        tt.resize(size_mib);
        tt
    }

    /// Resizes the the table to the given size in MiB and zeroes it.
    pub fn resize(&mut self, size_mib: usize)
        requires
            size_mib * 1024 * 1024 <= usize::MAX,
        ensures
            final(self)@ == Seq::new(Self::entries_in(size_mib as int) as nat, |i: int| [0u64, 0u64]),
    {
        let entries = size_mib * 1024 * 1024 / 16;
        let mut tt: Vec<[u64; 2]> = Vec::with_capacity(entries);
        let mut i: usize = 0;
        while i < entries
            invariant
                i <= entries,
                tt@ == Seq::new(i as nat, |j: int| [0u64, 0u64]),
            decreases entries - i,
        {
            tt.push([0u64, 0u64]);
            i = i + 1;
            assert(tt@ =~= Seq::new(i as nat, |j: int| [0u64, 0u64]));
        }
        self.tt = tt;
    }

    /// Zeroes the table.
    pub fn clear(&mut self)
        ensures
            final(self)@ == Seq::new(old(self)@.len(), |i: int| [0u64, 0u64]),
    {
        let len = self.tt.len();
        let mut i: usize = 0;
        while i < len
            invariant
                i <= len == self.tt@.len(),
                forall|j: int| 0 <= j < i ==> self.tt@[j] == [0u64, 0u64],
            decreases len - i,
        {
            self.tt.set(i, [0u64, 0u64]);
            i = i + 1;
        }
        assert(self.tt@ =~= Seq::new(len as nat, |i: int| [0u64, 0u64]));
    }

    /// Converts a key into a valid index (see [`index_of`]).
    fn index(&self, key: Key) -> (index: usize)
        requires
            self@.len() > 0,
        ensures
            index == index_of(key, self@.len()),
            index < self@.len(),
    {
        let len = self.tt.len();
        assert((key as int) * (len as int) <= u128::MAX) by (nonlinear_arith)
            requires
                key < 0x1_0000_0000_0000_0000int,
                len < 0x1_0000_0000_0000_0000int,
        ;
        let product = key as u128 * len as u128;
        let scaled = product >> 64u32;
        assert(product >> 64u32 == product / 0x1_0000_0000_0000_0000u128) by (bit_vector);
        assert(product < len * 0x1_0000_0000_0000_0000int) by (nonlinear_arith)
            requires
                product == (key as int) * (len as int),
                key < 0x1_0000_0000_0000_0000int,
                len > 0,
        ;
        assert(scaled < len) by (nonlinear_arith)
            requires
                scaled == (product as int) / 0x1_0000_0000_0000_0000int,
                product < len * 0x1_0000_0000_0000_0000int,
        ;
        scaled as usize
    }

    /// Returns the entry with the given key, or [`None`] if the entry at
    /// its index holds another key; the score is made relative to the root
    /// from the node `height` plies from it.
    pub fn load(&self, key: Key, height: Height) -> (hit: Option<TranspositionHit>)
        requires
            self@.len() > 0,
        ensures
            hit == (if decode(self@[index_of(key, self@.len())]).key == key {
                Some(hit_of(decode(self@[index_of(key, self@.len())]), height.0 as int))
            } else {
                None
            }),
    {
        let words = self.tt[self.index(key)];
        let entry = TranspositionEntry::from_words(words);
        if entry.matches(key) {
            Some(
                TranspositionHit {
                    static_eval: Evaluation::from_compressed(entry.static_eval),
                    score: denormalise(Evaluation::from_compressed(entry.score), height),
                    mv: entry.mv,
                    depth: Depth::from_compressed(entry.depth),
                    bound: entry.bound,
                },
            )
        } else {
            None
        }
    }

    /// Stores an entry, replacing whatever was at its index.
    pub fn store(&mut self, entry: TranspositionEntry)
        requires
            old(self)@.len() > 0,
        ensures
            final(self)@ == old(self)@.update(
                index_of(entry.key, old(self)@.len()),
                encode(entry),
            ),
    {
        let index = self.index(entry.key);
        let data = entry.data();
        // the xor keeps an entry whose two words come from different writes
        // from matching a key
        self.tt.set(index, [entry.key ^ data, data]);
        assert(self@ =~= old(self)@.update(index_of(entry.key, old(self)@.len()), encode(entry)));
    }

    /// The table has no entries (it was resized to 0 MiB).
    pub fn is_empty(&self) -> (empty: bool)
        ensures
            empty == (self@.len() == 0),
    {
        self.tt.len() == 0
    }

    /// Estimates how full the table is, per mille: the number of used
    /// entries among the first thousand.
    pub fn estimate_hashfull(&self) -> (full: usize)
        ensures
            full == used_entries(self@, if self@.len() < 1000 { self@.len() as int } else { 1000 }),
    {
        let len = self.tt.len();
        let limit = if len < 1000 {
            len
        } else {
            1000
        };
        let mut count: usize = 0;
        let mut i: usize = 0;
        while i < limit
            invariant
                i <= limit <= len == self@.len(),
                limit <= 1000,
                count == used_entries(self@, i as int),
                count <= i,
            decreases limit - i,
        {
            // the data word of a stored entry is never 0: a null move needs
            // an upper bound, which is not 0, and a lower bound needs a move
            if self.tt[i][1] != 0 {
                count = count + 1;
            }
            i = i + 1;
        }
        count
    }
}

/// The number of entries among the first `n` whose data word is not 0.
pub open spec fn used_entries(table: Seq<[u64; 2]>, n: int) -> int
    decreases n,
{
    if n <= 0 {
        0
    } else {
        used_entries(table, n - 1) + if table[n - 1][1] != 0 {
            1int
        } else {
            0
        }
    }
}

/// Loading a key right after storing an entry of that key gives back what
/// was stored: its fields, with the score made relative to the node it was
/// stored at and then back to the root.
pub proof fn lemma_load_after_store(before: Seq<[u64; 2]>, entry: TranspositionEntry, height: int)
    requires
        before.len() > 0,
        match entry.mv {
            Some(m) => m.bits != 0,
            None => true,
        },
    ensures
        ({
            let after = before.update(index_of(entry.key, before.len()), encode(entry));
            let stored = decode(after[index_of(entry.key, after.len())]);
            &&& stored.key == entry.key
            &&& hit_of(stored, height) == hit_of(entry, height)
        }),
{
    lemma_decode_encode(entry);
    lemma_index_in_range(entry.key, before.len());
}

} // verus!
