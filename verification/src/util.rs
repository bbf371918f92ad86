//! Small helpers shared by the board and the move generator.
use vstd::prelude::*;

use crate::board::fen::decimal;
use crate::defs::{PieceType, Rank, Square};

verus! {

/// A piece of type `piece_type` going from `start` to `end` is a double
/// pawn push: a pawn going straight two squares forward from its second
/// rank, up the board from the 2nd rank or down it from the 7th.
pub open spec fn double_push(start: int, end: int, piece_type: int) -> bool {
    piece_type == PieceType::PAWN && ((start / 8 == 1 && end == start + 16) || (start / 8 == 6
        && end + 16 == start))
}

/// Checks if the given piece type moving from the given start square to the
/// given end square is a double pawn push.
pub fn is_double_pawn_push(start: Square, end: Square, piece_type: PieceType) -> (is_double:
    bool)
    requires
        start.valid(),
        end.valid(),
    ensures
        is_double == double_push(start.0 as int, end.0 as int, piece_type.0 as int),
{
    if piece_type.0 != PieceType::PAWN {
        return false;
    }
    if start.0 / 8 == Rank::RANK2 {
        end.0 as u16 == start.0 as u16 + 16
    } else if start.0 / 8 == Rank::RANK7 {
        end.0 as u16 + 16 == start.0 as u16
    } else {
        false
    }
}

/// A buffered counter: increments gather in a buffer that is only added to
/// the counter itself once it grows past [`BUFFER_SIZE`](Self::BUFFER_SIZE).
///
/// The counter is owned by the one search that counts into it.
pub struct BufferedAtomicU64Counter {
    /// Where the increments are stored before being flushed to the counter.
    buffer: u64,
    /// The counter.
    counter: u64,
}

impl View for BufferedAtomicU64Counter {
    /// The flushed count and the buffer.
    type V = (u64, u64);

    closed spec fn view(&self) -> (u64, u64) {
        (self.counter, self.buffer)
    }
}

impl BufferedAtomicU64Counter {
    /// How large the buffer can be before it flushes to the counter.
    pub const BUFFER_SIZE: u64 = 2048;

    /// Creates a new counter at 0.
    pub fn new() -> (counter: Self)
        ensures
            counter@ == (0u64, 0u64),
    {
        Self { buffer: 0, counter: 0 }
    }

    /// Increments the buffer, flushing it to the counter if it is too large.
    pub fn increment(&mut self)
        requires
            old(self)@.0 + old(self)@.1 < u64::MAX,
        ensures
            old(self)@.1 + 1 > Self::BUFFER_SIZE ==> final(self)@ == (
                (old(self)@.0 + old(self)@.1 + 1) as u64,
                0u64,
            ),
            old(self)@.1 + 1 <= Self::BUFFER_SIZE ==> final(self)@ == (
                old(self)@.0,
                (old(self)@.1 + 1) as u64,
            ),
    {
        self.buffer = self.buffer + 1;
        if self.buffer > Self::BUFFER_SIZE {
            self.flush();
        }
    }

    /// Clears the buffer.
    pub fn clear(&mut self)
        ensures
            final(self)@ == (old(self)@.0, 0u64),
    {
        self.buffer = 0;
    }

    /// Flushes the buffer to the counter.
    pub fn flush(&mut self)
        requires
            old(self)@.0 + old(self)@.1 <= u64::MAX,
        ensures
            final(self)@ == ((old(self)@.0 + old(self)@.1) as u64, 0u64),
    {
        self.counter = self.counter + self.buffer;
        self.buffer = 0;
    }

    /// Returns the total number of increments.
    pub fn count(&self) -> (count: u64)
        requires
            self@.0 + self@.1 <= u64::MAX,
        ensures
            count == self@.0 + self@.1,
    {
        self.counter + self.buffer
    }

    /// Checks if the buffer is empty.
    pub fn has_empty_buffer(&self) -> (empty: bool)
        ensures
            empty == (self@.1 == 0),
    {
        self.buffer == 0
    }
}

// ---------------------------------------------------------------------------
// Text.

/// The decimal digits of an integer, after a `-` if it is negative.
pub open spec fn signed_decimal(n: int) -> Seq<u8> {
    if n < 0 {
        seq![45u8] + decimal((-n) as nat)
    } else {
        decimal(n as nat)
    }
}

/// Appends all the bytes of `bytes`.
pub fn push_all(out: &mut Vec<u8>, bytes: &[u8])
    ensures
        final(out)@ == old(out)@ + bytes@,
{
    let mut i: usize = 0;
    while i < bytes.len()
        invariant
            i <= bytes@.len(),
            out@ == old(out)@ + bytes@.take(i as int),
        decreases bytes@.len() - i,
    {
        out.push(bytes[i]);
        i = i + 1;
        assert(out@ =~= old(out)@ + bytes@.take(i as int));
    }
    assert(bytes@.take(bytes@.len() as int) =~= bytes@);
}

/// Appends the decimal digits of `n`.
pub fn push_decimal(out: &mut Vec<u8>, n: u64)
    ensures
        final(out)@ == old(out)@ + decimal(n as nat),
    decreases n,
{
    if n >= 10 {
        push_decimal(out, n / 10);
    }
    out.push((48 + n % 10) as u8);
    assert(final(out)@ =~= old(out)@ + decimal(n as nat));
}

/// Appends the decimal digits of `n`, after a `-` if it is negative.
pub fn push_signed(out: &mut Vec<u8>, n: i64)
    ensures
        final(out)@ == old(out)@ + signed_decimal(n as int),
{
    if n < 0 {
        out.push(45u8);
        let magnitude: u64 = if n == i64::MIN {
            9223372036854775808
        } else {
            (-n) as u64
        };
        push_decimal(out, magnitude);
        assert(final(out)@ =~= old(out)@ + signed_decimal(n as int));
    } else {
        push_decimal(out, n as u64);
    }
}

} // verus!
