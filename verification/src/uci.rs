//! The logic of the UCI commands: the options the engine supports, and the
//! interpretation of the `setoption`, `go` and `position` commands, each
//! given as its whitespace-separated tokens after the command's name.
use vstd::prelude::*;

use crate::board::fen::{all_digits, digits_value, lemma_digits_prefix, number_digits, parse_number};
use crate::search::depth::CompressedDepth;
use crate::board::attacks::has_king;
use crate::board::fen::{parse_fen, startpos};
use crate::board::make::{after_move, legal_move, move_ok};
use crate::board::{state_key, Board, BoardState, Key};
use crate::defs::{spec_parse_square, PieceType, Side, Square};
use crate::lookups::Tables;
use crate::movegen::generate::{generate_moves, AllMoves};
use crate::movegen::list::{first_match, unscored, Moves, ScoredMove, MAX_LEGAL_MOVES};
use crate::movegen::{pack, Move};
use crate::perft::all_moves;
use crate::search::Limits;
use crate::transposition_table::TranspositionTable;

verus! {

// ---------------------------------------------------------------------------
// Words of the protocol.

/// `name`
pub const WORD_NAME: [u8; 4] = [110, 97, 109, 101];
/// `Move`
pub const WORD_MOVE: [u8; 4] = [77, 111, 118, 101];
/// `Overhead`
pub const WORD_OVERHEAD: [u8; 8] = [79, 118, 101, 114, 104, 101, 97, 100];
/// `value`
pub const WORD_VALUE: [u8; 5] = [118, 97, 108, 117, 101];
/// `Threads`
pub const WORD_THREADS: [u8; 7] = [84, 104, 114, 101, 97, 100, 115];
/// `Hash`
pub const WORD_HASH: [u8; 4] = [72, 97, 115, 104];
/// `Clear`
pub const WORD_CLEAR: [u8; 5] = [67, 108, 101, 97, 114];
/// `wtime`
pub const WORD_WTIME: [u8; 5] = [119, 116, 105, 109, 101];
/// `btime`
pub const WORD_BTIME: [u8; 5] = [98, 116, 105, 109, 101];
/// `winc`
pub const WORD_WINC: [u8; 4] = [119, 105, 110, 99];
/// `binc`
pub const WORD_BINC: [u8; 4] = [98, 105, 110, 99];
/// `movestogo`
pub const WORD_MOVESTOGO: [u8; 9] = [109, 111, 118, 101, 115, 116, 111, 103, 111];
/// `depth`
pub const WORD_DEPTH: [u8; 5] = [100, 101, 112, 116, 104];
/// `nodes`
pub const WORD_NODES: [u8; 5] = [110, 111, 100, 101, 115];
/// `movetime`
pub const WORD_MOVETIME: [u8; 8] = [109, 111, 118, 101, 116, 105, 109, 101];
/// `infinite`
pub const WORD_INFINITE: [u8; 8] = [105, 110, 102, 105, 110, 105, 116, 101];
/// `perft`
pub const WORD_PERFT: [u8; 5] = [112, 101, 114, 102, 116];
/// `startpos`
pub const WORD_STARTPOS: [u8; 8] = [115, 116, 97, 114, 116, 112, 111, 115];
/// `fen`
pub const WORD_FEN: [u8; 3] = [102, 101, 110];
/// `moves`
pub const WORD_MOVES: [u8; 5] = [109, 111, 118, 101, 115];

/// The two byte strings are equal.
pub fn bytes_eq(a: &[u8], b: &[u8]) -> (equal: bool)
    ensures
        equal == (a@ == b@),
{
    if a.len() != b.len() {
        return false;
    }
    let mut i: usize = 0;
    while i < a.len()
        invariant
            i <= a@.len() == b@.len(),
            forall|j: int| 0 <= j < i ==> a@[j] == b@[j],
        decreases a@.len() - i,
    {
        if a[i] != b[i] {
            return false;
        }
        i = i + 1;
    }
    assert(a@ =~= b@);
    true
}

/// The token at `index`, if there is one.
pub open spec fn token_at(tokens: Seq<Vec<u8>>, index: int) -> Option<Seq<u8>> {
    if 0 <= index < tokens.len() {
        Some(tokens[index]@)
    } else {
        None
    }
}

/// The token at `index` is `word`.
pub open spec fn token_is(tokens: Seq<Vec<u8>>, index: int, word: Seq<u8>) -> bool {
    token_at(tokens, index) == Some(word)
}

/// Checks that the token at `index` exists and is `word`.
fn is_token(tokens: &[Vec<u8>], index: usize, word: &[u8]) -> (is: bool)
    ensures
        is == token_is(tokens@, index as int, word@),
{
    if index < tokens.len() {
        bytes_eq(tokens[index].as_slice(), word)
    } else {
        false
    }
}

// ---------------------------------------------------------------------------
// Numbers.

/// An unsigned number no greater than `max`, parsed as Rust's `from_str`
/// does: an optional `+`, then at least one digit and nothing else.
pub open spec fn parse_unsigned(s: Seq<u8>, max: nat) -> Option<nat> {
    match parse_number(s, max) {
        Ok(n) => Some(n),
        Err(_) => None,
    }
}

/// A signed number from `min` to `max`, parsed as Rust's `from_str` does:
/// an optional `+` or `-`, then at least one digit and nothing else.
pub open spec fn parse_signed(s: Seq<u8>, min: int, max: int) -> Option<int> {
    if s.len() > 0 && s[0] == 45 {
        let digits = s.drop_first();
        if digits.len() > 0 && all_digits(digits) && -(digits_value(digits) as int) >= min {
            Some(-(digits_value(digits) as int))
        } else {
            None
        }
    } else {
        let digits = number_digits(s);
        if digits.len() > 0 && all_digits(digits) && digits_value(digits) <= max {
            Some(digits_value(digits) as int)
        } else {
            None
        }
    }
}

/// Parses the digits of `s` from `start` on as a number no greater than
/// `max`: `None` if there are none, if another byte follows or if the
/// value is greater.
fn parse_digits(s: &[u8], start: usize, max: u64) -> (value: Option<u64>)
    requires
        start <= s@.len(),
    ensures
        ({
            let digits = s@.subrange(start as int, s@.len() as int);
            match value {
                Some(v) => digits.len() > 0 && all_digits(digits) && v == digits_value(digits)
                    && v <= max,
                None => !(digits.len() > 0 && all_digits(digits) && digits_value(digits) <= max),
            }
        }),
{
    let ghost digits = s@.subrange(start as int, s@.len() as int);
    let end = s.len();
    if start == end {
        return None;
    }
    let mut i = start;
    let mut value: u64 = 0;
    while i < end
        invariant
            start <= i <= end == s@.len(),
            digits == s@.subrange(start as int, end as int),
            all_digits(s@.subrange(start as int, i as int)),
            value == digits_value(s@.subrange(start as int, i as int)),
            value <= max,
        decreases end - i,
    {
        let c = s[i];
        let ghost prefix = s@.subrange(start as int, i as int);
        let ghost next = s@.subrange(start as int, i + 1);
        assert(next.drop_last() =~= prefix);
        if !(48 <= c && c <= 57) {
            assert(digits[i - start] == c);
            return None;
        }
        let d = (c - 48) as u64;
        if d > max || value > (max - d) / 10 {
            proof {
                if d <= max {
                    assert(value * 10 + d > max) by (nonlinear_arith)
                        requires
                            value > (max - d) / 10,
                            d <= max,
                    ;
                }
                assert(digits_value(next) > max);
                if all_digits(digits) {
                    assert(next =~= digits.take(i + 1 - start));
                    lemma_digits_prefix(digits, i + 1 - start);
                }
            }
            return None;
        }
        assert(value * 10 + d <= max) by (nonlinear_arith)
            requires
                value <= (max - d) / 10,
                d <= max,
        ;
        value = value * 10 + d;
        i = i + 1;
        assert(all_digits(s@.subrange(start as int, i as int))) by {
            assert forall|j: int| 0 <= j < next.len() implies 48 <= #[trigger] next[j] <= 57 by {
                if j < prefix.len() {
                    assert(next[j] == prefix[j]);
                }
            }
        }
    }
    Some(value)
}

/// Parses an unsigned number no greater than `max` (see
/// [`parse_unsigned`]).
pub fn parse_u64(s: &[u8], max: u64) -> (value: Option<u64>)
    ensures
        match value {
            Some(v) => parse_unsigned(s@, max as nat) == Some(v as nat),
            None => parse_unsigned(s@, max as nat) is None,
        },
{
    let start: usize = if s.len() > 0 && s[0] == 43 {
        1
    } else {
        0
    };
    assert(number_digits(s@) =~= s@.subrange(start as int, s@.len() as int));
    parse_digits(s, start, max)
}

/// Parses an `i32` (see [`parse_signed`]).
pub fn parse_i32(s: &[u8]) -> (value: Option<i32>)
    ensures
        match value {
            Some(v) => parse_signed(s@, i32::MIN as int, i32::MAX as int) == Some(v as int),
            None => parse_signed(s@, i32::MIN as int, i32::MAX as int) is None,
        },
{
    if s.len() > 0 && s[0] == 45 {
        assert(s@.drop_first() =~= s@.subrange(1, s@.len() as int));
        match parse_digits(s, 1, 2147483648) {
            Some(v) => Some((0 - (v as i64)) as i32),
            None => None,
        }
    } else {
        match parse_u64(s, 2147483647) {
            Some(v) => Some(v as i32),
            None => None,
        }
    }
}

/// The token at `index` parsed as an unsigned number no greater than
/// `max`; `None` if there is no such token or it is no such number.
pub open spec fn unsigned_at(tokens: Seq<Vec<u8>>, index: int, max: nat) -> Option<nat> {
    match token_at(tokens, index) {
        Some(t) => parse_unsigned(t, max),
        None => None,
    }
}

/// Parses the token at `index`, if any, as an unsigned number no greater
/// than `max`.
fn parse_option_u64(tokens: &[Vec<u8>], index: usize, max: u64) -> (value: Option<u64>)
    ensures
        match value {
            Some(v) => unsigned_at(tokens@, index as int, max as nat) == Some(v as nat),
            None => unsigned_at(tokens@, index as int, max as nat) is None,
        },
{
    if index < tokens.len() {
        parse_u64(tokens[index].as_slice(), max)
    } else {
        None
    }
}

/// A length of time in milliseconds from the token at `index`: an `i32`,
/// where a negative time counts as a second.
pub open spec fn time_at(tokens: Seq<Vec<u8>>, index: int) -> Option<u64> {
    match token_at(tokens, index) {
        Some(t) => match parse_signed(t, i32::MIN as int, i32::MAX as int) {
            Some(v) => Some(if v < 0 { 1000 } else { v as u64 }),
            None => None,
        },
        None => None,
    }
}

/// Parses the token at `index`, if any, as a length of time in
/// milliseconds (see [`time_at`]).
///
/// A negative time gets a second, to take advantage of the grace period
/// some interfaces give.
pub fn parse_time(tokens: &[Vec<u8>], index: usize) -> (time: Option<u64>)
    ensures
        time == time_at(tokens@, index as int),
{
    if index >= tokens.len() {
        return None;
    }
    match parse_i32(tokens[index].as_slice()) {
        Some(t) => {
            if t < 0 {
                Some(1000)
            } else {
                Some(t as u64)
            }
        },
        None => None,
    }
}

// ---------------------------------------------------------------------------
// Options.

/// The UCI options this engine supports.
#[derive(Clone, Copy)]
pub struct UciOptions {
    /// The overhead of sending a move from the engine to the GUI, in
    /// milliseconds.
    move_overhead: u64,
    /// How many threads should be used.
    threads: usize,
    /// How large the transposition table should be, in MiB.
    hash: usize,
}

impl View for UciOptions {
    /// The move overhead, the number of threads and the hash size.
    type V = (u64, usize, usize);

    closed spec fn view(&self) -> (u64, usize, usize) {
        (self.move_overhead, self.threads, self.hash)
    }
}

/// `value` clamped to `min..=max`.
pub open spec fn clamped(value: int, min: int, max: int) -> int {
    if value < min {
        min
    } else if value > max {
        max
    } else {
        value
    }
}

impl UciOptions {
    /// The least move overhead, in milliseconds.
    pub const MOVE_OVERHEAD_MIN: u64 = 0;
    /// The greatest move overhead, in milliseconds.
    pub const MOVE_OVERHEAD_MAX: u64 = 1000;
    /// The least number of threads.
    pub const THREADS_MIN: usize = 1;
    /// The greatest number of threads.
    pub const THREADS_MAX: usize = 1;
    /// The least hash size, in MiB.
    pub const HASH_MIN: usize = 1;
    /// The greatest hash size, in MiB: 2^48 bytes, for 48-bit pointers.
    pub const HASH_MAX: usize = 268435456;

    /// The default options: a move overhead of 1 ms, 1 thread and 32 MiB of
    /// hash.
    pub fn default() -> (options: Self)
        ensures
            options@ == (1u64, 1usize, 32usize),
    {
        Self { move_overhead: 1, threads: 1, hash: 32 }
    }

    /// Creates new [`UciOptions`] with default values.
    pub fn new() -> (options: Self)
        ensures
            options@ == (1u64, 1usize, 32usize),
    {
        Self::default()
    }

    /// Sets the move overhead, in milliseconds, clamped in the range
    /// [`MOVE_OVERHEAD_MIN`](Self::MOVE_OVERHEAD_MIN)`..=`[`MOVE_OVERHEAD_MAX`](Self::MOVE_OVERHEAD_MAX).
    pub fn set_move_overhead(&mut self, duration: u64)
        ensures
            final(self)@ == (
                clamped(duration as int, 0, 1000) as u64,
                old(self)@.1,
                old(self)@.2,
            ),
    {
        self.move_overhead = if duration > Self::MOVE_OVERHEAD_MAX {
            Self::MOVE_OVERHEAD_MAX
        } else {
            duration
        };
    }

    /// Sets the number of threads, clamped in the range
    /// [`THREADS_MIN`](Self::THREADS_MIN)`..=`[`THREADS_MAX`](Self::THREADS_MAX).
    pub fn set_threads(&mut self, threads: usize)
        ensures
            final(self)@ == (old(self)@.0, clamped(threads as int, 1, 1) as usize, old(self)@.2),
    {
        self.threads = if threads < Self::THREADS_MIN {
            Self::THREADS_MIN
        } else if threads > Self::THREADS_MAX {
            Self::THREADS_MAX
        } else {
            threads
        };
    }

    /// Sets the hash size, clamped in the range
    /// [`HASH_MIN`](Self::HASH_MIN)`..=`[`HASH_MAX`](Self::HASH_MAX).
    pub fn set_hash(&mut self, hash: usize)
        ensures
            final(self)@ == (old(self)@.0, old(self)@.1, clamped(hash as int, 1, 268435456) as usize),
    {
        self.hash = if hash < Self::HASH_MIN {
            Self::HASH_MIN
        } else if hash > Self::HASH_MAX {
            Self::HASH_MAX
        } else {
            hash
        };
    }

    /// Returns the move overhead, in milliseconds.
    pub fn move_overhead(&self) -> (move_overhead: u64)
        ensures
            move_overhead == self@.0,
    {
        self.move_overhead
    }

    /// Returns the number of threads.
    pub fn threads(&self) -> (threads: usize)
        ensures
            threads == self@.1,
    {
        self.threads
    }

    /// Returns the hash size, in MiB.
    pub fn hash(&self) -> (hash: usize)
        ensures
            hash == self@.2,
    {
        self.hash
    }
}

// ---------------------------------------------------------------------------
// `setoption`.

/// What a `setoption` command asks for.
#[derive(Clone, Copy, Debug, PartialEq, Eq, Structural)]
pub enum OptionCommand {
    /// Set the move overhead, in milliseconds.
    MoveOverhead(u64),
    /// Set the number of threads.
    Threads(usize),
    /// Set the hash size, in MiB, and resize the table to it.
    Hash(usize),
    /// Clear the transposition table.
    ClearHash,
    /// Nothing: the command names no option, or gives no valid value.
    Ignored,
}

/// What the tokens of a `setoption` command ask for:
/// `name Move Overhead value <ms>`, `name Threads value <n>`,
/// `name Hash value <MiB>` or `name Clear Hash`; anything else is ignored,
/// as is a value that is not an unsigned number of the option's type.
pub open spec fn option_command(tokens: Seq<Vec<u8>>) -> OptionCommand {
    if !token_is(tokens, 0, WORD_NAME@) {
        OptionCommand::Ignored
    } else if token_is(tokens, 1, WORD_MOVE@) {
        if token_is(tokens, 2, WORD_OVERHEAD@) && token_is(tokens, 3, WORD_VALUE@) {
            match unsigned_at(tokens, 4, u64::MAX as nat) {
                Some(d) => OptionCommand::MoveOverhead(d as u64),
                None => OptionCommand::Ignored,
            }
        } else {
            OptionCommand::Ignored
        }
    } else if token_is(tokens, 1, WORD_THREADS@) {
        if token_is(tokens, 2, WORD_VALUE@) {
            match unsigned_at(tokens, 3, usize::MAX as nat) {
                Some(t) => OptionCommand::Threads(t as usize),
                None => OptionCommand::Ignored,
            }
        } else {
            OptionCommand::Ignored
        }
    } else if token_is(tokens, 1, WORD_HASH@) {
        if token_is(tokens, 2, WORD_VALUE@) {
            match unsigned_at(tokens, 3, usize::MAX as nat) {
                Some(h) => OptionCommand::Hash(h as usize),
                None => OptionCommand::Ignored,
            }
        } else {
            OptionCommand::Ignored
        }
    } else if token_is(tokens, 1, WORD_CLEAR@) {
        if token_is(tokens, 2, WORD_HASH@) {
            OptionCommand::ClearHash
        } else {
            OptionCommand::Ignored
        }
    } else {
        OptionCommand::Ignored
    }
}

/// Interprets the tokens of a `setoption` command (see [`option_command`]).
pub fn parse_option_command(tokens: &[Vec<u8>]) -> (command: OptionCommand)
    ensures
        command == option_command(tokens@),
{
    if !is_token(tokens, 0, &WORD_NAME) {
        return OptionCommand::Ignored;
    }
    if is_token(tokens, 1, &WORD_MOVE) {
        if is_token(tokens, 2, &WORD_OVERHEAD) && is_token(tokens, 3, &WORD_VALUE) {
            match parse_option_u64(tokens, 4, u64::MAX) {
                Some(d) => OptionCommand::MoveOverhead(d),
                None => OptionCommand::Ignored,
            }
        } else {
            OptionCommand::Ignored
        }
    } else if is_token(tokens, 1, &WORD_THREADS) {
        if is_token(tokens, 2, &WORD_VALUE) {
            match parse_option_u64(tokens, 3, usize::MAX as u64) {
                Some(t) => OptionCommand::Threads(t as usize),
                None => OptionCommand::Ignored,
            }
        } else {
            OptionCommand::Ignored
        }
    } else if is_token(tokens, 1, &WORD_HASH) {
        if is_token(tokens, 2, &WORD_VALUE) {
            match parse_option_u64(tokens, 3, usize::MAX as u64) {
                Some(h) => OptionCommand::Hash(h as usize),
                None => OptionCommand::Ignored,
            }
        } else {
            OptionCommand::Ignored
        }
    } else if is_token(tokens, 1, &WORD_CLEAR) {
        if is_token(tokens, 2, &WORD_HASH) {
            OptionCommand::ClearHash
        } else {
            OptionCommand::Ignored
        }
    } else {
        OptionCommand::Ignored
    }
}

/// Sets a UCI option from the tokens of a `setoption` command (see
/// [`option_command`]): setting the hash size also resizes `tt` to the
/// size stored, clamped to 1..=268435456 MiB, if that many bytes can be
/// counted in a `usize` (a larger size leaves `tt` as it is), and clearing
/// the hash zeroes `tt`.
pub fn set_option(tokens: &[Vec<u8>], options: &mut UciOptions, tt: &mut TranspositionTable)
    ensures
        match option_command(tokens@) {
            OptionCommand::MoveOverhead(d) => final(options)@ == (
                clamped(d as int, 0, 1000) as u64,
                old(options)@.1,
                old(options)@.2,
            ) && final(tt)@ == old(tt)@,
            OptionCommand::Threads(t) => final(options)@ == (
                old(options)@.0,
                clamped(t as int, 1, 1) as usize,
                old(options)@.2,
            ) && final(tt)@ == old(tt)@,
            OptionCommand::Hash(h) => final(options)@ == (
                old(options)@.0,
                old(options)@.1,
                clamped(h as int, 1, 268435456) as usize,
            ) && final(tt)@ == (if clamped(h as int, 1, 268435456) * 1024 * 1024 <= usize::MAX {
                Seq::new(
                    TranspositionTable::entries_in(clamped(h as int, 1, 268435456)) as nat,
                    |i: int| [0u64, 0u64],
                )
            } else {
                old(tt)@
            }),
            OptionCommand::ClearHash => final(options)@ == old(options)@ && final(tt)@ == Seq::new(
                old(tt)@.len(),
                |i: int| [0u64, 0u64],
            ),
            OptionCommand::Ignored => final(options)@ == old(options)@ && final(tt)@ == old(tt)@,
        },
{
    match parse_option_command(tokens) {
        OptionCommand::MoveOverhead(d) => options.set_move_overhead(d),
        OptionCommand::Threads(t) => options.set_threads(t),
        OptionCommand::Hash(h) => {
            options.set_hash(h);
            let size = options.hash();
            if size <= usize::MAX / 1048576 {
                tt.resize(size);
            }
        },
        OptionCommand::ClearHash => tt.clear(),
        OptionCommand::Ignored => {},
    }
}

// ---------------------------------------------------------------------------
// `go`.

/// What a `go` command asks for.
#[derive(Clone, Copy, Debug, PartialEq, Eq, Structural)]
pub enum GoCommand {
    /// Search within the limits.
    Search(Limits),
    /// Count the leaves of the move tree to the depth and print them by
    /// first move.
    Perft(u8),
    /// Nothing: a `perft` without a valid depth.
    Nothing,
}

/// The token at `index` parsed as an unsigned number from 1 to `max`.
pub open spec fn nonzero_at(tokens: Seq<Vec<u8>>, index: int, max: nat) -> Option<nat> {
    match unsigned_at(tokens, index, max) {
        Some(n) => if n == 0 {
            None
        } else {
            Some(n)
        },
        None => None,
    }
}

/// Parses the token at `index`, if any, as an unsigned number from 1 to
/// `max`.
fn parse_nonzero(tokens: &[Vec<u8>], index: usize, max: u64) -> (value: Option<u64>)
    ensures
        match value {
            Some(v) => nonzero_at(tokens@, index as int, max as nat) == Some(v as nat),
            None => nonzero_at(tokens@, index as int, max as nat) is None,
        },
{
    match parse_option_u64(tokens, index, max) {
        Some(v) => if v == 0 {
            None
        } else {
            Some(v)
        },
        None => None,
    }
}

/// The limits with the time left set to `time`, if given: a search that
/// was not timed becomes one with no increment and the maximum moves to go.
pub open spec fn with_time(limits: Limits, time: Option<u64>) -> Limits {
    match time {
        Some(t) => match limits {
            Limits::Timed { inc, moves_to_go, .. } => Limits::Timed { time: t, inc, moves_to_go },
            _ => Limits::Timed { time: t, inc: 0, moves_to_go: CompressedDepth(255) },
        },
        None => limits,
    }
}

/// The limits with the increment set to `inc`, if given, as
/// [`Limits::set_inc`] sets it.
pub open spec fn with_inc(limits: Limits, inc: Option<u64>) -> Limits {
    match inc {
        Some(i) => match limits {
            Limits::Timed { time, moves_to_go, .. } => Limits::Timed { time, inc: i, moves_to_go },
            _ => Limits::Infinite,
        },
        None => limits,
    }
}

/// The limits with the moves to go set to `mtg`, if given, as
/// [`Limits::set_moves_to_go`] sets them.
pub open spec fn with_moves_to_go(limits: Limits, mtg: Option<nat>) -> Limits {
    match mtg {
        Some(m) => match limits {
            Limits::Timed { time, inc, .. } => Limits::Timed {
                time,
                inc,
                moves_to_go: CompressedDepth(m as u8),
            },
            _ => Limits::Infinite,
        },
        None => limits,
    }
}

/// What the tokens of a `go` command ask for, from the token at `index` on
/// with `limits` so far, for a position with White (`white`) or Black to
/// move.
///
/// The tokens are read in pairs of a name and a value, the value always
/// taken, even after `infinite`: the time and increment of the side to
/// move (milliseconds, see [`time_at`]), `movestogo` and `depth` (1 to
/// 255), `nodes` (nonzero), `movetime` (milliseconds) and `infinite`. A
/// `perft` stops the reading: with a depth from 1 to 255 it asks for perft
/// to it, else for nothing. Other pairs, and values that do not parse, are
/// ignored.
pub open spec fn go_from(tokens: Seq<Vec<u8>>, index: int, white: bool, limits: Limits) -> GoCommand
    decreases tokens.len() + 1 - index,
{
    if index < 0 || index >= tokens.len() {
        GoCommand::Search(limits)
    } else {
        let token = tokens[index]@;
        let value = index + 1;
        let rest = index + 2;
        if (token == WORD_WTIME@ && white) || (token == WORD_BTIME@ && !white) {
            go_from(tokens, rest, white, with_time(limits, time_at(tokens, value)))
        } else if (token == WORD_WINC@ && white) || (token == WORD_BINC@ && !white) {
            go_from(tokens, rest, white, with_inc(limits, time_at(tokens, value)))
        } else if token == WORD_MOVESTOGO@ {
            go_from(tokens, rest, white, with_moves_to_go(limits, nonzero_at(tokens, value, 255)))
        } else if token == WORD_DEPTH@ {
            go_from(
                tokens,
                rest,
                white,
                match nonzero_at(tokens, value, 255) {
                    Some(d) => Limits::Depth(CompressedDepth(d as u8)),
                    None => limits,
                },
            )
        } else if token == WORD_NODES@ {
            go_from(
                tokens,
                rest,
                white,
                match nonzero_at(tokens, value, u64::MAX as nat) {
                    Some(n) => Limits::Nodes(n as u64),
                    None => limits,
                },
            )
        } else if token == WORD_MOVETIME@ {
            go_from(
                tokens,
                rest,
                white,
                match time_at(tokens, value) {
                    Some(t) => Limits::Movetime(t),
                    None => limits,
                },
            )
        } else if token == WORD_INFINITE@ {
            go_from(tokens, rest, white, Limits::Infinite)
        } else if token == WORD_PERFT@ {
            match nonzero_at(tokens, value, 255) {
                Some(d) => GoCommand::Perft(d as u8),
                None => GoCommand::Nothing,
            }
        } else {
            go_from(tokens, rest, white, limits)
        }
    }
}

/// What the tokens of a `go` command ask for (see [`go_from`]), starting
/// from a search until told to stop.
pub open spec fn go_command(tokens: Seq<Vec<u8>>, white: bool) -> GoCommand {
    go_from(tokens, 0, white, Limits::Infinite)
}

/// Interprets the tokens of a `go` command for a position with `side` to
/// move (see [`go_command`]).
pub fn parse_go(tokens: &[Vec<u8>], side: Side) -> (command: GoCommand)
    ensures
        command == go_command(tokens@, side.0 == Side::WHITE),
{
    let white = side.0 == Side::WHITE;
    let mut limits = Limits::default();
    let len = tokens.len();
    let mut index: usize = 0;
    while index < len
        invariant
            index <= len == tokens@.len(),
            white == (side.0 == Side::WHITE),
            go_command(tokens@, white) == go_from(tokens@, index as int, white, limits),
        decreases len - index,
    {
        let token = tokens[index].as_slice();
        let value = index + 1;
        let rest = if len - index >= 2 {
            index + 2
        } else {
            len
        };
        assert(go_from(tokens@, rest as int, white, limits) == go_from(
            tokens@,
            index + 2,
            white,
            limits,
        )) by {
            assert(forall|l: Limits|
                go_from(tokens@, rest as int, white, l) == go_from(tokens@, index + 2, white, l));
        }
        if (white && bytes_eq(token, &WORD_WTIME)) || (!white && bytes_eq(token, &WORD_BTIME)) {
            match parse_time(tokens, value) {
                Some(t) => {
                    limits = match limits {
                        Limits::Timed { inc, moves_to_go, .. } => Limits::Timed {
                            time: t,
                            inc,
                            moves_to_go,
                        },
                        _ => Limits::new_timed(t),
                    };
                },
                None => {},
            }
        } else if (white && bytes_eq(token, &WORD_WINC)) || (!white && bytes_eq(token, &WORD_BINC)) {
            match parse_time(tokens, value) {
                Some(i) => limits.set_inc(i),
                None => {},
            }
        } else if bytes_eq(token, &WORD_MOVESTOGO) {
            match parse_nonzero(tokens, value, 255) {
                Some(m) => limits.set_moves_to_go(CompressedDepth(m as u8)),
                None => {},
            }
        } else if bytes_eq(token, &WORD_DEPTH) {
            match parse_nonzero(tokens, value, 255) {
                Some(d) => {
                    limits = Limits::Depth(CompressedDepth(d as u8));
                },
                None => {},
            }
        } else if bytes_eq(token, &WORD_NODES) {
            match parse_nonzero(tokens, value, u64::MAX) {
                Some(n) => {
                    limits = Limits::Nodes(n);
                },
                None => {},
            }
        } else if bytes_eq(token, &WORD_MOVETIME) {
            match parse_time(tokens, value) {
                Some(t) => {
                    limits = Limits::Movetime(t);
                },
                None => {},
            }
        } else if bytes_eq(token, &WORD_INFINITE) {
            limits = Limits::Infinite;
        } else if bytes_eq(token, &WORD_PERFT) {
            return match parse_nonzero(tokens, value, 255) {
                Some(d) => GoCommand::Perft(d as u8),
                None => GoCommand::Nothing,
            };
        }
        index = rest;
    }
    GoCommand::Search(limits)
}

// ---------------------------------------------------------------------------
// `position`.

/// The FEN that `count` tokens from `from` on make: each followed by a
/// space.
pub open spec fn joined_tokens(tokens: Seq<Vec<u8>>, from: int, count: nat) -> Seq<u8>
    decreases count,
{
    if count == 0 {
        Seq::empty()
    } else {
        joined_tokens(tokens, from, (count - 1) as nat) + tokens[from + count - 1]@ + seq![32u8]
    }
}

/// After the position at `next`: nothing, or `moves` followed by the
/// moves; the position and the index of its first move.
pub open spec fn after_position(tokens: Seq<Vec<u8>>, state: BoardState, next: int) -> Option<
    (BoardState, int),
> {
    if next < tokens.len() {
        if tokens[next]@ == WORD_MOVES@ {
            Some((state, next + 1))
        } else {
            None
        }
    } else {
        Some((state, next))
    }
}

/// The position a `position` command starts from, `startpos` or `fen`
/// and six tokens of FEN, and the index of its first move; `None` if the
/// command is malformed.
pub open spec fn start_of_position(tokens: Seq<Vec<u8>>) -> Option<(BoardState, int)> {
    if token_is(tokens, 0, WORD_STARTPOS@) {
        after_position(tokens, startpos(), 1)
    } else if token_is(tokens, 0, WORD_FEN@) && tokens.len() >= 7 {
        match parse_fen(joined_tokens(tokens, 1, 6)) {
            Ok(state) => after_position(tokens, state, 7),
            Err(_) => None,
        }
    } else {
        None
    }
}

/// Reads the position a `position` command starts from (see
/// [`start_of_position`]).
fn position_start(tokens: &[Vec<u8>], tables: &Tables) -> (start: Option<(Board, usize)>)
    requires
        tables.wf(),
    ensures
        match start {
            Some((board, index)) => board.wf() && start_of_position(tokens@) == Some(
                (board@, index as int),
            ),
            None => start_of_position(tokens@) is None,
        },
{
    let board: Board;
    let next: usize;
    if is_token(tokens, 0, &WORD_STARTPOS) {
        board = Board::startpos(tables);
        next = 1;
    } else if is_token(tokens, 0, &WORD_FEN) && tokens.len() >= 7 {
        let mut fen: Vec<u8> = Vec::new();
        let mut k: usize = 1;
        while k < 7
            invariant
                1 <= k <= 7,
                tokens@.len() >= 7,
                fen@ == joined_tokens(tokens@, 1, (k - 1) as nat),
            decreases 7 - k,
        {
            let token = tokens[k].as_slice();
            let ghost before = fen@;
            let mut j: usize = 0;
            while j < token.len()
                invariant
                    j <= token@.len(),
                    fen@ == before + token@.take(j as int),
                decreases token@.len() - j,
            {
                fen.push(token[j]);
                j = j + 1;
                assert(fen@ =~= before + token@.take(j as int));
            }
            assert(token@.take(token@.len() as int) =~= token@);
            fen.push(32u8);
            k = k + 1;
            assert(fen@ =~= joined_tokens(tokens@, 1, (k - 1) as nat));
        }
        match Board::from_fen(fen.as_slice(), tables) {
            Ok(b) => {
                board = b;
            },
            Err(_) => {
                return None;
            },
        }
        next = 7;
    } else {
        return None;
    }
    if next < tokens.len() {
        if bytes_eq(tokens[next].as_slice(), &WORD_MOVES) {
            Some((board, next + 1))
        } else {
            None
        }
    } else {
        Some((board, next))
    }
}

/// The promotion kind a character asks for: 1 (knight) to 4 (queen), of
/// either case. A `k` asks for a knight too: its type, one past the queen,
/// does not fit in the two bits of a promotion, and what is left of it is
/// the knight's. A `p` asks for none.
pub open spec fn promotion_kind(c: u8) -> Option<int> {
    if c == 110 || c == 78 || c == 107 || c == 75 {
        Some(1)
    } else if c == 98 || c == 66 {
        Some(2)
    } else if c == 114 || c == 82 {
        Some(3)
    } else if c == 113 || c == 81 {
        Some(4)
    } else {
        None
    }
}

/// The move of `list` that a move token such as `e2e4` or `e7e8q` names:
/// the first with the start and end squares of the first four bytes, and
/// if there are exactly five, the promotion of the fifth.
pub open spec fn uci_move_in(list: Seq<ScoredMove>, token: Seq<u8>) -> Option<Move> {
    if token.len() < 4 {
        None
    } else {
        match (spec_parse_square(token.subrange(0, 2)), spec_parse_square(token.subrange(2, 4))) {
            (Ok(start), Ok(end)) => if token.len() == 5 {
                match promotion_kind(token[4]) {
                    Some(kind) => match first_match(
                        list,
                        |m: Move|
                            m.bits == pack(
                                start.0 as u16,
                                end.0 as u16,
                                Move::PROMOTION,
                                (kind - 1) as u16,
                            ),
                    ) {
                        Some(i) => Some(list[i].mv),
                        None => None,
                    },
                    None => None,
                }
            } else {
                match first_match(
                    list,
                    |m: Move| m.start_sq() == start.0 && m.end_sq() == end.0,
                ) {
                    Some(i) => Some(list[i].mv),
                    None => None,
                }
            },
            _ => None,
        }
    }
}

/// Finds the move of `moves` that a move token names (see
/// [`uci_move_in`]).
pub fn find_uci_move(moves: &Moves, token: &[u8]) -> (mv: Option<Move>)
    ensures
        mv == uci_move_in(moves@, token@),
{
    if token.len() < 4 {
        return None;
    }
    let start_bytes = vstd::slice::slice_subrange(token, 0, 2);
    let end_bytes = vstd::slice::slice_subrange(token, 2, 4);
    assert(start_bytes@ =~= token@.subrange(0, 2));
    assert(end_bytes@ =~= token@.subrange(2, 4));
    let start = match Square::from_bytes(start_bytes) {
        Ok(s) => s,
        Err(_) => {
            return None;
        },
    };
    let end = match Square::from_bytes(end_bytes) {
        Ok(s) => s,
        Err(_) => {
            return None;
        },
    };
    if token.len() == 5 {
        let c = token[4];
        let kind: u8 = if c == 110 || c == 78 || c == 107 || c == 75 {
            1
        } else if c == 98 || c == 66 {
            2
        } else if c == 114 || c == 82 {
            3
        } else if c == 113 || c == 81 {
            4
        } else {
            return None;
        };
        moves.move_with_promo(start, end, PieceType(kind))
    } else {
        moves.move_with(start, end)
    }
}

/// The moves of a position can be generated: there is a side to move, it
/// has a king and no more than [`MAX_LEGAL_MOVES`] pseudo-legal moves.
pub open spec fn playable(state: BoardState) -> bool {
    &&& state.side_to_move < 2
    &&& has_king(state)
    &&& all_moves(state).len() <= MAX_LEGAL_MOVES
}

/// The move a token names in a position.
pub open spec fn uci_move(state: BoardState, token: Seq<u8>) -> Option<Move> {
    uci_move_in(unscored(all_moves(state)), token)
}

/// The position and the keys of the positions since the last irreversible
/// move after making the moves that the tokens from `index` on name, from
/// `state` with `keys`; `None` if a token names no pseudo-legal move or an
/// illegal one.
pub open spec fn replay(state: BoardState, keys: Seq<u64>, tokens: Seq<Vec<u8>>, index: int) -> Option<
    (BoardState, Seq<u64>),
>
    decreases tokens.len() - index,
{
    if index < 0 || index >= tokens.len() {
        Some((state, keys))
    } else {
        match uci_move(state, tokens[index]@) {
            Some(mv) => if legal_move(state, mv) {
                let next = after_move(state, mv);
                replay(
                    next,
                    if next.halfmoves == 0 {
                        seq![state_key(next)]
                    } else {
                        keys.push(state_key(next))
                    },
                    tokens,
                    index + 1,
                )
            } else {
                None
            },
            None => None,
        }
    }
}

/// Each position on the way can have its moves generated and made: the
/// positions a `position` command reaches are such as a game reaches.
pub open spec fn replay_ok(state: BoardState, tokens: Seq<Vec<u8>>, index: int) -> bool
    decreases tokens.len() - index,
{
    index < 0 || index >= tokens.len() || {
        &&& playable(state)
        &&& match uci_move(state, tokens[index]@) {
            Some(mv) => move_ok(state, mv) && (legal_move(state, mv) ==> replay_ok(
                after_move(state, mv),
                tokens,
                index + 1,
            )),
            None => true,
        }
    }
}

/// The position and keys a `position` command sets, if it is well formed
/// and each move is pseudo-legal and legal.
pub open spec fn position_command(tokens: Seq<Vec<u8>>) -> Option<(BoardState, Seq<u64>)> {
    match start_of_position(tokens) {
        Some((state, index)) => replay(state, seq![state_key(state)], tokens, index),
        None => None,
    }
}

/// The positions a `position` command passes through can have their moves
/// generated and made.
pub open spec fn position_ok(tokens: Seq<Vec<u8>>) -> bool {
    match start_of_position(tokens) {
        Some((state, index)) => replay_ok(state, tokens, index),
        None => true,
    }
}

/// Sets the board, and the keys of the positions since the last
/// irreversible move, to those a `position` command specifies (see
/// [`position_command`]). Changes nothing if the command fails to get
/// parsed, or a move is not legal.
pub fn set_position(tokens: &[Vec<u8>], keys: &mut Vec<Key>, board: &mut Board, tables: &Tables)
    requires
        tables.wf(),
        position_ok(tokens@),
    ensures
        match position_command(tokens@) {
            Some((state, new_keys)) => final(board).wf() && final(board)@ == state && final(keys)@
                == new_keys,
            None => *final(board) == *old(board) && final(keys)@ == old(keys)@,
        },
{
    let (mut current, first) = match position_start(tokens, tables) {
        Some(start) => start,
        None => {
            return ;
        },
    };
    let ghost state0 = current@;
    let mut new_keys: Vec<Key> = Vec::new();
    new_keys.push(current.key());
    assert(new_keys@ =~= seq![state_key(state0)]);
    let len = tokens.len();
    let mut i = first;
    while i < len
        invariant
            first <= i <= len == tokens@.len(),
            tables.wf(),
            current.wf(),
            position_command(tokens@) == replay(current@, new_keys@, tokens@, i as int),
            replay_ok(current@, tokens@, i as int),
        decreases len - i,
    {
        let mut moves = Moves::new();
        generate_moves::<AllMoves>(&current, &tables.attacks, &mut moves);
        assert(moves@ =~= unscored(all_moves(current@)));
        let mv = match find_uci_move(&moves, tokens[i].as_slice()) {
            Some(mv) => mv,
            None => {
                return ;
            },
        };
        if !current.make_move(mv, tables) {
            return ;
        }
        if current.halfmoves() == 0 {
            new_keys.clear();
        }
        new_keys.push(current.key());
        i = i + 1;
    }
    *board = current;
    *keys = new_keys;
}

/// The move `first_match` picks satisfies the match.
proof fn lemma_first_match_matches(list: Seq<ScoredMove>, is_match: spec_fn(Move) -> bool)
    requires
        first_match(list, is_match) is Some,
    ensures
        0 <= first_match(list, is_match)->0 < list.len(),
        is_match(list[first_match(list, is_match)->0].mv),
{
    let i0 = choose|i: int| 0 <= i < list.len() && is_match(#[trigger] list[i].mv);
    lemma_earliest_match(list, is_match, i0);
}

/// Below a match there is an earliest one.
proof fn lemma_earliest_match(list: Seq<ScoredMove>, is_match: spec_fn(Move) -> bool, i: int)
    requires
        0 <= i < list.len(),
        is_match(list[i].mv),
    ensures
        exists|k: int|
            0 <= k < list.len() && is_match(#[trigger] list[k].mv) && forall|j: int|
                0 <= j < k ==> !is_match(#[trigger] list[j].mv),
    decreases i,
{
    if exists|j: int| 0 <= j < i && is_match(#[trigger] list[j].mv) {
        let j = choose|j: int| 0 <= j < i && is_match(#[trigger] list[j].mv);
        lemma_earliest_match(list, is_match, j);
    } else {
        assert(0 <= i < list.len() && is_match(list[i].mv) && forall|j: int|
            0 <= j < i ==> !is_match(#[trigger] list[j].mv));
    }
}

/// A square's two bytes, once read, print back as they were.
proof fn lemma_square_reads_back(bytes: Seq<u8>)
    requires
        bytes.len() == 2,
        spec_parse_square(bytes) is Ok,
    ensures
        spec_parse_square(bytes)->Ok_0.valid(),
        crate::defs::spec_square_bytes(spec_parse_square(bytes)->Ok_0) =~= bytes,
{
    let f = bytes[0] - 97;
    let r = bytes[1] - 49;
    assert(0 <= f < 8 && 0 <= r < 8);
    assert((f + r * 8) % 8 == f && (f + r * 8) / 8 == r) by (nonlinear_arith)
        requires
            0 <= f < 8,
            0 <= r < 8,
    ;
}

/// The move a promotion token names has the squares of its first four
/// bytes and the promotion its fifth byte asks for.
proof fn lemma_promotion_token_move(list: Seq<ScoredMove>, token: Seq<u8>)
    requires
        token.len() == 5,
        uci_move_in(list, token) is Some,
    ensures
        ({
            let start = spec_parse_square(token.subrange(0, 2))->Ok_0;
            let end = spec_parse_square(token.subrange(2, 4))->Ok_0;
            let kind = promotion_kind(token[4])->0;
            &&& spec_parse_square(token.subrange(0, 2)) is Ok
            &&& spec_parse_square(token.subrange(2, 4)) is Ok
            &&& promotion_kind(token[4]) is Some
            &&& uci_move_in(list, token)->0.bits == pack(
                start.0 as u16,
                end.0 as u16,
                Move::PROMOTION,
                (kind - 1) as u16,
            )
        }),
{
    let start = spec_parse_square(token.subrange(0, 2))->Ok_0;
    let end = spec_parse_square(token.subrange(2, 4))->Ok_0;
    let kind = promotion_kind(token[4])->0;
    let is_match = |m: Move|
        m.bits == pack(start.0 as u16, end.0 as u16, Move::PROMOTION, (kind - 1) as u16);
    assert(uci_move_in(list, token) == match first_match(list, is_match) {
        Some(i) => Some(list[i].mv),
        None => None,
    });
    lemma_first_match_matches(list, is_match);
}

/// A promotion from and to the squares of a token's first four bytes, to
/// the piece its fifth byte names, prints as the token.
proof fn lemma_promotion_prints(token: Seq<u8>, mv: Move)
    requires
        token.len() == 5,
        token[4] == 110 || token[4] == 98 || token[4] == 114 || token[4] == 113 || token[4] == 78
            || token[4] == 66 || token[4] == 82 || token[4] == 81,
        spec_parse_square(token.subrange(0, 2)) is Ok,
        spec_parse_square(token.subrange(2, 4)) is Ok,
        mv.bits == pack(
            spec_parse_square(token.subrange(0, 2))->Ok_0.0 as u16,
            spec_parse_square(token.subrange(2, 4))->Ok_0.0 as u16,
            Move::PROMOTION,
            (promotion_kind(token[4])->0 - 1) as u16,
        ),
    ensures
        crate::movegen::move_bytes(mv) =~= token.subrange(0, 4).push(
            if token[4] < 97 {
                (token[4] + 32) as u8
            } else {
                token[4]
            },
        ),
{
    let start = spec_parse_square(token.subrange(0, 2))->Ok_0;
    let end = spec_parse_square(token.subrange(2, 4))->Ok_0;
    let kind = promotion_kind(token[4])->0;
    lemma_square_reads_back(token.subrange(0, 2));
    lemma_square_reads_back(token.subrange(2, 4));
    crate::movegen::lemma_move_roundtrip(start.0 as u16, end.0 as u16, Move::PROMOTION, (kind - 1) as u16);
    assert(mv.start_sq() == start.0);
    assert(mv.end_sq() == end.0);
    assert(mv.promotion());
    assert(mv.promo_type() == kind);
    let lower: u8 = if token[4] < 97 {
        (token[4] + 32) as u8
    } else {
        token[4]
    };
    assert(crate::defs::spec_piece_char(kind * 2) as u8 == lower);
    assert(token.subrange(0, 4) =~= token.subrange(0, 2) + token.subrange(2, 4));
}

/// A promotion token whose fifth byte is `n`, `b`, `r` or `q` names a move
/// that prints back as the token: the move found promotes to the piece the
/// letter names, from and to the squares of the first four bytes.
pub proof fn lemma_promotion_token_prints_back(list: Seq<ScoredMove>, token: Seq<u8>)
    requires
        token.len() == 5,
        token[4] == 110 || token[4] == 98 || token[4] == 114 || token[4] == 113,
        uci_move_in(list, token) is Some,
    ensures
        crate::movegen::move_bytes(uci_move_in(list, token)->0) =~= token,
{
    lemma_promotion_token_move(list, token);
    lemma_promotion_prints(token, uci_move_in(list, token)->0);
    assert(token =~= token.subrange(0, 4).push(token[4]));
}

/// The promotion letter may be given in capitals too: `N`, `B`, `R` or
/// `Q` names the same move as its small letter, which the move prints
/// with.
pub proof fn lemma_capital_promotion_token_prints_back(list: Seq<ScoredMove>, token: Seq<u8>)
    requires
        token.len() == 5,
        token[4] == 78 || token[4] == 66 || token[4] == 82 || token[4] == 81,
        uci_move_in(list, token) is Some,
    ensures
        crate::movegen::move_bytes(uci_move_in(list, token)->0) =~= token.update(4, (token[4] + 32) as u8),
{
    lemma_promotion_token_move(list, token);
    lemma_promotion_prints(token, uci_move_in(list, token)->0);
}

} // verus!
