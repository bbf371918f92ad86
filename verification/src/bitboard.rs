//! Items associated with [`Bitboard`]: a set of squares held in a `u64`.
use vstd::prelude::*;
use vstd::std_specs::bits::{u64_trailing_zeros, axiom_u64_trailing_zeros};

use crate::bitops::lemma_u64_ops;
use crate::defs::{File, Rank, Square};

/// Drawing a bitboard.
pub mod picture;

verus! {

/// A bitboard: a set of bits representing a certain state of the board. Bit
/// `i` stands for the square with index `i`.
#[derive(Clone, Copy, Debug, PartialEq, Eq, Structural)]
pub struct Bitboard(pub u64);

/// An iterator over the squares of a [`Bitboard`], lowest square first.
pub struct BitIter(pub Bitboard);

/// Square `sq` is in the set `bb`.
pub open spec fn sq_in(bb: u64, sq: int) -> bool {
    0 <= sq < 64 && (bb >> (sq as u64)) & 1u64 == 1u64
}

/// The single-square set `{sq}`.
pub open spec fn bit(sq: int) -> u64 {
    1u64 << (sq as u64)
}

/// The squares between the White king and kingside rook in the starting
/// position.
pub const CASTLING_SPACE_WK: u64 = 0x0000_0000_0000_0060;
/// The squares between the White king and queenside rook.
pub const CASTLING_SPACE_WQ: u64 = 0x0000_0000_0000_000e;
/// The squares between the Black king and kingside rook.
pub const CASTLING_SPACE_BK: u64 = 0x6000_0000_0000_0000;
/// The squares between the Black king and queenside rook.
pub const CASTLING_SPACE_BQ: u64 = 0x0e00_0000_0000_0000;

/// The squares between king and rook for the given side and castling side.
pub open spec fn castling_space(is_white: bool, is_kingside: bool) -> u64 {
    if is_white {
        if is_kingside { CASTLING_SPACE_WK } else { CASTLING_SPACE_WQ }
    } else {
        if is_kingside { CASTLING_SPACE_BK } else { CASTLING_SPACE_BQ }
    }
}

/// The squares of `bb` in ascending order.
pub open spec fn squares_of(bb: u64) -> Seq<u8>
    decreases bb,
{
    if bb == 0 {
        Seq::empty()
    } else {
        let t = u64_trailing_zeros(bb) as u64;
        proof {
            lemma_lowest_bit(bb);
        }
        seq![t as u8].add(squares_of(bb ^ (1u64 << t)))
    }
}

// ---------------------------------------------------------------------------
// Lemmas about single bits.

/// Facts about single bits of a word `a`: the bit `t`, the bits below it
/// and the word with those bits cleared.
proof fn lemma_low_bits(a: u64, t: u64, i: u64)
    by (bit_vector)
    ensures
        t < 64 && (a >> t) & 1u64 == 1u64 ==> a ^ (1u64 << t) < a,
        t < 64 && i < 64 ==> (((1u64 << t) >> i) & 1u64 == 1u64 <==> i == t),
        (0u64 >> i) & 1u64 == 0u64,
        i < t && t < 64 ==> (((a >> t) << t) >> i) & 1u64 == 0u64,
        t <= i && i < 64 ==> (((a >> t) << t) >> i) & 1u64 == (a >> i) & 1u64,
        t < 64 && (a >> t) & 1u64 == 1u64 ==> a != 0,
        t < 64 && (a >> t) & 1u64 == 1u64 && a == (a >> t) << t ==> a ^ (a & ((a - 1) as u64))
            == 1u64 << t,
{
}

/// The bits of a word shifted one square north, east, south or west.
pub proof fn lemma_shifted_bits(a: u64, i: u64)
    by (bit_vector)
    ensures
        i < 64 ==> (((a << 8u64) >> i) & 1u64 == 1u64 <==> (i >= 8 && (a >> (i - 8) as u64)
            & 1u64 == 1u64)),
        i < 64 ==> ((((a << 1u64) & !0x0101_0101_0101_0101u64) >> i) & 1u64 == 1u64 <==> (i % 8
            != 0 && (a >> (i - 1) as u64) & 1u64 == 1u64)),
        i < 64 ==> (((a >> 8u64) >> i) & 1u64 == 1u64 <==> (i < 56 && (a >> (i + 8) as u64)
            & 1u64 == 1u64)),
        i < 64 ==> ((((a >> 1u64) & !0x8080_8080_8080_8080u64) >> i) & 1u64 == 1u64 <==> (i % 8
            != 7 && (a >> (i + 1) as u64) & 1u64 == 1u64)),
{
}

/// Facts about the lowest set bit of a non-empty set.
pub proof fn lemma_lowest_bit(bb: u64)
    requires
        bb != 0,
    ensures
        u64_trailing_zeros(bb) < 64,
        sq_in(bb, u64_trailing_zeros(bb) as int),
        forall|j: int| 0 <= j < u64_trailing_zeros(bb) ==> !sq_in(bb, j),
        bb ^ (1u64 << (u64_trailing_zeros(bb) as u64)) < bb,
{
    axiom_u64_trailing_zeros(bb);
    let t = u64_trailing_zeros(bb) as u64;
    assert forall|j: int| 0 <= j < u64_trailing_zeros(bb) implies !sq_in(bb, j) by {
        let jj = j as u64;
        assert((bb >> jj) & 1u64 == 0u64);
    }
    lemma_low_bits(bb, t, 0);
}

/// Removing a square of a set leaves a smaller number.
pub proof fn lemma_remove_square(a: u64, t: int)
    requires
        sq_in(a, t),
    ensures
        a ^ bit(t) < a,
{
    lemma_low_bits(a, t as u64, 0);
}

/// Membership in an intersection, union, difference and complement.
pub proof fn lemma_bit_ops(a: u64, b: u64, i: u64)
    by (bit_vector)
    requires
        i < 64,
    ensures
        ((a & b) >> i) & 1u64 == 1u64 <==> ((a >> i) & 1u64 == 1u64 && (b >> i) & 1u64 == 1u64),
        ((a | b) >> i) & 1u64 == 1u64 <==> ((a >> i) & 1u64 == 1u64 || (b >> i) & 1u64 == 1u64),
        ((a ^ b) >> i) & 1u64 == 1u64 <==> ((a >> i) & 1u64 == 1u64) != ((b >> i) & 1u64
            == 1u64),
        ((!a) >> i) & 1u64 == 1u64 <==> !((a >> i) & 1u64 == 1u64),
        ((1u64 << i) >> i) & 1u64 == 1u64,
{
}

/// Set-level reading of `&`, `|`, `^` and `!`.
pub broadcast proof fn lemma_sq_in_and(a: u64, b: u64, i: int)
    ensures
        #[trigger] sq_in(a & b, i) <==> sq_in(a, i) && sq_in(b, i),
{
    if 0 <= i < 64 {
        lemma_bit_ops(a, b, i as u64);
    }
}

/// See [`lemma_sq_in_and`].
pub broadcast proof fn lemma_sq_in_or(a: u64, b: u64, i: int)
    ensures
        #[trigger] sq_in(a | b, i) <==> sq_in(a, i) || sq_in(b, i),
{
    if 0 <= i < 64 {
        lemma_bit_ops(a, b, i as u64);
    }
}

/// See [`lemma_sq_in_and`].
pub broadcast proof fn lemma_sq_in_xor(a: u64, b: u64, i: int)
    ensures
        #[trigger] sq_in(a ^ b, i) <==> (0 <= i < 64 && sq_in(a, i) != sq_in(b, i)),
{
    if 0 <= i < 64 {
        lemma_bit_ops(a, b, i as u64);
    }
}

/// See [`lemma_sq_in_and`].
pub broadcast proof fn lemma_sq_in_not(a: u64, i: int)
    ensures
        #[trigger] sq_in(!a, i) <==> (0 <= i < 64 && !sq_in(a, i)),
{
    if 0 <= i < 64 {
        lemma_bit_ops(a, a, i as u64);
    }
}

/// The single-square set holds exactly that square.
pub broadcast proof fn lemma_sq_in_bit(s: int, i: int)
    requires
        0 <= s < 64,
    ensures
        #[trigger] sq_in(bit(s), i) <==> i == s,
{
    if 0 <= i < 64 {
        let ss = s as u64;
        let ii = i as u64;
        lemma_low_bits(0, ss, ii);
    }
}

/// Nothing is in the empty set.
pub broadcast proof fn lemma_sq_in_zero(i: int)
    ensures
        !#[trigger] sq_in(0u64, i),
{
    if 0 <= i < 64 {
        let ii = i as u64;
        lemma_low_bits(0, 0, ii);
    }
}

/// Two sets with the same squares are equal.
pub proof fn lemma_sq_in_ext(a: u64, b: u64)
    requires
        forall|i: int| 0 <= i < 64 ==> sq_in(a, i) == sq_in(b, i),
    ensures
        a == b,
{
    if a != b {
        let c = a ^ b;
        lemma_u64_ops(a, b, 0);
        lemma_lowest_bit(c);
        let t = u64_trailing_zeros(c) as int;
        lemma_sq_in_xor(a, b, t);
        assert(sq_in(a, t) == sq_in(b, t));
    }
}

/// A set is empty exactly when it has no squares.
pub proof fn lemma_sq_in_empty(a: u64)
    ensures
        a == 0 <==> forall|i: int| 0 <= i < 64 ==> !sq_in(a, i),
{
    if a != 0 {
        lemma_lowest_bit(a);
    } else {
        assert forall|i: int| 0 <= i < 64 implies !sq_in(a, i) by {
            lemma_sq_in_zero(i);
        }
    }
}

pub broadcast group group_sq_in {
    lemma_sq_in_and,
    lemma_sq_in_or,
    lemma_sq_in_xor,
    lemma_sq_in_not,
    lemma_sq_in_bit,
    lemma_sq_in_zero,
}

/// Membership in the first element and the rest of [`squares_of`].
pub proof fn lemma_squares_of_step(bb: u64)
    requires
        bb != 0,
    ensures
        squares_of(bb) == seq![u64_trailing_zeros(bb) as u8].add(
            squares_of(bb ^ bit(u64_trailing_zeros(bb) as int)),
        ),
{
}

/// [`squares_of`] lists exactly the squares of the set, without repeats, in
/// ascending order.
pub proof fn lemma_squares_of(bb: u64)
    ensures
        forall|i: int| 0 <= i < squares_of(bb).len() ==> sq_in(bb, squares_of(bb)[i] as int),
        forall|s: int| sq_in(bb, s) ==> squares_of(bb).contains(s as u8),
        forall|i: int, j: int|
            0 <= i < j < squares_of(bb).len() ==> squares_of(bb)[i] < squares_of(bb)[j],
        squares_of(bb).len() <= 64,
    decreases bb,
{
    broadcast use group_sq_in;

    if bb == 0 {
    } else {
        lemma_lowest_bit(bb);
        let t = u64_trailing_zeros(bb) as int;
        let rest = bb ^ bit(t);
        lemma_squares_of(rest);
        let sq = squares_of(bb);
        let rs = squares_of(rest);
        assert(sq == seq![t as u8].add(rs));
        assert forall|i: int| 0 <= i < sq.len() implies sq_in(bb, sq[i] as int) by {
            if i > 0 {
                assert(sq[i] == rs[i - 1]);
            }
        }
        assert forall|s: int| sq_in(bb, s) implies sq.contains(s as u8) by {
            if s == t {
                assert(sq[0] == s as u8);
            } else {
                assert(sq_in(rest, s));
                let k = choose|k: int| 0 <= k < rs.len() && rs[k] == s as u8;
                assert(sq[k + 1] == s as u8);
            }
        }
        assert forall|i: int, j: int| 0 <= i < j < sq.len() implies sq[i] < sq[j] by {
            if i == 0 {
                assert(sq[j] == rs[j - 1]);
                assert(sq_in(rest, rs[j - 1] as int));
                assert(rs[j - 1] as int != t);
                assert(sq_in(bb, rs[j - 1] as int));
            } else {
                assert(sq[i] == rs[i - 1]);
                assert(sq[j] == rs[j - 1]);
            }
        }
        // the set of squares of `rest` is a strict subset of 64 squares
        if rs.len() >= 64 {
            assert forall|i: int| 0 <= i < rs.len() implies rs[i] < 64 && rs[i] as int != t by {
                assert(sq_in(rest, rs[i] as int));
            }
            lemma_strictly_increasing_bounded(rs, t);
        }
    }
}

/// A strictly increasing sequence of squares that misses one square has
/// fewer than 64 elements.
proof fn lemma_strictly_increasing_bounded(s: Seq<u8>, missing: int)
    requires
        forall|i: int, j: int| 0 <= i < j < s.len() ==> s[i] < s[j],
        forall|i: int| 0 <= i < s.len() ==> s[i] < 64 && s[i] as int != missing,
        0 <= missing < 64,
    ensures
        s.len() < 64,
{
    if s.len() >= 64 {
        // s[i] >= i for every i, and s[63] <= 63, so s[i] == i for i <= 63
        assert forall|i: int| 0 <= i < 64 implies s[i] >= i by {
            lemma_increasing_lower_bound(s, i);
        }
        assert forall|i: int| 0 <= i < 64 implies s[i] == i by {
            lemma_increasing_upper_bound(s, i);
        }
        assert(s[missing] == missing);
    }
}

proof fn lemma_increasing_lower_bound(s: Seq<u8>, i: int)
    requires
        forall|a: int, b: int| 0 <= a < b < s.len() ==> s[a] < s[b],
        0 <= i < s.len(),
    ensures
        s[i] >= i,
    decreases i,
{
    if i > 0 {
        lemma_increasing_lower_bound(s, i - 1);
    }
}

proof fn lemma_increasing_upper_bound(s: Seq<u8>, i: int)
    requires
        forall|a: int, b: int| 0 <= a < b < s.len() ==> s[a] < s[b],
        forall|a: int| 0 <= a < s.len() ==> s[a] < 64,
        64 <= s.len(),
        0 <= i < 64,
    ensures
        s[i] <= i,
    decreases 63 - i,
{
    if i < 63 {
        lemma_increasing_upper_bound(s, i + 1);
    }
}

impl Bitboard {
    /// The bitboard shifted one square north.
    pub open spec fn north_spec(self) -> u64 {
        self.0 << 8u64
    }

    /// The bitboard shifted one square east, without wrapping.
    pub open spec fn east_spec(self) -> u64 {
        (self.0 << 1u64) & !0x0101_0101_0101_0101u64
    }

    /// The bitboard shifted one square south.
    pub open spec fn south_spec(self) -> u64 {
        self.0 >> 8u64
    }

    /// The bitboard shifted one square west, without wrapping.
    pub open spec fn west_spec(self) -> u64 {
        (self.0 >> 1u64) & !0x8080_8080_8080_8080u64
    }

    /// Square `sq` is in the bitboard.
    pub open spec fn holds(self, sq: int) -> bool {
        sq_in(self.0, sq)
    }

    /// Returns the given file represented on a bitboard.
    ///
    /// e.g. `file_bb(File(File::FILE2)) == Bitboard(0x0202020202020202)`.
    pub fn file_bb(file: File) -> (bb: Self)
        requires
            file.0 < 8,
        ensures
            bb.0 == 0x0101_0101_0101_0101u64 << file.0,
            forall|s: int| bb.holds(s) <==> 0 <= s < 64 && s % 8 == file.0,
    {
        let f = file.0 as u64;
        let r = 0x0101_0101_0101_0101u64 << f;
        assert forall|s: int| sq_in(r, s) <==> 0 <= s < 64 && s % 8 == f by {
            if 0 <= s < 64 {
                let ss = s as u64;
                assert(f < 8 && ss < 64 ==> (((0x0101_0101_0101_0101u64 << f) >> ss) & 1u64
                    == 1u64 <==> ss % 8 == f)) by (bit_vector);
            }
        }
        Self(r)
    }

    /// Returns the given rank represented on a bitboard.
    ///
    /// e.g. `rank_bb(Rank(Rank::RANK2)) == Bitboard(0x000000000000ff00)`.
    pub fn rank_bb(rank: Rank) -> (bb: Self)
        requires
            rank.0 < 8,
        ensures
            bb.0 == 0xffu64 << (rank.0 * 8),
            forall|s: int| bb.holds(s) <==> 0 <= s < 64 && s / 8 == rank.0,
    {
        let rr = rank.0 as u64;
        let r = 0xffu64 << (rr * 8);
        assert forall|s: int| sq_in(r, s) <==> 0 <= s < 64 && s / 8 == rr by {
            if 0 <= s < 64 {
                let ss = s as u64;
                assert(rr < 8 && ss < 64 ==> (((0xffu64 << (rr * 8)) >> ss) & 1u64 == 1u64
                    <==> ss / 8 == rr)) by (bit_vector);
            }
        }
        Self(r)
    }

    /// Calculates the union of the edge files and ranks that do not contain
    /// `square`.
    ///
    /// e.g. for h4 this is the A file plus ranks 1 and 8; for a1 it is the H
    /// file plus rank 8.
    pub fn edges_without(square: Square) -> (bb: Self)
        requires
            square.valid(),
        ensures
            forall|s: int|
                bb.holds(s) <==> 0 <= s < 64 && (((s / 8 == 0 || s / 8 == 7) && s / 8
                    != square.rank_of()) || ((s % 8 == 0 || s % 8 == 7) && s % 8
                    != square.file_of())),
    {
        let rank_1 = 0x0000_0000_0000_00ffu64;
        let rank_1_and_8 = 0xff00_0000_0000_00ffu64;
        let file_a = 0x0101_0101_0101_0101u64;
        let file_a_and_h = 0x8181_8181_8181_8181u64;

        // the square on the first file of its rank
        let sq = square.0 as u64;
        let square_file_a = sq & 56;
        let square_file = sq & 7;
        assert(sq & 56 < 64 && sq & 7 < 8) by (bit_vector);
        let excluded_ranks_bb = rank_1_and_8 & !(rank_1 << square_file_a);
        let excluded_files_bb = file_a_and_h & !(file_a << square_file);
        let r = excluded_ranks_bb | excluded_files_bb;
        assert forall|s: int|
            sq_in(r, s) <==> 0 <= s < 64 && (((s / 8 == 0 || s / 8 == 7) && s / 8 != sq / 8) || (
            (s % 8 == 0 || s % 8 == 7) && s % 8 != sq % 8)) by {
            if 0 <= s < 64 {
                let ss = s as u64;
                assert(sq < 64 && ss < 64 ==> (((((0xff00_0000_0000_00ffu64 & !(
                0x0000_0000_0000_00ffu64 << (sq & 56))) | (0x8181_8181_8181_8181u64 & !(
                0x0101_0101_0101_0101u64 << (sq & 7)))) >> ss) & 1u64 == 1u64) <==> (((ss / 8
                    == 0 || ss / 8 == 7) && ss / 8 != sq / 8) || ((ss % 8 == 0 || ss % 8 == 7)
                    && ss % 8 != sq % 8)))) by (bit_vector);
            }
        }
        Self(r)
    }

    /// Same as [`Self::is_clear_to_castle()`] but with the side and castling
    /// direction as generic parameters.
    pub fn is_clear_to_castle_const<const IS_WHITE: bool, const IS_KINGSIDE: bool>(
        occupancies: Self,
    ) -> (clear: bool)
        ensures
            clear == (occupancies.0 & castling_space(IS_WHITE, IS_KINGSIDE) == 0),
    {
        let castling_space = if IS_WHITE {
            if IS_KINGSIDE {
                CASTLING_SPACE_WK
            } else {
                CASTLING_SPACE_WQ
            }
        } else {
            if IS_KINGSIDE {
                CASTLING_SPACE_BK
            } else {
                CASTLING_SPACE_BQ
            }
        };
        Self(occupancies.0 & castling_space).is_empty()
    }

    /// Calculates if there are no pieces between the king and rook, given the
    /// side and castling direction.
    pub fn is_clear_to_castle(occupancies: Self, is_white: bool, is_kingside: bool) -> (clear:
        bool)
        ensures
            clear == (occupancies.0 & castling_space(is_white, is_kingside) == 0),
    {
        let castling_space = if is_white {
            if is_kingside {
                CASTLING_SPACE_WK
            } else {
                CASTLING_SPACE_WQ
            }
        } else {
            if is_kingside {
                CASTLING_SPACE_BK
            } else {
                CASTLING_SPACE_BQ
            }
        };
        Self(occupancies.0 & castling_space).is_empty()
    }

    /// Returns an empty bitboard.
    pub fn empty() -> (bb: Self)
        ensures
            bb.0 == 0,
    {
        Self(0)
    }

    /// Tests if the bitboard is empty.
    pub fn is_empty(self) -> (empty: bool)
        ensures
            empty == (self.0 == 0),
    {
        self.0 == 0
    }

    /// The single-square bitboard of `square`.
    pub fn from_square(square: Square) -> (bb: Self)
        requires
            square.valid(),
        ensures
            bb.0 == bit(square.0 as int),
            forall|s: int| bb.holds(s) <==> s == square.0,
    {
        proof {
            broadcast use group_sq_in;

        }
        Self(1u64 << square.0)
    }

    /// Shifts the bitboard one square north if `IS_WHITE` is true, otherwise
    /// one square south.
    pub fn pawn_push<const IS_WHITE: bool>(self) -> (bb: Self)
        ensures
            IS_WHITE ==> bb.0 == self.0 << 8u64,
            !IS_WHITE ==> bb.0 == self.0 >> 8u64,
            forall|s: int|
                bb.holds(s) <==> if IS_WHITE {
                    8 <= s < 64 && self.holds(s - 8)
                } else {
                    0 <= s < 56 && self.holds(s + 8)
                },
    {
        if IS_WHITE {
            self.north()
        } else {
            self.south()
        }
    }

    /// Shifts the bitboard one square north without wrapping.
    pub fn north(self) -> (bb: Self)
        ensures
            bb.0 == self.0 << 8u64,
            forall|s: int| bb.holds(s) <==> 8 <= s < 64 && self.holds(s - 8),
    {
        let a = self.0;
        let r = a << 8u64;
        assert forall|s: int| sq_in(r, s) <==> 8 <= s < 64 && sq_in(a, s - 8) by {
            if 0 <= s < 64 {
                let ss = s as u64;
                lemma_shifted_bits(a, ss);
            }
        }
        Self(r)
    }

    /// Shifts the bitboard one square east without wrapping.
    pub fn east(self) -> (bb: Self)
        ensures
            bb.0 == (self.0 << 1u64) & !0x0101_0101_0101_0101u64,
            forall|s: int| bb.holds(s) <==> 0 <= s < 64 && s % 8 != 0 && self.holds(s - 1),
    {
        let a = self.0;
        let r = (a << 1u64) & !0x0101_0101_0101_0101u64;
        assert forall|s: int| sq_in(r, s) <==> 0 <= s < 64 && s % 8 != 0 && sq_in(a, s - 1) by {
            if 0 <= s < 64 {
                let ss = s as u64;
                lemma_shifted_bits(a, ss);
            }
        }
        Self(r)
    }

    /// Shifts the bitboard one square south without wrapping.
    pub fn south(self) -> (bb: Self)
        ensures
            bb.0 == self.0 >> 8u64,
            forall|s: int| bb.holds(s) <==> 0 <= s < 56 && self.holds(s + 8),
    {
        let a = self.0;
        let r = a >> 8u64;
        assert forall|s: int| sq_in(r, s) <==> 0 <= s < 56 && sq_in(a, s + 8) by {
            if 0 <= s < 64 {
                let ss = s as u64;
                lemma_shifted_bits(a, ss);
            }
        }
        Self(r)
    }

    /// Shifts the bitboard one square west without wrapping.
    pub fn west(self) -> (bb: Self)
        ensures
            bb.0 == (self.0 >> 1u64) & !0x8080_8080_8080_8080u64,
            forall|s: int| bb.holds(s) <==> 0 <= s < 64 && s % 8 != 7 && self.holds(s + 1),
    {
        let a = self.0;
        let r = (a >> 1u64) & !0x8080_8080_8080_8080u64;
        assert forall|s: int| sq_in(r, s) <==> 0 <= s < 64 && s % 8 != 7 && sq_in(a, s + 1) by {
            if 0 <= s < 64 {
                let ss = s as u64;
                lemma_shifted_bits(a, ss);
            }
        }
        Self(r)
    }

    /// Clears the least significant bit of the bitboard and returns it.
    ///
    /// If the bitboard is empty, both it and the result stay empty.
    pub fn pop_lsb(&mut self) -> (popped: Self)
        ensures
            old(self).0 == 0 ==> popped.0 == 0 && final(self).0 == 0,
            old(self).0 != 0 ==> popped.0 == bit(u64_trailing_zeros(old(self).0) as int),
            final(self).0 == old(self).0 ^ popped.0,
    {
        let a = self.0;
        // `a & (a - 1)` is `a` without its lowest bit
        let popped_bit = if a == 0 {
            0
        } else {
            a ^ (a & (a - 1))
        };
        proof {
            if a != 0 {
                lemma_lowest_bit(a);
                let t = u64_trailing_zeros(a) as u64;
                assert forall|j: u64| j < t implies #[trigger] ((a >> j) & 1u64) == 0u64 by {
                    assert(!sq_in(a, j as int));
                }
                lemma_isolate_lowest(a, t);
            } else {
                lemma_u64_ops(0, 0, 0);
            }
        }
        self.0 = a ^ popped_bit;
        Self(popped_bit)
    }

    /// Clears the least significant bit of the bitboard and returns the
    /// square of that bit.
    pub fn pop_next_square(&mut self) -> (square: Square)
        requires
            old(self).0 != 0,
        ensures
            square.0 == u64_trailing_zeros(old(self).0),
            square.valid(),
            old(self).holds(square.0 as int),
            final(self).0 == old(self).0 ^ bit(square.0 as int),
            forall|s: int| final(self).holds(s) <==> old(self).holds(s) && s != square.0,
            squares_of(old(self).0) == seq![square.0].add(squares_of(final(self).0)),
    {
        proof {
            lemma_lowest_bit(self.0);
            broadcast use group_sq_in;

        }
        let square = Square(self.0.trailing_zeros() as u8);
        self.0 = self.0 ^ (1u64 << square.0);
        square
    }
}

/// Clearing the lowest bit with `a & (a - 1)` leaves exactly that bit out.
proof fn lemma_isolate_lowest(a: u64, t: u64)
    requires
        t < 64,
        (a >> t) & 1u64 == 1u64,
        forall|j: u64| j < t ==> #[trigger] ((a >> j) & 1u64) == 0u64,
    ensures
        a != 0,
        a ^ (a & ((a - 1) as u64)) == 1u64 << t,
{
    // the bits below `t` are clear, so `a` is a multiple of 2^t
    assert(a == (a >> t) << t) by {
        assert forall|i: int| 0 <= i < 64 implies sq_in(a, i) == sq_in((a >> t) << t, i) by {
            let ii = i as u64;
            if ii < t {
                assert((a >> ii) & 1u64 == 0u64);
                lemma_low_bits(a, t, ii);
            } else {
                lemma_low_bits(a, t, ii);
            }
        }
        lemma_sq_in_ext(a, (a >> t) << t);
    }
    lemma_low_bits(a, t, 0);
}

impl BitIter {
    /// Wraps a [`Bitboard`] in a [`BitIter`].
    pub fn new(bb: Bitboard) -> (iter: Self)
        ensures
            iter.0 == bb,
    {
        Self(bb)
    }

    /// The squares still to come, in order.
    pub open spec fn remaining(self) -> Seq<u8> {
        squares_of(self.0.0)
    }

    /// Clears the lowest square of the wrapped [`Bitboard`] and returns it.
    ///
    /// Returns [`None`] if there are no squares left.
    pub fn next(&mut self) -> (square: Option<Square>)
        ensures
            match square {
                None => old(self).0.0 == 0 && final(self).0.0 == 0 && old(self).remaining().len()
                    == 0,
                Some(sq) => old(self).remaining() == seq![sq.0].add(final(self).remaining())
                    && sq.valid() && old(self).0.holds(sq.0 as int) && forall|s: int|
                    final(self).0.holds(s) <==> old(self).0.holds(s) && s != sq.0,
            },
    {
        if self.0.is_empty() {
            None
        } else {
            Some(self.0.pop_next_square())
        }
    }
}

} // verus!
