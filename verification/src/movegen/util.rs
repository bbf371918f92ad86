//! Sliding attacks: rays from a square up to the first blocker.
use vstd::prelude::*;
use crate::bitops::lemma_u64_ops;

use crate::bitboard::{bit, sq_in, group_sq_in, lemma_sq_in_bit, Bitboard};
use crate::defs::{Direction, PieceType, Square};

verus! {

/// `d` is one of the eight directions.
pub open spec fn is_direction(d: int) -> bool {
    d == 8 || d == 9 || d == 1 || d == -7 || d == -8 || d == -9 || d == -1 || d == 7
}

/// Moving from `s` by `d` stays on the board without wrapping around a side.
pub open spec fn step_ok(s: int, d: int) -> bool {
    let n = s + d;
    0 <= n < 64 && -1 <= n % 8 - s % 8 <= 1
}

/// The squares reached from `s` by repeatedly stepping by `d`, up to and
/// including the first square in `blockers`, or up to the edge of the board.
/// The square `s` itself is not included nor checked against `blockers`.
#[verifier::opaque]
pub open spec fn ray(s: int, d: int, blockers: u64) -> u64
    decreases (if d > 0 { 64 - s } else { s + 1 }),
{
    if 0 <= s < 64 && is_direction(d) && step_ok(s, d) {
        let n = s + d;
        bit(n) | (if sq_in(blockers, n) { 0 } else { ray(n, d, blockers) })
    } else {
        0
    }
}

/// The attacks of a bishop (`is_bishop`) or rook on `s` with `blockers`: the
/// union of its four rays.
#[verifier::opaque]
pub open spec fn sliding(is_bishop: bool, s: int, blockers: u64) -> u64 {
    if is_bishop {
        ray(s, 9, blockers) | ray(s, -7, blockers) | ray(s, -9, blockers) | ray(s, 7, blockers)
    } else {
        ray(s, 8, blockers) | ray(s, 1, blockers) | ray(s, -8, blockers) | ray(s, -1, blockers)
    }
}

proof fn lemma_or_assoc(a: u64, b: u64, c: u64)
    ensures
        (a | b) | c == a | (b | c),
        a | 0 == a,
        0 | a == a,
{
    lemma_u64_ops(a, b, c);
}

/// Checks if `square` can go in the given direction without leaving the
/// board or wrapping around to the other side.
pub fn is_valid(square: Square, direction: Direction) -> (valid: bool)
    requires
        square.valid(),
        is_direction(direction.0 as int),
    ensures
        valid == step_ok(square.0 as int, direction.0 as int),
{
    let dest = square.0 as i16 + direction.0 as i16;
    if dest < 0 || dest >= 64 {
        return false;
    }
    let from_file = (square.0 % 8) as i16;
    let to_file = dest % 8;
    -1 <= to_file - from_file && to_file - from_file <= 1
}

/// Generates an attack from `square` in the given direction up to and
/// including the first encountered square set in `blockers`.
///
/// e.g. `ray_attack(Square(Square::A1), Bitboard(0), Direction(Direction::N))
/// == Bitboard(0x0101010101010100)`.
pub fn ray_attack(square: Square, blockers: Bitboard, direction: Direction) -> (attacks:
    Bitboard)
    requires
        square.valid(),
        is_direction(direction.0 as int),
    ensures
        attacks.0 == ray(square.0 as int, direction.0 as int, blockers.0),
{
    let ghost d = direction.0 as int;
    let mut attacks: u64 = 0;
    let mut current = square;
    proof {
        reveal(ray);
        lemma_or_assoc(ray(square.0 as int, d, blockers.0), 0, 0);
    }
    loop
        invariant
            current.valid(),
            is_direction(d),
            d == direction.0,
            attacks | ray(current.0 as int, d, blockers.0) == ray(square.0 as int, d, blockers.0),
        decreases (if d > 0 { 64 - current.0 } else { current.0 + 1 }),
    {
        if !is_valid(current, direction) {
            proof {
                reveal(ray);
                lemma_or_assoc(attacks, 0, 0);
            }
            return Bitboard(attacks);
        }
        let next = Square((current.0 as i16 + direction.0 as i16) as u8);
        let next_bit = 1u64 << next.0;
        let ghost n = next.0 as int;
        let ghost rest = if sq_in(blockers.0, n) { 0u64 } else { ray(n, d, blockers.0) };
        proof {
            reveal(ray);
            assert(next_bit == bit(n));
            assert(ray(current.0 as int, d, blockers.0) == next_bit | rest);
            lemma_or_assoc(attacks, next_bit, rest);
            lemma_or_assoc(attacks | next_bit, 0, 0);
        }
        attacks = attacks | next_bit;
        if blockers.0 >> next.0 as u64 & 1 == 1 {
            assert(sq_in(blockers.0, n));
            return Bitboard(attacks);
        }
        current = next;
    }
}

/// Generates the attack set for `PIECE` (a bishop or a rook) on `square` up
/// to and including the given blockers and/or the edge.
pub fn sliding_attacks<const PIECE: u8>(square: Square, blockers: Bitboard) -> (attacks:
    Bitboard)
    requires
        square.valid(),
        PIECE == PieceType::BISHOP || PIECE == PieceType::ROOK,
    ensures
        attacks.0 == sliding(PIECE == PieceType::BISHOP, square.0 as int, blockers.0),
{
    proof {
        reveal(sliding);
    }
    if PIECE == PieceType::BISHOP {
        let ne = ray_attack(square, blockers, Direction(Direction::NE));
        let se = ray_attack(square, blockers, Direction(Direction::SE));
        let sw = ray_attack(square, blockers, Direction(Direction::SW));
        let nw = ray_attack(square, blockers, Direction(Direction::NW));
        Bitboard(ne.0 | se.0 | sw.0 | nw.0)
    } else {
        let n = ray_attack(square, blockers, Direction(Direction::N));
        let e = ray_attack(square, blockers, Direction(Direction::E));
        let s = ray_attack(square, blockers, Direction(Direction::S));
        let w = ray_attack(square, blockers, Direction(Direction::W));
        Bitboard(n.0 | e.0 | s.0 | w.0)
    }
}

/// Shifts a bitboard one square north without wrapping.
pub fn north(num: u64) -> (r: u64)
    ensures
        r == Bitboard(num).north_spec(),
{
    Bitboard(num).north().0
}

/// Shifts a bitboard one square east without wrapping.
pub fn east(num: u64) -> (r: u64)
    ensures
        r == Bitboard(num).east_spec(),
{
    Bitboard(num).east().0
}

/// Shifts a bitboard one square south without wrapping.
pub fn south(num: u64) -> (r: u64)
    ensures
        r == Bitboard(num).south_spec(),
{
    Bitboard(num).south().0
}

/// Shifts a bitboard one square west without wrapping.
pub fn west(num: u64) -> (r: u64)
    ensures
        r == Bitboard(num).west_spec(),
{
    Bitboard(num).west().0
}

/// Converts a square to a bitboard with the relevant bit set.
pub fn bitboard_from_square(square: u8) -> (r: u64)
    requires
        square < 64,
    ensures
        r == bit(square as int),
{
    1u64 << square
}

} // verus!
