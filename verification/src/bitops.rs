//! Facts about bitwise operations on machine integers, each proved once by
//! the bit-vector solver and used throughout the crate.
use vstd::prelude::*;

verus! {

/// Algebra of `^`, `|` and `&` on 64-bit words.
pub proof fn lemma_u64_ops(x: u64, a: u64, b: u64)
    by (bit_vector)
    ensures
        x ^ 0 == x,
        0 ^ x == x,
        x ^ x == 0,
        (x ^ a) ^ a == x,
        ((x ^ a) ^ a) ^ b == x ^ b,
        (x ^ a) ^ b == (x ^ b) ^ a,
        x ^ (a ^ b) == (x ^ a) ^ b,
        x | 0 == x,
        0 | x == x,
        (x | a) | b == x | (a | b),
        (x & a) & a == x & a,
        (x & a) & !a == 0,
        x & !x == 0,
        x != a ==> x ^ a != 0,
        0u64 ^ 0u64 == 0u64,
        0u64 | 0u64 == 0u64,
        0u64 ^ 0u64 ^ 0u64 ^ 0u64 == 0u64,
{
}

/// Reorderings of the xor of the parts of a zobrist key: the pieces `f`,
/// the side `a`, the castling rights `c` and the en passant square `e`,
/// toggled by `x` and `y`.
pub proof fn lemma_key_parts(f: u64, a: u64, c: u64, e: u64, x: u64, y: u64)
    by (bit_vector)
    ensures
        (((f ^ 0u64) ^ c) ^ e) ^ x == ((f ^ x) ^ c) ^ e,
        (((f ^ x) ^ c) ^ e) ^ x == ((f ^ 0u64) ^ c) ^ e,
        (((f ^ a) ^ c) ^ 0u64) ^ e == ((f ^ a) ^ c) ^ e,
        (((f ^ a) ^ c) ^ e) ^ e == ((f ^ a) ^ c) ^ 0u64,
        ((((f ^ a) ^ c) ^ e) ^ c) ^ x == ((f ^ a) ^ x) ^ e,
        (((f ^ a) ^ c) ^ e) ^ x ^ y == ((((f ^ x) ^ y) ^ a) ^ c) ^ e,
        ((f ^ x) ^ y) ^ e == ((f ^ e) ^ x) ^ y,
        f ^ x ^ 0 == f ^ x,
        (f ^ 0) ^ y == f ^ y,
{
}

/// Facts about small bytes: squares, pieces, sides and castling rights.
pub proof fn lemma_u8_ops(v: u8, w: u8)
    by (bit_vector)
    ensures
        v & 7 == v % 8,
        v >> 3 == v / 8,
        v & 1 == v % 2,
        v >> 1 == v / 2,
        v * 2 < 256 ==> v << 1 == v * 2,
        v < 2 ==> v ^ 1 == 1 - v,
        (v ^ 1) ^ 1 == v,
        (v ^ w) ^ w == v,
        v < 16 && w < 16 ==> v | w < 16,
        v < 16 ==> v & !w < 16,
        (v & 8 == 8) == (v & 8 != 0),
        (v & 4 == 4) == (v & 4 != 0),
        (v & 2 == 2) == (v & 2 != 0),
        (v & 1 == 1) == (v & 1 != 0),
        v < 16 && w <= 8 ==> v | w < 16,
{
}

/// The fields of the 16 bits of a move are in range.
pub proof fn lemma_u16_fields(b: u16)
    by (bit_vector)
    ensures
        b & 0x3f < 64,
        (b >> 8u16) & 0x3f < 64,
        b >> 14u16 < 4,
{
}

} // verus!
