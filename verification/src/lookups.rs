//! Static lookup items: attack tables of every piece, rays between squares
//! and base late move reductions.
use vstd::prelude::*;

pub mod reductions;

use crate::bitboard::{
    bit, group_sq_in, lemma_sq_in_bit, lemma_sq_in_ext, lemma_sq_in_and, lemma_sq_in_not,
    lemma_sq_in_or, lemma_sq_in_zero, sq_in, Bitboard,
};
use crate::board::accumulators::ZobristKeys;
use crate::defs::{Direction, PieceType, Side, Square};
use crate::movegen::magic::{spec_table_index, Magic, BISHOP_MAGICS, ROOK_MAGICS};
use crate::movegen::util::{is_direction, ray, ray_attack, sliding, sliding_attacks};

verus! {

/// The absolute difference of files of two squares.
pub open spec fn file_dist(s: int, t: int) -> int {
    if s % 8 >= t % 8 {
        s % 8 - t % 8
    } else {
        t % 8 - s % 8
    }
}

/// The absolute difference of ranks of two squares.
pub open spec fn rank_dist(s: int, t: int) -> int {
    if s / 8 >= t / 8 {
        s / 8 - t / 8
    } else {
        t / 8 - s / 8
    }
}

/// A knight on `s` attacks `t`.
pub open spec fn knight_step(s: int, t: int) -> bool {
    (file_dist(s, t) == 1 && rank_dist(s, t) == 2) || (file_dist(s, t) == 2 && rank_dist(s, t)
        == 1)
}

/// A king on `s` attacks `t`.
pub open spec fn king_step(s: int, t: int) -> bool {
    s != t && file_dist(s, t) <= 1 && rank_dist(s, t) <= 1
}

/// A pawn of `side` on `s` attacks `t`: one file across and one rank
/// forward (up the board for White, down for Black).
pub open spec fn pawn_step(side: int, s: int, t: int) -> bool {
    file_dist(s, t) == 1 && (if side == 1 {
        t / 8 == s / 8 + 1
    } else {
        t / 8 == s / 8 - 1
    })
}

/// Square `t` is on an edge rank or file that does not hold `s`.
pub open spec fn edge_step(s: int, t: int) -> bool {
    ((t / 8 == 0 || t / 8 == 7) && t / 8 != s / 8) || ((t % 8 == 0 || t % 8 == 7) && t % 8
        != s % 8)
}

/// The relation of the table `kind`: knights (0), kings (1), pawns of `side`
/// (2) or edges (3).
pub open spec fn step(kind: int, side: int, s: int, t: int) -> bool {
    if kind == 0 {
        knight_step(s, t)
    } else if kind == 1 {
        king_step(s, t)
    } else if kind == 2 {
        pawn_step(side, s, t)
    } else {
        edge_step(s, t)
    }
}

/// The bitboard of the squares `t` in `0..n` in relation `kind` with `s`.
#[verifier::opaque]
pub open spec fn steps_bb(kind: int, side: int, s: int, n: int) -> u64
    decreases n,
{
    if n <= 0 {
        0
    } else {
        steps_bb(kind, side, s, n - 1) | (if step(kind, side, s, n - 1) {
            bit(n - 1)
        } else {
            0
        })
    }
}

/// The squares of [`steps_bb`] are exactly those in the relation.
pub proof fn lemma_steps_bb(kind: int, side: int, s: int, n: int, t: int)
    requires
        0 <= n <= 64,
    ensures
        sq_in(steps_bb(kind, side, s, n), t) <==> (0 <= t < n && step(kind, side, s, t)),
    decreases n,
{
    broadcast use group_sq_in;

    reveal(steps_bb);
    if n > 0 {
        lemma_steps_bb(kind, side, s, n - 1, t);
    }
}

/// The knight attacks from `s`.
pub open spec fn knight_bb(s: int) -> u64 {
    steps_bb(0, 0, s, 64)
}

/// The king attacks from `s`.
pub open spec fn king_bb(s: int) -> u64 {
    steps_bb(1, 0, s, 64)
}

/// The attacks of a pawn of `side` on `s`.
pub open spec fn pawn_bb(side: int, s: int) -> u64 {
    steps_bb(2, side, s, 64)
}

/// The edge ranks and files that do not hold `s`.
pub open spec fn edge_bb(s: int) -> u64 {
    steps_bb(3, 0, s, 64)
}

/// The squares whose occupancy can change the attacks of a bishop
/// (`is_bishop`) or rook on `s`: its empty-board attacks without the edges.
pub open spec fn slider_mask(is_bishop: bool, s: int) -> u64 {
    sliding(is_bishop, s, 0) & !edge_bb(s)
}

/// The attacks of a bishop (`is_bishop`) or rook on `s`, blocked by the
/// relevant squares of `occupancies`.
pub open spec fn slider_attacks(is_bishop: bool, s: int, occupancies: u64) -> u64 {
    sliding(is_bishop, s, occupancies & slider_mask(is_bishop, s))
}

/// The attacks of a queen on `s`.
pub open spec fn queen_attacks_spec(s: int, occupancies: u64) -> u64 {
    slider_attacks(true, s, occupancies) | slider_attacks(false, s, occupancies)
}

/// The i-th direction: N, NE, E, SE, S, SW, W, NW.
pub open spec fn dir_at(i: int) -> int {
    if i == 0 { 8 } else if i == 1 { 9 } else if i == 2 { 1 } else if i == 3 { -7 } else if i
        == 4 { -8 } else if i == 5 { -9 } else if i == 6 { -1 } else { 7 }
}

/// The squares strictly between `a` and `b`, searching the directions from
/// the i-th onwards for one whose ray from `a` reaches `b`.
#[verifier::opaque]
pub open spec fn between_from(a: int, b: int, i: int) -> u64
    decreases 8 - i,
{
    if i >= 8 || i < 0 {
        0
    } else if sq_in(ray(a, dir_at(i), 0), b) {
        ray(a, dir_at(i), bit(b)) & !bit(b)
    } else {
        between_from(a, b, i + 1)
    }
}

/// The squares strictly between `a` and `b` if they share a rank, file or
/// diagonal, and the empty set otherwise.
pub open spec fn between_bb(a: int, b: int) -> u64 {
    between_from(a, b, 0)
}

/// Contains lookup tables for each piece.
pub struct Lookup {
    /// The pawn attack table: `pawn_attacks[side * 64 + square]`.
    pawn_attacks: Vec<u64>,
    /// The knight attack table: `knight_attacks[square]`.
    knight_attacks: Vec<u64>,
    /// The king attack table: `king_attacks[square]`.
    king_attacks: Vec<u64>,
    /// The magic lookup table for rooks and bishops (the 'fancy' approach of
    /// <https://www.chessprogramming.org/Magic_Bitboards>).
    magic_table: Vec<u64>,
    /// The (wrapped) magic numbers for the bishop. One per square.
    bishop_magics: Vec<Magic>,
    /// The (wrapped) magic numbers for the rook. One per square.
    rook_magics: Vec<Magic>,
    /// Every entry of the magic table has been checked against the slow
    /// attack generation.
    magics_ok: bool,
    /// The squares between two squares: `rays_between[start * 64 + end]`.
    rays_between: Vec<u64>,
}

/// The magic of `magic` on `s` gives the right attacks for the relevant
/// blockers `blockers`.
pub open spec fn magic_entry_ok(
    table: Seq<u64>,
    magic: Magic,
    is_bishop: bool,
    s: int,
    blockers: u64,
) -> bool {
    0 <= spec_table_index(magic, blockers) < table.len() && table[spec_table_index(
        magic,
        blockers,
    )] == sliding(is_bishop, s, blockers)
}

impl Lookup {
    /// All the tables hold what their specifications say.
    pub closed spec fn wf(&self) -> bool {
        &&& self.pawn_attacks@.len() == 128
        &&& self.knight_attacks@.len() == 64
        &&& self.king_attacks@.len() == 64
        &&& self.rays_between@.len() == 4096
        &&& self.bishop_magics@.len() == 64
        &&& self.rook_magics@.len() == 64
        &&& forall|side: int, s: int|
            0 <= side < 2 && 0 <= s < 64 ==> #[trigger] self.pawn_attacks@[side * 64 + s]
                == pawn_bb(side, s)
        &&& forall|s: int| 0 <= s < 64 ==> #[trigger] self.knight_attacks@[s] == knight_bb(s)
        &&& forall|s: int| 0 <= s < 64 ==> #[trigger] self.king_attacks@[s] == king_bb(s)
        &&& forall|a: int, b: int|
            0 <= a < 64 && 0 <= b < 64 ==> #[trigger] self.rays_between@[a * 64 + b]
                == between_bb(a, b)
        &&& forall|s: int|
            0 <= s < 64 ==> (#[trigger] self.bishop_magics@[s]).mask.0 == slider_mask(true, s)
                && self.bishop_magics@[s].bounded()
        &&& forall|s: int|
            0 <= s < 64 ==> (#[trigger] self.rook_magics@[s]).mask.0 == slider_mask(false, s)
                && self.rook_magics@[s].bounded()
        &&& self.magics_ok ==> forall|s: int, b: u64|
            0 <= s < 64 && b & !slider_mask(true, s) == 0 ==> #[trigger] magic_entry_ok(
                self.magic_table@,
                self.bishop_magics@[s],
                true,
                s,
                b,
            )
        &&& self.magics_ok ==> forall|s: int, b: u64|
            0 <= s < 64 && b & !slider_mask(false, s) == 0 ==> #[trigger] magic_entry_ok(
                self.magic_table@,
                self.rook_magics@[s],
                false,
                s,
                b,
            )
    }

    /// Finds the pawn attacks from `square` for a pawn of `side`.
    pub fn pawn_attacks(&self, side: Side, square: Square) -> (attacks: Bitboard)
        requires
            self.wf(),
            side.0 < 2,
            square.valid(),
        ensures
            attacks.0 == pawn_bb(side.0 as int, square.0 as int),
    {
        Bitboard(self.pawn_attacks[side.0 as usize * 64 + square.0 as usize])
    }

    /// Finds the knight attacks from `square`.
    pub fn knight_attacks(&self, square: Square) -> (attacks: Bitboard)
        requires
            self.wf(),
            square.valid(),
        ensures
            attacks.0 == knight_bb(square.0 as int),
    {
        Bitboard(self.knight_attacks[square.0 as usize])
    }

    /// Finds the king attacks from `square`.
    pub fn king_attacks(&self, square: Square) -> (attacks: Bitboard)
        requires
            self.wf(),
            square.valid(),
        ensures
            attacks.0 == king_bb(square.0 as int),
    {
        Bitboard(self.king_attacks[square.0 as usize])
    }

    /// Finds the bishop attacks from `square` with the given blockers.
    pub fn bishop_attacks(&self, square: Square, blockers: Bitboard) -> (attacks: Bitboard)
        requires
            self.wf(),
            square.valid(),
        ensures
            attacks.0 == slider_attacks(true, square.0 as int, blockers.0),
    {
        let magic = self.bishop_magics[square.0 as usize];
        let relevant = Bitboard(blockers.0 & magic.mask.0);
        if self.magics_ok {
            let index = magic.get_table_index(blockers);
            proof {
                lemma_relevant(blockers.0, magic.mask.0);
                assert(magic_entry_ok(self.magic_table@, magic, true, square.0 as int, relevant.0));
            }
            Bitboard(self.magic_table[index])
        } else {
            sliding_attacks::<2>(square, relevant)  // 2 is PieceType::BISHOP
        }
    }

    /// Finds the rook attacks from `square` with the given blockers.
    pub fn rook_attacks(&self, square: Square, blockers: Bitboard) -> (attacks: Bitboard)
        requires
            self.wf(),
            square.valid(),
        ensures
            attacks.0 == slider_attacks(false, square.0 as int, blockers.0),
    {
        let magic = self.rook_magics[square.0 as usize];
        let relevant = Bitboard(blockers.0 & magic.mask.0);
        if self.magics_ok {
            let index = magic.get_table_index(blockers);
            proof {
                lemma_relevant(blockers.0, magic.mask.0);
                assert(magic_entry_ok(self.magic_table@, magic, false, square.0 as int, relevant.0));
            }
            Bitboard(self.magic_table[index])
        } else {
            sliding_attacks::<3>(square, relevant)  // 3 is PieceType::ROOK
        }
    }

    /// Finds the queen attacks from `square` with the given blockers.
    pub fn queen_attacks(&self, square: Square, blockers: Bitboard) -> (attacks: Bitboard)
        requires
            self.wf(),
            square.valid(),
        ensures
            attacks.0 == queen_attacks_spec(square.0 as int, blockers.0),
    {
        Bitboard(self.bishop_attacks(square, blockers).0 | self.rook_attacks(square, blockers).0)
    }

    /// Finds the squares strictly between `start` and `end`: empty if they
    /// share no rank, file or diagonal.
    pub fn ray_between(&self, start: Square, end: Square) -> (between: Bitboard)
        requires
            self.wf(),
            start.valid(),
            end.valid(),
        ensures
            between.0 == between_bb(start.0 as int, end.0 as int),
    {
        Bitboard(self.rays_between[start.0 as usize * 64 + end.0 as usize])
    }
}

/// Masking twice with the same mask is masking once; the masked value is a
/// subset of the mask.
proof fn lemma_relevant(b: u64, m: u64)
    ensures
        (b & m) & m == b & m,
        (b & m) & !m == 0,
{
    assert((b & m) & m == b & m) by (bit_vector);
    assert((b & m) & !m == 0) by (bit_vector);
}


/// The absolute difference of two small numbers.
fn abs_diff(a: u8, b: u8) -> (d: u8)
    ensures
        d == if a >= b { a - b } else { b - a },
{
    if a >= b {
        a - b
    } else {
        b - a
    }
}

/// Computes whether `t` is in relation `kind` with `s` (see [`step`]).
fn compute_step(kind: u8, side: u8, s: u8, t: u8) -> (in_relation: bool)
    requires
        s < 64,
        t < 64,
    ensures
        in_relation == step(kind as int, side as int, s as int, t as int),
{
    let file_d = abs_diff(s % 8, t % 8);
    let rank_d = abs_diff(s / 8, t / 8);
    assert(file_d == file_dist(s as int, t as int));
    assert(rank_d == rank_dist(s as int, t as int));
    if kind == 0 {
        (file_d == 1 && rank_d == 2) || (file_d == 2 && rank_d == 1)
    } else if kind == 1 {
        s != t && file_d <= 1 && rank_d <= 1
    } else if kind == 2 {
        file_d == 1 && if side == 1 {
            t / 8 == s / 8 + 1
        } else {
            s / 8 >= 1 && t / 8 == s / 8 - 1
        }
    } else {
        ((t / 8 == 0 || t / 8 == 7) && t / 8 != s / 8) || ((t % 8 == 0 || t % 8 == 7) && t % 8
            != s % 8)
    }
}

/// Computes the bitboard of the squares in relation `kind` with `s`.
fn compute_steps_bb(kind: u8, side: u8, s: u8) -> (bb: u64)
    requires
        s < 64,
    ensures
        bb == steps_bb(kind as int, side as int, s as int, 64),
{
    let mut bb: u64 = 0;
    let mut t: u8 = 0;
    proof {
        reveal(steps_bb);
    }
    while t < 64
        invariant
            t <= 64,
            s < 64,
            bb == steps_bb(kind as int, side as int, s as int, t as int),
        decreases 64 - t,
    {
        proof {
            reveal(steps_bb);
        }
        if compute_step(kind, side, s, t) {
            bb = bb | (1u64 << t);
        } else {
            assert(bb | 0 == bb) by (bit_vector);
        }
        t = t + 1;
    }
    bb
}

/// Builds the attack table of knights (0), kings (1) or pawns (2, one table
/// per side), or the table of edges (3).
fn compute_table(kind: u8) -> (table: Vec<u64>)
    ensures
        kind == 2 ==> table@.len() == 128 && forall|side: int, s: int|
            0 <= side < 2 && 0 <= s < 64 ==> #[trigger] table@[side * 64 + s] == steps_bb(
                kind as int,
                side,
                s,
                64,
            ),
        kind != 2 ==> table@.len() == 64 && forall|s: int|
            0 <= s < 64 ==> #[trigger] table@[s] == steps_bb(kind as int, 0, s, 64),
{
    let sides: u8 = if kind == 2 {
        2
    } else {
        1
    };
    let mut table: Vec<u64> = Vec::new();
    let mut side: u8 = 0;
    while side < sides
        invariant
            sides == (if kind == 2 { 2u8 } else { 1u8 }),
            side <= sides,
            table@.len() == side * 64,
            forall|sd: int, s: int|
                0 <= sd < side && 0 <= s < 64 ==> #[trigger] table@[sd * 64 + s] == steps_bb(
                    kind as int,
                    sd,
                    s,
                    64,
                ),
        decreases sides - side,
    {
        let mut s: u8 = 0;
        while s < 64
            invariant
                sides == (if kind == 2 { 2u8 } else { 1u8 }),
                side < sides,
                s <= 64,
                table@.len() == side * 64 + s,
                forall|sd: int, sq: int|
                    0 <= sd < side && 0 <= sq < 64 ==> #[trigger] table@[sd * 64 + sq]
                        == steps_bb(kind as int, sd, sq, 64),
                forall|sq: int|
                    0 <= sq < s ==> #[trigger] table@[side * 64 + sq] == steps_bb(
                        kind as int,
                        side as int,
                        sq,
                        64,
                    ),
            decreases 64 - s,
        {
            let bb = compute_steps_bb(kind, side, s);
            table.push(bb);
            proof {
                assert forall|sd: int, sq: int|
                    0 <= sd < side && 0 <= sq < 64 implies #[trigger] table@[sd * 64 + sq]
                    == steps_bb(kind as int, sd, sq, 64) by {
                    assert(sd * 64 + sq < side * 64) by (nonlinear_arith)
                        requires
                            sd < side,
                            sq < 64,
                    ;
                }
            }
            s = s + 1;
        }
        side = side + 1;
    }
    proof {
        if kind != 2 {
            assert forall|s: int| 0 <= s < 64 implies #[trigger] table@[s] == steps_bb(
                kind as int,
                0,
                s,
                64,
            ) by {
                assert(table@[0 * 64 + s] == steps_bb(kind as int, 0, s, 64));
            }
        }
    }
    table
}

/// The i-th direction as a [`Direction`].
fn direction_at(i: u8) -> (direction: Direction)
    requires
        i < 8,
    ensures
        direction.0 == dir_at(i as int),
        is_direction(direction.0 as int),
{
    match i {
        0 => Direction(Direction::N),
        1 => Direction(Direction::NE),
        2 => Direction(Direction::E),
        3 => Direction(Direction::SE),
        4 => Direction(Direction::S),
        5 => Direction(Direction::SW),
        6 => Direction(Direction::W),
        _ => Direction(Direction::NW),
    }
}

/// Computes the squares strictly between `a` and `b`.
fn compute_between(a: u8, b: u8) -> (between: u64)
    requires
        a < 64,
        b < 64,
    ensures
        between == between_bb(a as int, b as int),
{
    let mut i: u8 = 0;
    proof {
        reveal(between_from);
    }
    while i < 8
        invariant
            a < 64,
            b < 64,
            i <= 8,
            between_bb(a as int, b as int) == between_from(a as int, b as int, i as int),
        decreases 8 - i,
    {
        proof {
            reveal(between_from);
        }
        let direction = direction_at(i);
        let empty_ray = ray_attack(Square(a), Bitboard(0), direction);
        if empty_ray.0 >> b as u64 & 1 == 1 {
            let target = 1u64 << b;
            let blocked_ray = ray_attack(Square(a), Bitboard(target), direction);
            return blocked_ray.0 & !target;
        }
        i = i + 1;
    }
    0
}

/// Builds the table of the squares between any two squares.
fn compute_rays_between() -> (table: Vec<u64>)
    ensures
        table@.len() == 4096,
        forall|a: int, b: int|
            0 <= a < 64 && 0 <= b < 64 ==> #[trigger] table@[a * 64 + b] == between_bb(a, b),
{
    let mut table: Vec<u64> = Vec::new();
    let mut a: u8 = 0;
    while a < 64
        invariant
            a <= 64,
            table@.len() == a * 64,
            forall|x: int, y: int|
                0 <= x < a && 0 <= y < 64 ==> #[trigger] table@[x * 64 + y] == between_bb(x, y),
        decreases 64 - a,
    {
        let mut b: u8 = 0;
        while b < 64
            invariant
                a < 64,
                b <= 64,
                table@.len() == a * 64 + b,
                forall|x: int, y: int|
                    0 <= x < a && 0 <= y < 64 ==> #[trigger] table@[x * 64 + y] == between_bb(
                        x,
                        y,
                    ),
                forall|y: int| 0 <= y < b ==> #[trigger] table@[a * 64 + y] == between_bb(
                    a as int,
                    y,
                ),
            decreases 64 - b,
        {
            let between = compute_between(a, b);
            table.push(between);
            proof {
                assert forall|x: int, y: int|
                    0 <= x < a && 0 <= y < 64 implies #[trigger] table@[x * 64 + y]
                    == between_bb(x, y) by {
                    assert(x * 64 + y < a * 64) by (nonlinear_arith)
                        requires
                            x < a,
                            y < 64,
                    ;
                }
            }
            b = b + 1;
        }
        a = a + 1;
    }
    table
}


/// Computes the relevant blocker squares of a bishop (`is_bishop`) or rook on
/// `square`.
fn relevant_mask(is_bishop: bool, square: Square) -> (mask: u64)
    requires
        square.valid(),
    ensures
        mask == slider_mask(is_bishop, square.0 as int),
{
    let attacks = if is_bishop {
        sliding_attacks::<2>(square, Bitboard(0))  // 2 is PieceType::BISHOP

    } else {
        sliding_attacks::<3>(square, Bitboard(0))  // 3 is PieceType::ROOK

    };
    let edges = Bitboard::edges_without(square);
    proof {
        let s = square.0 as int;
        assert forall|t: int| 0 <= t < 64 implies sq_in(edges.0, t) == sq_in(edge_bb(s), t) by {
            assert(edges.holds(t) == sq_in(edges.0, t));
            lemma_steps_bb(3, 0, s, 64, t);
        }
        lemma_sq_in_ext(edges.0, edge_bb(s));
    }
    attacks.0 & !edges.0
}

/// Counts the set bits of `x`.
fn count_bits(x: u64) -> (n: u32)
    ensures
        n <= 64,
{
    let mut n: u32 = 0;
    let mut i: u64 = 0;
    while i < 64
        invariant
            i <= 64,
            n <= i,
        decreases 64 - i,
    {
        if (x >> i) & 1 == 1 {
            n = n + 1;
        }
        i = i + 1;
    }
    n
}

/// Creates the magics of the bishop (`is_bishop`) or rook for every square,
/// with table regions laid out one after another from `start`.
///
/// Returns the magics, the end of the last region, and whether every region
/// fitted below 2^31.
fn make_magics(is_bishop: bool, start: u64) -> (result: (Vec<Magic>, u64, bool))
    requires
        start <= 0x8000_0000,
    ensures
        result.0@.len() == 64,
        result.1 <= 0x1_0000_0000,
        forall|s: int|
            0 <= s < 64 ==> (#[trigger] result.0@[s]).mask.0 == slider_mask(is_bishop, s)
                && result.0@[s].bounded(),
{
    let mut magics: Vec<Magic> = Vec::new();
    let mut offset: u64 = start;
    let mut ok = true;
    let mut s: u8 = 0;
    while s < 64
        invariant
            s <= 64,
            offset <= 0x1_0000_0000,
            magics@.len() == s,
            forall|x: int|
                0 <= x < s ==> (#[trigger] magics@[x]).mask.0 == slider_mask(is_bishop, x)
                    && magics@[x].bounded(),
        decreases 64 - s,
    {
        let mask = relevant_mask(is_bishop, Square(s));
        let bits = count_bits(mask);
        let number = if is_bishop {
            BISHOP_MAGICS[s as usize]
        } else {
            ROOK_MAGICS[s as usize]
        };
        if 1 <= bits && bits <= 31 && offset < 0x8000_0000 {
            let magic = Magic::new(number, Bitboard(mask), offset as usize, 64 - bits);
            assert(((offset as usize) as u32) as int == offset as int);
            assert(magic.bounded());
            magics.push(magic);
            assert(magics@[s as int] == magic);
            assert(1u64 << bits <= 0x8000_0000) by (bit_vector)
                requires
                    bits <= 31,
            ;
            offset = offset + (1u64 << bits);
        } else {
            ok = false;
            let magic = Magic::new(number, Bitboard(mask), 0, 63);
            magics.push(magic);
            assert(magics@[s as int] == magic);
        }
        s = s + 1;
    }
    (magics, offset, ok)
}

/// Writes the attacks of every relevant blocker set into the table.
fn fill_magics(table: &mut Vec<u64>, magics: &Vec<Magic>, is_bishop: bool)
    requires
        magics@.len() == 64,
        forall|s: int| 0 <= s < 64 ==> (#[trigger] magics@[s]).bounded(),
    ensures
        final(table)@.len() == old(table)@.len(),
{
    let mut s: u8 = 0;
    while s < 64
        invariant
            s <= 64,
            magics@.len() == 64,
            forall|x: int| 0 <= x < 64 ==> (#[trigger] magics@[x]).bounded(),
            table@.len() == old(table)@.len(),
        decreases 64 - s,
    {
        let magic = magics[s as usize];
        let mask = magic.mask.0;
        let mut blockers = mask;
        loop
            invariant
                s < 64,
                magic.bounded(),
                table@.len() == old(table)@.len(),
            decreases blockers,
        {
            let index = magic.get_table_index(Bitboard(blockers));
            let attacks = if is_bishop {
                sliding_attacks::<2>(Square(s), Bitboard(blockers))  // PieceType::BISHOP

            } else {
                sliding_attacks::<3>(Square(s), Bitboard(blockers))  // PieceType::ROOK

            };
            if index < table.len() {
                table.set(index, attacks.0);
            }
            if blockers == 0 {
                break ;
            }
            // Carry-Rippler trick: the next smaller subset of the mask
            let next = (blockers - 1) & mask;
            assert(((blockers - 1) as u64) & mask < blockers) by (bit_vector)
                requires
                    blockers != 0,
            ;
            blockers = next;
        }
        s = s + 1;
    }
}

/// The Carry-Rippler step gives the largest subset of the mask below
/// `b`, so no subset lies strictly between the two.
proof fn lemma_carry_rippler(x: u64, b: u64, m: u64)
    requires
        x & !m == 0,
        b & !m == 0,
        b != 0,
        x < b,
    ensures
        x <= ((b - 1) as u64) & m,
{
    assert(x & !m == 0 && b & !m == 0 && b != 0 && x < b ==> x <= (((b - 1) as u64) & m))
        by (bit_vector);
}

/// Checks every relevant blocker set of every square against the slow attack
/// generation.
fn check_magics(table: &Vec<u64>, magics: &Vec<Magic>, is_bishop: bool) -> (ok: bool)
    requires
        magics@.len() == 64,
        forall|s: int| 0 <= s < 64 ==> (#[trigger] magics@[s]).bounded(),
    ensures
        ok ==> forall|s: int, b: u64|
            0 <= s < 64 && b & !magics@[s].mask.0 == 0 ==> #[trigger] magic_entry_ok(
                table@,
                magics@[s],
                is_bishop,
                s,
                b,
            ),
{
    let mut s: u8 = 0;
    while s < 64
        invariant
            s <= 64,
            magics@.len() == 64,
            forall|x: int| 0 <= x < 64 ==> (#[trigger] magics@[x]).bounded(),
            forall|x: int, b: u64|
                0 <= x < s && b & !magics@[x].mask.0 == 0 ==> #[trigger] magic_entry_ok(
                    table@,
                    magics@[x],
                    is_bishop,
                    x,
                    b,
                ),
        decreases 64 - s,
    {
        let magic = magics[s as usize];
        let mask = magic.mask.0;
        let mut blockers = mask;
        assert(mask & !mask == 0) by (bit_vector);
        assert forall|b: u64| b & !mask == 0 implies b <= mask by {
            assert(b & !mask == 0 ==> b <= mask) by (bit_vector);
        }
        loop
            invariant
                s < 64,
                magic == magics@[s as int],
                mask == magic.mask.0,
                magic.bounded(),
                blockers & !mask == 0,
                forall|b: u64|
                    b & !mask == 0 && b > blockers ==> #[trigger] magic_entry_ok(
                        table@,
                        magic,
                        is_bishop,
                        s as int,
                        b,
                    ),
            ensures
                forall|b: u64|
                    b & !mask == 0 ==> #[trigger] magic_entry_ok(
                        table@,
                        magic,
                        is_bishop,
                        s as int,
                        b,
                    ),
            decreases blockers,
        {
            let index = magic.get_table_index(Bitboard(blockers));
            let attacks = if is_bishop {
                sliding_attacks::<2>(Square(s), Bitboard(blockers))  // PieceType::BISHOP

            } else {
                sliding_attacks::<3>(Square(s), Bitboard(blockers))  // PieceType::ROOK

            };
            if index >= table.len() || table[index] != attacks.0 {
                return false;
            }
            assert(magic_entry_ok(table@, magic, is_bishop, s as int, blockers));
            if blockers == 0 {
                break ;
            }
            let next = (blockers - 1) & mask;
            assert(((blockers - 1) as u64) & mask < blockers && (((blockers - 1) as u64) & mask)
                & !mask == 0) by (bit_vector)
                requires
                    blockers != 0,
            ;
            proof {
                assert forall|b: u64| b & !mask == 0 && b > next implies #[trigger] magic_entry_ok(
                    table@,
                    magic,
                    is_bishop,
                    s as int,
                    b,
                ) by {
                    if b < blockers {
                        lemma_carry_rippler(b, blockers, mask);
                    }
                }
            }
            blockers = next;
        }
        s = s + 1;
    }
    true
}

impl Lookup {
    /// Builds every lookup table.
    pub fn new() -> (lookup: Self)
        ensures
            lookup.wf(),
    {
        let pawn_attacks = compute_table(2);
        let knight_attacks = compute_table(0);
        let king_attacks = compute_table(1);
        let rays_between = compute_rays_between();

        // the rook regions come first, then the bishop regions
        let (rook_magics, rook_end, rook_fits) = make_magics(false, 0);
        let mut bishop_start = rook_end;
        if bishop_start > 0x8000_0000 {
            bishop_start = 0;
        }
        let (bishop_magics, bishop_end, bishop_fits) = make_magics(true, bishop_start);

        let mut magic_table: Vec<u64> = Vec::new();
        let mut magics_ok = rook_fits && bishop_fits && rook_end <= 0x8000_0000;
        if magics_ok {
            let mut i: u64 = 0;
            while i < bishop_end
                decreases bishop_end - i,
            {
                magic_table.push(0);
                i = i + 1;
            }
            fill_magics(&mut magic_table, &rook_magics, false);
            fill_magics(&mut magic_table, &bishop_magics, true);
            let rooks_checked = check_magics(&magic_table, &rook_magics, false);
            let bishops_checked = check_magics(&magic_table, &bishop_magics, true);
            magics_ok = rooks_checked && bishops_checked;
        }
        Self {
            pawn_attacks,
            knight_attacks,
            king_attacks,
            magic_table,
            bishop_magics,
            rook_magics,
            magics_ok,
            rays_between,
        }
    }
}


/// Every table the board needs: the attack tables and the zobrist keys.
pub struct Tables {
    /// The attack tables.
    pub attacks: Lookup,
    /// The zobrist keys.
    pub keys: ZobristKeys,
}

impl Tables {
    /// Both sets of tables hold what their specifications say.
    pub open spec fn wf(&self) -> bool {
        self.attacks.wf() && self.keys.wf()
    }

    /// Builds every table.
    pub fn new() -> (tables: Self)
        ensures
            tables.wf(),
    {
        Self { attacks: Lookup::new(), keys: ZobristKeys::new() }
    }
}

} // verus!
