//! Drawing a [`Bitboard`] as lines of `1`s and `0`s.
use vstd::prelude::*;

use crate::bitboard::{sq_in, Bitboard};

verus! {

/// The character of square `sq` in the picture of `bb`: `1` if it is in
/// the set and `0` if not.
pub open spec fn cell_byte(bb: u64, sq: int) -> u8 {
    if sq_in(bb, sq) {
        49
    } else {
        48
    }
}

/// The picture of rank `r` of `bb` from file `f` on: the cells separated
/// by spaces.
pub open spec fn row_picture(bb: u64, r: int, f: int) -> Seq<u8>
    decreases 8 - f,
{
    if f >= 8 {
        Seq::empty()
    } else if f == 7 {
        seq![cell_byte(bb, r * 8 + 7)]
    } else {
        seq![cell_byte(bb, r * 8 + f), 32u8] + row_picture(bb, r, f + 1)
    }
}

/// The picture of the ranks of `bb` from the 8th down to `r`, a line each.
pub open spec fn picture(bb: u64, r: int) -> Seq<u8>
    decreases 7 - r,
{
    if r >= 7 {
        row_picture(bb, 7, 0)
    } else {
        picture(bb, r + 1) + seq![10u8] + row_picture(bb, r, 0)
    }
}

impl Bitboard {
    /// Draws the bitboard: a line per rank from the 8th down, each with a
    /// `1` or a `0` per square from the a-file on, separated by spaces (see
    /// [`picture`]).
    pub fn to_bytes(self) -> (bytes: Vec<u8>)
        ensures
            bytes@ == picture(self.0, 0),
    {
        let mut out: Vec<u8> = Vec::new();
        let mut r: u8 = 8;
        while r > 0
            invariant
                r <= 8,
                r < 8 ==> out@ == picture(self.0, r as int),
                r == 8 ==> out@.len() == 0,
            decreases r,
        {
            r -= 1;
            if r < 7 {
                out.push(10u8);
            }
            let ghost base = out@;
            assert(r < 7 ==> base == picture(self.0, r + 1) + seq![10u8]);
            let mut f: u8 = 0;
            while f < 8
                invariant
                    f <= 8,
                    r < 8,
                    out@ + row_picture(self.0, r as int, f as int) == base + row_picture(
                        self.0,
                        r as int,
                        0,
                    ),
                decreases 8 - f,
            {
                let sq = r * 8 + f;
                let is_in = (self.0 >> (sq as u64)) & 1u64 == 1u64;
                let ghost before = out@;
                out.push(if is_in { 49u8 } else { 48u8 });
                if f < 7 {
                    out.push(32u8);
                    assert(out@ + row_picture(self.0, r as int, f + 1) =~= before + row_picture(
                        self.0,
                        r as int,
                        f as int,
                    ));
                } else {
                    assert(out@ + row_picture(self.0, r as int, f + 1) =~= before + row_picture(
                        self.0,
                        r as int,
                        f as int,
                    ));
                }
                f += 1;
            }
            assert(out@ =~= base + row_picture(self.0, r as int, 0));
        }
        out
    }
}

} // verus!
