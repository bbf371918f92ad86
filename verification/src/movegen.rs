//! Items related to move generation: moves, lists of moves and the
//! generation of all pseudo-legal moves of a position.
use vstd::prelude::*;
use crate::bitops::lemma_u16_fields;

use crate::defs::{spec_piece_char, spec_square_bytes, PieceType, Square};
use crate::util::push_all;

pub mod generate;
pub mod kinds;
pub mod list;
pub mod magic;
pub mod soundness;
pub mod util;

pub use list::{Moves, ScoredMove, MAX_LEGAL_MOVES};

verus! {

/// A move, packed into 16 bits.
///
/// From the most significant bit: extra bits (2 bits), end square (6 bits),
/// flags (2 bits) and start square (6 bits): `0beeEEEEEEffSSSSSS`.
///
/// If the move is castling, the extra bits are the rook offset from the king
/// destination square, plus 2. If it's a promotion, the extra bits are the
/// promotion piece: knight = `0b00`, bishop = `0b01`, etc.
#[derive(Clone, Copy, Debug, PartialEq, Eq, Structural)]
pub struct Move {
    /// The packed bits.
    pub bits: u16,
}

/// The start square of the packed bits.
pub open spec fn bits_start(bits: u16) -> u16 {
    bits & 0x3f
}

/// The end square of the packed bits.
pub open spec fn bits_end(bits: u16) -> u16 {
    (bits >> 8u16) & 0x3f
}

/// The flags of the packed bits.
pub open spec fn bits_flag(bits: u16) -> u16 {
    bits & 0xc0
}

/// The extra bits of the packed bits.
pub open spec fn bits_extra(bits: u16) -> u16 {
    bits >> 14u16
}

/// The bits of a move with the given fields.
pub open spec fn pack(start: u16, end: u16, flag: u16, extra: u16) -> u16 {
    ((end << 8u16) | start | flag | (extra << 14u16)) as u16
}

impl Move {
    /// Flag for castling.
    pub const CASTLING: u16 = 0b0100_0000;
    /// Flag for en passant.
    pub const EN_PASSANT: u16 = 0b1000_0000;
    /// Flag for promotion.
    pub const PROMOTION: u16 = 0b1100_0000;
    /// No flags.
    pub const NORMAL: u16 = 0b0000_0000;

    /// The start square.
    pub open spec fn start_sq(self) -> int {
        bits_start(self.bits) as int
    }

    /// The end square.
    pub open spec fn end_sq(self) -> int {
        bits_end(self.bits) as int
    }

    /// The move is castling.
    pub open spec fn castling(self) -> bool {
        bits_flag(self.bits) == Move::CASTLING
    }

    /// The move is en passant.
    pub open spec fn en_passant(self) -> bool {
        bits_flag(self.bits) == Move::EN_PASSANT
    }

    /// The move is a promotion.
    pub open spec fn promotion(self) -> bool {
        bits_flag(self.bits) == Move::PROMOTION
    }

    /// The promotion piece type: knight (1) to queen (4).
    pub open spec fn promo_type(self) -> int {
        bits_extra(self.bits) as int + 1
    }

    /// The offset from the king destination to the rook of a castling move:
    /// -2 to 1.
    pub open spec fn rook_offset_spec(self) -> int {
        bits_extra(self.bits) as int - 2
    }

    /// Packs the fields into a move, `flag` being one of the four flags and
    /// `extra` two bits.
    fn from_fields(start: Square, end: Square, flag: u16, extra: u16) -> (mv: Self)
        requires
            start.valid(),
            end.valid(),
            flag == Move::NORMAL || flag == Move::CASTLING || flag == Move::EN_PASSANT || flag
                == Move::PROMOTION,
            extra < 4,
        ensures
            mv.bits == pack(start.0 as u16, end.0 as u16, flag, extra),
            mv.start_sq() == start.0,
            mv.end_sq() == end.0,
            bits_flag(mv.bits) == flag,
            bits_extra(mv.bits) == extra,
    {
        let s = start.0 as u16;
        let e = end.0 as u16;
        let bits = (e << 8u16) | s | flag | (extra << 14u16);
        assert(s < 64 && e < 64 && (flag == 0 || flag == 0x40 || flag == 0x80 || flag == 0xc0)
            && extra < 4 ==> {
            let b = (e << 8u16) | s | flag | (extra << 14u16);
            &&& b & 0x3f == s
            &&& (b >> 8u16) & 0x3f == e
            &&& b & 0xc0 == flag
            &&& b >> 14u16 == extra
        }) by (bit_vector);
        Self { bits }
    }

    /// Creates a normal [`Move`] from `start` to `end`.
    ///
    /// This function cannot be used for special moves like castling.
    pub fn new(start: Square, end: Square) -> (mv: Self)
        requires
            start.valid(),
            end.valid(),
        ensures
            mv.bits == pack(start.0 as u16, end.0 as u16, Move::NORMAL, 0),
            mv.start_sq() == start.0,
            mv.end_sq() == end.0,
            !mv.castling() && !mv.en_passant() && !mv.promotion(),
    {
        Self::from_fields(start, end, Self::NORMAL, 0)
    }

    /// Creates an en passant [`Move`] from `start` to `end`.
    pub fn new_en_passant(start: Square, end: Square) -> (mv: Self)
        requires
            start.valid(),
            end.valid(),
        ensures
            mv.bits == pack(start.0 as u16, end.0 as u16, Move::EN_PASSANT, 0),
            mv.start_sq() == start.0,
            mv.end_sq() == end.0,
            mv.en_passant(),
    {
        Self::from_fields(start, end, Self::EN_PASSANT, 0)
    }

    /// Creates the castling [`Move`] of the given side to the given side of
    /// the board: the king moves two squares and the rook is three squares
    /// (kingside: offset 1) or two squares (queenside: offset -2) away from
    /// the king's destination.
    pub fn new_castle<const IS_WHITE: bool, const IS_KINGSIDE: bool>() -> (mv: Self)
        ensures
            mv.bits == pack(
                (if IS_WHITE { 4u16 } else { 60u16 }),
                (if IS_WHITE {
                    if IS_KINGSIDE { 6u16 } else { 2u16 }
                } else {
                    if IS_KINGSIDE { 62u16 } else { 58u16 }
                }),
                Move::CASTLING,
                (if IS_KINGSIDE { 3u16 } else { 0u16 }),
            ),
            mv.castling(),
            mv.start_sq() == (if IS_WHITE { 4int } else { 60int }),
            mv.end_sq() == (if IS_WHITE {
                if IS_KINGSIDE { 6int } else { 2int }
            } else {
                if IS_KINGSIDE { 62int } else { 58int }
            }),
            mv.rook_offset_spec() == (if IS_KINGSIDE { 1int } else { -2int }),
    {
        if IS_WHITE {
            if IS_KINGSIDE {
                Self::from_fields(Square(Square::E1), Square(Square::G1), Self::CASTLING, 3)
            } else {
                Self::from_fields(Square(Square::E1), Square(Square::C1), Self::CASTLING, 0)
            }
        } else {
            if IS_KINGSIDE {
                Self::from_fields(Square(Square::E8), Square(Square::G8), Self::CASTLING, 3)
            } else {
                Self::from_fields(Square(Square::E8), Square(Square::C8), Self::CASTLING, 0)
            }
        }
    }

    /// Creates a promotion [`Move`] to the piece type `PIECE` (knight to
    /// queen) from `start` to `end`.
    pub fn new_promo<const PIECE: u8>(start: Square, end: Square) -> (mv: Self)
        requires
            start.valid(),
            end.valid(),
            1 <= PIECE <= 4,
        ensures
            mv.bits == pack(start.0 as u16, end.0 as u16, Move::PROMOTION, (PIECE - 1) as u16),
            mv.start_sq() == start.0,
            mv.end_sq() == end.0,
            mv.promotion(),
            mv.promo_type() == PIECE,
    {
        Self::from_fields(start, end, Self::PROMOTION, PIECE as u16 - 1)
    }

    /// Creates a promotion [`Move`] to `promotion_piece` (knight to queen)
    /// from `start` to `end`.
    pub fn new_promo_any(start: Square, end: Square, promotion_piece: PieceType) -> (mv: Self)
        requires
            start.valid(),
            end.valid(),
            1 <= promotion_piece.0 <= 4,
        ensures
            mv.bits == pack(
                start.0 as u16,
                end.0 as u16,
                Move::PROMOTION,
                (promotion_piece.0 - 1) as u16,
            ),
            mv.start_sq() == start.0,
            mv.end_sq() == end.0,
            mv.promotion(),
            mv.promo_type() == promotion_piece.0,
    {
        Self::from_fields(start, end, Self::PROMOTION, promotion_piece.0 as u16 - 1)
    }

    /// Creates the null [`Move`], whose bits are all zero.
    pub fn null() -> (mv: Self)
        ensures
            mv.bits == 0,
    {
        Self { bits: 0 }
    }

    /// Calculates the start square of the move.
    pub fn start(self) -> (square: Square)
        ensures
            square.0 == self.start_sq(),
            square.valid(),
    {
        let b = self.bits;
        proof {
            lemma_u16_fields(b);
        }
        Square((b & 0x3f) as u8)
    }

    /// Calculates the end square of the move.
    pub fn end(self) -> (square: Square)
        ensures
            square.0 == self.end_sq(),
            square.valid(),
    {
        let b = self.bits;
        proof {
            lemma_u16_fields(b);
        }
        Square(((b >> 8u16) & 0x3f) as u8)
    }

    /// Checks if the move is castling.
    pub fn is_castling(self) -> (castling: bool)
        ensures
            castling == self.castling(),
    {
        self.bits & 0xc0 == Self::CASTLING
    }

    /// Checks if the move is en passant.
    pub fn is_en_passant(self) -> (en_passant: bool)
        ensures
            en_passant == self.en_passant(),
    {
        self.bits & 0xc0 == Self::EN_PASSANT
    }

    /// Checks if the move is a promotion.
    pub fn is_promotion(self) -> (promotion: bool)
        ensures
            promotion == self.promotion(),
    {
        self.bits & 0xc0 == Self::PROMOTION
    }

    /// Returns the difference from the king destination square to the rook
    /// starting square: -2 to 1 (only -2 and 1 for a real castling move).
    pub fn rook_offset(self) -> (offset: i8)
        ensures
            offset == self.rook_offset_spec(),
    {
        let b = self.bits;
        proof {
            lemma_u16_fields(b);
        }
        (b >> 14u16) as i8 - 2
    }

    /// Same as [`Self::rook_offset()`].
    pub fn castling_rook_offset(self) -> (offset: i8)
        ensures
            offset == self.rook_offset_spec(),
    {
        self.rook_offset()
    }

    /// Returns the piece to be promoted to: knight (1) to queen (4).
    pub fn promotion_piece(self) -> (piece_type: PieceType)
        ensures
            piece_type.0 == self.promo_type(),
            1 <= piece_type.0 <= 4,
    {
        let b = self.bits;
        proof {
            lemma_u16_fields(b);
        }
        PieceType(((b >> 14u16) + 1) as u8)
    }

    /// Checks if the move is moving from the given start square to the given
    /// end square, whatever its flags.
    pub fn is_moving_from_to(self, start: Square, end: Square) -> (moving: bool)
        requires
            start.valid(),
            end.valid(),
        ensures
            moving == (self.start_sq() == start.0 && self.end_sq() == end.0),
    {
        let other = Self::new(start, end);
        let a = self.bits;
        let o = other.bits;
        // if the start and end square are the same, xoring them together
        // will be 0
        assert(((a ^ o) & 0x3f3f == 0) == (a & 0x3f == o & 0x3f && (a >> 8u16) & 0x3f == (o >> 8u16)
            & 0x3f)) by (bit_vector);
        (a ^ o) & 0x3f3f == 0
    }

    /// Checks if the move is the promotion from `start` to `end` to
    /// `promotion_piece`.
    pub fn is_moving_from_to_promo(
        self,
        start: Square,
        end: Square,
        promotion_piece: PieceType,
    ) -> (moving: bool)
        requires
            start.valid(),
            end.valid(),
            1 <= promotion_piece.0 <= 4,
        ensures
            moving == (self.bits == pack(
                start.0 as u16,
                end.0 as u16,
                Move::PROMOTION,
                (promotion_piece.0 - 1) as u16,
            )),
    {
        self.bits == Self::new_promo_any(start, end, promotion_piece).bits
    }
}

/// A move in long algebraic notation: the start and end squares, then the
/// lowercase promotion piece of a promotion.
pub open spec fn move_bytes(mv: Move) -> Seq<u8> {
    spec_square_bytes(Square(mv.start_sq() as u8)) + spec_square_bytes(Square(mv.end_sq() as u8))
        + if mv.promotion() {
        seq![spec_piece_char(mv.promo_type() * 2) as u8]
    } else {
        Seq::empty()
    }
}

impl Move {
    /// Writes the move in long algebraic notation (see [`move_bytes`]),
    /// such as `e2e4` or `e7e8q`.
    pub fn to_bytes(self) -> (bytes: Vec<u8>)
        ensures
            bytes@ == move_bytes(self),
    {
        let mut bytes = self.start().to_bytes();
        let end = self.end().to_bytes();
        push_all(&mut bytes, end.as_slice());
        if self.is_promotion() {
            let c = self.promotion_piece().to_char();
            proof {
                lemma_move_ranges(self);
            }
            bytes.push(c as u8);
        }
        bytes
    }
}

/// Packing then reading the fields of a move gives them back.
pub proof fn lemma_move_roundtrip(start: u16, end: u16, flag: u16, extra: u16)
    requires
        start < 64,
        end < 64,
        flag == 0 || flag == 0x40 || flag == 0x80 || flag == 0xc0,
        extra < 4,
    ensures
        bits_start(pack(start, end, flag, extra)) == start,
        bits_end(pack(start, end, flag, extra)) == end,
        bits_flag(pack(start, end, flag, extra)) == flag,
        bits_extra(pack(start, end, flag, extra)) == extra,
{
    assert(start < 64 && end < 64 && (flag == 0 || flag == 0x40 || flag == 0x80 || flag == 0xc0)
        && extra < 4 ==> {
        let b = ((end << 8u16) | start | flag | (extra << 14u16)) as u16;
        &&& b & 0x3f == start
        &&& (b >> 8u16) & 0x3f == end
        &&& b & 0xc0 == flag
        &&& b >> 14u16 == extra
    }) by (bit_vector);
}

/// Two moves with the same fields are the same move: the packing loses
/// nothing.
pub proof fn lemma_move_unpack(bits: u16)
    ensures
        pack(bits_start(bits), bits_end(bits), bits_flag(bits), bits_extra(bits)) == bits,
{
    assert(((((bits >> 8u16) & 0x3f) << 8u16) | (bits & 0x3f) | (bits & 0xc0) | ((bits >> 14u16)
        << 14u16)) as u16 == bits) by (bit_vector);
}

/// The squares of a move are on the board and its extra bits are two.
pub proof fn lemma_move_ranges(mv: Move)
    ensures
        0 <= mv.start_sq() < 64,
        0 <= mv.end_sq() < 64,
        1 <= mv.promo_type() <= 4,
        -2 <= mv.rook_offset_spec() <= 1,
{
    let bits = mv.bits;
    lemma_u16_fields(bits);
}

} // verus!
