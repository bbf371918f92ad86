//! Definitions and enumerations: squares, files, ranks, pieces and sides.
//!
//! Each of these is a thin wrapper over a small integer. The named values are
//! associated constants of the underlying integer type, so `Square(Square::E4)`
//! is the square e4.
use vstd::prelude::*;
use crate::bitops::lemma_u8_ops;

use crate::error::ParseError;

verus! {

/// A cardinal direction, as an offset between square indices.
#[derive(Clone, Copy, Debug, PartialEq, Eq, Structural)]
pub struct Direction(pub i8);

/// A file: file A = 0 to file H = 7.
#[derive(Clone, Copy, Debug, PartialEq, Eq, Structural)]
pub struct File(pub u8);

/// A certain type of move. See the associated constants.
pub struct MoveType;

/// A piece, containing the type of piece and side: `type * 2 + side`.
///
/// The internal order of pieces is the same as [`PieceType`], but the exact
/// constants are not. [`Piece::NONE`] (12) is the absence of a piece.
#[derive(Clone, Copy, Debug, PartialEq, Eq, Structural)]
pub struct Piece(pub u8);

/// A type of piece: pawn = 0 to king = 5, or [`PieceType::NONE`] (6).
#[derive(Clone, Copy, Debug, PartialEq, Eq, Structural)]
pub struct PieceType(pub u8);

/// A rank: rank 1 = 0 to rank 8 = 7.
#[derive(Clone, Copy, Debug, PartialEq, Eq, Structural)]
pub struct Rank(pub u8);

/// A side: Black = 0, White = 1, or 2 for no side.
#[derive(Clone, Copy, Debug, PartialEq, Eq, Structural)]
pub struct Side(pub u8);

/// A square with little-endian rank-file mapping: a1 = 0, b1 = 1, ..., h8 =
/// 63, and 64 for no square.
#[derive(Clone, Copy, Debug, PartialEq, Eq, Structural)]
pub struct Square(pub u8);

/// Cardinal directions, according to little-endian rank-file mapping.
impl Direction {
    pub const N: i8 = 8;
    pub const NE: i8 = 9;
    pub const E: i8 = 1;
    pub const SE: i8 = -7;
    pub const S: i8 = -8;
    pub const SW: i8 = -9;
    pub const W: i8 = -1;
    pub const NW: i8 = 7;
}

/// File enumerations.
impl File {
    pub const FILE1: u8 = 0;
    pub const FILE2: u8 = 1;
    pub const FILE3: u8 = 2;
    pub const FILE4: u8 = 3;
    pub const FILE5: u8 = 4;
    pub const FILE6: u8 = 5;
    pub const FILE7: u8 = 6;
    pub const FILE8: u8 = 7;
    pub const TOTAL: usize = 8;
}

impl MoveType {
    /// All moves.
    pub const ALL: u8 = 0;
    /// Captures only.
    pub const CAPTURES: u8 = 1;
    /// Check evasions: king moves and/or captures of checkers.
    pub const EVASIONS: u8 = 2;
}

/// Piece enumerations for White and Black.
impl Piece {
    pub const BPAWN: u8 = 0;
    pub const WPAWN: u8 = 1;
    pub const BKNIGHT: u8 = 2;
    pub const WKNIGHT: u8 = 3;
    pub const BBISHOP: u8 = 4;
    pub const WBISHOP: u8 = 5;
    pub const BROOK: u8 = 6;
    pub const WROOK: u8 = 7;
    pub const BQUEEN: u8 = 8;
    pub const WQUEEN: u8 = 9;
    pub const BKING: u8 = 10;
    pub const WKING: u8 = 11;
    pub const TOTAL: usize = 12;
    pub const NONE: u8 = 12;
}

/// Piece type enumerations.
impl PieceType {
    pub const PAWN: u8 = 0;
    pub const KNIGHT: u8 = 1;
    pub const BISHOP: u8 = 2;
    pub const ROOK: u8 = 3;
    pub const QUEEN: u8 = 4;
    pub const KING: u8 = 5;
    pub const TOTAL: usize = 6;
    pub const NONE: u8 = 6;
}

/// Rank enumerations.
impl Rank {
    pub const RANK1: u8 = 0;
    pub const RANK2: u8 = 1;
    pub const RANK3: u8 = 2;
    pub const RANK4: u8 = 3;
    pub const RANK5: u8 = 4;
    pub const RANK6: u8 = 5;
    pub const RANK7: u8 = 6;
    pub const RANK8: u8 = 7;
    pub const TOTAL: usize = 8;
}

/// Side enumerations.
impl Side {
    pub const BLACK: u8 = 0;
    pub const WHITE: u8 = 1;
    pub const TOTAL: usize = 2;
    pub const NONE: u8 = 2;
}

/// Square enumerations.
impl Square {
    pub const A1: u8 = 0;
    pub const B1: u8 = 1;
    pub const C1: u8 = 2;
    pub const D1: u8 = 3;
    pub const E1: u8 = 4;
    pub const F1: u8 = 5;
    pub const G1: u8 = 6;
    pub const H1: u8 = 7;
    pub const A2: u8 = 8;
    pub const H2: u8 = 15;
    pub const A3: u8 = 16;
    pub const H3: u8 = 23;
    pub const A4: u8 = 24;
    pub const E4: u8 = 28;
    pub const A5: u8 = 32;
    pub const A6: u8 = 40;
    pub const H6: u8 = 47;
    pub const A7: u8 = 48;
    pub const A8: u8 = 56;
    pub const B8: u8 = 57;
    pub const C8: u8 = 58;
    pub const D8: u8 = 59;
    pub const E8: u8 = 60;
    pub const F8: u8 = 61;
    pub const G8: u8 = 62;
    pub const H8: u8 = 63;
    pub const TOTAL: usize = 64;
    pub const NONE: u8 = 64;
}

/// The MVV (Most Valuable Victim) bonus of capturing each piece type, pawn to
/// queen.
pub open spec fn spec_mvv_bonus(piece_type: int) -> int {
    if piece_type == 0 {
        0
    } else if piece_type == 1 || piece_type == 2 {
        300
    } else if piece_type == 3 {
        500
    } else {
        900
    }
}

/// The value of each piece type during static exchange evaluation, pawn to
/// [`PieceType::NONE`].
pub open spec fn spec_see_bonus(piece_type: int) -> int {
    if piece_type == 0 {
        100
    } else if piece_type == 1 || piece_type == 2 {
        300
    } else if piece_type == 3 {
        500
    } else if piece_type == 4 {
        900
    } else {
        0
    }
}

/// The FEN character of each piece: 'p', 'P', 'n', 'N', ..., 'k', 'K', and
/// '0' for [`Piece::NONE`].
pub open spec fn spec_piece_char(piece: int) -> char {
    if piece == 0 { 'p' } else if piece == 1 { 'P' } else if piece == 2 { 'n' } else if piece
        == 3 { 'N' } else if piece == 4 { 'b' } else if piece == 5 { 'B' } else if piece == 6 {
        'r'
    } else if piece == 7 { 'R' } else if piece == 8 { 'q' } else if piece == 9 { 'Q' } else if piece
        == 10 { 'k' } else if piece == 11 { 'K' } else { '0' }
}

impl Square {
    /// The square is on the board (not [`Square::NONE`]).
    pub open spec fn valid(self) -> bool {
        self.0 < 64
    }

    /// The file of the square, 0 to 7.
    pub open spec fn file_of(self) -> int {
        self.0 as int % 8
    }

    /// The rank of the square, 0 to 7.
    pub open spec fn rank_of(self) -> int {
        self.0 as int / 8
    }

    /// Converts `rank` and `file` into a [`Square`].
    pub fn from_pos(rank: Rank, file: File) -> (square: Self)
        requires
            rank.0 < 8,
            file.0 < 8,
        ensures
            square.0 == rank.0 * 8 + file.0,
            square.valid(),
            square.rank_of() == rank.0,
            square.file_of() == file.0,
    {
        Self(rank.0 * 8 + file.0)
    }

    /// Converts the square to a usize.
    pub fn to_index(self) -> (index: usize)
        ensures
            index == self.0,
    {
        self.0 as usize
    }

    /// Calculates the file of the square.
    pub fn file(self) -> (file: File)
        ensures
            file.0 == self.0 % 8,
    {
        let v = self.0;
        let f = v & 7;
        proof {
            lemma_u8_ops(v, 0);
        }
        File(f)
    }

    /// Calculates the rank of the square.
    pub fn rank(self) -> (rank: Rank)
        ensures
            rank.0 == self.0 / 8,
    {
        let v = self.0;
        let r = v >> 3;
        proof {
            lemma_u8_ops(v, 0);
        }
        Rank(r)
    }

    /// Offsets the square by `direction`, wrapping around the `u8` range.
    pub fn add(self, direction: Direction) -> (square: Self)
        ensures
            square.0 == vstd::wrapping::u8_specs::wrapping_add_signed(self.0, direction.0),
    {
        Self(self.0.wrapping_add_signed(direction.0))
    }

    /// Offsets the square by the opposite of `direction`.
    pub fn sub(self, direction: Direction) -> (square: Self)
        requires
            direction.0 > i8::MIN,
        ensures
            square.0 == vstd::wrapping::u8_specs::wrapping_add_signed(self.0, (-direction.0) as i8),
    {
        Self(self.0.wrapping_add_signed(-direction.0))
    }

    /// Parses a square such as "e4" from its bytes, or "-" for
    /// [`Square::NONE`].
    ///
    /// Returns `Err(ExpectedToken)` if a character is missing and
    /// `Err(ErroneousToken)` if the file or rank is out of range. Bytes after
    /// the rank are ignored.
    pub fn from_bytes(string: &[u8]) -> (result: Result<Self, ParseError>)
        ensures
            result == spec_parse_square(string@),
    {
        if string.len() == 1 && string[0] == 45u8 {
            return Ok(Self(Self::NONE));
        }
        if string.len() == 0 {
            return Err(ParseError::ExpectedToken);
        }
        let file = string[0];
        if !(97u8 <= file && file <= 104u8) {
            return Err(ParseError::ErroneousToken);
        }
        if string.len() == 1 {
            return Err(ParseError::ExpectedToken);
        }
        let rank = string[1];
        if !(49u8 <= rank && rank <= 56u8) {
            return Err(ParseError::ErroneousToken);
        }
        Ok(Self((file - 97) + (rank - 49) * 8))
    }

    /// The two characters naming the square, such as "e4", or "-" for any
    /// square off the board.
    pub fn to_bytes(self) -> (bytes: Vec<u8>)
        ensures
            bytes@ == spec_square_bytes(self),
    {
        let mut bytes = Vec::new();
        if self.0 >= 64 {
            bytes.push(45u8);
        } else {
            bytes.push(97u8 + self.0 % 8);
            bytes.push(49u8 + self.0 / 8);
        }
        bytes
    }
}

/// What parsing the bytes of a square gives: "-" is [`Square::NONE`], then a
/// file letter 'a'..='h' and a rank digit '1'..='8'.
pub open spec fn spec_parse_square(s: Seq<u8>) -> Result<Square, ParseError> {
    if s.len() == 1 && s[0] == 45 {
        Ok(Square(64))
    } else if s.len() == 0 {
        Err(ParseError::ExpectedToken)
    } else if !(97 <= s[0] <= 104) {
        Err(ParseError::ErroneousToken)
    } else if s.len() == 1 {
        Err(ParseError::ExpectedToken)
    } else if !(49 <= s[1] <= 56) {
        Err(ParseError::ErroneousToken)
    } else {
        Ok(Square(((s[0] - 97) + (s[1] - 49) * 8) as u8))
    }
}

/// The bytes naming a square: file letter then rank digit, or "-".
pub open spec fn spec_square_bytes(square: Square) -> Seq<u8> {
    if square.0 >= 64 {
        seq![45u8]
    } else {
        seq![(97 + square.0 % 8) as u8, (49 + square.0 / 8) as u8]
    }
}

/// Printing a square on the board and parsing the result gives the square
/// back.
pub proof fn lemma_square_bytes_roundtrip(square: Square)
    requires
        square.valid(),
    ensures
        spec_parse_square(spec_square_bytes(square)) == Ok::<Square, ParseError>(square),
{
}

impl Piece {
    /// The type of the piece: `piece / 2`.
    pub open spec fn type_of(self) -> int {
        self.0 as int / 2
    }

    /// The side of the piece: `piece % 2`.
    pub open spec fn side_of(self) -> int {
        self.0 as int % 2
    }

    /// The piece is one of the twelve real pieces.
    pub open spec fn valid(self) -> bool {
        self.0 < 12
    }

    /// Creates a [`Piece`] from a [`PieceType`] and a [`Side`].
    pub fn from_piecetype(piece: PieceType, side: Side) -> (result: Self)
        requires
            piece.0 * 2 + side.0 < 256,
        ensures
            result.0 == piece.0 * 2 + side.0,
    {
        let t = piece.0;
        proof {
            lemma_u8_ops(t, 0);
        }
        Self((t << 1) + side.0)
    }

    /// Converts the piece to a usize.
    pub fn to_index(self) -> (index: usize)
        ensures
            index == self.0,
    {
        self.0 as usize
    }

    /// The side of the piece.
    pub fn side(self) -> (side: Side)
        ensures
            side.0 == self.0 % 2,
    {
        let v = self.0;
        let s = v & 1;
        proof {
            lemma_u8_ops(v, 0);
        }
        Side(s)
    }

    /// The type of the piece.
    pub fn piece_type(self) -> (piece_type: PieceType)
        ensures
            piece_type.0 == self.0 / 2,
    {
        let v = self.0;
        let t = v >> 1;
        proof {
            lemma_u8_ops(v, 0);
        }
        PieceType(t)
    }

    /// Converts a piece into its FEN character: 'P' for a White pawn, 'k' for
    /// a Black king, '0' for [`Piece::NONE`].
    pub fn to_char(self) -> (c: char)
        requires
            self.0 <= 12,
        ensures
            c == spec_piece_char(self.0 as int),
    {
        match self.0 {
            0 => 'p',
            1 => 'P',
            2 => 'n',
            3 => 'N',
            4 => 'b',
            5 => 'B',
            6 => 'r',
            7 => 'R',
            8 => 'q',
            9 => 'Q',
            10 => 'k',
            11 => 'K',
            _ => '0',
        }
    }

    /// Converts a piece character specified by FEN into a piece.
    ///
    /// Returns `Err(InvalidToken)` if the character isn't one of `PNBRQK` or
    /// `pnbrqk`.
    pub fn try_from(piece: char) -> (result: Result<Self, ParseError>)
        ensures
            match result {
                Ok(p) => p.valid() && spec_piece_char(p.0 as int) == piece,
                Err(e) => e == ParseError::InvalidToken && (forall|p: int|
                    0 <= p < 12 ==> spec_piece_char(p) != piece),
            },
    {
        match piece {
            'p' => Ok(Self(0)),
            'P' => Ok(Self(1)),
            'n' => Ok(Self(2)),
            'N' => Ok(Self(3)),
            'b' => Ok(Self(4)),
            'B' => Ok(Self(5)),
            'r' => Ok(Self(6)),
            'R' => Ok(Self(7)),
            'q' => Ok(Self(8)),
            'Q' => Ok(Self(9)),
            'k' => Ok(Self(10)),
            'K' => Ok(Self(11)),
            _ => Err(ParseError::InvalidToken),
        }
    }
}

impl PieceType {
    /// Converts the piece type to a usize.
    pub fn to_index(self) -> (index: usize)
        ensures
            index == self.0,
    {
        self.0 as usize
    }

    /// Returns the MVV bonus of the piece type: 0 for a pawn, 300 for a knight
    /// or bishop, 500 for a rook and 900 for a queen.
    pub fn mvv_bonus(self) -> (bonus: i16)
        requires
            self.0 < 5,
        ensures
            bonus == spec_mvv_bonus(self.0 as int),
    {
        if self.0 == 0 {
            0
        } else if self.0 <= 2 {
            300
        } else if self.0 == 3 {
            500
        } else {
            900
        }
    }

    /// Returns the SEE value of the piece type: 100, 300, 300, 500, 900 for
    /// pawn to queen, and 0 for a king or [`PieceType::NONE`].
    pub fn see_bonus(self) -> (bonus: i16)
        requires
            self.0 <= 6,
        ensures
            bonus == spec_see_bonus(self.0 as int),
    {
        if self.0 == 0 {
            100
        } else if self.0 <= 2 {
            300
        } else if self.0 == 3 {
            500
        } else if self.0 == 4 {
            900
        } else {
            0
        }
    }

    /// Converts a piece character specified by FEN, of either case, into a
    /// type of piece.
    pub fn try_from(piece: char) -> (result: Result<Self, ParseError>)
        ensures
            match result {
                Ok(t) => t.0 < 6 && (spec_piece_char(t.0 * 2) == piece || spec_piece_char(
                    t.0 * 2 + 1,
                ) == piece),
                Err(e) => e == ParseError::InvalidToken && (forall|p: int|
                    0 <= p < 12 ==> spec_piece_char(p) != piece),
            },
    {
        match piece {
            'p' | 'P' => Ok(Self(0)),
            'n' | 'N' => Ok(Self(1)),
            'b' | 'B' => Ok(Self(2)),
            'r' | 'R' => Ok(Self(3)),
            'q' | 'Q' => Ok(Self(4)),
            'k' | 'K' => Ok(Self(5)),
            _ => Err(ParseError::InvalidToken),
        }
    }

    /// Converts a piece type into its lowercase character: 'p' for pawn to 'k'
    /// for king.
    pub fn to_char(self) -> (c: char)
        requires
            self.0 <= 6,
        ensures
            c == spec_piece_char(self.0 * 2),
    {
        Piece(self.0 * 2).to_char()
    }
}

impl Side {
    /// Flips the side: White becomes Black and Black becomes White.
    ///
    /// e.g. `Side(Side::WHITE).flip() == Side(Side::BLACK)`.
    pub fn flip(self) -> (side: Self)
        ensures
            side.0 == self.0 ^ 1,
            self.0 < 2 ==> side.0 == 1 - self.0,
    {
        let v = self.0;
        let s = v ^ 1;
        proof {
            lemma_u8_ops(v, 0);
        }
        Self(s)
    }

    /// Converts the side to a usize.
    pub fn to_index(self) -> (index: usize)
        ensures
            index == self.0,
    {
        self.0 as usize
    }

    /// Converts the side into 'w' for White and 'b' for Black.
    pub fn to_char(self) -> (c: char)
        requires
            self.0 < 2,
        ensures
            c == (if self.0 == 1 { 'w' } else { 'b' }),
    {
        if self.0 == 1 {
            'w'
        } else {
            'b'
        }
    }

    /// Parses "w" as White and "b" as Black.
    pub fn from_bytes(string: &[u8]) -> (result: Result<Self, ParseError>)
        ensures
            result == (if string@ == seq![119u8] {
                Ok(Side(1))
            } else if string@ == seq![98u8] {
                Ok(Side(0))
            } else {
                Err(ParseError::InvalidToken)
            }),
    {
        if string.len() == 1 && string[0] == 119u8 {
            assert(string@ == seq![119u8]);
            Ok(Self(Self::WHITE))
        } else if string.len() == 1 && string[0] == 98u8 {
            assert(string@ == seq![98u8]);
            Ok(Self(Self::BLACK))
        } else {
            Err(ParseError::InvalidToken)
        }
    }
}

/// Flipping a side twice gives the same side.
pub proof fn lemma_flip_involutive(side: u8)
    ensures
        (side ^ 1) ^ 1 == side,
{
    lemma_u8_ops(side, 0);
}

} // verus!
