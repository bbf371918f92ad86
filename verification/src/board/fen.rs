//! FEN strings: reading a [`Board`] from one and writing one from a board.
use vstd::prelude::*;
use crate::bitops::lemma_u8_ops;

use crate::board::{Board, BoardState, CastlingRights};
use crate::defs::{spec_parse_square, spec_piece_char, Piece, Side, Square};
use crate::error::ParseError;
use crate::lookups::Tables;

verus! {

// ---------------------------------------------------------------------------
// Tokens.

/// An ASCII whitespace byte: space, tab, line feed, vertical tab, form feed
/// or carriage return.
pub open spec fn is_space(c: u8) -> bool {
    c == 32 || (9 <= c <= 13)
}

/// The first index from `i` on that is not whitespace (or the length).
pub open spec fn skip_spaces(s: Seq<u8>, i: int) -> int
    decreases s.len() - i,
{
    if i < 0 || i >= s.len() {
        i
    } else if is_space(s[i]) {
        skip_spaces(s, i + 1)
    } else {
        i
    }
}

/// The first index from `i` on that is whitespace (or the length).
pub open spec fn token_end(s: Seq<u8>, i: int) -> int
    decreases s.len() - i,
{
    if i < 0 || i >= s.len() {
        i
    } else if is_space(s[i]) {
        i
    } else {
        token_end(s, i + 1)
    }
}

/// Where the `n`-th whitespace-separated token of `s` starts and ends; the
/// start is the length when there are fewer tokens.
pub open spec fn token_bounds(s: Seq<u8>, n: nat) -> (int, int)
    decreases n,
{
    let previous_end = if n == 0 {
        0
    } else {
        token_bounds(s, (n - 1) as nat).1
    };
    let start = skip_spaces(s, previous_end);
    (start, token_end(s, start))
}

/// `s` has an `n`-th token.
pub open spec fn has_token(s: Seq<u8>, n: nat) -> bool {
    token_bounds(s, n).0 < s.len()
}

/// The `n`-th token of `s`, or `default` if there is none.
pub open spec fn token_or(s: Seq<u8>, n: nat, default: Seq<u8>) -> Seq<u8> {
    if has_token(s, n) {
        s.subrange(token_bounds(s, n).0, token_bounds(s, n).1)
    } else {
        default
    }
}

// ---------------------------------------------------------------------------
// Numbers.

/// The bytes are ASCII digits.
pub open spec fn all_digits(s: Seq<u8>) -> bool {
    forall|i: int| 0 <= i < s.len() ==> 48 <= #[trigger] s[i] <= 57
}

/// The value of a string of decimal digits.
pub open spec fn digits_value(s: Seq<u8>) -> nat
    decreases s.len(),
{
    if s.len() == 0 {
        0
    } else {
        digits_value(s.drop_last()) * 10 + (s.last() - 48) as nat
    }
}

/// The digits of an unsigned number after an optional `+`.
pub open spec fn number_digits(s: Seq<u8>) -> Seq<u8> {
    if s.len() > 0 && s[0] == 43 {
        s.drop_first()
    } else {
        s
    }
}

/// Parses an unsigned number no greater than `max` as Rust's `from_str`
/// does: an optional `+`, then at least one digit and nothing else. Any
/// other string is an `Err(ErroneousToken)`.
pub open spec fn parse_number(s: Seq<u8>, max: nat) -> Result<nat, ParseError> {
    let digits = number_digits(s);
    if digits.len() > 0 && all_digits(digits) && digits_value(digits) <= max {
        Ok(digits_value(digits))
    } else {
        Err(ParseError::ErroneousToken)
    }
}

/// A prefix of a string of digits is worth no more than the string.
pub proof fn lemma_digits_prefix(s: Seq<u8>, n: int)
    requires
        0 <= n <= s.len(),
        all_digits(s),
    ensures
        digits_value(s.take(n)) <= digits_value(s),
    decreases s.len(),
{
    if n < s.len() {
        assert(s.take(n) =~= s.drop_last().take(n));
        lemma_digits_prefix(s.drop_last(), n);
    } else {
        assert(s.take(n) =~= s);
    }
}

/// Parses an unsigned number no greater than `max` (see [`parse_number`]).
fn parse_number_bytes(s: &[u8], start: usize, end: usize, max: u16) -> (result: Result<
    u16,
    ParseError,
>)
    requires
        start <= end <= s@.len(),
    ensures
        match result {
            Ok(n) => parse_number(s@.subrange(start as int, end as int), max as nat) == Ok::<
                nat,
                ParseError,
            >(n as nat),
            Err(e) => parse_number(s@.subrange(start as int, end as int), max as nat) == Err::<
                nat,
                ParseError,
            >(e),
        },
{
    let ghost token = s@.subrange(start as int, end as int);
    let mut i = start;
    if i < end && s[i] == 43 {
        i = i + 1;
    }
    let ghost digits = number_digits(token);
    assert(digits =~= s@.subrange(i as int, end as int));
    if i == end {
        return Err(ParseError::ErroneousToken);
    }
    let first = i;
    let mut value: u16 = 0;
    while i < end
        invariant
            first <= i <= end <= s@.len(),
            digits == s@.subrange(first as int, end as int),
            digits == number_digits(s@.subrange(start as int, end as int)),
            all_digits(s@.subrange(first as int, i as int)),
            value == digits_value(s@.subrange(first as int, i as int)),
            value <= max,
        decreases end - i,
    {
        let c = s[i];
        let ghost prefix = s@.subrange(first as int, i as int);
        let ghost next = s@.subrange(first as int, i + 1);
        assert(next.drop_last() =~= prefix);
        if !(48 <= c && c <= 57) {
            assert(digits[i - first] == c);
            return Err(ParseError::ErroneousToken);
        }
        let d = (c - 48) as u16;
        if d > max || value > (max - d) / 10 {
            proof {
                if d <= max {
                    assert(value * 10 + d > max) by (nonlinear_arith)
                        requires
                            value > (max - d) / 10,
                            d <= max,
                    ;
                }
                assert(digits_value(next) > max);
                if all_digits(digits) {
                    assert(next =~= digits.take(i + 1 - first));
                    lemma_digits_prefix(digits, i + 1 - first);
                }
            }
            return Err(ParseError::ErroneousToken);
        }
        assert(value * 10 + d <= max) by (nonlinear_arith)
            requires
                value <= (max - d) / 10,
                d <= max,
        ;
        value = value * 10 + d;
        i = i + 1;
        assert(all_digits(s@.subrange(first as int, i as int))) by {
            assert forall|j: int| 0 <= j < next.len() implies 48 <= #[trigger] next[j] <= 57 by {
                if j < prefix.len() {
                    assert(next[j] == prefix[j]);
                }
            }
        }
    }
    Ok(value)
}

/// Whether a byte is whitespace (see [`is_space`]).
fn byte_is_space(c: u8) -> (space: bool)
    ensures
        space == is_space(c),
{
    c == 32 || (9 <= c && c <= 13)
}

/// Finds the next token from `from` on: its start and end (see
/// [`token_bounds`]).
fn next_token(s: &[u8], from: usize) -> (bounds: (usize, usize))
    requires
        from <= s@.len(),
    ensures
        bounds.0 == skip_spaces(s@, from as int),
        bounds.1 == token_end(s@, bounds.0 as int),
        from <= bounds.0 <= bounds.1 <= s@.len(),
{
    let mut start = from;
    while start < s.len() && byte_is_space(s[start])
        invariant
            from <= start <= s@.len(),
            skip_spaces(s@, from as int) == skip_spaces(s@, start as int),
        decreases s@.len() - start,
    {
        start = start + 1;
    }
    let mut end = start;
    while end < s.len() && !byte_is_space(s[end])
        invariant
            start <= end <= s@.len(),
            token_end(s@, start as int) == token_end(s@, end as int),
        decreases s@.len() - end,
    {
        end = end + 1;
    }
    (start, end)
}

// ---------------------------------------------------------------------------
// The fields of a FEN string.

/// The piece index of a FEN piece letter, and 12 for any other byte.
pub open spec fn byte_piece(c: u8) -> int {
    if c == 112 { 0 } else if c == 80 { 1 } else if c == 110 { 2 } else if c == 78 { 3 } else if c
        == 98 { 4 } else if c == 66 { 5 } else if c == 114 { 6 } else if c == 82 { 7 } else if c
        == 113 { 8 } else if c == 81 { 9 } else if c == 107 { 10 } else if c == 75 { 11 } else {
        12
    }
}

/// Places the pieces of the board field `s[i..end]` from `square` on, as a
/// FEN reader does: a piece letter fills the square and moves to the next,
/// a digit `0`-`8` skips that many squares and `/` goes down one rank (16
/// squares back, wrapping as a byte). Any other byte is an
/// `Err(InvalidToken)`; placing a piece off the board or on a piece, or
/// skipping past square 255, is an `Err(ErroneousToken)`.
pub open spec fn place_pieces(
    s: Seq<u8>,
    i: int,
    end: int,
    square: u8,
    mailbox: Seq<Piece>,
) -> Result<Seq<Piece>, ParseError>
    decreases end - i,
{
    if i < 0 || i >= end {
        Ok(mailbox)
    } else if s[i] == 47 {
        place_pieces(s, i + 1, end, vstd::wrapping::u8_specs::wrapping_sub(square, 16), mailbox)
    } else if 48 <= s[i] <= 56 {
        if square + (s[i] - 48) > 255 {
            Err(ParseError::ErroneousToken)
        } else {
            place_pieces(s, i + 1, end, (square + (s[i] - 48)) as u8, mailbox)
        }
    } else if byte_piece(s[i]) == 12 {
        Err(ParseError::InvalidToken)
    } else if square >= 64 || mailbox[square as int].0 != Piece::NONE {
        Err(ParseError::ErroneousToken)
    } else {
        place_pieces(
            s,
            i + 1,
            end,
            (square + 1) as u8,
            mailbox.update(square as int, Piece(byte_piece(s[i]) as u8)),
        )
    }
}

/// The castling flag a byte of the castling field adds: `K`, `Q`, `k` or
/// `q`; any other byte adds none.
pub open spec fn castling_flag(c: u8) -> u8 {
    if c == 75 {
        CastlingRights::K
    } else if c == 81 {
        CastlingRights::Q
    } else if c == 107 {
        CastlingRights::k
    } else if c == 113 {
        CastlingRights::q
    } else {
        0
    }
}

/// The castling rights named by `s[start..i]`.
pub open spec fn castling_from(s: Seq<u8>, start: int, i: int) -> u8
    decreases i - start,
{
    if i <= start {
        0
    } else {
        castling_from(s, start, i - 1) | castling_flag(s[i - 1])
    }
}

/// The squares of an empty board.
pub open spec fn empty_mailbox() -> Seq<Piece> {
    Seq::new(64, |i: int| Piece(Piece::NONE))
}

/// Parses a FEN string. The board and the side to move must be there; the
/// castling rights, en passant square, halfmoves and fullmoves may be left
/// out and then are `-`, `-`, `0` and `1`. A missing field is an
/// `Err(ExpectedToken)`; the other errors are those of each field.
pub open spec fn parse_fen(s: Seq<u8>) -> Result<BoardState, ParseError> {
    let (b0, b1) = token_bounds(s, 0);
    let (c0, c1) = token_bounds(s, 2);
    let side = token_or(s, 1, Seq::empty());
    let ep = spec_parse_square(token_or(s, 3, seq![45u8]));
    let halfmoves = parse_number(token_or(s, 4, seq![48u8]), 255);
    let fullmoves = parse_number(token_or(s, 5, seq![49u8]), 65535);
    if !has_token(s, 0) || !has_token(s, 1) {
        Err(ParseError::ExpectedToken)
    } else {
        match place_pieces(s, b0, b1, 56, empty_mailbox()) {
            Err(e) => Err(e),
            Ok(mailbox) => if side != seq![119u8] && side != seq![98u8] {
                Err(ParseError::InvalidToken)
            } else if ep is Err {
                Err(ep->Err_0)
            } else if halfmoves is Err {
                Err(halfmoves->Err_0)
            } else if fullmoves is Err {
                Err(fullmoves->Err_0)
            } else {
                Ok(
                    BoardState {
                        mailbox,
                        side_to_move: if side == seq![119u8] {
                            Side::WHITE
                        } else {
                            Side::BLACK
                        },
                        castling_rights: if has_token(s, 2) {
                            castling_from(s, c0, c1)
                        } else {
                            0
                        },
                        ep_square: ep->Ok_0.0,
                        halfmoves: halfmoves->Ok_0 as u8,
                        fullmoves: fullmoves->Ok_0 as u16,
                    },
                )
            },
        }
    }
}

/// The castling flag of a byte (see [`castling_flag`]).
fn castling_flag_of(c: u8) -> (flag: u8)
    ensures
        flag == castling_flag(c),
{
    if c == 75 {
        CastlingRights::K
    } else if c == 81 {
        CastlingRights::Q
    } else if c == 107 {
        CastlingRights::k
    } else if c == 113 {
        CastlingRights::q
    } else {
        0
    }
}

impl Board {
    /// Parses a FEN string (see [`parse_fen`]).
    ///
    /// Only the syntax is checked, not whether the position makes sense: a
    /// board with no kings, say, is read as it stands. Placing a piece off
    /// the board or on another piece is an `Err(ErroneousToken)`.
    #[verifier::rlimit(30)]
    pub fn from_fen(s: &[u8], tables: &Tables) -> (result: Result<Board, ParseError>)
        requires
            tables.wf(),
        ensures
            match result {
                Ok(board) => board.wf() && parse_fen(s@) == Ok::<BoardState, ParseError>(board@),
                Err(e) => parse_fen(s@) == Err::<BoardState, ParseError>(e),
            },
    {
        let keys = &tables.keys;
        let mut board = Board::new();
        let (b0, b1) = next_token(s, 0);
        let (s0, s1) = next_token(s, b1);
        let (c0, c1) = next_token(s, s1);
        let (e0, e1) = next_token(s, c1);
        let (h0, h1) = next_token(s, e1);
        let (f0, f1) = next_token(s, h1);
        proof {
            assert(token_bounds(s@, 0) == (b0 as int, b1 as int));
            assert(token_bounds(s@, 1) == (s0 as int, s1 as int));
            assert(token_bounds(s@, 2) == (c0 as int, c1 as int));
            assert(token_bounds(s@, 3) == (e0 as int, e1 as int));
            assert(token_bounds(s@, 4) == (h0 as int, h1 as int));
            assert(token_bounds(s@, 5) == (f0 as int, f1 as int));
        }
        if b0 >= s.len() || s0 >= s.len() {
            return Err(ParseError::ExpectedToken);
        }
        // 1. the board itself

        assert(board@.mailbox =~= empty_mailbox());
        let mut square: u8 = 56;
        let mut i = b0;
        while i < b1
            invariant
                board.wf(),
                tables.wf(),
                b0 <= i <= b1 <= s@.len(),
                token_bounds(s@, 0) == (b0 as int, b1 as int),
                has_token(s@, 0),
                has_token(s@, 1),
                board@.side_to_move == Side::NONE,
                board@.castling_rights == 0,
                board@.ep_square == Square::NONE,
                board@.halfmoves == 0,
                board@.fullmoves == 1,
                place_pieces(s@, b0 as int, b1 as int, 56, empty_mailbox()) == place_pieces(
                    s@,
                    i as int,
                    b1 as int,
                    square,
                    board@.mailbox,
                ),
            decreases b1 - i,
        {
            let c = s[i];
            if c == 47 {
                square = square.wrapping_sub(16);
            } else if 48 <= c && c <= 56 {
                let d = c - 48;
                if square > 255 - d {
                    return Err(ParseError::ErroneousToken);
                }
                square = square + d;
            } else {
                let piece = match Piece::try_from(c as char) {
                    Ok(p) => p,
                    Err(e) => {
                        assert(byte_piece(c) == 12) by {
                            if byte_piece(c) < 12 {
                                assert(spec_piece_char(byte_piece(c)) == c as char);
                            }
                        }
                        return Err(e);
                    },
                };
                assert(piece.0 == byte_piece(c));
                if square >= 64 || board.piece_on(Square(square)).0 != Piece::NONE {
                    return Err(ParseError::ErroneousToken);
                }
                board.add_piece(Square(square), piece, &tables.keys);
                square = square + 1;
            }
            i = i + 1;
        }
        let ghost mailbox = board@.mailbox;

        // 2. side to move
        let side = match Side::from_bytes(vstd::slice::slice_subrange(s, s0, s1)) {
            Ok(side) => side,
            Err(e) => return Err(e),
        };
        board.set_side_to_move(side, keys);

        // 3. castling rights
        let mut rights: u8 = 0;
        if c0 < s.len() {
            let mut j = c0;
            while j < c1
                invariant
                    c0 <= j <= c1 <= s@.len(),
                    rights == castling_from(s@, c0 as int, j as int),
                    rights < 16,
                decreases c1 - j,
            {
                let flag = castling_flag_of(s[j]);
                proof {
                    lemma_u8_ops(rights, flag);
                }
                rights = rights | flag;
                j = j + 1;
            }
        }
        board.set_castling_rights(CastlingRights(rights), keys);

        // 4. en passant
        let ep = if e0 < s.len() {
            Square::from_bytes(vstd::slice::slice_subrange(s, e0, e1))
        } else {
            Ok(Square(Square::NONE))
        };
        let ep = match ep {
            Ok(square) => square,
            Err(e) => return Err(e),
        };
        board.set_ep_square(ep, keys);

        // 5. halfmoves
        proof {
            let zero = seq![48u8];
            assert(digits_value(Seq::<u8>::empty()) == 0);
            assert(zero.drop_last() =~= Seq::<u8>::empty());
            assert(digits_value(zero) == 0);
            let one = seq![49u8];
            assert(one.drop_last() =~= Seq::<u8>::empty());
            assert(digits_value(one) == 1);
        }
        let halfmoves = if h0 < s.len() {
            parse_number_bytes(s, h0, h1, 255)
        } else {
            Ok(0)
        };
        let halfmoves = match halfmoves {
            Ok(n) => n,
            Err(e) => return Err(e),
        };
        board.set_halfmoves(halfmoves as u8);

        // 6. fullmoves
        let fullmoves = if f0 < s.len() {
            parse_number_bytes(s, f0, f1, 65535)
        } else {
            Ok(1)
        };
        let fullmoves = match fullmoves {
            Ok(n) => n,
            Err(e) => return Err(e),
        };
        board.set_fullmoves(fullmoves);
        Ok(board)
    }
}

// ---------------------------------------------------------------------------
// Writing FEN strings.

/// The FEN letter of a piece, as a byte.
pub open spec fn piece_byte(piece: Piece) -> u8 {
    spec_piece_char(piece.0 as int) as u8
}

/// The digit of a count of empty squares, or nothing for none.
pub open spec fn empty_run(empty: int) -> Seq<u8> {
    if empty > 0 {
        seq![(48 + empty) as u8]
    } else {
        Seq::empty()
    }
}

/// The FEN of rank `r` from file `f` on, after a run of `empty` empty
/// squares: each piece is its letter and each run of empty squares its
/// length.
pub open spec fn rank_fen(mailbox: Seq<Piece>, r: int, f: int, empty: int) -> Seq<u8>
    decreases 8 - f,
{
    if f >= 8 {
        empty_run(empty)
    } else if mailbox[r * 8 + f].0 == Piece::NONE {
        rank_fen(mailbox, r, f + 1, empty + 1)
    } else {
        empty_run(empty) + seq![piece_byte(mailbox[r * 8 + f])] + rank_fen(mailbox, r, f + 1, 0)
    }
}

/// The FEN of the ranks from the 8th down to `r`, separated by `/`.
pub open spec fn ranks_fen(mailbox: Seq<Piece>, r: int) -> Seq<u8>
    decreases 7 - r,
{
    if r >= 7 {
        rank_fen(mailbox, 7, 0, 0)
    } else {
        ranks_fen(mailbox, r + 1) + seq![47u8] + rank_fen(mailbox, r, 0, 0)
    }
}

/// The decimal digits of a number.
pub open spec fn decimal(n: nat) -> Seq<u8>
    decreases n,
{
    if n < 10 {
        seq![(48 + n) as u8]
    } else {
        decimal(n / 10) + seq![(48 + n % 10) as u8]
    }
}

/// The character of the side to move: `w` for White, `b` for Black, and
/// the two UTF-8 bytes of the character after them for no side.
pub open spec fn side_bytes(side: u8) -> Seq<u8> {
    if side == Side::WHITE {
        seq![119u8]
    } else if side == Side::BLACK {
        seq![98u8]
    } else {
        seq![0xc2u8, 0x8cu8]
    }
}

/// The FEN string of a state: board, side to move, castling rights, en
/// passant square, halfmoves and fullmoves, separated by spaces.
pub open spec fn fen_of(state: BoardState) -> Seq<u8> {
    ranks_fen(state.mailbox, 0) + seq![32u8] + side_bytes(state.side_to_move) + seq![32u8]
        + crate::board::spec_rights_bytes(state.castling_rights) + seq![32u8]
        + crate::defs::spec_square_bytes(Square(state.ep_square)) + seq![32u8] + decimal(
        state.halfmoves as nat,
    ) + seq![32u8] + decimal(state.fullmoves as nat)
}

/// Appends the decimal digits of `n`.
fn push_decimal(out: &mut Vec<u8>, n: u16)
    ensures
        final(out)@ == old(out)@ + decimal(n as nat),
    decreases n,
{
    if n >= 10 {
        push_decimal(out, n / 10);
    }
    out.push((48 + n % 10) as u8);
    proof {
        if n >= 10 {
            assert(final(out)@ =~= old(out)@ + decimal(n as nat));
        } else {
            assert(final(out)@ =~= old(out)@ + decimal(n as nat));
        }
    }
}

/// Appends all the bytes of `bytes`.
fn push_all(out: &mut Vec<u8>, bytes: &Vec<u8>)
    ensures
        final(out)@ == old(out)@ + bytes@,
{
    let mut i: usize = 0;
    while i < bytes.len()
        invariant
            i <= bytes@.len(),
            out@ == old(out)@ + bytes@.take(i as int),
        decreases bytes@.len() - i,
    {
        out.push(bytes[i]);
        i = i + 1;
        assert(out@ =~= old(out)@ + bytes@.take(i as int));
    }
    assert(bytes@.take(i as int) =~= bytes@);
}

impl Board {
    /// Appends the FEN of rank `r`.
    fn push_rank(&self, out: &mut Vec<u8>, r: u8)
        requires
            self.wf(),
            r < 8,
        ensures
            final(out)@ == old(out)@ + rank_fen(self@.mailbox, r as int, 0, 0),
    {
        let ghost mb = self@.mailbox;
        let mut empty: u8 = 0;
        let mut f: u8 = 0;
        while f < 8
            invariant
                self.wf(),
                r < 8,
                f <= 8,
                empty <= f,
                mb == self@.mailbox,
                old(out)@ + rank_fen(mb, r as int, 0, 0) == out@ + rank_fen(
                    mb,
                    r as int,
                    f as int,
                    empty as int,
                ),
            decreases 8 - f,
        {
            let piece = self.piece_on(Square(r * 8 + f));
            let ghost before = out@;
            let ghost e0 = empty as int;
            if piece.0 == Piece::NONE {
                empty = empty + 1;
            } else {
                if empty != 0 {
                    out.push(48 + empty);
                }
                let c = piece.to_char();
                out.push(c as u8);
                empty = 0;
                assert(out@ =~= before + empty_run(e0) + seq![piece_byte(piece)]);
            }
            assert(before + rank_fen(mb, r as int, f as int, e0) =~= out@ + rank_fen(
                mb,
                r as int,
                f + 1,
                empty as int,
            ));
            f = f + 1;
        }
        if empty != 0 {
            out.push(48 + empty);
        }
    }
}

impl Board {
    /// Converts the board into a FEN string (see [`fen_of`]).
    pub fn to_fen(&self) -> (fen: Vec<u8>)
        requires
            self.wf(),
        ensures
            fen@ == fen_of(self@),
    {
        let ghost mb = self@.mailbox;
        let mut out: Vec<u8> = Vec::new();
        self.push_rank(&mut out, 7);
        let mut r: u8 = 7;
        assert(out@ == ranks_fen(mb, 7));
        while r > 0
            invariant
                self.wf(),
                r <= 7,
                mb == self@.mailbox,
                out@ == ranks_fen(mb, r as int),
            decreases r,
        {
            r = r - 1;
            out.push(47u8);
            self.push_rank(&mut out, r);
        }
        out.push(32u8);
        let side = self.side_to_move().0;
        if side == Side::WHITE {
            out.push(119u8);
        } else if side == Side::BLACK {
            out.push(98u8);
        } else {
            out.push(0xc2u8);
            out.push(0x8cu8);
        }
        out.push(32u8);
        push_all(&mut out, &self.castling_rights().to_bytes());
        out.push(32u8);
        push_all(&mut out, &self.ep_square().to_bytes());
        out.push(32u8);
        push_decimal(&mut out, self.halfmoves() as u16);
        out.push(32u8);
        push_decimal(&mut out, self.fullmoves());
        assert(out@ =~= fen_of(self@));
        out
    }
}

// ---------------------------------------------------------------------------
// The starting position.

/// The White piece on file `f` of the back rank in the starting position.
pub open spec fn back_rank_piece(f: int) -> u8 {
    if f == 0 || f == 7 {
        Piece::WROOK
    } else if f == 1 || f == 6 {
        Piece::WKNIGHT
    } else if f == 2 || f == 5 {
        Piece::WBISHOP
    } else if f == 3 {
        Piece::WQUEEN
    } else {
        Piece::WKING
    }
}

/// The piece on each square of the starting position.
pub open spec fn startpos_piece(s: int) -> u8 {
    if s < 8 {
        back_rank_piece(s)
    } else if s < 16 {
        Piece::WPAWN
    } else if s < 48 {
        Piece::NONE
    } else if s < 56 {
        Piece::BPAWN
    } else {
        (back_rank_piece(s - 56) - 1) as u8
    }
}

/// The starting position: White to move with every castling right, no en
/// passant square, no halfmoves and move 1.
pub open spec fn startpos() -> BoardState {
    BoardState {
        mailbox: Seq::new(64, |s: int| Piece(startpos_piece(s))),
        side_to_move: Side::WHITE,
        castling_rights: 15,
        ep_square: Square::NONE,
        halfmoves: 0,
        fullmoves: 1,
    }
}

/// The piece on a square of the starting position.
fn startpos_piece_at(s: u8) -> (piece: Piece)
    requires
        s < 64,
    ensures
        piece.0 == startpos_piece(s as int),
{
    let file = s % 8;
    let back_rank = if file == 0 || file == 7 {
        Piece::WROOK
    } else if file == 1 || file == 6 {
        Piece::WKNIGHT
    } else if file == 2 || file == 5 {
        Piece::WBISHOP
    } else if file == 3 {
        Piece::WQUEEN
    } else {
        Piece::WKING
    };
    if s < 8 {
        Piece(back_rank)
    } else if s < 16 {
        Piece(Piece::WPAWN)
    } else if s < 48 {
        Piece(Piece::NONE)
    } else if s < 56 {
        Piece(Piece::BPAWN)
    } else {
        Piece(back_rank - 1)
    }
}

impl Board {
    /// Creates a board with the starting position.
    pub fn startpos(tables: &Tables) -> (board: Board)
        requires
            tables.wf(),
        ensures
            board.wf(),
            board@ == startpos(),
    {
        let mut board = Board::new();
        let mut s: u8 = 0;
        while s < 64
            invariant
                tables.wf(),
                board.wf(),
                s <= 64,
                board@.mailbox == Seq::new(
                    64,
                    |i: int|
                        if i < s {
                            Piece(startpos_piece(i))
                        } else {
                            Piece(Piece::NONE)
                        },
                ),
                board@.side_to_move == Side::NONE,
                board@.castling_rights == 0,
                board@.ep_square == Square::NONE,
                board@.halfmoves == 0,
                board@.fullmoves == 1,
            decreases 64 - s,
        {
            let piece = startpos_piece_at(s);
            if piece.0 != Piece::NONE {
                board.add_piece(Square(s), piece, &tables.keys);
            }
            s = s + 1;
            assert(board@.mailbox =~= Seq::new(
                64,
                |i: int|
                    if i < s {
                        Piece(startpos_piece(i))
                    } else {
                        Piece(Piece::NONE)
                    },
            ));
        }
        board.set_side_to_move(Side(Side::WHITE), &tables.keys);
        board.set_castling_rights(CastlingRights(15), &tables.keys);
        assert(board@.mailbox =~= startpos().mailbox);
        board
    }

    /// Sets the board to the starting position.
    pub fn set_startpos(&mut self, tables: &Tables)
        requires
            tables.wf(),
        ensures
            final(self).wf(),
            final(self)@ == startpos(),
    {
        *self = Board::startpos(tables);
    }
}

} // verus!
