//! Reading the FEN string of a position gives the position back.
use vstd::prelude::*;

use crate::board::fen::{
    all_digits, byte_piece, decimal, digits_value, empty_mailbox, empty_run, is_space,
    number_digits, parse_number, piece_byte, place_pieces, rank_fen, ranks_fen, skip_spaces,
    token_end,
};
use crate::board::{mailbox_ok, spec_rights_bytes};
use crate::board::fen::{
    castling_flag, castling_from, fen_of, parse_fen, side_bytes, token_bounds,
};
use crate::board::{Board, BoardState};
use crate::board::accumulators::lemma_same_position_same_key;
use crate::board::make::{after_move, lemma_rights_never_grow};
use crate::evaluation::static_evaluation;
use crate::movegen::Move;
use crate::defs::{lemma_square_bytes_roundtrip, spec_square_bytes, Piece, Square};
use crate::error::ParseError;

verus! {

/// No byte of `x` is whitespace.
pub open spec fn spaceless(x: Seq<u8>) -> bool {
    forall|k: int| 0 <= k < x.len() ==> !is_space(#[trigger] x[k])
}

/// A token that runs from `i` to `j` ends at `j`.
proof fn lemma_token_end(s: Seq<u8>, i: int, j: int)
    requires
        0 <= i <= j <= s.len(),
        forall|k: int| i <= k < j ==> !is_space(#[trigger] s[k]),
        j == s.len() || is_space(s[j]),
    ensures
        token_end(s, i) == j,
    decreases j - i,
{
    if i < j {
        lemma_token_end(s, i + 1, j);
    }
}

/// A single space before a token is skipped.
proof fn lemma_skip_one_space(s: Seq<u8>, j: int)
    requires
        0 <= j,
        j + 1 < s.len(),
        is_space(s[j]),
        !is_space(s[j + 1]),
    ensures
        skip_spaces(s, j) == j + 1,
{
    assert(skip_spaces(s, j + 1) == j + 1);
}

/// The decimal digits of a number are digits, and they are worth it.
proof fn lemma_decimal(n: nat)
    ensures
        decimal(n).len() > 0,
        all_digits(decimal(n)),
        digits_value(decimal(n)) == n,
        spaceless(decimal(n)),
    decreases n,
{
    if n >= 10 {
        lemma_decimal(n / 10);
        let d = decimal(n);
        assert(d.drop_last() =~= decimal(n / 10));
        assert(d.last() == 48 + n % 10);
        assert(digits_value(d) == digits_value(decimal(n / 10)) * 10 + n % 10);
        vstd::arithmetic::div_mod::lemma_fundamental_div_mod(n as int, 10);
        assert(digits_value(d) == n);
    } else {
        assert(decimal(n).drop_last() =~= Seq::<u8>::empty());
        assert(digits_value(Seq::<u8>::empty()) == 0);
    }
}

/// Parsing the decimal digits of a number no greater than `max` gives it.
proof fn lemma_parse_decimal(n: nat, max: nat)
    requires
        n <= max,
    ensures
        parse_number(decimal(n), max) == Ok::<nat, crate::error::ParseError>(n),
{
    lemma_decimal(n);
    assert(number_digits(decimal(n)) == decimal(n));
}


/// The squares a reader has filled once it has read the ranks above `r`
/// and the first `g` squares of rank `r`: those of `mailbox`, and the
/// others empty.
pub open spec fn filled(mailbox: Seq<Piece>, r: int, g: int) -> Seq<Piece> {
    Seq::new(
        64,
        |q: int|
            if q >= (r + 1) * 8 || (r * 8 <= q < r * 8 + g) {
                mailbox[q]
            } else {
                Piece(Piece::NONE)
            },
    )
}

/// The letter of a piece reads back as the piece, and is neither a digit,
/// a `/` nor whitespace.
proof fn lemma_piece_byte(piece: Piece)
    requires
        piece.0 < 12,
    ensures
        byte_piece(piece_byte(piece)) == piece.0,
        !(48 <= piece_byte(piece) <= 56),
        piece_byte(piece) != 47,
        !is_space(piece_byte(piece)),
{
}

/// No byte of the FEN of a rank is whitespace.
proof fn lemma_rank_spaceless(mailbox: Seq<Piece>, r: int, f: int, empty: int)
    requires
        mailbox_ok(mailbox),
        0 <= r < 8,
        0 <= empty <= f <= 8,
    ensures
        spaceless(rank_fen(mailbox, r, f, empty)),
        empty + 8 - f > 0 ==> rank_fen(mailbox, r, f, empty).len() > 0,
    decreases 8 - f,
{
    if f < 8 {
        if mailbox[r * 8 + f].0 == Piece::NONE {
            lemma_rank_spaceless(mailbox, r, f + 1, empty + 1);
        } else {
            lemma_rank_spaceless(mailbox, r, f + 1, 0);
            assert(!is_space(piece_byte(mailbox[r * 8 + f])));
        }
    }
}

/// No byte of the FEN of the ranks from the 8th down to `r` is whitespace.
proof fn lemma_ranks_spaceless(mailbox: Seq<Piece>, r: int)
    requires
        mailbox_ok(mailbox),
        0 <= r <= 7,
    ensures
        spaceless(ranks_fen(mailbox, r)),
        ranks_fen(mailbox, r).len() > 0,
    decreases 7 - r,
{
    lemma_rank_spaceless(mailbox, r, 0, 0);
    if r < 7 {
        lemma_ranks_spaceless(mailbox, r + 1);
    }
}

/// Reading the FEN of rank `r` from file `f` on, after a run of `empty`
/// empty squares, fills the rest of the rank as it stands in `mailbox`.
#[verifier::rlimit(30)]
proof fn lemma_read_rank(s: Seq<u8>, i: int, end: int, mailbox: Seq<Piece>, r: int, f: int, empty: int)
    requires
        mailbox_ok(mailbox),
        0 <= r < 8,
        0 <= empty <= f <= 8,
        forall|q: int| r * 8 + f - empty <= q < r * 8 + f ==> (#[trigger] mailbox[q]).0 == Piece::NONE,
        0 <= i,
        i + rank_fen(mailbox, r, f, empty).len() <= end <= s.len(),
        s.subrange(i, i + rank_fen(mailbox, r, f, empty).len()) == rank_fen(mailbox, r, f, empty),
    ensures
        place_pieces(s, i, end, (r * 8 + f - empty) as u8, filled(mailbox, r, f - empty))
            == place_pieces(
            s,
            i + rank_fen(mailbox, r, f, empty).len(),
            end,
            (r * 8 + 8) as u8,
            filled(mailbox, r, 8),
        ),
    decreases 8 - f,
{
    let x = rank_fen(mailbox, r, f, empty);
    if f >= 8 {
        if empty > 0 {
            assert(s[i] == x[0]);
            assert(filled(mailbox, r, 8 - empty) =~= filled(mailbox, r, 8)) by {
                assert forall|q: int| 0 <= q < 64 implies #[trigger] filled(mailbox, r, 8 - empty)[q]
                    == filled(mailbox, r, 8)[q] by {
                    if r * 8 + 8 - empty <= q < r * 8 + 8 {
                        assert(mailbox[q].0 == Piece::NONE);
                    }
                }
            }
        }
    } else if mailbox[r * 8 + f].0 == Piece::NONE {
        lemma_read_rank(s, i, end, mailbox, r, f + 1, empty + 1);
    } else {
        let piece = mailbox[r * 8 + f];
        lemma_piece_byte(piece);
        let k = empty_run(empty).len() as int;
        let rest = rank_fen(mailbox, r, f + 1, 0);
        assert(x == empty_run(empty) + seq![piece_byte(piece)] + rest);
        if empty > 0 {
            assert(s[i] == x[0]);
            assert(filled(mailbox, r, f - empty) =~= filled(mailbox, r, f)) by {
                assert forall|q: int| 0 <= q < 64 implies #[trigger] filled(mailbox, r, f - empty)[q]
                    == filled(mailbox, r, f)[q] by {
                    if r * 8 + f - empty <= q < r * 8 + f {
                        assert(mailbox[q].0 == Piece::NONE);
                    }
                }
            }
            assert(place_pieces(s, i, end, (r * 8 + f - empty) as u8, filled(mailbox, r, f - empty))
                == place_pieces(s, i + 1, end, (r * 8 + f) as u8, filled(mailbox, r, f)));
        }
        assert(s[i + k] == x[k]);
        assert(x[k] == piece_byte(piece));
        assert(filled(mailbox, r, f).update(r * 8 + f, Piece(byte_piece(piece_byte(piece)) as u8))
            =~= filled(mailbox, r, f + 1));
        assert(place_pieces(s, i + k, end, (r * 8 + f) as u8, filled(mailbox, r, f))
            == place_pieces(s, i + k + 1, end, (r * 8 + f + 1) as u8, filled(mailbox, r, f + 1)));
        assert(s.subrange(i + k + 1, i + k + 1 + rest.len()) =~= rest) by {
            assert forall|j: int| 0 <= j < rest.len() implies s.subrange(
                i + k + 1,
                i + k + 1 + rest.len(),
            )[j] == rest[j] by {
                assert(s[i + k + 1 + j] == x[k + 1 + j]);
            }
        }
        lemma_read_rank(s, i + k + 1, end, mailbox, r, f + 1, 0);
    }
}

/// Reading the FEN of the ranks from the 8th down to `r` from an empty
/// board fills those ranks as they stand in `mailbox`.
proof fn lemma_read_ranks(s: Seq<u8>, end: int, mailbox: Seq<Piece>, r: int)
    requires
        mailbox_ok(mailbox),
        0 <= r <= 7,
        ranks_fen(mailbox, r).len() <= end <= s.len(),
        s.subrange(0, ranks_fen(mailbox, r).len() as int) == ranks_fen(mailbox, r),
    ensures
        place_pieces(s, 0, end, 56, empty_mailbox()) == place_pieces(
            s,
            ranks_fen(mailbox, r).len() as int,
            end,
            (r * 8 + 8) as u8,
            filled(mailbox, r, 8),
        ),
    decreases 7 - r,
{
    if r >= 7 {
        assert(filled(mailbox, 7, 0) =~= empty_mailbox());
        lemma_read_rank(s, 0, end, mailbox, 7, 0, 0);
    } else {
        let a = ranks_fen(mailbox, r + 1);
        let b = rank_fen(mailbox, r, 0, 0);
        let x = ranks_fen(mailbox, r);
        let la = a.len() as int;
        let lb = b.len() as int;
        assert(x == a + seq![47u8] + b);
        assert(s.subrange(0, a.len() as int) =~= a) by {
            assert forall|j: int| 0 <= j < a.len() implies s.subrange(0, a.len() as int)[j]
                == a[j] by {
                assert(s[j] == x[j]);
            }
        }
        lemma_read_ranks(s, end, mailbox, r + 1);
        assert(s[a.len() as int] == x[a.len() as int]);
        assert(filled(mailbox, r + 1, 8) =~= filled(mailbox, r, 0));
        assert(place_pieces(s, a.len() as int, end, (r * 8 + 16) as u8, filled(mailbox, r + 1, 8))
            == place_pieces(s, la + 1, end, (r * 8) as u8, filled(mailbox, r, 0)));
        assert(s.subrange(la + 1, la + 1 + lb) =~= b) by {
            assert forall|j: int| 0 <= j < lb implies s.subrange(la + 1, la + 1 + lb)[j]
                == b[j] by {
                assert(s[la + 1 + j] == x[la + 1 + j]);
            }
        }
        lemma_read_rank(s, la + 1, end, mailbox, r, 0, 0);
    }
}

/// The castling flags of the bits of `c`, added from the highest, make up
/// `c`; a `c` with none of its bits set is 0.
proof fn lemma_rights_bits(c: u8)
    by (bit_vector)
    requires
        c < 16,
    ensures
        (if c & 1 != 0 {
            (if c & 2 != 0 {
                (if c & 4 != 0 {
                    (if c & 8 != 0 { 0u8 | 8u8 } else { 0u8 }) | 4u8
                } else {
                    (if c & 8 != 0 { 0u8 | 8u8 } else { 0u8 })
                }) | 2u8
            } else {
                (if c & 4 != 0 {
                    (if c & 8 != 0 { 0u8 | 8u8 } else { 0u8 }) | 4u8
                } else {
                    (if c & 8 != 0 { 0u8 | 8u8 } else { 0u8 })
                })
            }) | 1u8
        } else {
            (if c & 2 != 0 {
                (if c & 4 != 0 {
                    (if c & 8 != 0 { 0u8 | 8u8 } else { 0u8 }) | 4u8
                } else {
                    (if c & 8 != 0 { 0u8 | 8u8 } else { 0u8 })
                }) | 2u8
            } else {
                (if c & 4 != 0 {
                    (if c & 8 != 0 { 0u8 | 8u8 } else { 0u8 }) | 4u8
                } else {
                    (if c & 8 != 0 { 0u8 | 8u8 } else { 0u8 })
                })
            })
        }) == c,
        c & 15 == 0 ==> c == 0,
        c & 15 != 0 ==> (c & 8 != 0 || c & 4 != 0 || c & 2 != 0 || c & 1 != 0),
        0u8 | 0u8 == 0u8,
{
}

/// Reading the castling field written for rights `c` gives `c`.
proof fn lemma_read_castling(s: Seq<u8>, start: int, c: u8)
    requires
        c < 16,
        0 <= start,
        start + spec_rights_bytes(c).len() <= s.len(),
        s.subrange(start, start + spec_rights_bytes(c).len()) == spec_rights_bytes(c),
    ensures
        castling_from(s, start, start + spec_rights_bytes(c).len()) == c,
{
    let x = spec_rights_bytes(c);
    lemma_rights_bits(c);
    assert forall|j: int| 0 <= j < x.len() implies s[start + j] == #[trigger] x[j] by {
        assert(s.subrange(start, start + x.len())[j] == x[j]);
    }
    assert(castling_from(s, start, start) == 0);
    if c & 15 == 0 {
        assert(x[0] == 45);
        assert(castling_flag(45) == 0);
    } else {
        let kk: Seq<u8> = if c & 8 != 0 { seq![75u8] } else { Seq::empty() };
        let qq: Seq<u8> = if c & 4 != 0 { seq![81u8] } else { Seq::empty() };
        let k2: Seq<u8> = if c & 2 != 0 { seq![107u8] } else { Seq::empty() };
        let q2: Seq<u8> = if c & 1 != 0 { seq![113u8] } else { Seq::empty() };
        assert(x == kk + qq + k2 + q2);
        let l1 = start + kk.len();
        let l2 = l1 + qq.len();
        let l3 = l2 + k2.len();
        let l4 = l3 + q2.len();
        let v1 = if c & 8 != 0 { 0u8 | 8u8 } else { 0u8 };
        let v2 = if c & 4 != 0 { v1 | 4u8 } else { v1 };
        let v3 = if c & 2 != 0 { v2 | 2u8 } else { v2 };
        let v4 = if c & 1 != 0 { v3 | 1u8 } else { v3 };
        if c & 8 != 0 {
            assert(x[0] == 75);
        }
        assert(castling_from(s, start, l1) == v1);
        if c & 4 != 0 {
            assert(x[l1 - start] == 81);
        }
        assert(castling_from(s, start, l2) == v2);
        if c & 2 != 0 {
            assert(x[l2 - start] == 107);
        }
        assert(castling_from(s, start, l3) == v3);
        if c & 1 != 0 {
            assert(x[l3 - start] == 113);
        }
        assert(castling_from(s, start, l4) == v4);
    }
}

/// A spaceless field `x` at `o` in `s`, followed by whitespace or the end,
/// is a token running to its end.
proof fn lemma_field(s: Seq<u8>, o: int, x: Seq<u8>)
    requires
        0 <= o,
        o + x.len() <= s.len(),
        x.len() > 0,
        spaceless(x),
        s.subrange(o, o + x.len()) == x,
        o + x.len() == s.len() || is_space(s[o + x.len()]),
    ensures
        token_end(s, o) == o + x.len(),
        !is_space(s[o]),
{
    assert forall|k: int| o <= k < o + x.len() implies !is_space(#[trigger] s[k]) by {
        assert(s.subrange(o, o + x.len())[k - o] == s[k]);
        assert(!is_space(x[k - o]));
    }
    lemma_token_end(s, o, o + x.len());
}

/// Reading the FEN string written for a position gives the position back,
/// for any position with a side to move: every square holds a piece or
/// nothing, the castling rights are flags `KQkq`, and the en passant square
/// is a square or none.
pub proof fn lemma_fen_roundtrip(state: BoardState)
    requires
        mailbox_ok(state.mailbox),
        state.side_to_move < 2,
        state.castling_rights < 16,
        state.ep_square <= 64,
    ensures
        parse_fen(fen_of(state)) == Ok::<BoardState, ParseError>(state),
{
    let mb = state.mailbox;
    let f0 = ranks_fen(mb, 0);
    let f1 = side_bytes(state.side_to_move);
    let f2 = spec_rights_bytes(state.castling_rights);
    let f3 = spec_square_bytes(Square(state.ep_square));
    let f4 = decimal(state.halfmoves as nat);
    let f5 = decimal(state.fullmoves as nat);
    let sp = seq![32u8];
    let s = fen_of(state);
    assert(s == f0 + sp + f1 + sp + f2 + sp + f3 + sp + f4 + sp + f5);
    lemma_ranks_spaceless(mb, 0);
    lemma_decimal(state.halfmoves as nat);
    lemma_decimal(state.fullmoves as nat);
    assert(spaceless(f1));
    assert(spaceless(f2));
    assert(spaceless(f3));
    lemma_rights_bits(state.castling_rights);
    assert(f2.len() > 0);
    let e0 = f0.len() as int;
    let o1 = e0 + 1;
    let e1 = o1 + f1.len();
    let o2 = e1 + 1;
    let e2 = o2 + f2.len();
    let o3 = e2 + 1;
    let e3 = o3 + f3.len();
    let o4 = e3 + 1;
    let e4 = o4 + f4.len();
    let o5 = e4 + 1;
    let e5 = o5 + f5.len();
    assert(s.len() == e5);
    assert(s.subrange(0, e0) =~= f0);
    assert(s.subrange(o1, e1) =~= f1);
    assert(s.subrange(o2, e2) =~= f2);
    assert(s.subrange(o3, e3) =~= f3);
    assert(s.subrange(o4, e4) =~= f4);
    assert(s.subrange(o5, e5) =~= f5);
    assert(s[e0] == 32 && s[e1] == 32 && s[e2] == 32 && s[e3] == 32 && s[e4] == 32);
    lemma_field(s, 0, f0);
    lemma_field(s, o1, f1);
    lemma_field(s, o2, f2);
    lemma_field(s, o3, f3);
    lemma_field(s, o4, f4);
    lemma_field(s, o5, f5);
    assert(skip_spaces(s, 0) == 0);
    assert(token_bounds(s, 0) == (0int, e0));
    lemma_skip_one_space(s, e0);
    assert(token_bounds(s, 1) == (o1, e1));
    lemma_skip_one_space(s, e1);
    assert(token_bounds(s, 2) == (o2, e2));
    lemma_skip_one_space(s, e2);
    assert(token_bounds(s, 3) == (o3, e3));
    lemma_skip_one_space(s, e3);
    assert(token_bounds(s, 4) == (o4, e4));
    lemma_skip_one_space(s, e4);
    assert(token_bounds(s, 5) == (o5, e5));
    lemma_read_ranks(s, e0, mb, 0);
    assert(filled(mb, 0, 8) =~= mb);
    assert(place_pieces(s, e0, e0, 8, filled(mb, 0, 8)) == Ok::<Seq<Piece>, ParseError>(mb));
    lemma_read_castling(s, o2, state.castling_rights);
    if state.ep_square < 64 {
        lemma_square_bytes_roundtrip(Square(state.ep_square));
    }
    lemma_parse_decimal(state.halfmoves as nat, 255);
    lemma_parse_decimal(state.fullmoves as nat, 65535);
}

/// A position read back from the FEN string written for a board is the
/// board's position, with the same key, pawn key and static evaluation.
pub proof fn lemma_reparsed_fen_same_position(board: &Board, reparsed: &Board)
    requires
        board.wf(),
        board@.side_to_move < 2,
        reparsed.wf(),
        parse_fen(fen_of(board@)) == Ok::<BoardState, ParseError>(reparsed@),
    ensures
        reparsed@ == board@,
        reparsed.spec_key() == board.spec_key(),
        reparsed.spec_pawn_key() == board.spec_pawn_key(),
        static_evaluation(reparsed@) == static_evaluation(board@),
{
    lemma_fen_roundtrip(board@);
    lemma_same_position_same_key(board, reparsed);
}

/// After a legal move, the board read back from the FEN string written for
/// it has the same key, pawn key and static evaluation; the other side is
/// to move, and no castling right was gained.
pub proof fn lemma_made_move_reparses(before: BoardState, mv: Move, after: &Board, reparsed: &Board)
    requires
        before.side_to_move < 2,
        after.wf(),
        after@ == after_move(before, mv),
        reparsed.wf(),
        parse_fen(fen_of(after@)) == Ok::<BoardState, ParseError>(reparsed@),
    ensures
        reparsed.spec_key() == after.spec_key(),
        reparsed.spec_pawn_key() == after.spec_pawn_key(),
        static_evaluation(reparsed@) == static_evaluation(after@),
        reparsed@.side_to_move == 1 - before.side_to_move,
        reparsed@.castling_rights & !before.castling_rights == 0,
{
    lemma_rights_never_grow(before, mv);
    lemma_reparsed_fen_same_position(after, reparsed);
}

/// A FEN string in the form this library writes (each run of empty
/// squares as one digit, the rights in `KQkq` order or `-`, the en passant
/// square or `-`, the counters in decimal) prints back unchanged after it
/// is read.
pub proof fn lemma_canonical_fen_prints_back(fen: Seq<u8>, state: BoardState)
    requires
        mailbox_ok(state.mailbox),
        state.side_to_move < 2,
        state.castling_rights < 16,
        state.ep_square <= 64,
        fen == fen_of(state),
    ensures
        parse_fen(fen) is Ok,
        fen_of(parse_fen(fen)->Ok_0) == fen,
{
    lemma_fen_roundtrip(state);
}

} // verus!
