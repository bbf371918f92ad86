//! Items associated with [`Board`]: the chessboard, its abstract state and
//! the invariant that ties its redundant fields to that state.
use vstd::prelude::*;

use crate::bitboard::{
    bit, group_sq_in, lemma_sq_in_bit, lemma_sq_in_ext, lemma_sq_in_xor, lemma_sq_in_zero,
    sq_in, Bitboard,
};
use crate::bitops::{lemma_key_parts, lemma_u64_ops, lemma_u8_ops};
use crate::defs::{Piece, PieceType, Side, Square};
use crate::evaluation::values::{lemma_psqt_bound, psqt, PHASE_WEIGHTS};
use crate::evaluation::{Evaluation, Phase, Score};
use accumulators::{
    phase_weight_of, score_in_bounds, zobrist_castling_key, zobrist_ep_key, zobrist_piece_key, zobrist_side_key, ZobristKeys,
};

/// Accumulated, incrementally-updated fields.
pub mod accumulators;
/// Attack queries.
pub mod attacks;
/// Making moves.
pub mod make;
/// FEN strings.
pub mod fen;
/// Reading back a written FEN string.
pub mod fen_roundtrip;
/// Pseudo-legality of moves from elsewhere.
pub mod pseudo;
/// Static exchange evaluation.
pub mod see;

verus! {

/// The type of a zobrist key.
pub type Key = u64;

/// Castling rights.
///
/// Encoded as `KQkq`, with one bit for each right. E.g. `0b1101` would be
/// castling rights `KQq`.
#[derive(Clone, Copy, Debug, PartialEq, Eq, Structural)]
pub struct CastlingRights(pub u8);

/// A chessboard.
///
/// It contains all the necessary information about a chess position, plus
/// some extra fields for rapid lookup. It uses copy-make to make moves.
#[derive(Clone, Copy)]
pub struct Board {
    /// The piece on each square.
    mailbox: [Piece; 64],
    /// One bitboard per piece type: the squares of all pieces of that type.
    pieces: [Bitboard; 6],
    /// One bitboard per side: the squares of all pieces of that side.
    sides: [Bitboard; 2],
    /// The current side to move.
    side_to_move: Side,
    /// Castling rights.
    castling_rights: CastlingRights,
    /// The en passant square, [`Square::NONE`] if there is none.
    ep_square: Square,
    /// The number of halfmoves since the last capture or pawn move.
    halfmoves: u8,
    /// The move number: starts at 1 and is incremented after Black moves.
    fullmoves: u16,
    /// The current phase, incrementally updated.
    phase: Phase,
    /// The current score from the perspective of White, incrementally
    /// updated.
    score: Score,
    /// The current zobrist key of the board, incrementally updated.
    key: Key,
    /// The zobrist key of the pawns only, incrementally updated.
    pawn_key: Key,
}

/// The abstract state of a board: the piece on each square and the state of
/// the game. Everything else a [`Board`] holds is derived from it.
pub struct BoardState {
    pub mailbox: Seq<Piece>,
    pub side_to_move: u8,
    pub castling_rights: u8,
    pub ep_square: u8,
    pub halfmoves: u8,
    pub fullmoves: u16,
}

// ---------------------------------------------------------------------------
// Quantities derived from the squares of a board.

/// A piece belongs to the bitboard `kind`: kinds 0 to 5 are the piece types,
/// 6 is Black and 7 is White.
pub open spec fn matches_kind(piece: Piece, kind: int) -> bool {
    piece.0 < 12 && if kind < 6 {
        piece.type_of() == kind
    } else {
        piece.side_of() == kind - 6
    }
}

/// The squares among `0..n` holding a piece of bitboard `kind`.
#[verifier::opaque]
pub open spec fn kind_bb(mailbox: Seq<Piece>, kind: int, n: int) -> u64
    decreases n,
{
    if n <= 0 {
        0
    } else {
        kind_bb(mailbox, kind, n - 1) | (if matches_kind(mailbox[n - 1], kind) {
            bit(n - 1)
        } else {
            0
        })
    }
}

/// The zobrist key of a square: of all pieces, or of pawns only.
pub open spec fn key_part(s: int, piece: Piece, pawns_only: bool) -> u64 {
    if !pawns_only || piece.type_of() == 0 {
        zobrist_piece_key(s, piece.0 as int)
    } else {
        0
    }
}

/// The xor of the keys of the squares `0..n`.
#[verifier::opaque]
pub open spec fn key_fold(mailbox: Seq<Piece>, n: int, pawns_only: bool) -> u64
    decreases n,
{
    if n <= 0 {
        0
    } else {
        key_fold(mailbox, n - 1, pawns_only) ^ key_part(n - 1, mailbox[n - 1], pawns_only)
    }
}

/// The sum of the values of the pieces on the squares `0..n`, in the
/// middlegame or the endgame.
#[verifier::opaque]
pub open spec fn score_fold(mailbox: Seq<Piece>, n: int, endgame: bool) -> int
    decreases n,
{
    if n <= 0 {
        0
    } else {
        score_fold(mailbox, n - 1, endgame) + psqt(mailbox[n - 1].0 as int, n - 1, endgame)
    }
}

/// The sum of the phase weights of the pieces on the squares `0..n`.
#[verifier::opaque]
pub open spec fn phase_fold(mailbox: Seq<Piece>, n: int) -> int
    decreases n,
{
    if n <= 0 {
        0
    } else {
        phase_fold(mailbox, n - 1) + PHASE_WEIGHTS[mailbox[n - 1].0 as int]
    }
}

/// The zobrist key of a board state.
pub open spec fn state_key(state: BoardState) -> u64 {
    key_fold(state.mailbox, 64, false) ^ (if state.side_to_move == 0 {
        zobrist_side_key()
    } else {
        0
    }) ^ zobrist_castling_key(state.castling_rights as int) ^ zobrist_ep_key(
        state.ep_square as int,
    )
}

/// Every square holds a piece or nothing.
pub open spec fn mailbox_ok(mailbox: Seq<Piece>) -> bool {
    mailbox.len() == 64 && forall|s: int| 0 <= s < 64 ==> (#[trigger] mailbox[s]).0 <= 12
}

proof fn lemma_xor_facts(x: u64, a: u64, b: u64)
    ensures
        ((x ^ a) ^ a) ^ b == x ^ b,
        x ^ 0 == x,
        (x ^ a) ^ b == (x ^ b) ^ a,
        x ^ (a ^ b) == (x ^ a) ^ b,
        (x ^ a) ^ a == x,
{
    lemma_u64_ops(x, a, b);
}

/// The squares of [`kind_bb`] are those holding a piece of that kind.
pub proof fn lemma_kind_bb(mailbox: Seq<Piece>, kind: int, n: int, t: int)
    requires
        0 <= n <= 64,
    ensures
        sq_in(kind_bb(mailbox, kind, n), t) <==> (0 <= t < n && matches_kind(mailbox[t], kind)),
    decreases n,
{
    broadcast use group_sq_in;

    reveal(kind_bb);
    if n > 0 {
        lemma_kind_bb(mailbox, kind, n - 1, t);
    }
}

/// Changing one square toggles that square in the bitboards whose kind
/// the old and new piece disagree on.
pub proof fn lemma_kind_bb_update(mailbox: Seq<Piece>, kind: int, s: int, piece: Piece)
    requires
        mailbox.len() == 64,
        0 <= s < 64,
    ensures
        kind_bb(mailbox.update(s, piece), kind, 64) == kind_bb(mailbox, kind, 64) ^ (if matches_kind(
            mailbox[s],
            kind,
        ) != matches_kind(piece, kind) {
            bit(s)
        } else {
            0
        }),
{
    broadcast use group_sq_in;

    let new = kind_bb(mailbox.update(s, piece), kind, 64);
    let toggle = if matches_kind(mailbox[s], kind) != matches_kind(piece, kind) {
        bit(s)
    } else {
        0
    };
    let expected = kind_bb(mailbox, kind, 64) ^ toggle;
    assert forall|t: int| 0 <= t < 64 implies sq_in(new, t) == sq_in(expected, t) by {
        lemma_kind_bb(mailbox.update(s, piece), kind, 64, t);
        lemma_kind_bb(mailbox, kind, 64, t);
    }
    lemma_sq_in_ext(new, expected);
}

/// Folds over the same squares are equal.
proof fn lemma_folds_same(a: Seq<Piece>, b: Seq<Piece>, n: int)
    requires
        0 <= n <= a.len(),
        n <= b.len(),
        forall|i: int| 0 <= i < n ==> a[i] == b[i],
    ensures
        key_fold(a, n, false) == key_fold(b, n, false),
        key_fold(a, n, true) == key_fold(b, n, true),
        score_fold(a, n, false) == score_fold(b, n, false),
        score_fold(a, n, true) == score_fold(b, n, true),
        phase_fold(a, n) == phase_fold(b, n),
    decreases n,
{
    reveal(key_fold);
    reveal(score_fold);
    reveal(phase_fold);
    if n > 0 {
        lemma_folds_same(a, b, n - 1);
    }
}

/// Changing one square changes each fold by the difference of that square.
pub proof fn lemma_folds_update(mailbox: Seq<Piece>, n: int, s: int, piece: Piece)
    requires
        mailbox.len() == 64,
        0 <= s < n <= 64,
    ensures
        key_fold(mailbox.update(s, piece), n, false) == (key_fold(mailbox, n, false) ^ key_part(
            s,
            mailbox[s],
            false,
        )) ^ key_part(s, piece, false),
        key_fold(mailbox.update(s, piece), n, true) == (key_fold(mailbox, n, true) ^ key_part(
            s,
            mailbox[s],
            true,
        )) ^ key_part(s, piece, true),
        score_fold(mailbox.update(s, piece), n, false) == score_fold(mailbox, n, false) - psqt(
            mailbox[s].0 as int,
            s,
            false,
        ) + psqt(piece.0 as int, s, false),
        score_fold(mailbox.update(s, piece), n, true) == score_fold(mailbox, n, true) - psqt(
            mailbox[s].0 as int,
            s,
            true,
        ) + psqt(piece.0 as int, s, true),
        phase_fold(mailbox.update(s, piece), n) == phase_fold(mailbox, n)
            - PHASE_WEIGHTS[mailbox[s].0 as int] + PHASE_WEIGHTS[piece.0 as int],
    decreases n,
{
    reveal(key_fold);
    reveal(score_fold);
    reveal(phase_fold);
    let new = mailbox.update(s, piece);
    if n - 1 == s {
        lemma_folds_same(mailbox, new, n - 1);
        lemma_xor_facts(key_fold(mailbox, n - 1, false), key_part(s, mailbox[s], false), key_part(s, piece, false));
        lemma_xor_facts(key_fold(mailbox, n - 1, true), key_part(s, mailbox[s], true), key_part(s, piece, true));
    } else {
        lemma_folds_update(mailbox, n - 1, s, piece);
        let last_f = key_part(n - 1, mailbox[n - 1], false);
        let last_t = key_part(n - 1, mailbox[n - 1], true);
        let old_f = key_part(s, mailbox[s], false);
        let new_f = key_part(s, piece, false);
        let old_t = key_part(s, mailbox[s], true);
        let new_t = key_part(s, piece, true);
        let kf = key_fold(mailbox, n - 1, false);
        let kt = key_fold(mailbox, n - 1, true);
        lemma_key_parts(kf, 0, 0, last_f, old_f, new_f);
        lemma_key_parts(kt, 0, 0, last_t, old_t, new_t);
    }
}

/// The score of 64 squares is within 64 times the largest piece value.
pub proof fn lemma_score_fold_bound(mailbox: Seq<Piece>, n: int, endgame: bool)
    requires
        0 <= n <= 64,
    ensures
        -10200 * n <= score_fold(mailbox, n, endgame) <= 10200 * n,
    decreases n,
{
    reveal(score_fold);
    if n > 0 {
        lemma_score_fold_bound(mailbox, n - 1, endgame);
        lemma_psqt_bound(mailbox[n - 1].0 as int, n - 1, endgame);
    }
}

/// The phase of 64 squares is at most four per square.
pub proof fn lemma_phase_fold_bound(mailbox: Seq<Piece>, n: int)
    requires
        0 <= n <= 64,
        mailbox_ok(mailbox),
    ensures
        0 <= phase_fold(mailbox, n) <= 4 * n,
    decreases n,
{
    reveal(phase_fold);
    if n > 0 {
        lemma_phase_fold_bound(mailbox, n - 1);
        let p = mailbox[n - 1].0 as int;
        assert(p <= 12);
        assert(PHASE_WEIGHTS[p] <= 4);
    }
}

/// An empty board has no keys, no score, no phase and no pieces.
proof fn lemma_folds_empty(mailbox: Seq<Piece>, n: int)
    requires
        0 <= n <= mailbox.len(),
        forall|i: int| 0 <= i < mailbox.len() ==> mailbox[i] == Piece(12),
    ensures
        key_fold(mailbox, n, false) == 0,
        key_fold(mailbox, n, true) == 0,
        score_fold(mailbox, n, false) == 0,
        score_fold(mailbox, n, true) == 0,
        phase_fold(mailbox, n) == 0,
        forall|kind: int| #[trigger] kind_bb(mailbox, kind, n) == 0,
    decreases n,
{
    reveal(key_fold);
    reveal(score_fold);
    reveal(phase_fold);
    reveal(kind_bb);
    if n > 0 {
        lemma_folds_empty(mailbox, n - 1);
        lemma_u64_ops(0, 0, 0);
        assert forall|kind: int| #[trigger] kind_bb(mailbox, kind, n) == 0 by {
            assert(kind_bb(mailbox, kind, n - 1) == 0);
            assert(!matches_kind(mailbox[n - 1], kind));
        }
    }
}

impl View for Board {
    type V = BoardState;

    closed spec fn view(&self) -> BoardState {
        BoardState {
            mailbox: self.mailbox@,
            side_to_move: self.side_to_move.0,
            castling_rights: self.castling_rights.0,
            ep_square: self.ep_square.0,
            halfmoves: self.halfmoves,
            fullmoves: self.fullmoves,
        }
    }
}

impl Board {
    /// The bitboard of pieces of type `t`.
    pub closed spec fn spec_pieces(&self, t: int) -> u64 {
        self.pieces@[t].0
    }

    /// The bitboard of pieces of side `s`.
    pub closed spec fn spec_sides(&self, s: int) -> u64 {
        self.sides@[s].0
    }

    /// The accumulated zobrist key.
    pub closed spec fn spec_key(&self) -> u64 {
        self.key
    }

    /// The accumulated zobrist key of the pawns.
    pub closed spec fn spec_pawn_key(&self) -> u64 {
        self.pawn_key
    }

    /// The accumulated middlegame score.
    pub closed spec fn spec_score_mg(&self) -> int {
        self.score.0.0 as int
    }

    /// The accumulated endgame score.
    pub closed spec fn spec_score_eg(&self) -> int {
        self.score.1.0 as int
    }

    /// The accumulated phase.
    pub closed spec fn spec_phase(&self) -> u8 {
        self.phase.0
    }

    /// The redundant fields agree with the abstract state.
    pub open spec fn wf(&self) -> bool {
        let st = self@;
        &&& mailbox_ok(st.mailbox)
        &&& forall|t: int| 0 <= t < 6 ==> #[trigger] self.spec_pieces(t) == kind_bb(st.mailbox, t, 64)
        &&& self.spec_sides(0) == kind_bb(st.mailbox, 6, 64)
        &&& self.spec_sides(1) == kind_bb(st.mailbox, 7, 64)
        &&& st.side_to_move <= 2
        &&& st.castling_rights < 16
        &&& st.ep_square <= 64
        &&& self.spec_key() == state_key(st)
        &&& self.spec_pawn_key() == key_fold(st.mailbox, 64, true)
        &&& self.spec_score_mg() == score_fold(st.mailbox, 64, false)
        &&& self.spec_score_eg() == score_fold(st.mailbox, 64, true)
        &&& self.spec_phase() == phase_fold(st.mailbox, 64) % 256
    }

    /// Creates a new, empty [`Board`].
    pub fn new() -> (board: Self)
        ensures
            board.wf(),
            board@.mailbox == Seq::new(64, |i: int| Piece(12)),
            board@.side_to_move == Side::NONE,
            board@.castling_rights == 0,
            board@.ep_square == Square::NONE,
            board@.halfmoves == 0,
            board@.fullmoves == 1,
    {
        let board = Self {
            mailbox: [Piece(Piece::NONE); 64],
            pieces: [Bitboard(0); 6],
            sides: [Bitboard(0); 2],
            side_to_move: Side(Side::NONE),
            castling_rights: CastlingRights(0),
            ep_square: Square(Square::NONE),
            halfmoves: 0,
            fullmoves: 1,
            phase: Phase(0),
            score: Score(Evaluation(0), Evaluation(0)),
            key: 0,
            pawn_key: 0,
        };
        proof {
            assert(board@.mailbox =~= Seq::new(64, |i: int| Piece(12)));
            lemma_folds_empty(board@.mailbox, 64);
            lemma_u64_ops(0, 0, 0);
            assert(zobrist_castling_key(0) == 0);
        }
        board
    }
}


impl Board {
    /// Everything but the accumulated keys, score and phase is the same.
    pub closed spec fn same_position(&self, other: &Board) -> bool {
        &&& self.mailbox == other.mailbox
        &&& self.pieces == other.pieces
        &&& self.sides == other.sides
        &&& self.side_to_move == other.side_to_move
        &&& self.castling_rights == other.castling_rights
        &&& self.ep_square == other.ep_square
        &&& self.halfmoves == other.halfmoves
        &&& self.fullmoves == other.fullmoves
    }

    /// Returns the bitboard of the pieces of type `piece_type`.
    pub fn pieces_of(&self, piece_type: PieceType) -> (bb: Bitboard)
        requires
            piece_type.0 < 6,
        ensures
            bb.0 == self.spec_pieces(piece_type.0 as int),
    {
        self.pieces[piece_type.0 as usize]
    }

    /// Returns the piece bitboard given by `PIECE`.
    pub fn piece<const PIECE: usize>(&self) -> (bb: Bitboard)
        requires
            PIECE < 6,
        ensures
            bb.0 == self.spec_pieces(PIECE as int),
    {
        self.pieces[PIECE]
    }

    /// Returns the piece bitboard of the given piece type.
    pub fn piece_any(&self, piece_type: PieceType) -> (bb: Bitboard)
        requires
            piece_type.0 < 6,
        ensures
            bb.0 == self.spec_pieces(piece_type.0 as int),
    {
        self.pieces[piece_type.0 as usize]
    }

    /// Returns the side bitboard according to `IS_WHITE`.
    pub fn side<const IS_WHITE: bool>(&self) -> (bb: Bitboard)
        ensures
            bb.0 == self.spec_sides(if IS_WHITE { 1 } else { 0 }),
    {
        if IS_WHITE {
            self.sides[1]
        } else {
            self.sides[0]
        }
    }

    /// Returns the side bitboard of the given side.
    pub fn side_any(&self, side: Side) -> (bb: Bitboard)
        requires
            side.0 < 2,
        ensures
            bb.0 == self.spec_sides(side.0 as int),
    {
        self.sides[side.0 as usize]
    }

    /// Calculates the bitboard with all occupancies set.
    pub fn occupancies(&self) -> (bb: Bitboard)
        ensures
            bb.0 == self.spec_sides(1) | self.spec_sides(0),
    {
        Bitboard(self.sides[1].0 | self.sides[0].0)
    }

    /// Returns the side to move.
    pub fn side_to_move(&self) -> (side: Side)
        ensures
            side.0 == self@.side_to_move,
    {
        self.side_to_move
    }

    /// Returns the castling rights.
    pub fn castling_rights(&self) -> (rights: CastlingRights)
        ensures
            rights.0 == self@.castling_rights,
    {
        self.castling_rights
    }

    /// Returns the en passant square, which might be [`Square::NONE`].
    pub fn ep_square(&self) -> (square: Square)
        ensures
            square.0 == self@.ep_square,
    {
        self.ep_square
    }

    /// Returns halfmoves since the last capture or pawn move.
    pub fn halfmoves(&self) -> (halfmoves: u8)
        ensures
            halfmoves == self@.halfmoves,
    {
        self.halfmoves
    }

    /// Returns the current move number.
    pub fn fullmoves(&self) -> (fullmoves: u16)
        ensures
            fullmoves == self@.fullmoves,
    {
        self.fullmoves
    }

    /// Returns the piece on `square`.
    pub fn piece_on(&self, square: Square) -> (piece: Piece)
        requires
            square.valid(),
        ensures
            piece == self@.mailbox[square.0 as int],
    {
        self.mailbox[square.0 as usize]
    }

    /// Sets the piece on `square` in the mailbox to `piece`.
    fn set_mailbox_piece(&mut self, square: Square, piece: Piece)
        requires
            square.valid(),
        ensures
            final(self)@.mailbox == old(self)@.mailbox.update(square.0 as int, piece),
            final(self).pieces == old(self).pieces,
            final(self).sides == old(self).sides,
            final(self).side_to_move == old(self).side_to_move,
            final(self).castling_rights == old(self).castling_rights,
            final(self).ep_square == old(self).ep_square,
            final(self).halfmoves == old(self).halfmoves,
            final(self).fullmoves == old(self).fullmoves,
            final(self).phase == old(self).phase,
            final(self).score == old(self).score,
            final(self).key == old(self).key,
            final(self).pawn_key == old(self).pawn_key,
    {
        self.mailbox[square.0 as usize] = piece;
        assert(self@.mailbox =~= old(self)@.mailbox.update(square.0 as int, piece));
    }

    /// Sets the piece on `square` in the mailbox to [`Piece::NONE`].
    fn unset_mailbox_piece(&mut self, square: Square)
        requires
            square.valid(),
        ensures
            final(self)@.mailbox == old(self)@.mailbox.update(square.0 as int, Piece(12)),
            final(self).pieces == old(self).pieces,
            final(self).sides == old(self).sides,
            final(self).side_to_move == old(self).side_to_move,
            final(self).castling_rights == old(self).castling_rights,
            final(self).ep_square == old(self).ep_square,
            final(self).halfmoves == old(self).halfmoves,
            final(self).fullmoves == old(self).fullmoves,
            final(self).phase == old(self).phase,
            final(self).score == old(self).score,
            final(self).key == old(self).key,
            final(self).pawn_key == old(self).pawn_key,
    {
        self.set_mailbox_piece(square, Piece(Piece::NONE));
    }

    /// Toggles the bits set in `bb` of the bitboard of `piece`.
    fn toggle_piece_bb(&mut self, piece: PieceType, bb: Bitboard)
        requires
            piece.0 < 6,
        ensures
            final(self).pieces@ == old(self).pieces@.update(
                piece.0 as int,
                Bitboard(old(self).pieces@[piece.0 as int].0 ^ bb.0),
            ),
            final(self).mailbox == old(self).mailbox,
            final(self).sides == old(self).sides,
            final(self).side_to_move == old(self).side_to_move,
            final(self).castling_rights == old(self).castling_rights,
            final(self).ep_square == old(self).ep_square,
            final(self).halfmoves == old(self).halfmoves,
            final(self).fullmoves == old(self).fullmoves,
            final(self).phase == old(self).phase,
            final(self).score == old(self).score,
            final(self).key == old(self).key,
            final(self).pawn_key == old(self).pawn_key,
    {
        let old_bb = self.pieces[piece.0 as usize];
        self.pieces[piece.0 as usize] = Bitboard(old_bb.0 ^ bb.0);
        assert(self.pieces@ =~= old(self).pieces@.update(
            piece.0 as int,
            Bitboard(old(self).pieces@[piece.0 as int].0 ^ bb.0),
        ));
    }

    /// Toggles the bits set in `bb` of the bitboard of `side`.
    fn toggle_side_bb(&mut self, side: Side, bb: Bitboard)
        requires
            side.0 < 2,
        ensures
            final(self).sides@ == old(self).sides@.update(
                side.0 as int,
                Bitboard(old(self).sides@[side.0 as int].0 ^ bb.0),
            ),
            final(self).mailbox == old(self).mailbox,
            final(self).pieces == old(self).pieces,
            final(self).side_to_move == old(self).side_to_move,
            final(self).castling_rights == old(self).castling_rights,
            final(self).ep_square == old(self).ep_square,
            final(self).halfmoves == old(self).halfmoves,
            final(self).fullmoves == old(self).fullmoves,
            final(self).phase == old(self).phase,
            final(self).score == old(self).score,
            final(self).key == old(self).key,
            final(self).pawn_key == old(self).pawn_key,
    {
        let old_bb = self.sides[side.0 as usize];
        self.sides[side.0 as usize] = Bitboard(old_bb.0 ^ bb.0);
        assert(self.sides@ =~= old(self).sides@.update(
            side.0 as int,
            Bitboard(old(self).sides@[side.0 as int].0 ^ bb.0),
        ));
    }
}


/// Adding or removing a piece's key to the fold changes the key of the
/// state by the same amount.
proof fn lemma_key_xor(fold: u64, rest1: u64, rest2: u64, rest3: u64, old_part: u64, new_part: u64)
    ensures
        (((fold ^ rest1) ^ rest2) ^ rest3) ^ old_part ^ new_part == ((((fold ^ old_part)
            ^ new_part) ^ rest1) ^ rest2) ^ rest3,
{
    lemma_key_parts(fold, rest1, rest2, rest3, old_part, new_part);
}

/// Taking the phase modulo 256 before or after adding a weight agrees.
proof fn lemma_phase_mod(a: int, w: int)
    ensures
        (a % 256 + w) % 256 == (a + w) % 256,
        (a % 256 - w) % 256 == (a - w) % 256,
{
    vstd::arithmetic::div_mod::lemma_add_mod_noop(a, w, 256);
    vstd::arithmetic::div_mod::lemma_sub_mod_noop(a, w, 256);
    vstd::arithmetic::div_mod::lemma_mod_twice(a, 256);
    vstd::arithmetic::div_mod::lemma_mod_twice(w, 256);
}

impl Board {
    /// A well-formed board is far from overflowing its score.
    /// A board whose squares, bitboards and accumulators are those of a
    /// well-formed board, and whose key matches its state, is well formed.
    proof fn lemma_wf_frame(&self, other: &Board)
        requires
            other.wf(),
            self.mailbox@ == other.mailbox@,
            self.pieces@ == other.pieces@,
            self.sides@ == other.sides@,
            self.pawn_key == other.pawn_key,
            self.score == other.score,
            self.phase == other.phase,
            self.side_to_move.0 <= 2,
            self.castling_rights.0 < 16,
            self.ep_square.0 <= 64,
            self.key == state_key(self@),
        ensures
            self.wf(),
    {
        assert forall|t: int| 0 <= t < 6 implies #[trigger] self.spec_pieces(t) == kind_bb(
            self@.mailbox,
            t,
            64,
        ) by {
            assert(other.spec_pieces(t) == kind_bb(other@.mailbox, t, 64));
        }
    }

    proof fn lemma_wf_bounds(&self)
        requires
            self.wf(),
        ensures
            score_in_bounds(self),
    {
        lemma_score_fold_bound(self@.mailbox, 64, false);
        lemma_score_fold_bound(self@.mailbox, 64, true);
    }

    /// Changes the piece on one square from `old_piece` to `new_piece`
    /// (either may be [`Piece::NONE`]), keeping every redundant field in
    /// agreement with the squares.
    fn replace_piece(&mut self, square: Square, old_piece: Piece, new_piece: Piece, keys: &ZobristKeys)
        requires
            old(self).wf(),
            keys.wf(),
            square.valid(),
            old_piece.0 <= 12,
            new_piece.0 <= 12,
            old(self)@.mailbox[square.0 as int] == old_piece,
        ensures
            final(self).wf(),
            final(self)@ == (BoardState {
                mailbox: old(self)@.mailbox.update(square.0 as int, new_piece),
                ..old(self)@
            }),
    {
        let ghost old_mb = self@.mailbox;
        let ghost s = square.0 as int;
        proof {
            self.lemma_wf_bounds();
            lemma_score_fold_bound(old_mb, 64, false);
            lemma_score_fold_bound(old_mb, 64, true);
        }
        let bb = Bitboard::from_square(square);
        if old_piece.0 < 12 {
            self.toggle_piece_bb(old_piece.piece_type(), bb);
            self.toggle_side_bb(old_piece.side(), bb);
            self.remove_accumulated_piece(square, old_piece, keys);
        }
        proof {
            lemma_psqt_bound(old_piece.0 as int, s, false);
            lemma_psqt_bound(old_piece.0 as int, s, true);
        }
        if new_piece.0 < 12 {
            self.toggle_piece_bb(new_piece.piece_type(), bb);
            self.toggle_side_bb(new_piece.side(), bb);
            self.add_accumulated_piece(square, new_piece, keys);
        }
        self.set_mailbox_piece(square, new_piece);
        proof {
            let new_mb = old_mb.update(s, new_piece);
            assert(self@.mailbox == new_mb);
            // the bitboards
            assert forall|t: int| 0 <= t < 6 implies #[trigger] self.spec_pieces(t) == kind_bb(
                new_mb,
                t,
                64,
            ) by {
                lemma_kind_bb_update(old_mb, t, s, new_piece);
                let x = old(self).spec_pieces(t);
                let b = bit(s);
                lemma_u64_ops(x, b, 0);
            }
            lemma_kind_bb_update(old_mb, 6, s, new_piece);
            lemma_kind_bb_update(old_mb, 7, s, new_piece);
            let b = bit(s);
            let x0 = old(self).spec_sides(0);
            let x1 = old(self).spec_sides(1);
            lemma_u64_ops(x0, b, 0);
            lemma_u64_ops(x1, b, 0);
            // the accumulators
            lemma_folds_update(old_mb, 64, s, new_piece);
            let kf = key_fold(old_mb, 64, false);
            let kp = key_fold(old_mb, 64, true);
            let op_f = key_part(s, old_piece, false);
            let np_f = key_part(s, new_piece, false);
            let op_t = key_part(s, old_piece, true);
            let np_t = key_part(s, new_piece, true);
            let r1 = if self@.side_to_move == 0 { zobrist_side_key() } else { 0 };
            let r2 = zobrist_castling_key(self@.castling_rights as int);
            let r3 = zobrist_ep_key(self@.ep_square as int);
            lemma_key_xor(kf, r1, r2, r3, op_f, np_f);
            let k0 = old(self).spec_key();
            lemma_u64_ops(kp, 0, 0);
            lemma_u64_ops(k0, 0, 0);
            lemma_key_parts(kp, 0, 0, 0, op_t, np_t);
            lemma_key_parts(k0, 0, 0, 0, op_f, np_f);
            let pf = phase_fold(old_mb, 64);
            lemma_phase_mod(pf, phase_weight_of(old_piece));
            lemma_phase_mod(pf - phase_weight_of(old_piece), phase_weight_of(new_piece));
            assert(zobrist_piece_key(s, 12) == 0);
        }
    }

    /// Adds `piece` to `square`.
    ///
    /// Assumes there is no piece on the square to be written to.
    pub fn add_piece(&mut self, square: Square, piece: Piece, keys: &ZobristKeys)
        requires
            old(self).wf(),
            keys.wf(),
            square.valid(),
            piece.valid(),
            old(self)@.mailbox[square.0 as int] == Piece(12),
        ensures
            final(self).wf(),
            final(self)@ == (BoardState {
                mailbox: old(self)@.mailbox.update(square.0 as int, piece),
                ..old(self)@
            }),
    {
        self.replace_piece(square, Piece(Piece::NONE), piece, keys);
    }

    /// Removes `piece` from `square`, where `piece_type` and `side` are the
    /// type and side of `piece`.
    pub fn remove_piece(
        &mut self,
        square: Square,
        piece: Piece,
        piece_type: PieceType,
        side: Side,
        keys: &ZobristKeys,
    )
        requires
            old(self).wf(),
            keys.wf(),
            square.valid(),
            piece.valid(),
            piece_type.0 == piece.type_of(),
            side.0 == piece.side_of(),
            old(self)@.mailbox[square.0 as int] == piece,
        ensures
            final(self).wf(),
            final(self)@ == (BoardState {
                mailbox: old(self)@.mailbox.update(square.0 as int, Piece(12)),
                ..old(self)@
            }),
    {
        self.replace_piece(square, piece, Piece(Piece::NONE), keys);
    }

    /// Moves `piece` from `start` to the empty square `end`, where
    /// `piece_type` and `side` are the type and side of `piece`.
    pub fn move_piece(
        &mut self,
        start: Square,
        end: Square,
        piece: Piece,
        piece_type: PieceType,
        side: Side,
        keys: &ZobristKeys,
    )
        requires
            old(self).wf(),
            keys.wf(),
            start.valid(),
            end.valid(),
            start != end,
            piece.valid(),
            piece_type.0 == piece.type_of(),
            side.0 == piece.side_of(),
            old(self)@.mailbox[start.0 as int] == piece,
            old(self)@.mailbox[end.0 as int] == Piece(12),
        ensures
            final(self).wf(),
            final(self)@ == (BoardState {
                mailbox: old(self)@.mailbox.update(start.0 as int, Piece(12)).update(
                    end.0 as int,
                    piece,
                ),
                ..old(self)@
            }),
    {
        self.replace_piece(start, piece, Piece(Piece::NONE), keys);
        self.replace_piece(end, Piece(Piece::NONE), piece, keys);
    }
}


impl Board {
    /// Sets the side to move of a board without one.
    fn set_side_to_move(&mut self, side: Side, keys: &ZobristKeys)
        requires
            old(self).wf(),
            keys.wf(),
            old(self)@.side_to_move == Side::NONE,
            side.0 < 2,
        ensures
            final(self).wf(),
            final(self)@ == (BoardState { side_to_move: side.0, ..old(self)@ }),
    {
        let ghost o = *self;
        if side.0 == Side::BLACK {
            self.toggle_side_key(keys);
        }
        self.side_to_move = side;
        proof {
            let st = o@;
            let f = key_fold(st.mailbox, 64, false);
            let sk = zobrist_side_key();
            let c = zobrist_castling_key(st.castling_rights as int);
            let e = zobrist_ep_key(st.ep_square as int);
            lemma_key_parts(f, 0, c, e, sk, 0);
        }
        proof {
            self.lemma_wf_frame(&o);
        }
    }

    /// Flips the side to move.
    fn flip_side(&mut self, keys: &ZobristKeys)
        requires
            old(self).wf(),
            keys.wf(),
            old(self)@.side_to_move < 2,
        ensures
            final(self).wf(),
            final(self)@ == (BoardState { side_to_move: (1 - old(self)@.side_to_move) as u8, ..old(self)@ }),
    {
        let ghost o = *self;
        self.toggle_side_key(keys);
        self.side_to_move = self.side_to_move.flip();
        proof {
            let st = o@;
            let f = key_fold(st.mailbox, 64, false);
            let sk = zobrist_side_key();
            let c = zobrist_castling_key(st.castling_rights as int);
            let e = zobrist_ep_key(st.ep_square as int);
            lemma_key_parts(f, 0, c, e, sk, 0);
        }
        proof {
            self.lemma_wf_frame(&o);
        }
    }

    /// Sets the en passant square, assuming there is none.
    fn set_ep_square(&mut self, square: Square, keys: &ZobristKeys)
        requires
            old(self).wf(),
            keys.wf(),
            old(self)@.ep_square == Square::NONE,
            square.0 <= 64,
        ensures
            final(self).wf(),
            final(self)@ == (BoardState { ep_square: square.0, ..old(self)@ }),
    {
        let ghost o = *self;
        self.toggle_ep_square_key(square, keys);
        self.ep_square = square;
        proof {
            let st = o@;
            let f = key_fold(st.mailbox, 64, false);
            let a = if st.side_to_move == 0 { zobrist_side_key() } else { 0 };
            let c = zobrist_castling_key(st.castling_rights as int);
            let e = zobrist_ep_key(square.0 as int);
            lemma_key_parts(f, a, c, e, 0, 0);
        }
        proof {
            self.lemma_wf_frame(&o);
        }
    }

    /// Sets the en passant square to [`Square::NONE`].
    fn clear_ep_square(&mut self, keys: &ZobristKeys)
        requires
            old(self).wf(),
            keys.wf(),
        ensures
            final(self).wf(),
            final(self)@ == (BoardState { ep_square: Square::NONE, ..old(self)@ }),
    {
        let ghost o = *self;
        let ep = self.ep_square;
        self.toggle_ep_square_key(ep, keys);
        self.ep_square = Square(Square::NONE);
        proof {
            let st = o@;
            let f = key_fold(st.mailbox, 64, false);
            let a = if st.side_to_move == 0 { zobrist_side_key() } else { 0 };
            let c = zobrist_castling_key(st.castling_rights as int);
            let e = zobrist_ep_key(st.ep_square as int);
            lemma_key_parts(f, a, c, e, 0, 0);
        }
        proof {
            self.lemma_wf_frame(&o);
        }
    }

    /// Replaces the castling rights and updates the zobrist key.
    fn set_castling_rights(&mut self, rights: CastlingRights, keys: &ZobristKeys)
        requires
            old(self).wf(),
            keys.wf(),
            rights.0 < 16,
        ensures
            final(self).wf(),
            final(self)@ == (BoardState { castling_rights: rights.0, ..old(self)@ }),
    {
        let ghost o = *self;
        let old_rights = self.castling_rights;
        self.toggle_castling_rights_key(old_rights, keys);
        self.toggle_castling_rights_key(rights, keys);
        self.castling_rights = rights;
        proof {
            let st = old(self)@;
            let f = key_fold(st.mailbox, 64, false);
            let a = if st.side_to_move == 0 { zobrist_side_key() } else { 0 };
            let c = zobrist_castling_key(st.castling_rights as int);
            let n = zobrist_castling_key(rights.0 as int);
            let e = zobrist_ep_key(st.ep_square as int);
            lemma_key_parts(f, a, c, e, n, 0);
        }
        proof {
            self.lemma_wf_frame(&o);
        }
    }

    /// Adds the given castling rights and updates the zobrist key.
    fn add_castling_rights(&mut self, rights: CastlingRights, keys: &ZobristKeys)
        requires
            old(self).wf(),
            keys.wf(),
            rights.0 < 16,
        ensures
            final(self).wf(),
            final(self)@ == (BoardState {
                castling_rights: old(self)@.castling_rights | rights.0,
                ..old(self)@
            }),
    {
        let mut new_rights = self.castling_rights;
        new_rights.add_rights(rights);
        let a = self.castling_rights.0;
        let b = rights.0;
        proof {
            lemma_u8_ops(a, b);
        }
        self.set_castling_rights(new_rights, keys);
    }

    /// Removes all of the given rights, whether or not they already exist,
    /// and updates the zobrist key.
    fn remove_castling_rights(&mut self, rights: CastlingRights, keys: &ZobristKeys)
        requires
            old(self).wf(),
            keys.wf(),
        ensures
            final(self).wf(),
            final(self)@ == (BoardState {
                castling_rights: old(self)@.castling_rights & !rights.0,
                ..old(self)@
            }),
    {
        let mut new_rights = self.castling_rights;
        new_rights.remove_rights(rights);
        let a = self.castling_rights.0;
        let b = rights.0;
        proof {
            lemma_u8_ops(a, b);
        }
        self.set_castling_rights(new_rights, keys);
    }

    /// Increments the halfmove counter, wrapping around the `u8` range.
    fn increment_halfmoves(&mut self)
        requires
            old(self).wf(),
        ensures
            final(self).wf(),
            final(self)@ == (BoardState {
                halfmoves: vstd::wrapping::u8_specs::wrapping_add(old(self)@.halfmoves, 1),
                ..old(self)@
            }),
    {
        let ghost o = *self;
        self.halfmoves = self.halfmoves.wrapping_add(1);
        proof {
            self.lemma_wf_frame(&o);
        }
    }

    /// Sets the halfmove counter.
    fn set_halfmoves(&mut self, count: u8)
        requires
            old(self).wf(),
        ensures
            final(self).wf(),
            final(self)@ == (BoardState { halfmoves: count, ..old(self)@ }),
    {
        let ghost o = *self;
        self.halfmoves = count;
        proof {
            self.lemma_wf_frame(&o);
        }
    }

    /// Zeroes the halfmove counter.
    fn reset_halfmoves(&mut self)
        requires
            old(self).wf(),
        ensures
            final(self).wf(),
            final(self)@ == (BoardState { halfmoves: 0, ..old(self)@ }),
    {
        let ghost o = *self;
        self.halfmoves = 0;
        proof {
            self.lemma_wf_frame(&o);
        }
    }

    /// Increments the fullmove counter, wrapping around the `u16` range.
    fn increment_fullmoves(&mut self)
        requires
            old(self).wf(),
        ensures
            final(self).wf(),
            final(self)@ == (BoardState {
                fullmoves: vstd::wrapping::u16_specs::wrapping_add(old(self)@.fullmoves, 1),
                ..old(self)@
            }),
    {
        let ghost o = *self;
        self.fullmoves = self.fullmoves.wrapping_add(1);
        proof {
            self.lemma_wf_frame(&o);
        }
    }

    /// Sets the fullmove counter.
    fn set_fullmoves(&mut self, count: u16)
        requires
            old(self).wf(),
        ensures
            final(self).wf(),
            final(self)@ == (BoardState { fullmoves: count, ..old(self)@ }),
    {
        let ghost o = *self;
        self.fullmoves = count;
        proof {
            self.lemma_wf_frame(&o);
        }
    }
}

#[allow(non_upper_case_globals)]
impl CastlingRights {
    /// The flag `K`.
    pub const K: u8 = 0b1000;
    /// The flag `Q`.
    pub const Q: u8 = 0b0100;
    /// The flag `k`.
    pub const k: u8 = 0b0010;
    /// The flag `q`.
    pub const q: u8 = 0b0001;
    /// No flags.
    pub const NONE: u8 = 0b0000;

    /// The right of `is_white` to castle to `is_kingside`.
    pub open spec fn right(is_white: bool, is_kingside: bool) -> u8 {
        if is_white {
            if is_kingside { CastlingRights::K } else { CastlingRights::Q }
        } else {
            if is_kingside { CastlingRights::k } else { CastlingRights::q }
        }
    }

    /// Returns new, empty [`CastlingRights`].
    pub fn new() -> (rights: Self)
        ensures
            rights.0 == 0,
    {
        Self(Self::NONE)
    }

    /// Calculates if the given side can castle kingside.
    pub fn can_castle_kingside<const IS_WHITE: bool>(self) -> (can: bool)
        ensures
            can == (self.0 & CastlingRights::right(IS_WHITE, true) != 0),
    {
        let r = self.0;
        if IS_WHITE {
            proof {
                lemma_u8_ops(r, 0);
            }
            r & Self::K == Self::K
        } else {
            proof {
                lemma_u8_ops(r, 0);
            }
            r & Self::k == Self::k
        }
    }

    /// Calculates if the given side can castle queenside.
    pub fn can_castle_queenside<const IS_WHITE: bool>(self) -> (can: bool)
        ensures
            can == (self.0 & CastlingRights::right(IS_WHITE, false) != 0),
    {
        let r = self.0;
        if IS_WHITE {
            proof {
                lemma_u8_ops(r, 0);
            }
            r & Self::Q == Self::Q
        } else {
            proof {
                lemma_u8_ops(r, 0);
            }
            r & Self::q == Self::q
        }
    }

    /// Calculates if the given side can castle to the given side of the
    /// board.
    pub fn can_castle_any(self, is_white: bool, is_kingside: bool) -> (can: bool)
        ensures
            can == (self.0 & CastlingRights::right(is_white, is_kingside) != 0),
    {
        let r = self.0;
        proof {
            lemma_u8_ops(r, 0);
        }
        if is_white {
            if is_kingside {
                r & Self::K == Self::K
            } else {
                r & Self::Q == Self::Q
            }
        } else {
            if is_kingside {
                r & Self::k == Self::k
            } else {
                r & Self::q == Self::q
            }
        }
    }

    /// Adds the given rights to the castling rights.
    ///
    /// If the rights already exist, nothing will happen.
    pub fn add_rights(&mut self, rights: Self)
        ensures
            final(self).0 == old(self).0 | rights.0,
    {
        self.0 = self.0 | rights.0;
    }

    /// Removes the given rights from the castling rights.
    ///
    /// If the rights do not already exist, nothing will happen.
    pub fn remove_rights(&mut self, rights: Self)
        ensures
            final(self).0 == old(self).0 & !rights.0,
    {
        self.0 = self.0 & !rights.0;
    }

    /// Converts the rights into their FEN string: e.g. `KQq`, or `-` for no
    /// rights.
    pub fn to_bytes(self) -> (bytes: Vec<u8>)
        ensures
            bytes@ == spec_rights_bytes(self.0),
    {
        let mut bytes = Vec::new();
        if self.0 & 15 == 0 {
            bytes.push(45u8);
            return bytes;
        }
        if self.0 & Self::K != 0 {
            bytes.push(75u8);
        }
        if self.0 & Self::Q != 0 {
            bytes.push(81u8);
        }
        if self.0 & Self::k != 0 {
            bytes.push(107u8);
        }
        if self.0 & Self::q != 0 {
            bytes.push(113u8);
        }
        bytes
    }
}

/// The FEN string of castling rights: `K`, `Q`, `k`, `q` for each right
/// held, in that order, or `-` for none.
pub open spec fn spec_rights_bytes(rights: u8) -> Seq<u8> {
    if rights & 15 == 0 {
        seq![45u8]
    } else {
        (if rights & 8 != 0 { seq![75u8] } else { Seq::empty() }) + (if rights & 4 != 0 {
            seq![81u8]
        } else {
            Seq::empty()
        }) + (if rights & 2 != 0 { seq![107u8] } else { Seq::empty() }) + (if rights & 1 != 0 {
            seq![113u8]
        } else {
            Seq::empty()
        })
    }
}

} // verus!
