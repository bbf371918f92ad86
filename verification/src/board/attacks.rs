//! Attack queries on a [`Board`]: the attackers of a square, checks and the
//! kinds of move that the search treats apart.
use vstd::prelude::*;
use vstd::std_specs::bits::{axiom_u64_trailing_zeros, u64_trailing_zeros};

use crate::bitboard::{group_sq_in, lemma_sq_in_empty, sq_in, Bitboard};
use crate::board::{kind_bb, lemma_kind_bb, mailbox_ok, Board, BoardState};
use crate::defs::{Piece, PieceType, Side, Square};
use crate::lookups::{king_bb, knight_bb, pawn_bb, slider_attacks, Lookup};
use crate::movegen::Move;

verus! {

/// The squares holding a piece of either side.
pub open spec fn occupancy(mailbox: Seq<Piece>) -> u64 {
    kind_bb(mailbox, 7, 64) | kind_bb(mailbox, 6, 64)
}

/// The pieces of either side that attack `square`. Pawns are those that a
/// pawn of `side` on `square` would attack, so with `side` the side to move
/// the enemy pawns among them are those attacking `square`.
pub open spec fn attackers(mailbox: Seq<Piece>, side: int, square: int) -> u64 {
    let occ = occupancy(mailbox);
    pawn_bb(side, square) & kind_bb(mailbox, 0, 64) | knight_bb(square) & kind_bb(mailbox, 1, 64)
        | king_bb(square) & kind_bb(mailbox, 5, 64) | slider_attacks(true, square, occ) & (
    kind_bb(mailbox, 2, 64) | kind_bb(mailbox, 4, 64)) | slider_attacks(false, square, occ) & (
    kind_bb(mailbox, 3, 64) | kind_bb(mailbox, 4, 64))
}

/// `square` is attacked by a piece of the side not to move.
pub open spec fn attacked(state: BoardState, square: int) -> bool {
    attackers(state.mailbox, state.side_to_move as int, square) & kind_bb(
        state.mailbox,
        7 - state.side_to_move,
        64,
    ) != 0
}

/// The kings of the side to move.
pub open spec fn own_kings(state: BoardState) -> u64 {
    kind_bb(state.mailbox, 5, 64) & kind_bb(state.mailbox, 6 + state.side_to_move, 64)
}

/// The side to move has a king on the board.
pub open spec fn has_king(state: BoardState) -> bool {
    own_kings(state) != 0
}

/// The square of the king of the side to move (the lowest, were there
/// several).
pub open spec fn king_square_of(state: BoardState) -> int {
    u64_trailing_zeros(own_kings(state)) as int
}

/// The king of the side to move is attacked.
pub open spec fn in_check(state: BoardState) -> bool {
    attacked(state, king_square_of(state))
}

/// Some square holds a knight, bishop, rook or queen.
pub open spec fn has_non_pawn_piece(mailbox: Seq<Piece>) -> bool {
    exists|s: int| 0 <= s < 64 && 1 <= (#[trigger] mailbox[s]).type_of() <= 4
}

/// A move captures nothing (not even en passant) and does not promote to a
/// queen.
pub open spec fn quiet(state: BoardState, mv: Move) -> bool {
    state.mailbox[mv.end_sq()].0 == Piece::NONE && !mv.en_passant() && !(mv.promotion()
        && mv.promo_type() == PieceType::QUEEN)
}

impl Board {
    /// Returns all the attackers of `square`, with pawns as seen from
    /// `side_to_move` (see [`attackers`]).
    pub fn square_attackers(&self, lookup: &Lookup, side_to_move: Side, square: Square) -> (bb:
        Bitboard)
        requires
            self.wf(),
            lookup.wf(),
            side_to_move.0 < 2,
            square.valid(),
        ensures
            bb.0 == attackers(self@.mailbox, side_to_move.0 as int, square.0 as int),
    {
        let occupancies = self.occupancies();

        let pawn_attacks = lookup.pawn_attacks(side_to_move, square);
        let knight_attacks = lookup.knight_attacks(square);
        let diagonal_attacks = lookup.bishop_attacks(square, occupancies);
        let orthogonal_attacks = lookup.rook_attacks(square, occupancies);
        let king_attacks = lookup.king_attacks(square);

        let pawns = self.piece::<0>().0;
        let knights = self.piece::<1>().0;
        let bishops = self.piece::<2>().0;
        let rooks = self.piece::<3>().0;
        let queens = self.piece::<4>().0;
        let kings = self.piece::<5>().0;

        Bitboard(
            pawn_attacks.0 & pawns | knight_attacks.0 & knights | king_attacks.0 & kings
                | diagonal_attacks.0 & (bishops | queens) | orthogonal_attacks.0 & (rooks
                | queens),
        )
    }

    /// Tests if `square` is attacked by an enemy piece.
    pub fn is_square_attacked(&self, lookup: &Lookup, square: Square) -> (is_attacked: bool)
        requires
            self.wf(),
            lookup.wf(),
            self@.side_to_move < 2,
            square.valid(),
        ensures
            is_attacked == attacked(self@, square.0 as int),
    {
        let us = self.side_to_move();
        let them = us.flip();
        let them_bb = self.side_any(them);

        !Bitboard(self.square_attackers(lookup, us, square).0 & them_bb.0).is_empty()
    }

    /// Calculates the square the king of the side to move is on:
    /// [`Square::NONE`] if there is none.
    pub fn king_square(&self) -> (square: Square)
        requires
            self.wf(),
            self@.side_to_move < 2,
        ensures
            square.0 == king_square_of(self@),
            has_king(self@) <==> square.valid(),
    {
        let kings = self.piece::<5>().0 & self.side_any(self.side_to_move()).0;
        proof {
            axiom_u64_trailing_zeros(kings);
        }
        Square(kings.trailing_zeros() as u8)
    }

    /// Tests if the king of the side to move is in check.
    pub fn is_in_check(&self, lookup: &Lookup) -> (check: bool)
        requires
            self.wf(),
            lookup.wf(),
            self@.side_to_move < 2,
            has_king(self@),
        ensures
            check == in_check(self@),
    {
        self.is_square_attacked(lookup, self.king_square())
    }

    /// Checks if there are pieces on the board that aren't pawns (or kings).
    pub fn has_non_pawn_pieces(&self) -> (has: bool)
        requires
            self.wf(),
        ensures
            has == has_non_pawn_piece(self@.mailbox),
    {
        let pieces = self.piece::<1>().0 | self.piece::<2>().0 | self.piece::<3>().0
            | self.piece::<4>().0;
        proof {
            broadcast use group_sq_in;

            let mb = self@.mailbox;
            lemma_sq_in_empty(pieces);
            if has_non_pawn_piece(mb) {
                let s = choose|s: int| 0 <= s < 64 && 1 <= (#[trigger] mb[s]).type_of() <= 4;
                lemma_kind_bb(mb, mb[s].type_of(), 64, s);
                assert(sq_in(pieces, s));
            }
            if pieces != 0 {
                let s = choose|s: int| 0 <= s < 64 && sq_in(pieces, s);
                lemma_kind_bb(mb, 1, 64, s);
                lemma_kind_bb(mb, 2, 64, s);
                lemma_kind_bb(mb, 3, 64, s);
                lemma_kind_bb(mb, 4, 64, s);
                assert(1 <= mb[s].type_of() <= 4);
            }
        }
        pieces != 0
    }

    /// Checks if the given move is quiet.
    ///
    /// This means it's not capturing any piece (this includes en passant) and
    /// it's not a queen promotion.
    pub fn is_quiet(&self, mv: Move) -> (is_quiet: bool)
        requires
            self.wf(),
        ensures
            is_quiet == quiet(self@, mv),
    {
        self.piece_on(mv.end()).0 == Piece::NONE && !mv.is_en_passant() && !(mv.is_promotion()
            && mv.promotion_piece().0 == PieceType::QUEEN)
    }
}

} // verus!
