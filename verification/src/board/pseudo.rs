//! Pseudo-legality of moves that come from elsewhere than the move
//! generator of the position: the transposition table and the killers.
use vstd::prelude::*;

use crate::bitboard::{
    castling_space, group_sq_in, lemma_sq_in_and, lemma_sq_in_empty, sq_in, Bitboard,
};
use crate::board::attacks::occupancy;
use crate::board::make::castling_rook_start;
use crate::board::{Board, BoardState, CastlingRights};
use crate::defs::{Direction, File, Piece, PieceType, Rank, Side, Square};
use crate::lookups::{
    between_bb, king_bb, knight_bb, pawn_bb, queen_attacks_spec, slider_attacks, Lookup,
};
use crate::movegen::{lemma_move_ranges, Move};

verus! {

/// The squares a piece of type `piece_type` and side `side` on `s` attacks,
/// with the given occupancies for sliders.
pub open spec fn piece_attacks(piece_type: int, side: int, s: int, occupancies: u64) -> u64 {
    if piece_type == PieceType::PAWN {
        pawn_bb(side, s)
    } else if piece_type == PieceType::BISHOP {
        slider_attacks(true, s, occupancies)
    } else if piece_type == PieceType::KNIGHT {
        knight_bb(s)
    } else if piece_type == PieceType::ROOK {
        slider_attacks(false, s, occupancies)
    } else if piece_type == PieceType::QUEEN {
        queen_attacks_spec(s, occupancies)
    } else {
        king_bb(s)
    }
}

/// The square one step from `s` in direction `dir`, wrapping as a byte.
pub open spec fn step_from(s: int, dir: int) -> int {
    vstd::wrapping::u8_specs::wrapping_add_signed(s as u8, dir as i8) as int
}

/// A move is pseudo-legal on a position: a piece of the side to move
/// leaves the start square without landing on a piece of its own; only
/// pawns capture en passant and promote; a castling king has the right and
/// room to castle; a pawn reaching the last rank promotes, captures en
/// passant only onto the en passant square, double pushes only from its
/// second rank over an empty square onto an empty one, and pushes only
/// onto an empty square; any other move goes to a square the piece
/// attacks.
pub open spec fn pseudolegal(state: BoardState, mv: Move) -> bool {
    let s = mv.start_sq();
    let e = mv.end_sq();
    let piece = state.mailbox[s];
    let piece_type = piece.type_of();
    let side = piece.side_of();
    let captured = state.mailbox[e];
    let occ = occupancy(state.mailbox);
    let is_white = side == Side::WHITE;
    if piece.0 == Piece::NONE || side != state.side_to_move {
        false
    } else if captured.0 != Piece::NONE && captured.side_of() == state.side_to_move {
        false
    } else if piece_type != PieceType::PAWN && (mv.en_passant() || mv.promotion()) {
        false
    } else if mv.castling() {
        let is_kingside = e % 8 >= File::FILE5;
        piece_type == PieceType::KING && state.castling_rights & CastlingRights::right(
            is_white,
            is_kingside,
        ) != 0 && occ & castling_space(is_white, is_kingside) == 0
    } else if piece_type == PieceType::PAWN && (e / 8 == Rank::RANK8 || e / 8 == Rank::RANK1)
        && !mv.promotion() {
        false
    } else if piece_type == PieceType::PAWN && mv.en_passant() {
        state.ep_square == e
    } else if piece_type == PieceType::PAWN && step_from(
        step_from(s, if is_white { Direction::N } else { Direction::S } as int),
        if is_white { Direction::N } else { Direction::S } as int,
    ) == e {
        (s / 8 == Rank::RANK2 || s / 8 == Rank::RANK7) && captured.0 == Piece::NONE
            && state.mailbox[(s + e) / 2].0 == Piece::NONE
    } else if piece_type == PieceType::PAWN && captured.0 == Piece::NONE {
        step_from(s, if is_white { Direction::N } else { Direction::S } as int) == e
    } else {
        sq_in(piece_attacks(piece_type, side, s, occ), e)
    }
}

/// A killer move, legal in a sibling position, is pseudo-legal here by the
/// checks that can change between siblings: the piece is still there, it
/// does not capture its own side or a king, nothing blocks its path, a pawn
/// pushes onto an empty square or captures onto a full one (and never en
/// passant), and a castling king still has room and its rook.
pub open spec fn pseudolegal_killer(state: BoardState, mv: Move) -> bool {
    let s = mv.start_sq();
    let e = mv.end_sq();
    let piece = state.mailbox[s];
    let side = piece.side_of();
    let captured = state.mailbox[e];
    let occ = occupancy(state.mailbox);
    let is_white = side == Side::WHITE;
    let diff = if s >= e { s - e } else { e - s };
    let is_push = diff == 8 || diff == 16;
    let is_kingside = e % 8 >= File::FILE5;
    &&& piece.0 != Piece::NONE && side == state.side_to_move
    &&& !(captured.0 != Piece::NONE && captured.side_of() == state.side_to_move)
    &&& between_bb(s, e) & occ == 0
    &&& captured.type_of() != PieceType::KING
    &&& piece.type_of() == PieceType::PAWN ==> !mv.en_passant() && (is_push == (captured.0
        == Piece::NONE))
    &&& mv.castling() ==> occ & castling_space(is_white, is_kingside) == 0
        && state.mailbox[castling_rook_start(mv)].0 == PieceType::ROOK * 2 + side
}

impl Board {
    /// The attacks of a piece of the given type and side on `square`.
    fn attacks_of(
        &self,
        lookup: &Lookup,
        piece_type: PieceType,
        side: Side,
        square: Square,
        occupancies: Bitboard,
    ) -> (attacks: Bitboard)
        requires
            lookup.wf(),
            piece_type.0 < 6,
            side.0 < 2,
            square.valid(),
        ensures
            attacks.0 == piece_attacks(
                piece_type.0 as int,
                side.0 as int,
                square.0 as int,
                occupancies.0,
            ),
    {
        if piece_type.0 == PieceType::PAWN {
            lookup.pawn_attacks(side, square)
        } else if piece_type.0 == PieceType::BISHOP {
            lookup.bishop_attacks(square, occupancies)
        } else if piece_type.0 == PieceType::KNIGHT {
            lookup.knight_attacks(square)
        } else if piece_type.0 == PieceType::ROOK {
            lookup.rook_attacks(square, occupancies)
        } else if piece_type.0 == PieceType::QUEEN {
            lookup.queen_attacks(square, occupancies)
        } else {
            lookup.king_attacks(square)
        }
    }

    /// Checks if `mv` is a pseudo-legal move on `self` (see
    /// [`pseudolegal`]).
    pub fn is_pseudolegal(&self, lookup: &Lookup, mv: Move) -> (is_pseudolegal: bool)
        requires
            self.wf(),
            lookup.wf(),
        ensures
            is_pseudolegal == pseudolegal(self@, mv),
    {
        broadcast use group_sq_in;

        proof {
            lemma_move_ranges(mv);
        }
        let start = mv.start();
        let end = mv.end();
        let is_promotion = mv.is_promotion();
        let is_castling = mv.is_castling();
        let is_en_passant = mv.is_en_passant();

        let piece = self.piece_on(start);
        let piece_type = piece.piece_type();
        let piece_side = piece.side();
        let captured = self.piece_on(end);
        let captured_side = captured.side();
        let occupancies = self.occupancies();
        let us = self.side_to_move();
        assert(occupancies.0 == occupancy(self@.mailbox));

        // the piece exists and belongs to the side to move
        if piece.0 == Piece::NONE || piece_side.0 != us.0 {
            return false;
        }
        // we aren't capturing a friendly piece
        if captured.0 != Piece::NONE && captured_side.0 == us.0 {
            return false;
        }
        // we aren't moving a non-pawn as a pawn
        if piece_type.0 != PieceType::PAWN && (is_en_passant || is_promotion) {
            return false;
        }

        let is_white = piece_side.0 == Side::WHITE;
        if is_castling {
            let is_kingside = end.file().0 >= File::FILE5;
            // we're castling with the king
            if piece_type.0 != PieceType::KING {
                return false;
            }
            // we're allowed to castle
            if !self.castling_rights().can_castle_any(is_white, is_kingside) {
                return false;
            }
            // there is space to castle; castling out of, through or into
            // check is left to `make_move()`
            return Bitboard::is_clear_to_castle(occupancies, is_white, is_kingside);
        }

        if piece_type.0 == PieceType::PAWN {
            let end_rank = end.rank().0;
            // if the pawn is reaching the last rank, it's promoting
            if (end_rank == Rank::RANK8 || end_rank == Rank::RANK1) && !is_promotion {
                return false;
            }
            // the en passant square is the end square
            if is_en_passant {
                return self.ep_square().0 == end.0;
            }
            let forward = if is_white {
                Direction(Direction::N)
            } else {
                Direction(Direction::S)
            };
            let push = start.add(forward);
            let double_push = push.add(forward);
            if double_push.0 == end.0 {
                let start_rank = start.rank().0;
                // we're starting on the second rank
                if !(start_rank == Rank::RANK2 || start_rank == Rank::RANK7) {
                    return false;
                }
                // the double push isn't blocked
                if captured.0 != Piece::NONE {
                    return false;
                }
                // there's nothing between the start and end
                let between = Square((start.0 + end.0) / 2);
                return self.piece_on(between).0 == Piece::NONE;
            }
            if captured.0 == Piece::NONE {
                // a push onto an empty square, not a capture
                return push.0 == end.0;
            }
        }

        let attacks = self.attacks_of(lookup, piece_type, piece_side, start, occupancies);
        let end_bb = Bitboard::from_square(end);
        proof {
            lemma_sq_in_empty(end_bb.0 & attacks.0);
            assert(sq_in(end_bb.0, end.0 as int));
            assert forall|i: int| sq_in(end_bb.0, i) implies i == end.0 by {
                assert(end_bb.holds(i));
            }
            lemma_sq_in_and(end_bb.0, attacks.0, end.0 as int);
            if end_bb.0 & attacks.0 != 0 {
                let i = choose|i: int| 0 <= i < 64 && sq_in(end_bb.0 & attacks.0, i);
                lemma_sq_in_and(end_bb.0, attacks.0, i);
            }
        }
        !Bitboard(end_bb.0 & attacks.0).is_empty()
    }
}

impl Board {
    /// Checks if `mv`, a pawn move, is a pseudo-legal killer pawn move: not
    /// en passant, and a push onto an empty square or a capture onto a full
    /// one.
    fn is_pseudolegal_pawn_killer(&self, mv: Move) -> (is_pseudolegal: bool)
        requires
            self.wf(),
        ensures
            is_pseudolegal == (!mv.en_passant() && ({
                let s = mv.start_sq();
                let e = mv.end_sq();
                let diff = if s >= e { s - e } else { e - s };
                (diff == 8 || diff == 16) == (self@.mailbox[e].0 == Piece::NONE)
            })),
    {
        // if the best response to the first move was en passant, that same
        // en passant can't be legal after any other move
        if mv.is_en_passant() {
            return false;
        }
        let start = mv.start();
        let end = mv.end();
        let diff = if start.0 >= end.0 {
            start.0 - end.0
        } else {
            end.0 - start.0
        };
        let is_push = diff == 8 || diff == 16;
        let is_piece_on_end = self.piece_on(end).0 != Piece::NONE;
        // a push must not be blocked and a capture must capture something
        is_push && !is_piece_on_end || !is_push && is_piece_on_end
    }

    /// Checks if `mv` is a pseudo-legal killer (see [`pseudolegal_killer`]),
    /// given that it was legal in the previous search at the same depth.
    pub fn is_pseudolegal_killer(&self, lookup: &Lookup, mv: Move) -> (is_pseudolegal: bool)
        requires
            self.wf(),
            lookup.wf(),
            mv.castling() ==> 0 <= castling_rook_start(mv) < 64,
        ensures
            is_pseudolegal == pseudolegal_killer(self@, mv),
    {
        proof {
            lemma_move_ranges(mv);
        }
        let start = mv.start();
        let end = mv.end();

        let piece = self.piece_on(start);
        let piece_type = piece.piece_type();
        let piece_side = piece.side();
        let captured = self.piece_on(end);
        let captured_type = captured.piece_type();
        let captured_side = captured.side();
        let occupancies = self.occupancies();
        assert(occupancies.0 == occupancy(self@.mailbox));
        let us = self.side_to_move();

        // the piece still exists (en passant can delete it)
        if piece.0 == Piece::NONE || piece_side.0 != us.0 {
            return false;
        }
        // we aren't capturing a friendly piece
        if captured.0 != Piece::NONE && captured_side.0 == us.0 {
            return false;
        }
        // we weren't blocked
        if lookup.ray_between(start, end).0 & occupancies.0 != 0 {
            return false;
        }
        // we aren't capturing a king
        if captured_type.0 == PieceType::KING {
            return false;
        }
        // pawns need some additional checks
        if piece_type.0 == PieceType::PAWN && !self.is_pseudolegal_pawn_killer(mv) {
            return false;
        }
        if mv.is_castling() {
            let rook_start = Square(end.0.wrapping_add_signed(mv.rook_offset()));
            let is_kingside = end.file().0 >= File::FILE5;
            let is_white = piece_side.0 == Side::WHITE;
            // we have space to castle
            if !Bitboard::is_clear_to_castle(occupancies, is_white, is_kingside) {
                return false;
            }
            // the rook hasn't been captured
            let rook = Piece::from_piecetype(PieceType(PieceType::ROOK), piece_side);
            if self.piece_on(rook_start).0 != rook.0 {
                return false;
            }
        }
        true
    }
}

} // verus!
