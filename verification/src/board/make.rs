//! Making moves on a [`Board`]: what a move does to the abstract state, when
//! it is legal, and the copy-make implementation.
use vstd::prelude::*;
use crate::bitops::lemma_u8_ops;

use crate::bitboard::{group_sq_in, lemma_sq_in_empty, sq_in};
use crate::board::attacks::{attacked, has_king, in_check, own_kings};
use crate::board::{kind_bb, lemma_kind_bb, mailbox_ok, Board, BoardState, CastlingRights};
use crate::defs::{Piece, PieceType, Side, Square};
use crate::lookups::Tables;
use crate::movegen::{lemma_move_ranges, Move};
use crate::util::{double_push, is_double_pawn_push};

verus! {

/// The castling right lost when a rook leaves or is captured on `square`:
/// a1 holds the `Q` rook, h1 the `K` rook, a8 the `q` rook and h8 the `k`
/// rook. Other squares hold none.
pub open spec fn corner_right(square: int) -> u8 {
    if square == Square::A1 {
        CastlingRights::Q
    } else if square == Square::H1 {
        CastlingRights::K
    } else if square == Square::A8 {
        CastlingRights::q
    } else if square == Square::H8 {
        CastlingRights::k
    } else {
        0
    }
}

/// `rights` without the right of the rook corner `square`, if it is one.
pub open spec fn without_corner(rights: u8, square: int) -> u8 {
    if corner_right(square) == 0 {
        rights
    } else {
        rights & !corner_right(square)
    }
}

/// Where the rook of a castling move starts.
pub open spec fn castling_rook_start(mv: Move) -> int {
    mv.end_sq() + mv.rook_offset_spec()
}

/// Where the rook of a castling move ends: between the king's start and end.
pub open spec fn castling_rook_end(mv: Move) -> int {
    (mv.start_sq() + mv.end_sq()) / 2
}

/// The square of the pawn taken by an en passant capture of `side`: behind
/// the end square.
pub open spec fn en_passant_victim(side: int, mv: Move) -> int {
    if side == Side::WHITE {
        mv.end_sq() - 8
    } else {
        mv.end_sq() + 8
    }
}

/// The squares once the moving piece has gone from the start to the end
/// square, replacing whatever stood there.
pub open spec fn mailbox_moved(state: BoardState, mv: Move) -> Seq<Piece> {
    state.mailbox.update(mv.start_sq(), Piece(Piece::NONE)).update(
        mv.end_sq(),
        state.mailbox[mv.start_sq()],
    )
}

/// A move the board can make: a piece of the side to move leaves the start
/// square and lands on an empty square or on an enemy piece, with a king of
/// the side to move on the board; a castling king finds its rook where the
/// move says and room for it, an en passant capture finds the enemy pawn
/// behind the end square, and only pawns promote.
pub open spec fn move_ok(state: BoardState, mv: Move) -> bool {
    let s = mv.start_sq();
    let e = mv.end_sq();
    let piece = state.mailbox[s];
    let captured = state.mailbox[e];
    let us = state.side_to_move as int;
    let moved = mailbox_moved(state, mv);
    &&& us < 2
    &&& has_king(state)
    &&& piece.valid() && piece.side_of() == us
    &&& captured.0 == Piece::NONE || (captured.valid() && captured.side_of() != us)
    &&& mv.castling() ==> {
        &&& piece.type_of() == PieceType::KING
        &&& 0 <= castling_rook_start(mv) < 64
        &&& moved[castling_rook_start(mv)].0 == PieceType::ROOK * 2 + us
        &&& moved[castling_rook_end(mv)].0 == Piece::NONE
    }
    &&& mv.en_passant() ==> {
        &&& piece.type_of() == PieceType::PAWN
        &&& 0 <= en_passant_victim(us, mv) < 64
        &&& state.mailbox[en_passant_victim(us, mv)].0 == 1 - us
    }
    &&& mv.promotion() ==> piece.type_of() == PieceType::PAWN
}

/// The squares after a move.
pub open spec fn mailbox_after(state: BoardState, mv: Move) -> Seq<Piece> {
    let s = mv.start_sq();
    let e = mv.end_sq();
    let us = state.side_to_move as int;
    let moved = mailbox_moved(state, mv);
    if mv.castling() {
        moved.update(castling_rook_start(mv), Piece(Piece::NONE)).update(
            castling_rook_end(mv),
            Piece((PieceType::ROOK * 2 + us) as u8),
        )
    } else if double_push(s, e, state.mailbox[s].type_of()) {
        moved
    } else if mv.en_passant() {
        moved.update(en_passant_victim(us, mv), Piece(Piece::NONE))
    } else if mv.promotion() {
        moved.update(e, Piece((mv.promo_type() * 2 + us) as u8))
    } else {
        moved
    }
}

/// The castling rights after a move: a rook captured on or leaving its
/// corner loses its right, and a moving king loses both of its side.
pub open spec fn rights_after(state: BoardState, mv: Move) -> u8 {
    let s = mv.start_sq();
    let e = mv.end_sq();
    let piece_type = state.mailbox[s].type_of();
    let rights = state.castling_rights;
    let after_capture = if state.mailbox[e].type_of() == PieceType::ROOK {
        without_corner(rights, e)
    } else {
        rights
    };
    let after_rook = if piece_type == PieceType::ROOK {
        without_corner(after_capture, s)
    } else {
        after_capture
    };
    if piece_type == PieceType::KING {
        after_rook & !(if state.side_to_move == Side::WHITE {
            CastlingRights::K | CastlingRights::Q
        } else {
            CastlingRights::k | CastlingRights::q
        })
    } else {
        after_rook
    }
}

/// The state an illegal move leaves on the board it was made on: the
/// pieces moved as far as the check that failed (for castling out of,
/// through or into check, the king alone), the counters counted, the en
/// passant square set as after the move and the right of a captured corner
/// rook lost, with the same side still to move.
pub open spec fn abandoned_move(state: BoardState, mv: Move) -> BoardState {
    let s = mv.start_sq();
    let e = mv.end_sq();
    let moved = BoardState { mailbox: mailbox_moved(state, mv), ..state };
    BoardState {
        mailbox: if mv.castling() && (attacked(moved, s) || attacked(moved, e) || attacked(
            moved,
            castling_rook_end(mv),
        )) {
            mailbox_moved(state, mv)
        } else {
            mailbox_after(state, mv)
        },
        side_to_move: state.side_to_move,
        castling_rights: if state.mailbox[e].type_of() == PieceType::ROOK {
            without_corner(state.castling_rights, e)
        } else {
            state.castling_rights
        },
        ep_square: after_move(state, mv).ep_square,
        halfmoves: after_move(state, mv).halfmoves,
        fullmoves: after_move(state, mv).fullmoves,
    }
}

/// A move is legal: a castling king does not leave, cross or land on an
/// attacked square, and the mover's king is not in check afterwards.
pub open spec fn legal_move(state: BoardState, mv: Move) -> bool {
    let moved = BoardState { mailbox: mailbox_moved(state, mv), ..state };
    let after = BoardState { mailbox: mailbox_after(state, mv), ..state };
    &&& mv.castling() ==> !attacked(moved, mv.start_sq()) && !attacked(moved, mv.end_sq())
        && !attacked(moved, castling_rook_end(mv))
    &&& !in_check(after)
}

/// The state after a legal move.
pub open spec fn after_move(state: BoardState, mv: Move) -> BoardState {
    let s = mv.start_sq();
    let e = mv.end_sq();
    let piece = state.mailbox[s];
    BoardState {
        mailbox: mailbox_after(state, mv),
        side_to_move: (1 - state.side_to_move) as u8,
        castling_rights: rights_after(state, mv),
        ep_square: if !mv.castling() && double_push(s, e, piece.type_of()) {
            ((s + e) / 2) as u8
        } else {
            Square::NONE
        },
        halfmoves: if piece.type_of() == PieceType::PAWN || state.mailbox[e].0 != Piece::NONE {
            0
        } else {
            vstd::wrapping::u8_specs::wrapping_add(state.halfmoves, 1)
        },
        fullmoves: if state.side_to_move == Side::BLACK {
            vstd::wrapping::u16_specs::wrapping_add(state.fullmoves, 1)
        } else {
            state.fullmoves
        },
    }
}

/// The side to move has a king exactly when some square holds one.
pub proof fn lemma_has_king(state: BoardState)
    requires
        mailbox_ok(state.mailbox),
        state.side_to_move < 2,
    ensures
        has_king(state) <==> exists|k: int|
            0 <= k < 64 && (#[trigger] state.mailbox[k]).0 == 10 + state.side_to_move,
{
    broadcast use group_sq_in;

    let mb = state.mailbox;
    let side = state.side_to_move as int;
    lemma_sq_in_empty(own_kings(state));
    if has_king(state) {
        let k = choose|k: int| 0 <= k < 64 && sq_in(own_kings(state), k);
        lemma_kind_bb(mb, 5, 64, k);
        lemma_kind_bb(mb, 6 + side, 64, k);
        assert(mb[k].0 == 10 + side);
    }
    if exists|k: int| 0 <= k < 64 && (#[trigger] mb[k]).0 == 10 + side {
        let k = choose|k: int| 0 <= k < 64 && (#[trigger] mb[k]).0 == 10 + side;
        lemma_kind_bb(mb, 5, 64, k);
        lemma_kind_bb(mb, 6 + side, 64, k);
        assert(sq_in(own_kings(state), k));
    }
}

/// A move the board can make keeps a king of the mover on the board.
pub proof fn lemma_king_kept(state: BoardState, mv: Move)
    requires
        mailbox_ok(state.mailbox),
        move_ok(state, mv),
        mailbox_ok(mailbox_after(state, mv)),
    ensures
        has_king(BoardState { mailbox: mailbox_after(state, mv), ..state }),
{
    let after = BoardState { mailbox: mailbox_after(state, mv), ..state };
    let side = state.side_to_move as int;
    lemma_move_ranges(mv);
    lemma_has_king(state);
    lemma_has_king(after);
    let k = choose|k: int| 0 <= k < 64 && (#[trigger] state.mailbox[k]).0 == 10 + side;
    if state.mailbox[mv.start_sq()].type_of() == PieceType::KING {
        assert(after.mailbox[mv.end_sq()].0 == 10 + side);
    } else {
        assert(after.mailbox[k].0 == 10 + side);
    }
}

/// Clearing flags keeps a set of flags within another.
proof fn lemma_clearing_keeps_within(x: u8, r: u8, a: u8)
    by (bit_vector)
    ensures
        r & !r == 0,
        x & !r == 0 ==> (x & !a) & !r == 0,
{
}

/// A move never gives castling rights: the rights after it are among
/// those before it. And it passes the turn to the other side.
pub proof fn lemma_rights_never_grow(state: BoardState, mv: Move)
    requires
        state.side_to_move < 2,
    ensures
        rights_after(state, mv) & !state.castling_rights == 0,
        after_move(state, mv).castling_rights & !state.castling_rights == 0,
        after_move(state, mv).side_to_move == 1 - state.side_to_move,
{
    let r = state.castling_rights;
    let s = mv.start_sq();
    let e = mv.end_sq();
    lemma_clearing_keeps_within(r, r, corner_right(e));
    let after_capture = if state.mailbox[e].type_of() == PieceType::ROOK {
        without_corner(r, e)
    } else {
        r
    };
    lemma_clearing_keeps_within(after_capture, r, corner_right(s));
    let after_rook = if state.mailbox[s].type_of() == PieceType::ROOK {
        without_corner(after_capture, s)
    } else {
        after_capture
    };
    lemma_clearing_keeps_within(after_rook, r, CastlingRights::K | CastlingRights::Q);
    lemma_clearing_keeps_within(after_rook, r, CastlingRights::k | CastlingRights::q);
}

impl Board {
    /// Removes the castling right of the rook corner `square`, if it is one.
    fn remove_corner_right(&mut self, square: Square, tables: &Tables)
        requires
            old(self).wf(),
            tables.wf(),
        ensures
            final(self).wf(),
            final(self)@ == (BoardState {
                castling_rights: without_corner(old(self)@.castling_rights, square.0 as int),
                ..old(self)@
            }),
    {
        match square.0 {
            0 => self.remove_castling_rights(CastlingRights(CastlingRights::Q), &tables.keys),
            7 => self.remove_castling_rights(CastlingRights(CastlingRights::K), &tables.keys),
            56 => self.remove_castling_rights(CastlingRights(CastlingRights::q), &tables.keys),
            63 => self.remove_castling_rights(CastlingRights(CastlingRights::k), &tables.keys),
            _ => (),
        }
    }

    /// What stands on `square` once the moving piece of `mv` has gone from
    /// its start to its end square.
    fn piece_moved_on(&self, mv: Move, square: Square) -> (piece: Piece)
        requires
            self.wf(),
            square.valid(),
        ensures
            piece == mailbox_moved(self@, mv)[square.0 as int],
    {
        let start = mv.start();
        let end = mv.end();
        if square.0 == end.0 {
            self.piece_on(start)
        } else if square.0 == start.0 {
            Piece(Piece::NONE)
        } else {
            self.piece_on(square)
        }
    }

    /// Checks that the board can make `mv` (see [`move_ok`]).
    pub fn can_make(&self, mv: Move) -> (ok: bool)
        requires
            self.wf(),
        ensures
            ok == move_ok(self@, mv),
    {
        proof {
            lemma_move_ranges(mv);
        }
        let us = self.side_to_move();
        if us.0 >= 2 {
            return false;
        }
        if self.king_square().0 >= 64 {
            return false;
        }
        let start = mv.start();
        let end = mv.end();
        let piece = self.piece_on(start);
        let captured = self.piece_on(end);
        if piece.0 >= 12 || piece.0 % 2 != us.0 {
            return false;
        }
        if captured.0 != Piece::NONE && (captured.0 >= 12 || captured.0 % 2 == us.0) {
            return false;
        }
        if mv.is_castling() {
            if piece.0 / 2 != PieceType::KING {
                return false;
            }
            let rook_start = end.0 as i16 + mv.rook_offset() as i16;
            if rook_start < 0 || rook_start >= 64 {
                return false;
            }
            if self.piece_moved_on(mv, Square(rook_start as u8)).0 != PieceType::ROOK * 2 + us.0 {
                return false;
            }
            let rook_end = Square((start.0 + end.0) / 2);
            if self.piece_moved_on(mv, rook_end).0 != Piece::NONE {
                return false;
            }
        }
        if mv.is_en_passant() {
            if piece.0 / 2 != PieceType::PAWN {
                return false;
            }
            if us.0 == Side::WHITE {
                if end.0 < 8 || self.piece_on(Square(end.0 - 8)).0 != 1 - us.0 {
                    return false;
                }
            } else {
                if end.0 >= 56 || self.piece_on(Square(end.0 + 8)).0 != 1 - us.0 {
                    return false;
                }
            }
        }
        if mv.is_promotion() && piece.0 / 2 != PieceType::PAWN {
            return false;
        }
        true
    }

    /// Makes the given move on the internal board. Returns `true` if the
    /// move is legal and `false` otherwise; the board is then left as
    /// [`abandoned_move`] says and is meant to be thrown away.
    #[verifier::rlimit(50)]
    pub fn make_move(&mut self, mv: Move, tables: &Tables) -> (legal: bool)
        requires
            old(self).wf(),
            tables.wf(),
            move_ok(old(self)@, mv),
        ensures
            final(self).wf(),
            legal == legal_move(old(self)@, mv),
            legal ==> final(self)@ == after_move(old(self)@, mv),
            !legal ==> final(self)@ == abandoned_move(old(self)@, mv),
    {
        let ghost st = self@;
        let keys = &tables.keys;
        let lookup = &tables.attacks;
        let start = mv.start();
        let end = mv.end();
        let is_promotion = mv.is_promotion();
        let is_castling = mv.is_castling();
        let is_en_passant = mv.is_en_passant();

        let piece = self.piece_on(start);
        let piece_type = piece.piece_type();
        let captured = self.piece_on(end);
        let captured_type = captured.piece_type();
        let us = piece.side();
        let them = us.flip();

        self.increment_halfmoves();
        if us.0 == Side::BLACK {
            self.increment_fullmoves();
        }
        if piece_type.0 == PieceType::PAWN || captured_type.0 != PieceType::NONE {
            self.reset_halfmoves();
        }
        self.clear_ep_square(keys);

        if captured_type.0 != PieceType::NONE {
            self.remove_piece(end, captured, captured_type, them, keys);
            // capturing a rook on its corner takes away its castling right
            if captured_type.0 == PieceType::ROOK {
                self.remove_corner_right(end, tables);
            }
        }
        self.move_piece(start, end, piece, piece_type, us, keys);
        assert(self@.mailbox =~= mailbox_moved(st, mv));

        let ghost moved_state = self@;
        if is_castling {
            // the king may not castle out of, into or through check
            if self.is_square_attacked(lookup, start) {
                return false;
            }
            if self.is_square_attacked(lookup, end) {
                return false;
            }
            let rook_start = Square((end.0 as i16 + mv.rook_offset() as i16) as u8);
            let sum = start.0 + end.0;
            proof {
                lemma_u8_ops(sum, 0);
            }
            let rook_end = Square(sum >> 1);
            if self.is_square_attacked(lookup, rook_end) {
                return false;
            }
            proof {
                let moved = BoardState { mailbox: mailbox_moved(st, mv), ..st };
                assert(!attacked(moved, mv.start_sq()));
                assert(!attacked(moved, mv.end_sq()));
                assert(!attacked(moved, castling_rook_end(mv)));
            }
            self.move_piece(
                rook_start,
                rook_end,
                Piece::from_piecetype(PieceType(PieceType::ROOK), us),
                PieceType(PieceType::ROOK),
                us,
                keys,
            );
        } else if is_double_pawn_push(start, end, piece_type) {
            let sum = start.0 + end.0;
            proof {
                lemma_u8_ops(sum, 0);
            }
            self.set_ep_square(Square(sum >> 1), keys);
        } else if is_en_passant {
            let victim = Square(
                if us.0 == Side::WHITE {
                    end.0 - 8
                } else {
                    end.0 + 8
                },
            );
            self.remove_piece(
                victim,
                Piece::from_piecetype(PieceType(PieceType::PAWN), them),
                PieceType(PieceType::PAWN),
                them,
                keys,
            );
        } else if is_promotion {
            let promotion_piece = Piece::from_piecetype(mv.promotion_piece(), us);
            self.replace_piece(end, piece, promotion_piece, keys);
        }
        assert(self@.mailbox =~= mailbox_after(st, mv));
        proof {
            lemma_king_kept(st, mv);
        }

        if self.is_in_check(lookup) {
            return false;
        }

        if piece_type.0 == PieceType::ROOK {
            self.remove_corner_right(start, tables);
        }
        if piece_type.0 == PieceType::KING {
            let removed = if us.0 == Side::WHITE {
                CastlingRights::K | CastlingRights::Q
            } else {
                CastlingRights::k | CastlingRights::q
            };
            self.remove_castling_rights(CastlingRights(removed), keys);
        }
        self.flip_side(keys);
        true
    }

    /// Makes a null move: flips the side to move, clears the en passant
    /// square and does nothing else.
    pub fn make_null_move(&mut self, tables: &Tables)
        requires
            old(self).wf(),
            tables.wf(),
            old(self)@.side_to_move < 2,
        ensures
            final(self).wf(),
            final(self)@ == (BoardState {
                ep_square: Square::NONE,
                side_to_move: (1 - old(self)@.side_to_move) as u8,
                ..old(self)@
            }),
    {
        self.clear_ep_square(&tables.keys);
        self.flip_side(&tables.keys);
    }
}

} // verus!
