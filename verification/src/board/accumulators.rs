//! Accumulated, incrementally-updated fields of the board: the zobrist keys,
//! the phase and the score.
use vstd::prelude::*;
use crate::bitops::lemma_u64_ops;

use super::{key_part, Board, CastlingRights, Key};
use crate::defs::{Piece, PieceType, Square};
use crate::evaluation::values::psqt;
use crate::evaluation::{piece_phase, piece_score, Evaluation, Phase, Score};

verus! {

/// The seed of the pseudo-random zobrist keys.
pub const ZOBRIST_SEED: u64 = 0xc815_1848_573b_e077;

/// One step of the Xorshift64 pseudo-random number generator.
pub open spec fn xorshift(x: u64) -> u64 {
    let a = x ^ (x << 13u64);
    let b = a ^ (a >> 7u64);
    b ^ (b << 17u64)
}

/// The k-th number of the Xorshift64 sequence from [`ZOBRIST_SEED`].
pub open spec fn rng(k: nat) -> u64
    decreases k,
{
    if k == 0 {
        ZOBRIST_SEED
    } else {
        xorshift(rng((k - 1) as nat))
    }
}

/// The zobrist key of `piece` on square `s`: the keys are drawn square by
/// square, piece by piece. [`Piece::NONE`] has key 0.
pub open spec fn zobrist_piece_key(s: int, piece: int) -> u64 {
    if 0 <= s < 64 && 0 <= piece < 12 {
        rng((s * 12 + piece + 1) as nat)
    } else {
        0
    }
}

/// The key of Black to move: the key of a Black pawn on a1, which no board
/// can hold.
pub open spec fn zobrist_side_key() -> u64 {
    zobrist_piece_key(0, 0)
}

/// The key of the castling rights: one drawn key per right (`q`, `k`, `Q`,
/// `K`, in that order, after the piece keys), combined with xor.
pub open spec fn zobrist_castling_key(rights: int) -> u64 {
    (if rights % 2 == 1 { rng(769) } else { 0 }) ^ (if (rights / 2) % 2 == 1 {
        rng(770)
    } else {
        0
    }) ^ (if (rights / 4) % 2 == 1 { rng(771) } else { 0 }) ^ (if (rights / 8) % 2 == 1 {
        rng(772)
    } else {
        0
    })
}

/// The key of an en passant square: drawn for the third rank, then the
/// sixth; every other square has key 0.
pub open spec fn zobrist_ep_key(s: int) -> u64 {
    if 16 <= s < 24 {
        rng((773 + s - 16) as nat)
    } else if 40 <= s < 48 {
        rng((781 + s - 40) as nat)
    } else {
        0
    }
}

/// A container for the zobrist keys.
pub struct ZobristKeys {
    /// The keys for each piece on each square: `piece_and_side[piece * 64 +
    /// square]`, plus a 13th table of zeroes for no piece.
    piece_and_side: Vec<u64>,
    /// The castling rights keys. One for each combination for fast lookup.
    castling_rights: Vec<u64>,
    /// The en passant keys. 65 for fast lookup.
    ep: Vec<u64>,
}

impl ZobristKeys {
    /// The tables hold the keys of the specification.
    pub closed spec fn wf(&self) -> bool {
        &&& self.piece_and_side@.len() == 13 * 64
        &&& self.castling_rights@.len() == 16
        &&& self.ep@.len() == 65
        &&& forall|p: int, s: int|
            0 <= p < 13 && 0 <= s < 64 ==> #[trigger] self.piece_and_side@[p * 64 + s]
                == zobrist_piece_key(s, p)
        &&& forall|r: int| 0 <= r < 16 ==> #[trigger] self.castling_rights@[r]
            == zobrist_castling_key(r)
        &&& forall|s: int| 0 <= s < 65 ==> #[trigger] self.ep@[s] == zobrist_ep_key(s)
    }

    /// Generates the pseudo-random zobrist keys.
    pub fn new() -> (keys: Self)
        ensures
            keys.wf(),
    {
        // the keys in the order they are drawn
        let mut drawn: Vec<u64> = Vec::new();
        let mut seed = ZOBRIST_SEED;
        let mut k: u64 = 0;
        drawn.push(seed);
        while k < 788
            invariant
                k <= 788,
                drawn@.len() == k + 1,
                seed == rng(k as nat),
                forall|i: int| 0 <= i <= k ==> #[trigger] drawn@[i] == rng(i as nat),
            decreases 788 - k,
        {
            seed = seed ^ (seed << 13u64);
            seed = seed ^ (seed >> 7u64);
            seed = seed ^ (seed << 17u64);
            k = k + 1;
            drawn.push(seed);
        }

        let mut piece_and_side: Vec<u64> = Vec::new();
        let mut p: usize = 0;
        while p < 13
            invariant
                drawn@.len() == 789,
                forall|i: int| 0 <= i < 789 ==> #[trigger] drawn@[i] == rng(i as nat),
                p <= 13,
                piece_and_side@.len() == p * 64,
                forall|q: int, s: int|
                    0 <= q < p && 0 <= s < 64 ==> #[trigger] piece_and_side@[q * 64 + s]
                        == zobrist_piece_key(s, q),
            decreases 13 - p,
        {
            let mut s: usize = 0;
            while s < 64
                invariant
                    drawn@.len() == 789,
                    forall|i: int| 0 <= i < 789 ==> #[trigger] drawn@[i] == rng(i as nat),
                    p < 13,
                    s <= 64,
                    piece_and_side@.len() == p * 64 + s,
                    forall|q: int, t: int|
                        0 <= q < p && 0 <= t < 64 ==> #[trigger] piece_and_side@[q * 64 + t]
                            == zobrist_piece_key(t, q),
                    forall|t: int|
                        0 <= t < s ==> #[trigger] piece_and_side@[p * 64 + t]
                            == zobrist_piece_key(t, p as int),
                decreases 64 - s,
            {
                if p < 12 {
                    piece_and_side.push(drawn[s * 12 + p + 1]);
                } else {
                    piece_and_side.push(0);
                }
                proof {
                    assert forall|q: int, t: int|
                        0 <= q < p && 0 <= t < 64 implies #[trigger] piece_and_side@[q * 64 + t]
                        == zobrist_piece_key(t, q) by {
                        assert(q * 64 + t < p * 64) by (nonlinear_arith)
                            requires
                                q < p,
                                t < 64,
                        ;
                    }
                }
                s = s + 1;
            }
            p = p + 1;
        }

        let mut castling_rights: Vec<u64> = Vec::new();
        let mut r: u64 = 0;
        while r < 16
            invariant
                drawn@.len() == 789,
                forall|i: int| 0 <= i < 789 ==> #[trigger] drawn@[i] == rng(i as nat),
                r <= 16,
                castling_rights@.len() == r,
                forall|i: int| 0 <= i < r ==> #[trigger] castling_rights@[i]
                    == zobrist_castling_key(i),
            decreases 16 - r,
        {
            let q_key = if r % 2 == 1 {
                drawn[769]
            } else {
                0
            };
            let k_key = if (r / 2) % 2 == 1 {
                drawn[770]
            } else {
                0
            };
            let big_q_key = if (r / 4) % 2 == 1 {
                drawn[771]
            } else {
                0
            };
            let big_k_key = if (r / 8) % 2 == 1 {
                drawn[772]
            } else {
                0
            };
            castling_rights.push(q_key ^ k_key ^ big_q_key ^ big_k_key);
            r = r + 1;
        }

        let mut ep: Vec<u64> = Vec::new();
        let mut s: usize = 0;
        while s < 65
            invariant
                drawn@.len() == 789,
                forall|i: int| 0 <= i < 789 ==> #[trigger] drawn@[i] == rng(i as nat),
                s <= 65,
                ep@.len() == s,
                forall|i: int| 0 <= i < s ==> #[trigger] ep@[i] == zobrist_ep_key(i),
            decreases 65 - s,
        {
            if 16 <= s && s < 24 {
                ep.push(drawn[773 + s - 16]);
            } else if 40 <= s && s < 48 {
                ep.push(drawn[781 + s - 40]);
            } else {
                ep.push(0);
            }
            s = s + 1;
        }
        Self { piece_and_side, castling_rights, ep }
    }

    /// Calculates the key of the given piece on the given square.
    pub fn piece_key(&self, square: Square, piece: Piece) -> (key: Key)
        requires
            self.wf(),
            square.valid(),
            piece.0 <= 12,
        ensures
            key == zobrist_piece_key(square.0 as int, piece.0 as int),
    {
        self.piece_and_side[piece.0 as usize * 64 + square.0 as usize]
    }

    /// Calculates the side to move key.
    pub fn side_key(&self) -> (key: Key)
        requires
            self.wf(),
        ensures
            key == zobrist_side_key(),
    {
        assert(self.piece_and_side@[0int * 64 + 0int] == zobrist_piece_key(0, 0));
        self.piece_and_side[0]
    }

    /// Calculates the key of the given castling rights.
    pub fn castling_rights_key(&self, rights: CastlingRights) -> (key: Key)
        requires
            self.wf(),
            rights.0 < 16,
        ensures
            key == zobrist_castling_key(rights.0 as int),
    {
        self.castling_rights[rights.0 as usize]
    }

    /// Calculates the key of the given en passant square (0 for a square
    /// that can't be one, or [`Square::NONE`]).
    pub fn ep_square_key(&self, square: Square) -> (key: Key)
        requires
            self.wf(),
            square.0 <= 64,
        ensures
            key == zobrist_ep_key(square.0 as int),
    {
        self.ep[square.0 as usize]
    }
}


impl Board {
    /// Returns the accumulated phase of the board.
    pub fn phase(&self) -> (phase: Phase)
        ensures
            phase.0 == self.spec_phase(),
    {
        self.phase
    }

    /// Returns the accumulated score of the board.
    pub fn score(&self) -> (score: Score)
        ensures
            score.0.0 == self.spec_score_mg(),
            score.1.0 == self.spec_score_eg(),
    {
        self.score
    }

    /// Gets the zobrist key.
    pub fn key(&self) -> (key: Key)
        ensures
            key == self.spec_key(),
    {
        self.key
    }

    /// Gets the zobrist key for the pawns only.
    pub fn pawn_key(&self) -> (key: Key)
        ensures
            key == self.spec_pawn_key(),
    {
        self.pawn_key
    }
}


/// The score accumulators are far from overflowing.
pub open spec fn score_in_bounds(board: &Board) -> bool {
    -700_000 <= board.spec_score_mg() <= 700_000 && -700_000 <= board.spec_score_eg() <= 700_000
}

impl Board {
    /// Moves the accumulated `piece` from `start` to `end`.
    pub fn move_accumulated_piece(
        &mut self,
        start: Square,
        end: Square,
        piece: Piece,
        keys: &ZobristKeys,
    )
        requires
            keys.wf(),
            start.valid(),
            end.valid(),
            piece.0 <= 12,
            score_in_bounds(old(self)),
        ensures
            final(self).same_position(old(self)),
            final(self).spec_phase() == old(self).spec_phase(),
            final(self).spec_score_mg() == old(self).spec_score_mg() - psqt(
                piece.0 as int,
                start.0 as int,
                false,
            ) + psqt(piece.0 as int, end.0 as int, false),
            final(self).spec_score_eg() == old(self).spec_score_eg() - psqt(
                piece.0 as int,
                start.0 as int,
                true,
            ) + psqt(piece.0 as int, end.0 as int, true),
            final(self).spec_key() == (old(self).spec_key() ^ key_part(
                start.0 as int,
                piece,
                false,
            )) ^ key_part(end.0 as int, piece, false),
            final(self).spec_pawn_key() == (old(self).spec_pawn_key() ^ key_part(
                start.0 as int,
                piece,
                true,
            )) ^ key_part(end.0 as int, piece, true),
    {
        self.move_piece_score(start, end, piece);
        self.move_piece_key(start, end, piece, keys);
    }

    /// Adds `piece` on `square` to the accumulators.
    pub fn add_accumulated_piece(&mut self, square: Square, piece: Piece, keys: &ZobristKeys)
        requires
            keys.wf(),
            square.valid(),
            piece.0 <= 12,
            score_in_bounds(old(self)),
        ensures
            final(self).same_position(old(self)),
            final(self).spec_phase() == (old(self).spec_phase() + phase_weight_of(piece)) % 256,
            final(self).spec_score_mg() == old(self).spec_score_mg() + psqt(
                piece.0 as int,
                square.0 as int,
                false,
            ),
            final(self).spec_score_eg() == old(self).spec_score_eg() + psqt(
                piece.0 as int,
                square.0 as int,
                true,
            ),
            final(self).spec_key() == old(self).spec_key() ^ key_part(
                square.0 as int,
                piece,
                false,
            ),
            final(self).spec_pawn_key() == old(self).spec_pawn_key() ^ key_part(
                square.0 as int,
                piece,
                true,
            ),
    {
        self.add_piece_phase(piece);
        self.add_piece_score(square, piece);
        self.toggle_piece_key(square, piece, keys);
    }

    /// Removes `piece` on `square` from the accumulators.
    pub fn remove_accumulated_piece(&mut self, square: Square, piece: Piece, keys: &ZobristKeys)
        requires
            keys.wf(),
            square.valid(),
            piece.0 <= 12,
            score_in_bounds(old(self)),
        ensures
            final(self).same_position(old(self)),
            final(self).spec_phase() == (old(self).spec_phase() - phase_weight_of(piece)) % 256,
            final(self).spec_score_mg() == old(self).spec_score_mg() - psqt(
                piece.0 as int,
                square.0 as int,
                false,
            ),
            final(self).spec_score_eg() == old(self).spec_score_eg() - psqt(
                piece.0 as int,
                square.0 as int,
                true,
            ),
            final(self).spec_key() == old(self).spec_key() ^ key_part(
                square.0 as int,
                piece,
                false,
            ),
            final(self).spec_pawn_key() == old(self).spec_pawn_key() ^ key_part(
                square.0 as int,
                piece,
                true,
            ),
    {
        self.remove_piece_phase(piece);
        self.remove_piece_score(square, piece);
        self.toggle_piece_key(square, piece, keys);
    }

    /// Adds the value of `piece` to the phase accumulator, wrapping around
    /// the `u8` range.
    fn add_piece_phase(&mut self, piece: Piece)
        requires
            piece.0 <= 12,
        ensures
            final(self).phase.0 == (old(self).phase.0 + phase_weight_of(piece)) % 256,
            final(self).same_position(old(self)),
            final(self).score == old(self).score,
            final(self).key == old(self).key,
            final(self).pawn_key == old(self).pawn_key,
    {
        self.phase = Phase(self.phase.0.wrapping_add(piece_phase(piece).0));
    }

    /// Removes the value of `piece` from the phase accumulator, wrapping
    /// around the `u8` range.
    fn remove_piece_phase(&mut self, piece: Piece)
        requires
            piece.0 <= 12,
        ensures
            final(self).phase.0 == (old(self).phase.0 - phase_weight_of(piece)) % 256,
            final(self).same_position(old(self)),
            final(self).score == old(self).score,
            final(self).key == old(self).key,
            final(self).pawn_key == old(self).pawn_key,
    {
        self.phase = Phase(self.phase.0.wrapping_sub(piece_phase(piece).0));
    }

    /// Moves the value of `piece` from `start` to `end` in the score
    /// accumulator.
    fn move_piece_score(&mut self, start: Square, end: Square, piece: Piece)
        requires
            start.valid(),
            end.valid(),
            piece.0 <= 12,
            score_in_bounds(old(self)),
        ensures
            final(self).score.0.0 == old(self).score.0.0 - psqt(
                piece.0 as int,
                start.0 as int,
                false,
            ) + psqt(piece.0 as int, end.0 as int, false),
            final(self).score.1.0 == old(self).score.1.0 - psqt(
                piece.0 as int,
                start.0 as int,
                true,
            ) + psqt(piece.0 as int, end.0 as int, true),
            final(self).same_position(old(self)),
            final(self).phase == old(self).phase,
            final(self).key == old(self).key,
            final(self).pawn_key == old(self).pawn_key,
    {
        proof {
            crate::evaluation::values::lemma_psqt_bound(piece.0 as int, start.0 as int, false);
            crate::evaluation::values::lemma_psqt_bound(piece.0 as int, start.0 as int, true);
        }
        self.remove_piece_score(start, piece);
        self.add_piece_score(end, piece);
    }

    /// Adds the value of `piece` on `square` to the score accumulator.
    fn add_piece_score(&mut self, square: Square, piece: Piece)
        requires
            square.valid(),
            piece.0 <= 12,
            -711_000 <= old(self).score.0.0 <= 711_000,
            -711_000 <= old(self).score.1.0 <= 711_000,
        ensures
            final(self).score.0.0 == old(self).score.0.0 + psqt(
                piece.0 as int,
                square.0 as int,
                false,
            ),
            final(self).score.1.0 == old(self).score.1.0 + psqt(
                piece.0 as int,
                square.0 as int,
                true,
            ),
            final(self).same_position(old(self)),
            final(self).phase == old(self).phase,
            final(self).key == old(self).key,
            final(self).pawn_key == old(self).pawn_key,
    {
        let value = piece_score(square, piece);
        proof {
            crate::evaluation::values::lemma_psqt_bound(piece.0 as int, square.0 as int, false);
            crate::evaluation::values::lemma_psqt_bound(piece.0 as int, square.0 as int, true);
        }
        self.score = Score(
            Evaluation(self.score.0.0 + value.0.0),
            Evaluation(self.score.1.0 + value.1.0),
        );
    }

    /// Removes the value of `piece` on `square` from the score accumulator.
    fn remove_piece_score(&mut self, square: Square, piece: Piece)
        requires
            square.valid(),
            piece.0 <= 12,
            -711_000 <= old(self).score.0.0 <= 711_000,
            -711_000 <= old(self).score.1.0 <= 711_000,
        ensures
            final(self).score.0.0 == old(self).score.0.0 - psqt(
                piece.0 as int,
                square.0 as int,
                false,
            ),
            final(self).score.1.0 == old(self).score.1.0 - psqt(
                piece.0 as int,
                square.0 as int,
                true,
            ),
            final(self).same_position(old(self)),
            final(self).phase == old(self).phase,
            final(self).key == old(self).key,
            final(self).pawn_key == old(self).pawn_key,
    {
        let value = piece_score(square, piece);
        proof {
            crate::evaluation::values::lemma_psqt_bound(piece.0 as int, square.0 as int, false);
            crate::evaluation::values::lemma_psqt_bound(piece.0 as int, square.0 as int, true);
        }
        self.score = Score(
            Evaluation(self.score.0.0 - value.0.0),
            Evaluation(self.score.1.0 - value.1.0),
        );
    }

    /// Removes the zobrist key of `piece` on `start` and adds it to `end`.
    fn move_piece_key(&mut self, start: Square, end: Square, piece: Piece, keys: &ZobristKeys)
        requires
            keys.wf(),
            start.valid(),
            end.valid(),
            piece.0 <= 12,
        ensures
            final(self).key == (old(self).key ^ key_part(start.0 as int, piece, false)) ^ key_part(
                end.0 as int,
                piece,
                false,
            ),
            final(self).pawn_key == (old(self).pawn_key ^ key_part(start.0 as int, piece, true))
                ^ key_part(end.0 as int, piece, true),
            final(self).same_position(old(self)),
            final(self).phase == old(self).phase,
            final(self).score == old(self).score,
    {
        self.toggle_piece_key(start, piece, keys);
        self.toggle_piece_key(end, piece, keys);
    }

    /// Toggles the zobrist key of the given piece on the given square.
    ///
    /// `piece` can be [`Piece::NONE`] but `square` has to be a valid square.
    fn toggle_piece_key(&mut self, square: Square, piece: Piece, keys: &ZobristKeys)
        requires
            keys.wf(),
            square.valid(),
            piece.0 <= 12,
        ensures
            final(self).key == old(self).key ^ key_part(square.0 as int, piece, false),
            final(self).pawn_key == old(self).pawn_key ^ key_part(square.0 as int, piece, true),
            final(self).same_position(old(self)),
            final(self).phase == old(self).phase,
            final(self).score == old(self).score,
    {
        let key = keys.piece_key(square, piece);
        self.key = self.key ^ key;
        if piece.piece_type().0 == PieceType::PAWN {
            self.pawn_key = self.pawn_key ^ key;
        } else {
            let k = self.pawn_key;
            proof {
                lemma_u64_ops(k, 0, 0);
            }
        }
    }

    /// Toggles the side to move zobrist key.
    pub fn toggle_side_key(&mut self, keys: &ZobristKeys)
        requires
            keys.wf(),
        ensures
            final(self).spec_key() == old(self).spec_key() ^ zobrist_side_key(),
            final(self).same_position(old(self)),
            final(self).spec_pawn_key() == old(self).spec_pawn_key(),
            final(self).spec_phase() == old(self).spec_phase(),
            final(self).spec_score_mg() == old(self).spec_score_mg(),
            final(self).spec_score_eg() == old(self).spec_score_eg(),
    {
        self.key = self.key ^ keys.side_key();
    }

    /// Toggles the zobrist keys of the given castling rights.
    pub fn toggle_castling_rights_key(&mut self, rights: CastlingRights, keys: &ZobristKeys)
        requires
            keys.wf(),
            rights.0 < 16,
        ensures
            final(self).spec_key() == old(self).spec_key() ^ zobrist_castling_key(rights.0 as int),
            final(self).same_position(old(self)),
            final(self).spec_pawn_key() == old(self).spec_pawn_key(),
            final(self).spec_phase() == old(self).spec_phase(),
            final(self).spec_score_mg() == old(self).spec_score_mg(),
            final(self).spec_score_eg() == old(self).spec_score_eg(),
    {
        self.key = self.key ^ keys.castling_rights_key(rights);
    }

    /// Toggles the zobrist key of the given en passant square.
    ///
    /// This does nothing if `square` isn't a possible en passant square.
    pub fn toggle_ep_square_key(&mut self, square: Square, keys: &ZobristKeys)
        requires
            keys.wf(),
            square.0 <= 64,
        ensures
            final(self).spec_key() == old(self).spec_key() ^ zobrist_ep_key(square.0 as int),
            final(self).same_position(old(self)),
            final(self).spec_pawn_key() == old(self).spec_pawn_key(),
            final(self).spec_phase() == old(self).spec_phase(),
            final(self).spec_score_mg() == old(self).spec_score_mg(),
            final(self).spec_score_eg() == old(self).spec_score_eg(),
    {
        self.key = self.key ^ keys.ep_square_key(square);
    }
}

/// The phase weight of a piece.
pub open spec fn phase_weight_of(piece: Piece) -> int {
    crate::evaluation::values::PHASE_WEIGHTS[piece.0 as int] as int
}

/// Two well-formed boards of the same position have the same key: the key
/// of a board is a function of its position alone.
pub proof fn lemma_same_position_same_key(a: &Board, b: &Board)
    requires
        a.wf(),
        b.wf(),
        a@ == b@,
    ensures
        a.spec_key() == b.spec_key(),
        a.spec_pawn_key() == b.spec_pawn_key(),
{
}

impl Board {
    /// Calculates the zobrist key of the board from scratch: the keys of the
    /// pieces on their squares, of the side to move when Black is to move,
    /// of the castling rights and of the en passant square. It is the key
    /// the board keeps up to date as pieces come and go.
    pub fn refresh_zobrist(&self, keys: &ZobristKeys) -> (key: Key)
        requires
            self.wf(),
            keys.wf(),
        ensures
            key == crate::board::state_key(self@),
            key == self.spec_key(),
    {
        let ghost mb = self@.mailbox;
        let mut key: Key = 0;
        let mut s: u8 = 0;
        proof {
            reveal(crate::board::key_fold);
        }
        while s < 64
            invariant
                s <= 64,
                self.wf(),
                keys.wf(),
                mb == self@.mailbox,
                key == crate::board::key_fold(mb, s as int, false),
            decreases 64 - s,
        {
            let piece = self.piece_on(Square(s));
            assert(piece.0 <= 12);
            let part = keys.piece_key(Square(s), piece);
            proof {
                reveal(crate::board::key_fold);
            }
            key = key ^ part;
            s = s + 1;
        }
        let side_part = if self.side_to_move().0 == 0 {
            keys.side_key()
        } else {
            0
        };
        key = key ^ side_part;
        key = key ^ keys.castling_rights_key(self.castling_rights());
        key = key ^ keys.ep_square_key(self.ep_square());
        key
    }
}

} // verus!
