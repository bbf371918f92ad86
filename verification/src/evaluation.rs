//! Items related to evaluation: scores, phases and mate scores.
use vstd::prelude::*;

use crate::board::{lemma_score_fold_bound, phase_fold, score_fold, Board, BoardState};
use crate::defs::{Piece, Side, Square};
use crate::util::{push_signed, signed_decimal};
use crate::search::depth::{Depth, Height};
use values::{
    psqt, lemma_psqt_bound, mirror, BASE_PIECE_VALUES_EG, BASE_PIECE_VALUES_MG,
    INITIAL_PIECE_SQUARE_TABLES_EG, INITIAL_PIECE_SQUARE_TABLES_MG, PHASE_WEIGHTS,
};

pub mod symmetry;
pub mod values;

verus! {

/// An [`Evaluation`] with half the size.
#[derive(Clone, Copy, Debug, PartialEq, Eq, Structural)]
pub struct CompressedEvaluation(pub i16);

/// An evaluation.
///
/// When converting to a [`CompressedEvaluation`] or compared against mate
/// scores, this should always be in the range
/// `-`[`Self::INFINITY`]`..=`[`Self::INFINITY`].
#[derive(Clone, Copy, Debug, PartialEq, Eq, Structural)]
pub struct Evaluation(pub i32);

/// The phase of the game, represented by the sum of the weights of the pieces
/// on the board.
///
/// `0` is the endgame and `24` is the middlegame (the sum of the weights of
/// the pieces of the starting position).
#[derive(Clone, Copy, Debug, PartialEq, Eq, Structural)]
pub struct Phase(pub u8);

/// A blend between a middlegame and an endgame value.
#[derive(Clone, Copy, Debug, PartialEq, Eq, Structural)]
pub struct Score(pub Evaluation, pub Evaluation);

/// Rust's division of integers, which rounds towards zero.
pub open spec fn trunc_div(a: int, b: int) -> int
    recommends
        b > 0,
{
    if a >= 0 {
        a / b
    } else {
        -((-a) / b)
    }
}

impl Evaluation {
    /// An invalid evaluation.
    pub const NONE: i32 = 32768;
    /// The highest possible (positive) evaluation.
    pub const INFINITY: i32 = 32767;
    /// The evaluation of a mate.
    pub const MATE: i32 = 32767;
    /// The lowest score a mate can have: [`Self::MATE`] - [`Depth::MAX`].
    pub const MATE_BOUND: i32 = 32512;
    /// The evaluation of a draw.
    pub const DRAW: i32 = 0;

    /// The evaluation is within `-INFINITY..=INFINITY`.
    pub open spec fn in_range(self) -> bool {
        -Evaluation::INFINITY <= self.0 <= Evaluation::INFINITY
    }

    /// Checks if the score is low or high enough to be a mate score.
    pub fn is_mate(self) -> (mate: bool)
        ensures
            mate == (self.0 >= Evaluation::MATE_BOUND || self.0 <= -Evaluation::MATE_BOUND),
    {
        self.0 >= Self::MATE_BOUND || self.0 <= -Self::MATE_BOUND
    }

    /// Calculates the number of fullmoves to a mate.
    ///
    /// A positive number is the fullmoves to performing a mate and a negative
    /// number (or zero) is the fullmoves to being mated: `(MATE - self + 1) /
    /// 2` for a positive score and `(-MATE - self) / 2` otherwise, rounding
    /// towards zero.
    pub fn moves_to_mate(self) -> (moves: i32)
        requires
            self.in_range(),
        ensures
            self.0 > 0 ==> moves == (Evaluation::MATE - self.0 + 1) / 2,
            self.0 <= 0 ==> moves == trunc_div(-Evaluation::MATE - self.0, 2),
    {
        if self.0 > 0 {
            (Self::MATE - self.0 + 1) / 2
        } else {
            -((self.0 + Self::MATE) / 2)
        }
    }

    /// The evaluation as UCI shows a score: `mate` and the moves to mate
    /// for a mate score, else `cp` and the centipawns.
    pub open spec fn uci_bytes(self) -> Seq<u8> {
        if self.0 >= Evaluation::MATE_BOUND {
            seq![109u8, 97, 116, 101, 32] + signed_decimal((Evaluation::MATE - self.0 + 1) / 2)
        } else if self.0 <= -Evaluation::MATE_BOUND {
            seq![109u8, 97, 116, 101, 32] + signed_decimal(trunc_div(-Evaluation::MATE - self.0, 2))
        } else {
            seq![99u8, 112, 32] + signed_decimal(self.0 as int)
        }
    }

    /// Writes the evaluation as UCI shows a score (see
    /// [`Evaluation::uci_bytes`]), such as `cp 35` or `mate -2`.
    pub fn to_bytes(self) -> (bytes: Vec<u8>)
        requires
            self.in_range(),
        ensures
            bytes@ == self.uci_bytes(),
    {
        let mut bytes: Vec<u8> = Vec::new();
        if self.is_mate() {
            bytes.push(109u8);
            bytes.push(97u8);
            bytes.push(116u8);
            bytes.push(101u8);
            bytes.push(32u8);
            push_signed(&mut bytes, self.moves_to_mate() as i64);
        } else {
            bytes.push(99u8);
            bytes.push(112u8);
            bytes.push(32u8);
            push_signed(&mut bytes, self.0 as i64);
        }
        assert(bytes@ =~= self.uci_bytes());
        bytes
    }

    /// Calculates the evaluation if we're mating after `height` halfmoves.
    pub fn mate_after(height: Height) -> (eval: Self)
        ensures
            eval.0 == Evaluation::MATE - height.0,
    {
        Self(Self::MATE - height.0 as i32)
    }

    /// Calculates the evaluation if we're getting mated after `height`
    /// halfmoves.
    pub fn mated_after(height: Height) -> (eval: Self)
        ensures
            eval.0 == -Evaluation::MATE + height.0,
    {
        Self(-Self::MATE + height.0 as i32)
    }

    /// Converts a [`CompressedEvaluation`] to an [`Evaluation`].
    pub fn from_compressed(eval: CompressedEvaluation) -> (result: Self)
        ensures
            result.0 == eval.0,
    {
        Self(eval.0 as i32)
    }

    /// Converts the evaluation into a [`CompressedEvaluation`], for
    /// evaluations within the range of an `i16`.
    pub fn compress(self) -> (result: CompressedEvaluation)
        requires
            i16::MIN <= self.0 <= i16::MAX,
        ensures
            result.0 == self.0,
    {
        CompressedEvaluation(self.0 as i16)
    }

    /// Converts a [`Depth`] into an [`Evaluation`].
    pub fn from_depth(depth: Depth) -> (result: Self)
        ensures
            result.0 == depth.0,
    {
        Self(depth.0 as i32)
    }

    /// Converts a [`Height`] into an [`Evaluation`].
    pub fn from_height(height: Height) -> (result: Self)
        ensures
            result.0 == height.0,
    {
        Self(height.0 as i32)
    }
}

/// The number of moves to mate of the mate score after `h` halfmoves is half
/// of `h`, rounded up.
pub proof fn lemma_moves_to_mate_after(h: int)
    requires
        0 <= h <= 255,
    ensures
        (Evaluation::MATE - (Evaluation::MATE - h) + 1) / 2 == (h + 1) / 2,
{
}

impl Phase {
    /// Returns the phase, at most 24 even with early promotion.
    pub fn inner(self) -> (phase: u8)
        ensures
            phase == if self.0 < 24 { self.0 } else { 24 },
    {
        if self.0 < 24 {
            self.0
        } else {
            24
        }
    }
}

impl Score {
    /// Lerps the score between its middlegame and endgame value depending on
    /// the phase: `eg - (eg - mg) * phase / 24`, rounding towards zero.
    pub fn lerp_to(self, phase: Phase) -> (eval: Evaluation)
        requires
            i32::MIN <= self.1.0 - self.0.0 <= i32::MAX,
            i32::MIN <= (self.1.0 - self.0.0) * (if phase.0 < 24 { phase.0 as int } else { 24 })
                <= i32::MAX,
        ensures
            eval.0 == self.1.0 - trunc_div(
                (self.1.0 - self.0.0) * (if phase.0 < 24 { phase.0 as int } else { 24 }),
                24,
            ),
    {
        let diff = self.1.0 as i64 - self.0.0 as i64;
        let p = phase.inner() as i64;
        let product = diff * p;
        let quotient = if product >= 0 {
            product / 24
        } else {
            -((-product) / 24)
        };
        assert(0 <= product ==> 0 <= quotient <= diff || diff <= quotient <= 0) by (nonlinear_arith)
            requires
                product == diff * p,
                0 <= p <= 24,
                quotient == if product >= 0 { product / 24 } else { -((-product) / 24) },
        ;
        assert(product < 0 ==> diff <= quotient <= 0 || 0 <= quotient <= diff) by (nonlinear_arith)
            requires
                product == diff * p,
                0 <= p <= 24,
                quotient == if product >= 0 { product / 24 } else { -((-product) / 24) },
        ;
        Evaluation((self.1.0 as i64 - quotient) as i32)
    }
}

/// Creates the piece-square tables for White and Black, with an extra table
/// of 0's at the end for [`Piece::NONE`]: each entry is the value of the
/// piece on the square (see [`psqt`](values::psqt)).
pub fn create_piece_square_tables() -> (tables: [[Score; 64]; 13])
    ensures
        forall|p: int, s: int|
            0 <= p < 13 && 0 <= s < 64 ==> (#[trigger] tables[p][s]).0.0 == values::psqt(p, s, false)
                && tables[p][s].1.0 == values::psqt(p, s, true),
{
    let zero = Score(Evaluation(0), Evaluation(0));
    let mut tables = [[zero; 64]; 13];
    let mut piece: u8 = 0;
    while piece < 13
        invariant
            piece <= 13,
            forall|p: int, s: int|
                0 <= p < piece && 0 <= s < 64 ==> (#[trigger] tables[p][s]).0.0 == values::psqt(
                    p,
                    s,
                    false,
                ) && tables[p][s].1.0 == values::psqt(p, s, true),
        decreases 13 - piece,
    {
        let mut row = [zero; 64];
        let mut square: u8 = 0;
        while square < 64
            invariant
                piece < 13,
                square <= 64,
                forall|s: int|
                    0 <= s < square ==> (#[trigger] row[s]).0.0 == values::psqt(
                        piece as int,
                        s,
                        false,
                    ) && row[s].1.0 == values::psqt(piece as int, s, true),
            decreases 64 - square,
        {
            row.set(square as usize, piece_score(Square(square), Piece(piece)));
            square = square + 1;
        }
        tables.set(piece as usize, row);
        piece = piece + 1;
    }
    tables
}

/// Returns the value of the given piece on the given square.
///
/// The piece can be any piece or [`Piece::NONE`] but the square must be
/// valid.
pub fn piece_score(square: Square, piece: Piece) -> (score: Score)
    requires
        square.valid(),
        piece.0 <= 12,
    ensures
        score.0.0 == psqt(piece.0 as int, square.0 as int, false),
        score.1.0 == psqt(piece.0 as int, square.0 as int, true),
{
    proof {
        lemma_psqt_bound(piece.0 as int, square.0 as int, false);
        lemma_psqt_bound(piece.0 as int, square.0 as int, true);
    }
    if piece.0 >= 12 {
        return Score(Evaluation(0), Evaluation(0));
    }
    let t = (piece.0 / 2) as usize;
    let s = square.0 as usize;
    if piece.0 % 2 == 1 {
        proof {
            values::lemma_mg_bound(t as int, s as int);
            values::lemma_eg_bound(t as int, s as int);
        }
        Score(
            Evaluation(BASE_PIECE_VALUES_MG[t] + INITIAL_PIECE_SQUARE_TABLES_MG[t][s]),
            Evaluation(BASE_PIECE_VALUES_EG[t] + INITIAL_PIECE_SQUARE_TABLES_EG[t][s]),
        )
    } else {
        // the table of a Black piece is mirrored
        let flipped = s % 8 + (7 - s / 8) * 8;
        assert(flipped == mirror(s as int));
        proof {
            values::lemma_mg_bound(t as int, flipped as int);
            values::lemma_eg_bound(t as int, flipped as int);
        }
        Score(
            Evaluation(-(BASE_PIECE_VALUES_MG[t] + INITIAL_PIECE_SQUARE_TABLES_MG[t][flipped])),
            Evaluation(-(BASE_PIECE_VALUES_EG[t] + INITIAL_PIECE_SQUARE_TABLES_EG[t][flipped])),
        )
    }
}

/// Returns the phase of the given piece.
///
/// The piece can be any piece or [`Piece::NONE`].
pub fn piece_phase(piece: Piece) -> (phase: Phase)
    requires
        piece.0 <= 12,
    ensures
        phase.0 == PHASE_WEIGHTS[piece.0 as int],
        phase.0 <= 4,
{
    Phase(PHASE_WEIGHTS[piece.0 as usize])
}

/// The static evaluation of a state from the side to move's point of view:
/// the material and placement score, lerped between middlegame and endgame
/// by the phase, from White's point of view, negated for Black.
pub open spec fn static_evaluation(state: BoardState) -> int {
    let mg = score_fold(state.mailbox, 64, false);
    let eg = score_fold(state.mailbox, 64, true);
    let phase = phase_fold(state.mailbox, 64) % 256;
    let eval = eg - trunc_div((eg - mg) * (if phase < 24 { phase } else { 24 }), 24);
    if state.side_to_move == Side::WHITE {
        eval
    } else {
        -eval
    }
}

/// Calculates a static evaluation of the current board.
pub fn evaluate(board: &Board) -> (eval: Evaluation)
    requires
        board.wf(),
    ensures
        eval.0 == static_evaluation(board@),
{
    proof {
        lemma_score_fold_bound(board@.mailbox, 64, false);
        lemma_score_fold_bound(board@.mailbox, 64, true);
    }
    let phase = board.phase();
    let score = board.score();
    let ghost weight: int = if phase.0 < 24 { phase.0 as int } else { 24 };
    let ghost diff: int = score.1.0 - score.0.0;
    assert(-2_000_000 * 24 <= diff * weight <= 2_000_000 * 24) by (nonlinear_arith)
        requires
            -2_000_000 <= diff <= 2_000_000,
            0 <= weight <= 24,
    ;
    let eval = score.lerp_to(phase);
    assert(-1_000_000 <= eval.0 <= 1_000_000) by (nonlinear_arith)
        requires
            eval.0 == score.1.0 - trunc_div(
                (score.1.0 - score.0.0) * (if phase.0 < 24 { phase.0 as int } else { 24 }),
                24,
            ),
            -652800 <= score.0.0 <= 652800,
            -652800 <= score.1.0 <= 652800,
    ;
    if board.side_to_move().0 == Side::WHITE {
        eval
    } else {
        Evaluation(-eval.0)
    }
}

} // verus!
