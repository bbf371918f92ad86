//! Generation of the pseudo-legal moves of a position, in the order the
//! search sees them.
use vstd::prelude::*;
use vstd::std_specs::bits::{axiom_u64_trailing_zeros, u64_trailing_zeros};

use crate::bitboard::{
    castling_space, group_sq_in, lemma_squares_of, sq_in, squares_of, BitIter, Bitboard,
};
use crate::board::attacks::{has_king, occupancy};
use crate::board::{kind_bb, Board, BoardState, CastlingRights};
use crate::defs::{Direction, PieceType, Rank, Side, Square};
use crate::lookups::{king_bb, knight_bb, pawn_bb, queen_attacks_spec, slider_attacks, Lookup};
use crate::movegen::list::{unscored, Moves, ScoredMove, MAX_LEGAL_MOVES};
use crate::movegen::{pack, Move};

verus! {

// ---------------------------------------------------------------------------
// Kinds of generation.

/// Moves of a certain type.
pub trait MovesType {
    /// Quiet moves of all non-king pieces (so including castling) are
    /// generated.
    spec fn non_king_quiets() -> bool;

    /// Quiet moves of the king (excluding castling) are generated.
    spec fn king_quiets() -> bool;

    /// Captures are generated.
    spec fn captures() -> bool;

    /// See [`MovesType::non_king_quiets`].
    fn generates_non_king_quiets() -> (b: bool)
        ensures
            b == Self::non_king_quiets(),
    ;

    /// See [`MovesType::king_quiets`].
    fn generates_king_quiets() -> (b: bool)
        ensures
            b == Self::king_quiets(),
    ;

    /// See [`MovesType::captures`].
    fn generates_captures() -> (b: bool)
        ensures
            b == Self::captures(),
    ;
}

/// Generate all pseudo-legal moves.
pub struct AllMoves;

/// Generate only captures.
pub struct CapturesOnly;

/// Generate captures and quiet king moves.
pub struct Evasions;

/// Generate only quiet king moves.
pub struct KingMovesOnly;

/// Generate only quiet moves.
pub struct QuietsOnly;

impl MovesType for AllMoves {
    open spec fn non_king_quiets() -> bool {
        true
    }

    open spec fn king_quiets() -> bool {
        true
    }

    open spec fn captures() -> bool {
        true
    }

    fn generates_non_king_quiets() -> (b: bool) {
        true
    }

    fn generates_king_quiets() -> (b: bool) {
        true
    }

    fn generates_captures() -> (b: bool) {
        true
    }
}

impl MovesType for CapturesOnly {
    open spec fn non_king_quiets() -> bool {
        false
    }

    open spec fn king_quiets() -> bool {
        false
    }

    open spec fn captures() -> bool {
        true
    }

    fn generates_non_king_quiets() -> (b: bool) {
        false
    }

    fn generates_king_quiets() -> (b: bool) {
        false
    }

    fn generates_captures() -> (b: bool) {
        true
    }
}

impl MovesType for Evasions {
    open spec fn non_king_quiets() -> bool {
        false
    }

    open spec fn king_quiets() -> bool {
        true
    }

    open spec fn captures() -> bool {
        true
    }

    fn generates_non_king_quiets() -> (b: bool) {
        false
    }

    fn generates_king_quiets() -> (b: bool) {
        true
    }

    fn generates_captures() -> (b: bool) {
        true
    }
}

impl MovesType for KingMovesOnly {
    open spec fn non_king_quiets() -> bool {
        false
    }

    open spec fn king_quiets() -> bool {
        true
    }

    open spec fn captures() -> bool {
        false
    }

    fn generates_non_king_quiets() -> (b: bool) {
        false
    }

    fn generates_king_quiets() -> (b: bool) {
        true
    }

    fn generates_captures() -> (b: bool) {
        false
    }
}

impl MovesType for QuietsOnly {
    open spec fn non_king_quiets() -> bool {
        true
    }

    open spec fn king_quiets() -> bool {
        true
    }

    open spec fn captures() -> bool {
        false
    }

    fn generates_non_king_quiets() -> (b: bool) {
        true
    }

    fn generates_king_quiets() -> (b: bool) {
        true
    }

    fn generates_captures() -> (b: bool) {
        false
    }
}

// ---------------------------------------------------------------------------
// The generated moves.

/// The move from `start` to `end` with the given flag and extra bits.
pub open spec fn spec_move(start: int, end: int, flag: u16, extra: int) -> Move {
    Move { bits: pack(start as u16, end as u16, flag, extra as u16) }
}

/// The normal moves from `start` to each square of `targets`, in order.
pub open spec fn moves_to(start: int, targets: Seq<u8>) -> Seq<Move>
    decreases targets.len(),
{
    if targets.len() == 0 {
        Seq::empty()
    } else {
        seq![spec_move(start, targets[0] as int, Move::NORMAL, 0)] + moves_to(
            start,
            targets.drop_first(),
        )
    }
}

/// The squares a piece of type `kind` on `s` attacks, with the given
/// occupancies for sliders.
pub open spec fn attacks_of(kind: int, s: int, occupancies: u64) -> u64 {
    if kind == PieceType::KNIGHT {
        knight_bb(s)
    } else if kind == PieceType::BISHOP {
        slider_attacks(true, s, occupancies)
    } else if kind == PieceType::ROOK {
        slider_attacks(false, s, occupancies)
    } else if kind == PieceType::QUEEN {
        queen_attacks_spec(s, occupancies)
    } else {
        king_bb(s)
    }
}

/// For each square of `starts` in order, the moves of a piece of type `kind`
/// there to the squares of `targets` it attacks.
pub open spec fn piece_moves(starts: Seq<u8>, kind: int, occupancies: u64, targets: u64) -> Seq<
    Move,
>
    decreases starts.len(),
{
    if starts.len() == 0 {
        Seq::empty()
    } else {
        moves_to(
            starts[0] as int,
            squares_of(attacks_of(kind, starts[0] as int, occupancies) & targets),
        ) + piece_moves(starts.drop_first(), kind, occupancies, targets)
    }
}

/// The squares a move may end on: with quiet moves and captures, any
/// square not of `us`; with quiet moves only, the empty squares; with
/// captures only, those of `them`.
pub open spec fn target_squares(quiets: bool, captures: bool, us: u64, them: u64) -> u64 {
    if quiets {
        if captures {
            !us
        } else {
            !us ^ them
        }
    } else {
        them
    }
}

/// The castling move of a side to a side of the board.
pub open spec fn castle_move(is_white: bool, is_kingside: bool) -> Move {
    spec_move(
        if is_white { 4 } else { 60 },
        if is_white {
            if is_kingside { 6 } else { 2 }
        } else {
            if is_kingside { 62 } else { 58 }
        },
        Move::CASTLING,
        if is_kingside { 3 } else { 0 },
    )
}

/// The castling move of a side to a side of the board, if it has the right
/// and the squares between king and rook are empty.
pub open spec fn castle_if_clear(
    rights: u8,
    occupancies: u64,
    is_white: bool,
    is_kingside: bool,
) -> Seq<Move> {
    if rights & CastlingRights::right(is_white, is_kingside) != 0 && occupancies & castling_space(
        is_white,
        is_kingside,
    ) == 0 {
        seq![castle_move(is_white, is_kingside)]
    } else {
        Seq::empty()
    }
}

/// The squares of the side `side`.
pub open spec fn side_bb(state: BoardState, side: int) -> u64 {
    kind_bb(state.mailbox, 6 + side, 64)
}

/// The knight and king moves of the side to move.
pub open spec fn non_sliding_moves(state: BoardState, quiets: bool, king_quiets: bool, captures: bool) -> Seq<Move> {
    let side = state.side_to_move as int;
    let us = side_bb(state, side);
    let them = side_bb(state, 1 - side);
    let occ = occupancy(state.mailbox);
    let knights = kind_bb(state.mailbox, PieceType::KNIGHT as int, 64) & us;
    let kings = kind_bb(state.mailbox, PieceType::KING as int, 64) & us;
    let king = u64_trailing_zeros(kings) as int;
    (if quiets || captures {
        piece_moves(squares_of(knights), PieceType::KNIGHT as int, occ, target_squares(quiets, captures, us, them))
    } else {
        Seq::empty()
    }) + (if king_quiets || captures {
        moves_to(king, squares_of(king_bb(king) & target_squares(king_quiets, captures, us, them)))
    } else {
        Seq::empty()
    })
}

/// The bishop, rook and queen moves of the side to move.
pub open spec fn sliding_moves(state: BoardState, quiets: bool, captures: bool) -> Seq<Move> {
    let side = state.side_to_move as int;
    let us = side_bb(state, side);
    let occ = occupancy(state.mailbox);
    let them = us ^ occ;
    let targets = target_squares(quiets, captures, us, them);
    if !quiets && !captures {
        Seq::empty()
    } else {
        piece_moves(squares_of(kind_bb(state.mailbox, PieceType::BISHOP as int, 64) & us), PieceType::BISHOP as int, occ, targets)
            + piece_moves(squares_of(kind_bb(state.mailbox, PieceType::ROOK as int, 64) & us), PieceType::ROOK as int, occ, targets)
            + piece_moves(squares_of(kind_bb(state.mailbox, PieceType::QUEEN as int, 64) & us), PieceType::QUEEN as int, occ, targets)
    }
}

/// The castling moves of the side to move.
pub open spec fn castling_moves(state: BoardState, quiets: bool) -> Seq<Move> {
    let is_white = state.side_to_move == Side::WHITE;
    let occ = occupancy(state.mailbox);
    if !quiets {
        Seq::empty()
    } else {
        castle_if_clear(state.castling_rights, occ, is_white, true) + castle_if_clear(
            state.castling_rights,
            occ,
            is_white,
            false,
        )
    }
}

/// The square `dir` squares before `square`, wrapping as a byte.
pub open spec fn behind(square: int, dir: int) -> int {
    vstd::wrapping::u8_specs::wrapping_add_signed(square as u8, (-dir) as i8) as int
}

/// The promotions from `start` to `end` to the piece types `first..=last`.
pub open spec fn promotions(start: int, end: int, first: int, last: int) -> Seq<Move>
    decreases last + 1 - first,
{
    if first > last {
        Seq::empty()
    } else {
        seq![spec_move(start, end, Move::PROMOTION, first - 1)] + promotions(
            start,
            end,
            first + 1,
            last,
        )
    }
}

/// The start of a pawn move to `end` going `dir` squares at a time, once or
/// twice.
pub open spec fn pawn_start(end: int, dir: int, twice: bool) -> int {
    if twice {
        behind(behind(end, dir), dir)
    } else {
        behind(end, dir)
    }
}

/// For each square `d` of `dests` in order, the pawn moves to `d` from
/// [`pawn_start`]: promotions to the piece types `first..=last`, or a normal
/// move when `last` is 0.
pub open spec fn pawn_moves(dests: Seq<u8>, dir: int, twice: bool, first: int, last: int) -> Seq<
    Move,
>
    decreases dests.len(),
{
    if dests.len() == 0 {
        Seq::empty()
    } else {
        let d = dests[0] as int;
        let start = pawn_start(d, dir, twice);
        (if last == 0 {
            seq![spec_move(start, d, Move::NORMAL, 0)]
        } else {
            promotions(start, d, first, last)
        }) + pawn_moves(dests.drop_first(), dir, twice, first, last)
    }
}

/// The en passant captures onto `ep` from each square of `starts`.
pub open spec fn ep_moves(starts: Seq<u8>, ep: int) -> Seq<Move>
    decreases starts.len(),
{
    if starts.len() == 0 {
        Seq::empty()
    } else {
        seq![spec_move(starts[0] as int, ep, Move::EN_PASSANT, 0)] + ep_moves(
            starts.drop_first(),
            ep,
        )
    }
}

/// A set shifted one rank towards the enemy of `is_white`.
pub open spec fn forward_of(bb: u64, is_white: bool) -> u64 {
    if is_white {
        bb << 8u64
    } else {
        bb >> 8u64
    }
}

/// A set shifted diagonally towards the enemy of `is_white` and one file
/// east (`east`) or west.
pub open spec fn diagonal_of(bb: u64, is_white: bool, east: bool) -> u64 {
    if east {
        (forward_of(bb, is_white) << 1u64) & !0x0101_0101_0101_0101u64
    } else {
        (forward_of(bb, is_white) >> 1u64) & !0x8080_8080_8080_8080u64
    }
}

/// The pawn moves of the side to move that do not promote: pushes, double
/// pushes, captures and en passant captures.
pub open spec fn regular_pawn_moves(state: BoardState, quiets: bool, captures: bool) -> Seq<Move> {
    let side = state.side_to_move as int;
    let white = side == Side::WHITE;
    let us = side_bb(state, side);
    let occ = occupancy(state.mailbox);
    let them = occ ^ us;
    let empty = !occ;
    let pawns = kind_bb(state.mailbox, PieceType::PAWN as int, 64) & us;
    let penultimate = if white { 0xffu64 << 48u64 } else { 0xffu64 << 8u64 };
    let forward = if white { Direction::N } else { Direction::S } as int;
    let right = if white { Direction::NE } else { Direction::SE } as int;
    let left = if white { Direction::NW } else { Direction::SW } as int;
    let double_push_rank = if white { 0xffu64 << 24u64 } else { 0xffu64 << 32u64 };
    let normal = pawns & !penultimate;
    let single = forward_of(normal, white) & empty;
    let double = forward_of(single, white) & empty & double_push_rank;
    let ep = state.ep_square as int;
    (if quiets {
        pawn_moves(squares_of(single), forward, false, 0, 0) + pawn_moves(
            squares_of(double),
            forward,
            true,
            0,
            0,
        )
    } else {
        Seq::empty()
    }) + (if captures {
        pawn_moves(squares_of(diagonal_of(normal, white, true) & them), right, false, 0, 0)
            + pawn_moves(squares_of(diagonal_of(normal, white, false) & them), left, false, 0, 0)
            + (if ep != Square::NONE {
            ep_moves(squares_of(pawn_bb(1 - side, ep) & normal), ep)
        } else {
            Seq::empty()
        })
    } else {
        Seq::empty()
    })
}

/// The promotions of the side to move: knight, bishop and rook pushes with
/// quiet moves; queen pushes and all captures with captures.
pub open spec fn promotion_moves(state: BoardState, quiets: bool, captures: bool) -> Seq<Move> {
    let side = state.side_to_move as int;
    let white = side == Side::WHITE;
    let us = side_bb(state, side);
    let occ = occupancy(state.mailbox);
    let them = occ ^ us;
    let empty = !occ;
    let pawns = kind_bb(state.mailbox, PieceType::PAWN as int, 64) & us;
    let penultimate = if white { 0xffu64 << 48u64 } else { 0xffu64 << 8u64 };
    let forward = if white { Direction::N } else { Direction::S } as int;
    let right = if white { Direction::NE } else { Direction::SE } as int;
    let left = if white { Direction::NW } else { Direction::SW } as int;
    let promoting = pawns & penultimate;
    let promo_single = forward_of(promoting, white) & empty;
    (if quiets {
        pawn_moves(squares_of(promo_single), forward, false, 1, 3)
    } else {
        Seq::empty()
    }) + (if captures {
        pawn_moves(squares_of(promo_single), forward, false, 4, 4) + pawn_moves(
            squares_of(diagonal_of(promoting, white, true) & them),
            right,
            false,
            1,
            4,
        ) + pawn_moves(squares_of(diagonal_of(promoting, white, false) & them), left, false, 1, 4)
    } else {
        Seq::empty()
    })
}

/// The pawn moves of the side to move.
pub open spec fn pawn_moves_of(state: BoardState, quiets: bool, captures: bool) -> Seq<Move> {
    regular_pawn_moves(state, quiets, captures) + promotion_moves(state, quiets, captures)
}

/// All the pseudo-legal moves of the given kinds of the side to move, in
/// the order they are generated: pawns, knights, the king, bishops, rooks,
/// queens and castling.
pub open spec fn generated_moves(
    state: BoardState,
    quiets: bool,
    king_quiets: bool,
    captures: bool,
) -> Seq<Move> {
    pawn_moves_of(state, quiets, captures) + non_sliding_moves(
        state,
        quiets,
        king_quiets,
        captures,
    ) + sliding_moves(state, quiets, captures) + castling_moves(state, quiets)
}

// ---------------------------------------------------------------------------
// Pushing the generated moves.

/// Pushes the normal moves from `start` to each square of `targets`.
fn push_targets(moves: &mut Moves, start: Square, targets: Bitboard)
    requires
        start.valid(),
        old(moves)@.len() + moves_to(start.0 as int, squares_of(targets.0)).len() <= MAX_LEGAL_MOVES,
    ensures
        final(moves)@ == old(moves)@ + unscored(moves_to(start.0 as int, squares_of(targets.0))),
        final(moves)@.len() == old(moves)@.len() + moves_to(start.0 as int, squares_of(targets.0)).len(),
{
    let ghost total = moves_to(start.0 as int, squares_of(targets.0));
    let mut iter = BitIter::new(targets);
    loop
        invariant
            start.valid(),
            moves@ + unscored(moves_to(start.0 as int, iter.remaining())) == old(moves)@ + unscored(total),
            moves@.len() + moves_to(start.0 as int, iter.remaining()).len() == old(moves)@.len() + total.len(),
            old(moves)@.len() + total.len() <= MAX_LEGAL_MOVES,
            total == moves_to(start.0 as int, squares_of(targets.0)),
        ensures
            moves@ == old(moves)@ + unscored(total),
            moves@.len() == old(moves)@.len() + total.len(),
        decreases iter.remaining().len(),
    {
        let ghost before = iter.remaining();
        match iter.next() {
            Some(target) => {
                let ghost rest = iter.remaining();
                assert(before.drop_first() =~= rest);
                let ghost old_list = moves@;
                moves.push(Move::new(start, target));
                assert(moves_to(start.0 as int, before) =~= seq![spec_move(start.0 as int, target.0 as int, Move::NORMAL, 0)] + moves_to(start.0 as int, rest));
                assert(moves@ + unscored(moves_to(start.0 as int, rest)) =~= old_list + unscored(moves_to(start.0 as int, before)));
            },
            None => {
                assert(iter.remaining() =~= Seq::<u8>::empty());
                assert(moves@ =~= moves@ + unscored(moves_to(start.0 as int, iter.remaining())));
                break ;
            },
        }
    }
}

/// The attacks of a piece of type `kind` (knight to king) on `square`.
fn attacks(lookup: &Lookup, kind: PieceType, square: Square, occupancies: Bitboard) -> (bb:
    Bitboard)
    requires
        lookup.wf(),
        square.valid(),
        1 <= kind.0 <= 5,
    ensures
        bb.0 == attacks_of(kind.0 as int, square.0 as int, occupancies.0),
{
    if kind.0 == PieceType::KNIGHT {
        lookup.knight_attacks(square)
    } else if kind.0 == PieceType::BISHOP {
        lookup.bishop_attacks(square, occupancies)
    } else if kind.0 == PieceType::ROOK {
        lookup.rook_attacks(square, occupancies)
    } else if kind.0 == PieceType::QUEEN {
        lookup.queen_attacks(square, occupancies)
    } else {
        lookup.king_attacks(square)
    }
}

/// Pushes, for each square of `starts`, the moves of a piece of type `kind`
/// there to the squares of `targets` it attacks.
fn push_piece_moves(
    moves: &mut Moves,
    lookup: &Lookup,
    starts: Bitboard,
    kind: PieceType,
    occupancies: Bitboard,
    targets: Bitboard,
)
    requires
        lookup.wf(),
        1 <= kind.0 <= 5,
        old(moves)@.len() + piece_moves(squares_of(starts.0), kind.0 as int, occupancies.0, targets.0).len()
            <= MAX_LEGAL_MOVES,
    ensures
        final(moves)@ == old(moves)@ + unscored(piece_moves(
            squares_of(starts.0),
            kind.0 as int,
            occupancies.0,
            targets.0,
        )),
        final(moves)@.len() == old(moves)@.len() + piece_moves(
            squares_of(starts.0),
            kind.0 as int,
            occupancies.0,
            targets.0,
        ).len(),
{
    let ghost k = kind.0 as int;
    let ghost total = piece_moves(squares_of(starts.0), k, occupancies.0, targets.0);
    let mut iter = BitIter::new(starts);
    loop
        invariant
            lookup.wf(),
            1 <= kind.0 <= 5,
            k == kind.0,
            moves@ + unscored(piece_moves(iter.remaining(), k, occupancies.0, targets.0)) == old(moves)@ + unscored(total),
            moves@.len() + piece_moves(iter.remaining(), k, occupancies.0, targets.0).len() == old(moves)@.len() + total.len(),
            old(moves)@.len() + total.len() <= MAX_LEGAL_MOVES,
            total == piece_moves(squares_of(starts.0), k, occupancies.0, targets.0),
        ensures
            moves@ == old(moves)@ + unscored(total),
            moves@.len() == old(moves)@.len() + total.len(),
        decreases iter.remaining().len(),
    {
        let ghost before = iter.remaining();
        match iter.next() {
            Some(start) => {
                let ghost rest = iter.remaining();
                assert(before.drop_first() =~= rest);
                let ghost old_list = moves@;
                let piece_targets = Bitboard(attacks(lookup, kind, start, occupancies).0 & targets.0);
                let ghost here = moves_to(start.0 as int, squares_of(piece_targets.0));
                assert(piece_moves(before, k, occupancies.0, targets.0) == here + piece_moves(rest, k, occupancies.0, targets.0));
                push_targets(moves, start, piece_targets);
                assert(moves@ + unscored(piece_moves(rest, k, occupancies.0, targets.0)) =~= old_list + unscored(piece_moves(before, k, occupancies.0, targets.0)));
            },
            None => {
                assert(iter.remaining() =~= Seq::<u8>::empty());
                assert(moves@ =~= moves@ + unscored(piece_moves(iter.remaining(), k, occupancies.0, targets.0)));
                break ;
            },
        }
    }
}

/// Pushes the knight and king moves (excluding castling) of the side to
/// move.
fn generate_non_sliding_moves<Type: MovesType, const IS_WHITE: bool>(
    board: &Board,
    lookup: &Lookup,
    moves: &mut Moves,
)
    requires
        board.wf(),
        lookup.wf(),
        board@.side_to_move < 2,
        IS_WHITE == (board@.side_to_move == Side::WHITE),
        has_king(board@),
        old(moves)@.len() + non_sliding_moves(
            board@,
            Type::non_king_quiets(),
            Type::king_quiets(),
            Type::captures(),
        ).len() <= MAX_LEGAL_MOVES,
    ensures
        final(moves)@ == old(moves)@ + unscored(non_sliding_moves(
            board@,
            Type::non_king_quiets(),
            Type::king_quiets(),
            Type::captures(),
        )),
        final(moves)@.len() == old(moves)@.len() + non_sliding_moves(
            board@,
            Type::non_king_quiets(),
            Type::king_quiets(),
            Type::captures(),
        ).len(),
{
    let ghost st = board@;
    let ghost old_list = moves@;
    let quiets = Type::generates_non_king_quiets();
    let king_quiets = Type::generates_king_quiets();
    let captures = Type::generates_captures();
    let us_bb = board.side::<IS_WHITE>();
    let them_bb = if IS_WHITE {
        board.side::<false>()
    } else {
        board.side::<true>()
    };
    let occupancies = board.occupancies();
    assert(occupancies.0 == occupancy(st.mailbox));
    assert(us_bb.0 == side_bb(st, st.side_to_move as int));
    assert(them_bb.0 == side_bb(st, 1 - st.side_to_move));

    if quiets || captures {
        let knight_target_squares = if quiets {
            if captures {
                Bitboard(!us_bb.0)
            } else {
                Bitboard(!us_bb.0 ^ them_bb.0)
            }
        } else {
            them_bb
        };
        let knights = Bitboard(board.piece::<1>().0 & us_bb.0);
        push_piece_moves(
            moves,
            lookup,
            knights,
            PieceType(PieceType::KNIGHT),
            occupancies,
            knight_target_squares,
        );
    }
    let ghost mid_list = moves@;
    if king_quiets || captures {
        let king_target_squares = if king_quiets {
            if captures {
                Bitboard(!us_bb.0)
            } else {
                Bitboard(!us_bb.0 ^ them_bb.0)
            }
        } else {
            them_bb
        };
        let mut kings = Bitboard(board.piece::<5>().0 & us_bb.0);
        let king = kings.pop_next_square();
        let targets = Bitboard(lookup.king_attacks(king).0 & king_target_squares.0);
        push_targets(moves, king, targets);
    }
    assert(moves@ =~= old_list + unscored(non_sliding_moves(
        st,
        Type::non_king_quiets(),
        Type::king_quiets(),
        Type::captures(),
    )));
}

/// Pushes the bishop, rook and queen moves of the side to move.
fn generate_sliding_moves<Type: MovesType, const IS_WHITE: bool>(
    board: &Board,
    lookup: &Lookup,
    moves: &mut Moves,
)
    requires
        board.wf(),
        lookup.wf(),
        board@.side_to_move < 2,
        IS_WHITE == (board@.side_to_move == Side::WHITE),
        old(moves)@.len() + sliding_moves(board@, Type::non_king_quiets(), Type::captures()).len()
            <= MAX_LEGAL_MOVES,
    ensures
        final(moves)@ == old(moves)@ + unscored(sliding_moves(
            board@,
            Type::non_king_quiets(),
            Type::captures(),
        )),
        final(moves)@.len() == old(moves)@.len() + sliding_moves(
            board@,
            Type::non_king_quiets(),
            Type::captures(),
        ).len(),
{
    let ghost st = board@;
    let ghost old_list = moves@;
    let quiets = Type::generates_non_king_quiets();
    let captures = Type::generates_captures();
    if !quiets && !captures {
        return ;
    }
    let us_bb = board.side::<IS_WHITE>();
    let occupancies = board.occupancies();
    let them_bb = Bitboard(us_bb.0 ^ occupancies.0);
    assert(occupancies.0 == occupancy(st.mailbox));
    assert(us_bb.0 == side_bb(st, st.side_to_move as int));

    let target_squares = if quiets {
        if captures {
            Bitboard(!us_bb.0)
        } else {
            Bitboard(!us_bb.0 ^ them_bb.0)
        }
    } else {
        them_bb
    };

    let bishops = Bitboard(board.piece::<2>().0 & us_bb.0);
    push_piece_moves(moves, lookup, bishops, PieceType(PieceType::BISHOP), occupancies, target_squares);
    let rooks = Bitboard(board.piece::<3>().0 & us_bb.0);
    push_piece_moves(moves, lookup, rooks, PieceType(PieceType::ROOK), occupancies, target_squares);
    let queens = Bitboard(board.piece::<4>().0 & us_bb.0);
    push_piece_moves(moves, lookup, queens, PieceType(PieceType::QUEEN), occupancies, target_squares);
    assert(moves@ =~= old_list + unscored(sliding_moves(
        st,
        Type::non_king_quiets(),
        Type::captures(),
    )));
}

/// Pushes the castling moves of the side to move.
fn generate_castling<Type: MovesType, const IS_WHITE: bool>(board: &Board, moves: &mut Moves)
    requires
        board.wf(),
        board@.side_to_move < 2,
        IS_WHITE == (board@.side_to_move == Side::WHITE),
        old(moves)@.len() + castling_moves(board@, Type::non_king_quiets()).len()
            <= MAX_LEGAL_MOVES,
    ensures
        final(moves)@ == old(moves)@ + unscored(castling_moves(
            board@,
            Type::non_king_quiets(),
        )),
        final(moves)@.len() == old(moves)@.len() + castling_moves(
            board@,
            Type::non_king_quiets(),
        ).len(),
{
    let ghost st = board@;
    let ghost old_list = moves@;
    if !Type::generates_non_king_quiets() {
        assert(moves@ =~= old_list + unscored(castling_moves(st, Type::non_king_quiets())));
        return ;
    }
    let occupancies = board.occupancies();
    assert(occupancies.0 == occupancy(st.mailbox));
    let rights = board.castling_rights();
    if rights.can_castle_kingside::<IS_WHITE>() && Bitboard::is_clear_to_castle_const::<
        IS_WHITE,
        true,
    >(occupancies) {
        moves.push(Move::new_castle::<IS_WHITE, true>());
    }
    let ghost mid_list = moves@;
    if rights.can_castle_queenside::<IS_WHITE>() && Bitboard::is_clear_to_castle_const::<
        IS_WHITE,
        false,
    >(occupancies) {
        moves.push(Move::new_castle::<IS_WHITE, false>());
    }
    assert(moves@ =~= old_list + unscored(castling_moves(st, Type::non_king_quiets())));
}

/// Pushes the pawn moves to each square of `dests` (see [`pawn_moves`]).
fn push_pawn_moves(
    moves: &mut Moves,
    dests: Bitboard,
    dir: Direction,
    twice: bool,
    first: u8,
    last: u8,
)
    requires
        dir.0 > i8::MIN,
        last == 0 || 1 <= first <= last <= 4,
        forall|d: int| sq_in(dests.0, d) ==> 0 <= #[trigger] pawn_start(d, dir.0 as int, twice) < 64,
        old(moves)@.len() + pawn_moves(squares_of(dests.0), dir.0 as int, twice, first as int, last as int).len()
            <= MAX_LEGAL_MOVES,
    ensures
        final(moves)@ == old(moves)@ + unscored(pawn_moves(squares_of(dests.0), dir.0 as int, twice, first as int, last as int)),
        final(moves)@.len() == old(moves)@.len() + pawn_moves(squares_of(dests.0), dir.0 as int, twice, first as int, last as int).len(),
{
    let ghost d0 = dir.0 as int;
    let ghost total = pawn_moves(squares_of(dests.0), d0, twice, first as int, last as int);
    let mut iter = BitIter::new(dests);
    loop
        invariant
            dir.0 > i8::MIN,
            d0 == dir.0,
            last == 0 || 1 <= first <= last <= 4,
            forall|d: int| iter.0.holds(d) ==> sq_in(dests.0, d),
            forall|d: int| sq_in(dests.0, d) ==> 0 <= #[trigger] pawn_start(d, d0, twice) < 64,
            moves@ + unscored(pawn_moves(iter.remaining(), d0, twice, first as int, last as int)) == old(moves)@ + unscored(total),
            moves@.len() + pawn_moves(iter.remaining(), d0, twice, first as int, last as int).len() == old(moves)@.len() + total.len(),
            old(moves)@.len() + total.len() <= MAX_LEGAL_MOVES,
            total == pawn_moves(squares_of(dests.0), d0, twice, first as int, last as int),
        ensures
            moves@ == old(moves)@ + unscored(total),
            moves@.len() == old(moves)@.len() + total.len(),
        decreases iter.remaining().len(),
    {
        let ghost before = iter.remaining();
        let ghost before_bb = iter.0.0;
        match iter.next() {
            Some(dest) => {
                let ghost rest = iter.remaining();
                assert(before.drop_first() =~= rest);
                assert(sq_in(before_bb, dest.0 as int));
                let ghost old_list = moves@;
                let mut origin = dest.sub(dir);
                if twice {
                    origin = origin.sub(dir);
                }
                assert(origin.0 == pawn_start(dest.0 as int, d0, twice));
                let ghost here = if last == 0 {
                    seq![spec_move(origin.0 as int, dest.0 as int, Move::NORMAL, 0)]
                } else {
                    promotions(origin.0 as int, dest.0 as int, first as int, last as int)
                };
                assert(pawn_moves(before, d0, twice, first as int, last as int) == here + pawn_moves(rest, d0, twice, first as int, last as int));
                if last == 0 {
                    moves.push(Move::new(origin, dest));
                    assert(moves@ =~= old_list + unscored(here));
                } else {
                    let mut p = first;
                    while p <= last
                        invariant
                            1 <= first <= p <= last + 1,
                            last <= 4,
                            origin.valid(),
                            dest.valid(),
                            moves@ + unscored(promotions(origin.0 as int, dest.0 as int, p as int, last as int)) == old_list + unscored(here),
                            moves@.len() + promotions(origin.0 as int, dest.0 as int, p as int, last as int).len() == old_list.len() + here.len(),
                            old_list.len() + here.len() <= MAX_LEGAL_MOVES,
                            here == promotions(origin.0 as int, dest.0 as int, first as int, last as int),
                        decreases last + 1 - p,
                    {
                        let ghost prev = moves@;
                        moves.push(Move::new_promo_any(origin, dest, PieceType(p)));
                        assert(moves@ + unscored(promotions(origin.0 as int, dest.0 as int, p + 1, last as int)) =~= prev + unscored(promotions(origin.0 as int, dest.0 as int, p as int, last as int)));
                        p = p + 1;
                    }
                    assert(moves@ =~= old_list + unscored(here));
                }
                assert(moves@ + unscored(pawn_moves(rest, d0, twice, first as int, last as int)) =~= old_list + unscored(pawn_moves(before, d0, twice, first as int, last as int)));
            },
            None => {
                assert(iter.remaining() =~= Seq::<u8>::empty());
                assert(moves@ =~= moves@ + unscored(pawn_moves(iter.remaining(), d0, twice, first as int, last as int)));
                break ;
            },
        }
    }
}

/// Pushes the en passant captures onto `ep` from each square of `starts`.
fn push_ep_moves(moves: &mut Moves, starts: Bitboard, ep: Square)
    requires
        ep.valid(),
        old(moves)@.len() + ep_moves(squares_of(starts.0), ep.0 as int).len() <= MAX_LEGAL_MOVES,
    ensures
        final(moves)@ == old(moves)@ + unscored(ep_moves(squares_of(starts.0), ep.0 as int)),
        final(moves)@.len() == old(moves)@.len() + ep_moves(squares_of(starts.0), ep.0 as int).len(),
{
    let ghost total = ep_moves(squares_of(starts.0), ep.0 as int);
    let mut iter = BitIter::new(starts);
    loop
        invariant
            ep.valid(),
            moves@ + unscored(ep_moves(iter.remaining(), ep.0 as int)) == old(moves)@ + unscored(total),
            moves@.len() + ep_moves(iter.remaining(), ep.0 as int).len() == old(moves)@.len() + total.len(),
            old(moves)@.len() + total.len() <= MAX_LEGAL_MOVES,
            total == ep_moves(squares_of(starts.0), ep.0 as int),
        ensures
            moves@ == old(moves)@ + unscored(total),
            moves@.len() == old(moves)@.len() + total.len(),
        decreases iter.remaining().len(),
    {
        let ghost before = iter.remaining();
        match iter.next() {
            Some(start) => {
                let ghost rest = iter.remaining();
                assert(before.drop_first() =~= rest);
                let ghost old_list = moves@;
                moves.push(Move::new_en_passant(start, ep));
                assert(moves@ + unscored(ep_moves(rest, ep.0 as int)) =~= old_list + unscored(ep_moves(before, ep.0 as int)));
            },
            None => {
                assert(iter.remaining() =~= Seq::<u8>::empty());
                assert(moves@ =~= moves@ + unscored(ep_moves(iter.remaining(), ep.0 as int)));
                break ;
            },
        }
    }
}

/// Pushes the pawn moves of the side to move that do not promote.
#[verifier::rlimit(40)]
fn generate_regular_pawn_moves<Type: MovesType, const IS_WHITE: bool>(
    board: &Board,
    lookup: &Lookup,
    moves: &mut Moves,
)
    requires
        board.wf(),
        lookup.wf(),
        board@.side_to_move < 2,
        IS_WHITE == (board@.side_to_move == Side::WHITE),
        old(moves)@.len() + regular_pawn_moves(board@, Type::non_king_quiets(), Type::captures()).len()
            <= MAX_LEGAL_MOVES,
    ensures
        final(moves)@ == old(moves)@ + unscored(regular_pawn_moves(
            board@,
            Type::non_king_quiets(),
            Type::captures(),
        )),
        final(moves)@.len() == old(moves)@.len() + regular_pawn_moves(
            board@,
            Type::non_king_quiets(),
            Type::captures(),
        ).len(),
{
    broadcast use group_sq_in;

    let ghost st = board@;
    let ghost old_list = moves@;
    let quiets = Type::generates_non_king_quiets();
    let captures = Type::generates_captures();
    let penultimate_rank = if IS_WHITE {
        Bitboard::rank_bb(Rank(Rank::RANK7))
    } else {
        Bitboard::rank_bb(Rank(Rank::RANK2))
    };
    let double_push_rank = if IS_WHITE {
        Bitboard::rank_bb(Rank(Rank::RANK4))
    } else {
        Bitboard::rank_bb(Rank(Rank::RANK5))
    };
    let forward = if IS_WHITE {
        Direction(Direction::N)
    } else {
        Direction(Direction::S)
    };
    let forward_right = if IS_WHITE {
        Direction(Direction::NE)
    } else {
        Direction(Direction::SE)
    };
    let forward_left = if IS_WHITE {
        Direction(Direction::NW)
    } else {
        Direction(Direction::SW)
    };
    let us_bb = board.side::<IS_WHITE>();
    let occupancies = board.occupancies();
    let them_bb = Bitboard(occupancies.0 ^ us_bb.0);
    let empty = Bitboard(!occupancies.0);
    let ep_square = board.ep_square();
    let pawns = Bitboard(board.piece::<0>().0 & us_bb.0);
    assert(occupancies.0 == occupancy(st.mailbox));
    assert(us_bb.0 == side_bb(st, st.side_to_move as int));

    let normal_pawns = Bitboard(pawns.0 & !penultimate_rank.0);
    let promotion_pawns = Bitboard(pawns.0 & penultimate_rank.0);

    // regular pushes
    if quiets {
        let pushed = normal_pawns.pawn_push::<IS_WHITE>();
        let single_push = Bitboard(pushed.0 & empty.0);
        let pushed_twice = single_push.pawn_push::<IS_WHITE>();
        let double_push = Bitboard(pushed_twice.0 & empty.0 & double_push_rank.0);
        assert forall|d: int| sq_in(single_push.0, d) implies 0 <= #[trigger] pawn_start(
            d,
            forward.0 as int,
            false,
        ) < 64 by {
            assert(pushed.holds(d));
        }
        assert forall|d: int| sq_in(double_push.0, d) implies 0 <= #[trigger] pawn_start(
            d,
            forward.0 as int,
            true,
        ) < 64 by {
            assert(pushed_twice.holds(d));
            if IS_WHITE {
                assert(single_push.holds(d - 8));
                assert(pushed.holds(d - 8));
            } else {
                assert(single_push.holds(d + 8));
                assert(pushed.holds(d + 8));
            }
        }
        push_pawn_moves(moves, single_push, forward, false, 0, 0);
        push_pawn_moves(moves, double_push, forward, true, 0, 0);
    }
    let ghost after_pushes = moves@;

    if captures {
        // regular captures
        let ahead = if IS_WHITE {
            normal_pawns.north()
        } else {
            normal_pawns.south()
        };
        let ahead_east = ahead.east();
        let ahead_west = ahead.west();
        let right_captures = Bitboard(ahead_east.0 & them_bb.0);
        let left_captures = Bitboard(ahead_west.0 & them_bb.0);
        assert forall|d: int| sq_in(right_captures.0, d) implies 0 <= #[trigger] pawn_start(
            d,
            forward_right.0 as int,
            false,
        ) < 64 by {
            assert(ahead_east.holds(d));
            assert(ahead.holds(d - 1));
        }
        assert forall|d: int| sq_in(left_captures.0, d) implies 0 <= #[trigger] pawn_start(
            d,
            forward_left.0 as int,
            false,
        ) < 64 by {
            assert(ahead_west.holds(d));
            assert(ahead.holds(d + 1));
        }
        push_pawn_moves(moves, right_captures, forward_right, false, 0, 0);
        push_pawn_moves(moves, left_captures, forward_left, false, 0, 0);

        // en passant
        if ep_square.0 != Square::NONE {
            let attackers = if IS_WHITE {
                Bitboard(lookup.pawn_attacks(Side(Side::BLACK), ep_square).0 & normal_pawns.0)
            } else {
                Bitboard(lookup.pawn_attacks(Side(Side::WHITE), ep_square).0 & normal_pawns.0)
            };
            push_ep_moves(moves, attackers, ep_square);
        }
    }
    let ghost after_captures = moves@;

    assert(moves@ =~= old_list + unscored(regular_pawn_moves(
        st,
        Type::non_king_quiets(),
        Type::captures(),
    )));
}

/// Pushes the promotions of the side to move.
#[verifier::rlimit(40)]
fn generate_promotions<Type: MovesType, const IS_WHITE: bool>(
    board: &Board,
    lookup: &Lookup,
    moves: &mut Moves,
)
    requires
        board.wf(),
        lookup.wf(),
        board@.side_to_move < 2,
        IS_WHITE == (board@.side_to_move == Side::WHITE),
        old(moves)@.len() + promotion_moves(board@, Type::non_king_quiets(), Type::captures()).len()
            <= MAX_LEGAL_MOVES,
    ensures
        final(moves)@ == old(moves)@ + unscored(promotion_moves(
            board@,
            Type::non_king_quiets(),
            Type::captures(),
        )),
        final(moves)@.len() == old(moves)@.len() + promotion_moves(
            board@,
            Type::non_king_quiets(),
            Type::captures(),
        ).len(),
{
    broadcast use group_sq_in;

    let ghost st = board@;
    let ghost old_list = moves@;
    let quiets = Type::generates_non_king_quiets();
    let captures = Type::generates_captures();
    let penultimate_rank = if IS_WHITE {
        Bitboard::rank_bb(Rank(Rank::RANK7))
    } else {
        Bitboard::rank_bb(Rank(Rank::RANK2))
    };
    let double_push_rank = if IS_WHITE {
        Bitboard::rank_bb(Rank(Rank::RANK4))
    } else {
        Bitboard::rank_bb(Rank(Rank::RANK5))
    };
    let forward = if IS_WHITE {
        Direction(Direction::N)
    } else {
        Direction(Direction::S)
    };
    let forward_right = if IS_WHITE {
        Direction(Direction::NE)
    } else {
        Direction(Direction::SE)
    };
    let forward_left = if IS_WHITE {
        Direction(Direction::NW)
    } else {
        Direction(Direction::SW)
    };
    let us_bb = board.side::<IS_WHITE>();
    let occupancies = board.occupancies();
    let them_bb = Bitboard(occupancies.0 ^ us_bb.0);
    let empty = Bitboard(!occupancies.0);
    let ep_square = board.ep_square();
    let pawns = Bitboard(board.piece::<0>().0 & us_bb.0);
    assert(occupancies.0 == occupancy(st.mailbox));
    assert(us_bb.0 == side_bb(st, st.side_to_move as int));

    let normal_pawns = Bitboard(pawns.0 & !penultimate_rank.0);
    let promotion_pawns = Bitboard(pawns.0 & penultimate_rank.0);

    // promotions: both pushes and captures
    let promo_pushed = promotion_pawns.pawn_push::<IS_WHITE>();
    let single_push = Bitboard(promo_pushed.0 & empty.0);
    let promo_ahead = if IS_WHITE {
        promotion_pawns.north()
    } else {
        promotion_pawns.south()
    };
    let promo_east = promo_ahead.east();
    let promo_west = promo_ahead.west();
    let right_captures = Bitboard(promo_east.0 & them_bb.0);
    let left_captures = Bitboard(promo_west.0 & them_bb.0);
    assert forall|d: int| sq_in(single_push.0, d) implies 0 <= #[trigger] pawn_start(
        d,
        forward.0 as int,
        false,
    ) < 64 by {
        assert(promo_pushed.holds(d));
    }
    assert forall|d: int| sq_in(right_captures.0, d) implies 0 <= #[trigger] pawn_start(
        d,
        forward_right.0 as int,
        false,
    ) < 64 by {
        assert(promo_east.holds(d));
        assert(promo_ahead.holds(d - 1));
    }
    assert forall|d: int| sq_in(left_captures.0, d) implies 0 <= #[trigger] pawn_start(
        d,
        forward_left.0 as int,
        false,
    ) < 64 by {
        assert(promo_west.holds(d));
        assert(promo_ahead.holds(d + 1));
    }

    if quiets {
        push_pawn_moves(moves, single_push, forward, false, 1, 3);
    }
    let ghost after_promo_quiets = moves@;
    if captures {
        push_pawn_moves(moves, single_push, forward, false, 4, 4);
        push_pawn_moves(moves, right_captures, forward_right, false, 1, 4);
        push_pawn_moves(moves, left_captures, forward_left, false, 1, 4);
    }
    assert(moves@ =~= old_list + unscored(promotion_moves(
        st,
        Type::non_king_quiets(),
        Type::captures(),
    )));
}

/// Pushes the pawn moves of the side to move (see [`pawn_moves_of`]).
#[verifier::rlimit(40)]
fn generate_pawn_moves<Type: MovesType, const IS_WHITE: bool>(
    board: &Board,
    lookup: &Lookup,
    moves: &mut Moves,
)
    requires
        board.wf(),
        lookup.wf(),
        board@.side_to_move < 2,
        IS_WHITE == (board@.side_to_move == Side::WHITE),
        old(moves)@.len() + pawn_moves_of(board@, Type::non_king_quiets(), Type::captures()).len()
            <= MAX_LEGAL_MOVES,
    ensures
        final(moves)@ == old(moves)@ + unscored(pawn_moves_of(
            board@,
            Type::non_king_quiets(),
            Type::captures(),
        )),
        final(moves)@.len() == old(moves)@.len() + pawn_moves_of(
            board@,
            Type::non_king_quiets(),
            Type::captures(),
        ).len(),
{
    let ghost st = board@;
    let ghost old_list = moves@;
    generate_regular_pawn_moves::<Type, IS_WHITE>(board, lookup, moves);
    generate_promotions::<Type, IS_WHITE>(board, lookup, moves);
    assert(moves@ =~= old_list + unscored(pawn_moves_of(
        st,
        Type::non_king_quiets(),
        Type::captures(),
    )));
}

/// Calculates all pseudo-legal moves of the given kinds for the current
/// position of the given board (see [`generated_moves`]) and appends them,
/// with a score of 0, to `moves`.
pub fn generate_moves<Type: MovesType>(board: &Board, lookup: &Lookup, moves: &mut Moves)
    requires
        board.wf(),
        lookup.wf(),
        board@.side_to_move < 2,
        has_king(board@),
        old(moves)@.len() + generated_moves(
            board@,
            Type::non_king_quiets(),
            Type::king_quiets(),
            Type::captures(),
        ).len() <= MAX_LEGAL_MOVES,
    ensures
        final(moves)@ == old(moves)@ + unscored(generated_moves(
            board@,
            Type::non_king_quiets(),
            Type::king_quiets(),
            Type::captures(),
        )),
        final(moves)@.len() == old(moves)@.len() + generated_moves(
            board@,
            Type::non_king_quiets(),
            Type::king_quiets(),
            Type::captures(),
        ).len(),
{
    let ghost st = board@;
    let ghost old_list = moves@;
    if board.side_to_move().0 == Side::WHITE {
        generate_pawn_moves::<Type, true>(board, lookup, moves);
        generate_non_sliding_moves::<Type, true>(board, lookup, moves);
        generate_sliding_moves::<Type, true>(board, lookup, moves);
        generate_castling::<Type, true>(board, moves);
    } else {
        generate_pawn_moves::<Type, false>(board, lookup, moves);
        generate_non_sliding_moves::<Type, false>(board, lookup, moves);
        generate_sliding_moves::<Type, false>(board, lookup, moves);
        generate_castling::<Type, false>(board, moves);
    }
    assert(moves@ =~= old_list + unscored(generated_moves(
        st,
        Type::non_king_quiets(),
        Type::king_quiets(),
        Type::captures(),
    )));
}

} // verus!
