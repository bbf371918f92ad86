//! Generation of openings: positions a few random moves after a base
//! position, kept only if a shallow search finds them unbalanced but not
//! too unbalanced.
use vstd::prelude::*;

use oorandom::Rand64;

use crate::board::make::{after_move, legal_move, move_ok};
use crate::board::{Board, BoardState};
use crate::board::fen::parse_fen;
use crate::defs::Side;
use crate::error::ParseError;
use crate::uci::{bytes_eq, parse_u64, parse_unsigned, token_is};
use crate::evaluation::Evaluation;
use crate::lookups::Tables;
use crate::movegen::generate::{generate_moves, generated_moves, AllMoves};
use crate::movegen::list::{unscored, Moves, ScoredMove, MAX_LEGAL_MOVES};
use crate::movegen::Move;
use crate::perft::all_moves;
use crate::search::depth::{Depth, Height};
use crate::search::movepick::candidate;
use crate::search::outside::send_line;
use crate::search::worker::{search_ready, tree_ok, Worker};
use crate::search::aspiration::AspirationWindow;
use crate::search::{Pv, RootNode};
use crate::movegen::list::random_in_range;
use crate::util::push_all;

verus! {

/// The closest an opening's score can be to 0 while still being discarded.
pub const MAX_SCORE: i32 = 120;
/// The furthest an opening's score can be away from 0 while still being
/// discarded.
pub const MIN_SCORE: i32 = 80;
/// How deeply each position is searched to get an evaluation.
pub const SEARCH_DEPTH: i16 = 3;

/// `info string genfens `
pub const INFO_GENFENS: [u8; 20] = [
    105, 110, 102, 111, 32, 115, 116, 114, 105, 110, 103, 32, 103, 101, 110, 102, 101, 110, 115, 32,
];

/// Each position within `depth` random moves of `state` can be searched,
/// and its moves generated, all of them in one list, and made.
pub open spec fn openings_ok(state: BoardState, depth: nat) -> bool
    decreases depth,
{
    &&& tree_ok(state, 255)
    &&& depth > 0 ==> all_moves(state).len() <= MAX_LEGAL_MOVES
    &&& depth > 0 ==> forall|mv: Move|
        #[trigger] candidate(state, mv) && legal_move(state, mv) ==> openings_ok(
            after_move(state, mv),
            (depth - 1) as nat,
        )
}

/// Popping a move at random leaves candidates only.
proof fn lemma_pop_keeps_candidates(state: BoardState, before: Seq<ScoredMove>, after: Seq<ScoredMove>)
    requires
        forall|i: int| 0 <= i < before.len() ==> #[trigger] candidate(state, before[i].mv),
        exists|index: int|
            0 <= index < before.len() && after == before.update(index, before.last()).drop_last(),
    ensures
        forall|i: int| 0 <= i < after.len() ==> #[trigger] candidate(state, after[i].mv),
{
    let index = choose|index: int|
        0 <= index < before.len() && after == before.update(index, before.last()).drop_last();
    assert forall|i: int| 0 <= i < after.len() implies #[trigger] candidate(state, after[i].mv) by {
        if i == index {
            assert(candidate(state, before[before.len() - 1].mv));
        } else {
            assert(candidate(state, before[i].mv));
        }
    }
}

/// Sends as many openings as it can, up to `required_openings`, that are
/// `depth` halfmoves after the given board, returning the number of
/// openings it failed to generate.
///
/// The moves are tried in a random order; a move is kept if a search of
/// [`SEARCH_DEPTH`] scores it strictly within `alpha..beta`, and then the
/// openings after it are generated with the window turned round.
#[verifier::rlimit(40)]
pub fn generate_openings_for_board(
    worker: &mut Worker,
    pv: &mut Pv,
    board: &Board,
    required_openings: usize,
    depth: Depth,
    alpha: Evaluation,
    beta: Evaluation,
    rng: &mut Rand64,
    tables: &Tables,
) -> (left: usize)
    requires
        old(worker).wf(),
        board.wf(),
        tables.wf(),
        required_openings > 0,
        0 <= depth.0,
        openings_ok(board@, depth.0 as nat),
        alpha.in_range(),
        beta.in_range(),
        alpha.0 < beta.0,
    ensures
        final(worker).wf(),
        left <= required_openings,
        depth.0 == 0 ==> left == required_openings - 1,
        final(worker).histories.board_history@ == old(worker).histories.board_history@,
        final(worker).board == old(worker).board,
    decreases depth.0,
{
    if depth.0 == 0 {
        let mut line: Vec<u8> = Vec::new();
        push_all(&mut line, &INFO_GENFENS);
        let fen = board.to_fen();
        push_all(&mut line, fen.as_slice());
        send_line(&worker.output, line);
        return required_openings - 1;
    }
    let ghost state = board@;
    assert(tree_ok(state, 255));
    assert(search_ready(state));
    let mut moves = Moves::new();
    generate_moves::<AllMoves>(board, &tables.attacks, &mut moves);
    assert(moves@ =~= unscored(all_moves(state)));
    assert forall|i: int| 0 <= i < moves@.len() implies #[trigger] candidate(state, moves@[i].mv) by {
        assert(generated_moves(state, true, true, true)[i] == moves@[i].mv);
    }
    let mut required = required_openings;
    loop
        invariant_except_break
            0 < required,
        invariant
            worker.wf(),
            board.wf(),
            tables.wf(),
            board@ == state,
            0 < depth.0,
            openings_ok(state, depth.0 as nat),
            tree_ok(state, 255),
            alpha.in_range(),
            beta.in_range(),
            alpha.0 < beta.0,
            required <= required_openings,
            worker.histories.board_history@ == old(worker).histories.board_history@,
            worker.board == old(worker).board,
            forall|i: int|
                0 <= i < moves@.len() ==> #[trigger] candidate(state, moves@[i].mv),
        decreases moves@.len(),
    {
        let ghost before = moves@;
        let scored = match moves.pop_random(rng) {
            Some(scored) => scored,
            None => {
                break ;
            },
        };
        let mv = scored.mv;
        assert(candidate(state, mv));
        proof {
            lemma_pop_keeps_candidates(state, before, moves@);
        }
        let mut copy = *board;
        if worker.histories.board_history.len() >= 255 {
            continue ;
        }
        if !copy.can_make(mv) {
            continue ;
        }
        if !worker.make_move(&mut copy, mv, tables) {
            continue ;
        }
        assert(openings_ok(after_move(state, mv), (depth.0 - 1) as nat));
        assert(tree_ok(copy@, 255));
        pv.clear();
        let score = Evaluation(
            -worker.search::<RootNode>(
                pv,
                &copy,
                Evaluation(-beta.0),
                Evaluation(-alpha.0),
                Depth(SEARCH_DEPTH),
                Height(0),
                tables,
            ).0,
        );
        worker.unmake_move();
        if score.0 <= alpha.0 || score.0 >= beta.0 {
            continue ;
        }
        required = generate_openings_for_board(
            worker,
            pv,
            &copy,
            required,
            Depth(depth.0 - 1),
            Evaluation(-beta.0),
            Evaluation(-alpha.0),
            rng,
            tables,
        );
        if required == 0 {
            break ;
        }
    }
    required
}

// ---------------------------------------------------------------------------
// Arguments.

/// `seed`
pub const WORD_SEED: [u8; 4] = [115, 101, 101, 100];
/// `book`
pub const WORD_BOOK: [u8; 4] = [98, 111, 111, 107];
/// `None`
pub const WORD_NONE: [u8; 4] = [78, 111, 110, 101];

/// The arguments of opening generation.
#[derive(Clone, Debug, PartialEq, Eq)]
pub struct GenfensArgs {
    /// The number of openings to generate now.
    pub required_openings: usize,
    /// The number of openings required in total.
    pub total_openings: usize,
    /// The seed of the random moves.
    pub seed: u64,
    /// The path of the book of base openings, if any.
    pub book: Option<Vec<u8>>,
    /// The side the openings favour, [`Side::NONE`] for neither.
    pub favoured_side: Side,
}

/// What the arguments `<N> seed <S> book <None|path> [T] [s]` give:
/// `ExpectedToken` for a missing number or book, `InvalidToken` for a
/// missing or wrong `seed` or `book` or a side that is neither `w` nor
/// `b`, `ErroneousToken` for a number that does not parse. The total `T`
/// defaults to `N` and the side `s` to none.
pub open spec fn genfens_args(tokens: Seq<Vec<u8>>) -> Result<
    (usize, usize, u64, Option<Seq<u8>>, u8),
    ParseError,
> {
    if tokens.len() < 1 {
        Err(ParseError::ExpectedToken)
    } else if parse_unsigned(tokens[0]@, usize::MAX as nat) is None {
        Err(ParseError::ErroneousToken)
    } else if !token_is(tokens, 1, WORD_SEED@) {
        Err(ParseError::InvalidToken)
    } else if tokens.len() < 3 {
        Err(ParseError::ExpectedToken)
    } else if parse_unsigned(tokens[2]@, u64::MAX as nat) is None {
        Err(ParseError::ErroneousToken)
    } else if !token_is(tokens, 3, WORD_BOOK@) {
        Err(ParseError::InvalidToken)
    } else if tokens.len() < 5 {
        Err(ParseError::ExpectedToken)
    } else if tokens.len() > 5 && parse_unsigned(tokens[5]@, usize::MAX as nat) is None {
        Err(ParseError::ErroneousToken)
    } else if tokens.len() > 6 && tokens[6]@ != seq![119u8] && tokens[6]@ != seq![98u8] {
        Err(ParseError::InvalidToken)
    } else {
        let required = parse_unsigned(tokens[0]@, usize::MAX as nat)->Some_0;
        Ok(
            (
                required as usize,
                if tokens.len() > 5 {
                    parse_unsigned(tokens[5]@, usize::MAX as nat)->Some_0 as usize
                } else {
                    required as usize
                },
                parse_unsigned(tokens[2]@, u64::MAX as nat)->Some_0 as u64,
                if tokens[4]@ == WORD_NONE@ {
                    None
                } else {
                    Some(tokens[4]@)
                },
                if tokens.len() > 6 {
                    if tokens[6]@ == seq![119u8] {
                        Side::WHITE
                    } else {
                        Side::BLACK
                    }
                } else {
                    Side::NONE
                },
            ),
        )
    }
}

/// Parses the arguments of opening generation (see [`genfens_args`]).
pub fn parse_args(tokens: &[Vec<u8>]) -> (args: Result<GenfensArgs, ParseError>)
    ensures
        match args {
            Ok(a) => genfens_args(tokens@) == Ok::<_, ParseError>(
                (
                    a.required_openings,
                    a.total_openings,
                    a.seed,
                    match a.book {
                        Some(b) => Some(b@),
                        None => None,
                    },
                    a.favoured_side.0,
                ),
            ),
            Err(e) => genfens_args(tokens@) == Err::<(usize, usize, u64, Option<Seq<u8>>, u8), _>(e),
        },
{
    if tokens.len() < 1 {
        return Err(ParseError::ExpectedToken);
    }
    let required = match parse_u64(tokens[0].as_slice(), usize::MAX as u64) {
        Some(n) => n as usize,
        None => {
            return Err(ParseError::ErroneousToken);
        },
    };
    if tokens.len() < 2 || !bytes_eq(tokens[1].as_slice(), &WORD_SEED) {
        return Err(ParseError::InvalidToken);
    }
    if tokens.len() < 3 {
        return Err(ParseError::ExpectedToken);
    }
    let seed = match parse_u64(tokens[2].as_slice(), u64::MAX) {
        Some(n) => n,
        None => {
            return Err(ParseError::ErroneousToken);
        },
    };
    if tokens.len() < 4 || !bytes_eq(tokens[3].as_slice(), &WORD_BOOK) {
        return Err(ParseError::InvalidToken);
    }
    if tokens.len() < 5 {
        return Err(ParseError::ExpectedToken);
    }
    let total = if tokens.len() > 5 {
        match parse_u64(tokens[5].as_slice(), usize::MAX as u64) {
            Some(n) => n as usize,
            None => {
                return Err(ParseError::ErroneousToken);
            },
        }
    } else {
        required
    };
    let favoured_side = if tokens.len() > 6 {
        match Side::from_bytes(tokens[6].as_slice()) {
            Ok(side) => side,
            Err(e) => {
                return Err(e);
            },
        }
    } else {
        Side(Side::NONE)
    };
    let book = if bytes_eq(tokens[4].as_slice(), &WORD_NONE) {
        None
    } else {
        Some(tokens[4].clone())
    };
    let args = GenfensArgs {
        required_openings: required,
        total_openings: total,
        seed,
        book,
        favoured_side,
    };
    Ok(args)
}


/// How many openings are generated at most off one base opening: the
/// openings required in total shared among the base openings, plus 2.
pub fn openings_per_base(total_openings: usize, base_count: usize) -> (per_base: usize)
    requires
        base_count > 0,
        total_openings / base_count + 2 <= usize::MAX,
    ensures
        per_base == total_openings / base_count + 2,
{
    total_openings / base_count + 2
}

/// How many openings one round generates at most: `per_base`, or all
/// that are still owed if fewer.
pub open spec fn round_size(remaining: int, per_base: int) -> int {
    if per_base < remaining {
        per_base
    } else {
        remaining
    }
}

/// What a round of opening generation needs of its arguments: a base
/// opening to draw, openings still owed, a depth for each number of them
/// that can be asked for, and every base opening that parses deep enough
/// to search.
pub open spec fn round_ok(base_openings: Seq<Vec<u8>>, remaining: int, per_base: int, depths: Seq<i16>) -> bool {
    &&& base_openings.len() > 0
    &&& remaining > 0
    &&& per_base > 0
    &&& depths.len() > round_size(remaining, per_base)
    &&& forall|k: int| 0 <= k < depths.len() ==> 0 <= #[trigger] depths[k] <= 255
    &&& forall|i: int, k: int|
        0 <= i < base_openings.len() && 0 <= k < depths.len() ==> match parse_fen(
            #[trigger] base_openings[i]@,
        ) {
            Ok(state) => openings_ok(state, #[trigger] depths[k] as nat),
            Err(_) => true,
        }
}

/// One round of opening generation off the base opening at `index`, of
/// `remaining` openings still owed: the base opening is parsed (its error
/// is returned if it does not parse), then up to `per_base` of the owed
/// openings are generated off it, `depths[n]` random moves deep when `n`
/// are asked for. The window favours the side `favoured_side` if it is to
/// move, the other side if it is not, and if neither side is favoured,
/// whichever side a search of [`SEARCH_DEPTH`] of the base opening
/// prefers. Returns how many openings are still owed: at a depth of 0,
/// one opening, the base itself, is sent.
pub fn generate_fens_from_index(
    worker: &mut Worker,
    pv: &mut Pv,
    favoured_side: Side,
    base_openings: &[Vec<u8>],
    index: usize,
    remaining: usize,
    per_base: usize,
    depths: &[i16],
    rng: &mut Rand64,
    tables: &Tables,
) -> (result: Result<usize, ParseError>)
    requires
        old(worker).wf(),
        tables.wf(),
        round_ok(base_openings@, remaining as int, per_base as int, depths@),
        index < base_openings@.len(),
    ensures
        final(worker).wf(),
        result is Err <==> parse_fen(base_openings@[index as int]@) is Err,
        result matches Err(e) ==> parse_fen(base_openings@[index as int]@) == Err::<
            crate::board::BoardState,
            ParseError,
        >(e),
        result matches Ok(left) ==> left <= remaining && remaining - round_size(
            remaining as int,
            per_base as int,
        ) <= left,
        depths@[round_size(remaining as int, per_base as int)] == 0 ==> (result matches Ok(left)
            ==> left == remaining - 1),
{
    let this_iteration = if per_base < remaining {
        per_base
    } else {
        remaining
    };
    let board = match Board::from_fen(base_openings[index].as_slice(), tables) {
        Ok(board) => board,
        Err(e) => {
            return Err(e);
        },
    };
    let depth = depths[this_iteration];
    assert(openings_ok(board@, depth as nat));
    assert(openings_ok(board@, depth as nat) ==> tree_ok(board@, 255));
    worker.reset_board(&board);
    let (alpha, beta) = if favoured_side.0 == board.side_to_move().0 {
        (MIN_SCORE, MAX_SCORE)
    } else if favoured_side.0 != Side::NONE {
        (-MAX_SCORE, -MIN_SCORE)
    } else {
        let mut window = AspirationWindow::new();
        let mut base_pv = Pv::new();
        let base_score = worker.aspiration_loop(&mut base_pv, &mut window, Depth(SEARCH_DEPTH), tables);
        if base_score.0 > 0 {
            (MIN_SCORE, MAX_SCORE)
        } else {
            (-MAX_SCORE, -MIN_SCORE)
        }
    };
    let failed = generate_openings_for_board(
        worker,
        pv,
        &board,
        this_iteration,
        Depth(depth),
        Evaluation(alpha),
        Evaluation(beta),
        rng,
        tables,
    );
    Ok(remaining - (this_iteration - failed))
}

/// One round of opening generation, of `remaining` openings still owed: a
/// base opening is drawn at random, and a round of
/// [`generate_fens_from_index`] is run off it. Returns how many openings
/// are still owed, or the error of the base opening drawn.
pub fn generate_fens_step(
    worker: &mut Worker,
    pv: &mut Pv,
    favoured_side: Side,
    base_openings: &[Vec<u8>],
    remaining: usize,
    per_base: usize,
    depths: &[i16],
    rng: &mut Rand64,
    tables: &Tables,
) -> (result: Result<usize, ParseError>)
    requires
        old(worker).wf(),
        tables.wf(),
        round_ok(base_openings@, remaining as int, per_base as int, depths@),
    ensures
        final(worker).wf(),
        exists|index: int|
            0 <= index < base_openings@.len() && (result is Err <==> parse_fen(
                #[trigger] base_openings@[index]@,
            ) is Err) && (result matches Err(e) ==> parse_fen(base_openings@[index]@) == Err::<
                crate::board::BoardState,
                ParseError,
            >(e)),
        result matches Ok(left) ==> left <= remaining && remaining - round_size(
            remaining as int,
            per_base as int,
        ) <= left,
        depths@[round_size(remaining as int, per_base as int)] == 0 ==> (result matches Ok(left)
            ==> left == remaining - 1),
{
    let index = random_in_range(rng, 0, base_openings.len() as u64) as usize;
    let result = generate_fens_from_index(
        worker,
        pv,
        favoured_side,
        base_openings,
        index,
        remaining,
        per_base,
        depths,
        rng,
        tables,
    );
    result
}

} // verus!
