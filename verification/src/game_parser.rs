//! Sampling positions from games. The moves of a game, given in standard
//! algebraic notation, are played on a board; at the end of the game a few
//! of the positions met are searched deeply, the principal variation is
//! played out on each and the position is sent with the game's result.
use vstd::prelude::*;

use std::sync::mpsc::{Receiver, Sender};

use oorandom::Rand64;

use crate::bitboard::{bit, squares_of, BitIter, Bitboard};
use crate::board::make::{abandoned_move, after_move, legal_move, move_ok};
use crate::board::{kind_bb, Board, BoardState};
use crate::defs::{File, Piece, PieceType, Rank, Side, Square};
use crate::board::fen::parse_fen;
use crate::error::ParseError;
use crate::lookups::{king_bb, knight_bb, pawn_bb, queen_attacks_spec, slider_attacks, Tables};
use crate::movegen::list::random_in_range;
use crate::movegen::{pack, Move};
use crate::search::depth::CompressedDepth;
use crate::search::history::Histories;
use crate::search::outside::send_line;
use crate::search::worker::{tree_ok, Worker};
use crate::search::{Limits, Pv};
use crate::transposition_table::TranspositionTable;
use crate::uci::bytes_eq;
use crate::util::push_all;

verus! {

/// A move in standard algebraic notation that is not castling: the type of
/// the piece that moves, the file or rank it leaves if given, whether it
/// captures, the square it goes to and the type it promotes to, if any.
#[derive(Clone, Copy, Debug)]
pub struct SanMove {
    pub piece_type: PieceType,
    pub file: Option<File>,
    pub rank: Option<Rank>,
    pub capture: bool,
    pub end: Square,
    pub promotion: Option<PieceType>,
}

/// A move of a game: a move that is not castling, or castling to one side.
#[derive(Clone, Copy, Debug)]
pub enum SanPlay {
    Normal(SanMove),
    Castle { kingside: bool },
}

/// The fields of a move are in range, and it promotes, if at all, to a
/// knight, bishop, rook or queen.
pub open spec fn san_ok(san: SanMove) -> bool {
    &&& san.piece_type.0 < 6
    &&& san.end.valid()
    &&& san.file matches Some(f) ==> f.0 < 8
    &&& san.rank matches Some(r) ==> r.0 < 8
    &&& san.promotion matches Some(p) ==> 1 <= p.0 <= 4
}

/// The squares from which a piece of the type of `san` reaches its end
/// square: for a pawn capture those a pawn of the side to move attacks it
/// from; for a pawn push the square behind it if a piece of that type is
/// there, else the one behind that; for any other piece those it attacks
/// the end square from. Only squares holding a piece of that type count,
/// but for pushes.
pub open spec fn reach(state: BoardState, san: SanMove) -> u64 {
    let us = state.side_to_move as int;
    let end = san.end.0 as int;
    let pieces = kind_bb(state.mailbox, san.piece_type.0 as int, 64);
    let occupied = kind_bb(state.mailbox, 7, 64) | kind_bb(state.mailbox, 6, 64);
    let t = san.piece_type.0;
    if t == PieceType::PAWN {
        if san.capture {
            pawn_bb(1 - us, end) & pieces
        } else if us == Side::WHITE {
            let behind = bit(end) >> 8u64;
            if behind & pieces != 0 {
                behind
            } else {
                behind >> 8u64
            }
        } else {
            let behind = bit(end) << 8u64;
            if behind & pieces != 0 {
                behind
            } else {
                behind << 8u64
            }
        }
    } else if t == PieceType::KNIGHT {
        knight_bb(end) & pieces
    } else if t == PieceType::BISHOP {
        slider_attacks(true, end, occupied) & pieces
    } else if t == PieceType::ROOK {
        slider_attacks(false, end, occupied) & pieces
    } else if t == PieceType::QUEEN {
        queen_attacks_spec(end, occupied) & pieces
    } else {
        king_bb(end) & pieces
    }
}

/// The squares the move may start from: those of [`reach`] holding a piece
/// of the side to move, on the given file, or else on the given rank.
pub open spec fn san_origins(state: BoardState, san: SanMove) -> u64 {
    let possible = reach(state, san) & kind_bb(state.mailbox, 6 + state.side_to_move, 64);
    match san.file {
        Some(f) => possible & (0x0101_0101_0101_0101u64 << f.0),
        None => match san.rank {
            Some(r) => possible & (0xffu64 << (r.0 * 8)),
            None => possible,
        },
    }
}

/// The move from `start` that `san` names: a promotion if it promotes, en
/// passant if it captures onto an empty square, and a plain move otherwise.
pub open spec fn san_move(state: BoardState, san: SanMove, start: int) -> Move {
    let end = san.end.0 as u16;
    Move {
        bits: match san.promotion {
            Some(p) => pack(start as u16, end, Move::PROMOTION, (p.0 - 1) as u16),
            None => if san.capture && state.mailbox[san.end.0 as int].0 == Piece::NONE {
                pack(start as u16, end, Move::EN_PASSANT, 0)
            } else {
                pack(start as u16, end, Move::NORMAL, 0)
            },
        },
    }
}

/// What playing `mv` on `state` gives: the state after it if it is legal,
/// what an illegal move leaves if it is not, and `state` itself if the
/// board cannot make it.
pub open spec fn played(state: BoardState, mv: Move) -> BoardState {
    if !move_ok(state, mv) {
        state
    } else if legal_move(state, mv) {
        after_move(state, mv)
    } else {
        abandoned_move(state, mv)
    }
}

/// Playing the move `san` from the first of `starts` whose move the board
/// can make and is legal; `state` if there is none.
pub open spec fn played_from(state: BoardState, san: SanMove, starts: Seq<u8>) -> BoardState
    decreases starts.len(),
{
    if starts.len() == 0 {
        state
    } else {
        let mv = san_move(state, san, starts[0] as int);
        if move_ok(state, mv) && legal_move(state, mv) {
            after_move(state, mv)
        } else {
            played_from(state, san, starts.drop_first())
        }
    }
}

/// A piece move of a game (not a pawn's), with neither file nor rank
/// given, may start from exactly the squares holding a piece of its type
/// of the side to move that reaches the end square: a knight or king a
/// knight's or king's step away, a bishop along a free diagonal, a rook
/// along a free rank or file, and a queen along either.
pub proof fn lemma_piece_move_origins(state: BoardState, san: SanMove, s: int)
    requires
        1 <= san.piece_type.0 <= 5,
        san.file is None,
        san.rank is None,
        state.side_to_move < 2,
        0 <= s < 64,
    ensures
        crate::bitboard::sq_in(san_origins(state, san), s) <==> ({
            let occupied = kind_bb(state.mailbox, 7, 64) | kind_bb(state.mailbox, 6, 64);
            let end = san.end.0 as int;
            let t = san.piece_type.0;
            &&& state.mailbox[s].0 < 12
            &&& state.mailbox[s].type_of() == t
            &&& state.mailbox[s].side_of() == state.side_to_move
            &&& t == PieceType::KNIGHT ==> crate::bitboard::sq_in(knight_bb(end), s)
            &&& t == PieceType::KING ==> crate::bitboard::sq_in(king_bb(end), s)
            &&& t == PieceType::BISHOP ==> crate::bitboard::sq_in(slider_attacks(true, end, occupied), s)
            &&& t == PieceType::ROOK ==> crate::bitboard::sq_in(slider_attacks(false, end, occupied), s)
            &&& t == PieceType::QUEEN ==> crate::bitboard::sq_in(slider_attacks(true, end, occupied), s)
                || crate::bitboard::sq_in(slider_attacks(false, end, occupied), s)
        }),
{
    broadcast use crate::bitboard::group_sq_in;

    crate::board::lemma_kind_bb(state.mailbox, san.piece_type.0 as int, 64, s);
    crate::board::lemma_kind_bb(state.mailbox, 6 + state.side_to_move, 64, s);
}

/// A move of a game is played whenever one of the squares it may start
/// from gives a move the board can make that is legal: the first such
/// move is made.
pub proof fn lemma_legal_san_move_is_played(state: BoardState, san: SanMove, starts: Seq<u8>, i: int)
    requires
        0 <= i < starts.len(),
        move_ok(state, san_move(state, san, starts[i] as int)),
        legal_move(state, san_move(state, san, starts[i] as int)),
    ensures
        exists|j: int|
            0 <= j <= i && move_ok(state, #[trigger] san_move(state, san, starts[j] as int))
                && legal_move(state, san_move(state, san, starts[j] as int)) && played_from(state, san, starts)
                == after_move(state, san_move(state, san, starts[j] as int)),
    decreases i,
{
    let mv = san_move(state, san, starts[0] as int);
    if move_ok(state, mv) && legal_move(state, mv) {
        assert(played_from(state, san, starts) == after_move(state, san_move(state, san, starts[0] as int)));
    } else {
        assert(i > 0);
        lemma_legal_san_move_is_played(state, san, starts.drop_first(), i - 1);
        let j = choose|j: int|
            0 <= j <= i - 1 && move_ok(state, #[trigger] san_move(state, san, starts.drop_first()[j] as int))
                && legal_move(state, san_move(state, san, starts.drop_first()[j] as int)) && played_from(
                state,
                san,
                starts.drop_first(),
            ) == after_move(state, san_move(state, san, starts.drop_first()[j] as int));
        assert(starts.drop_first()[j] == starts[j + 1]);
    }
}

impl Board {
    /// Plays `mv` if the board can make it (see [`played`]).
    pub fn play_if_possible(&mut self, mv: Move, tables: &Tables)
        requires
            old(self).wf(),
            tables.wf(),
        ensures
            final(self).wf(),
            final(self)@ == played(old(self)@, mv),
            !move_ok(old(self)@, mv) ==> *final(self) == *old(self),
    {
        if self.can_make(mv) {
            self.make_move(mv, tables);
        }
    }
}

/// Makes the non-castling move `san` on `board`: each square it may start
/// from is tried in turn on a copy of the board, and the first move that
/// is legal is played (see [`played_from`]). There is more than one such
/// square only when the pieces on the others are pinned. With no side to
/// move the board is kept.
pub fn make_non_castle_move(board: &mut Board, san: SanMove, tables: &Tables)
    requires
        old(board).wf(),
        tables.wf(),
        san_ok(san),
    ensures
        final(board).wf(),
        old(board)@.side_to_move >= 2 ==> *final(board) == *old(board),
        old(board)@.side_to_move < 2 ==> final(board)@ == played_from(
            old(board)@,
            san,
            squares_of(san_origins(old(board)@, san)),
        ),
{
    let us = board.side_to_move();
    if us.0 >= 2 {
        return;
    }
    let ghost state = board@;
    let end = san.end;
    let t = san.piece_type.0;
    let pieces = board.pieces_of(san.piece_type);
    let lookup = &tables.attacks;
    let reach_bb = if t == PieceType::PAWN {
        if san.capture {
            Bitboard(lookup.pawn_attacks(us.flip(), end).0 & pieces.0)
        } else if us.0 == Side::WHITE {
            let behind = Bitboard::from_square(end).south();
            if behind.0 & pieces.0 != 0 {
                behind
            } else {
                behind.south()
            }
        } else {
            let behind = Bitboard::from_square(end).north();
            if behind.0 & pieces.0 != 0 {
                behind
            } else {
                behind.north()
            }
        }
    } else if t == PieceType::KNIGHT {
        Bitboard(lookup.knight_attacks(end).0 & pieces.0)
    } else if t == PieceType::BISHOP {
        Bitboard(lookup.bishop_attacks(end, board.occupancies()).0 & pieces.0)
    } else if t == PieceType::ROOK {
        Bitboard(lookup.rook_attacks(end, board.occupancies()).0 & pieces.0)
    } else if t == PieceType::QUEEN {
        Bitboard(lookup.queen_attacks(end, board.occupancies()).0 & pieces.0)
    } else {
        Bitboard(lookup.king_attacks(end).0 & pieces.0)
    };
    let possible = Bitboard(reach_bb.0 & board.side_any(us).0);
    let origins = match san.file {
        Some(file) => Bitboard(possible.0 & Bitboard::file_bb(file).0),
        None => match san.rank {
            Some(rank) => Bitboard(possible.0 & Bitboard::rank_bb(rank).0),
            None => possible,
        },
    };
    assert(origins.0 == san_origins(state, san));
    let mut iter = BitIter::new(origins);
    loop
        invariant
            board.wf(),
            tables.wf(),
            san_ok(san),
            end == san.end,
            *board == *old(board),
            state == old(board)@,
            state.side_to_move < 2,
            board@ == state,
            played_from(state, san, iter.remaining()) == played_from(
                state,
                san,
                squares_of(san_origins(state, san)),
            ),
        decreases iter.remaining().len(),
    {
        let ghost remaining = iter.remaining();
        let start = match iter.next() {
            Some(start) => start,
            None => {
                return;
            },
        };
        let mv = if let Some(promotion) = san.promotion {
            Move::new_promo_any(start, end, promotion)
        } else if san.capture && board.piece_on(end).0 == Piece::NONE {
            Move::new_en_passant(start, end)
        } else {
            Move::new(start, end)
        };
        assert(mv == san_move(state, san, start.0 as int));
        assert(remaining.drop_first() =~= iter.remaining());
        let mut copy = *board;
        if copy.can_make(mv) && copy.make_move(mv, tables) {
            *board = copy;
            return;
        }
    }
}

/// Plays out the moves of `pv` on `board`, each that the board can make.
fn play_out(board: &mut Board, pv: &Pv, tables: &Tables)
    requires
        old(board).wf(),
        tables.wf(),
    ensures
        final(board).wf(),
{
    let len = pv.len();
    let mut i: usize = 0;
    while i < len
        invariant
            board.wf(),
            tables.wf(),
            len == pv@.len(),
            i <= len,
        decreases len - i,
    {
        let mv = pv.get(i);
        board.play_if_possible(mv, tables);
        i += 1;
    }
}

/// The castling move of `side` (White's for White, Black's otherwise) to
/// the king's or the queen's side.
pub open spec fn castle_move(side: u8, kingside: bool) -> Move {
    let white = side == Side::WHITE;
    Move {
        bits: pack(
            if white { 4 } else { 60 },
            if white {
                if kingside { 6 } else { 2 }
            } else {
                if kingside { 62 } else { 58 }
            },
            Move::CASTLING,
            if kingside { 3 } else { 0 },
        ),
    }
}

/// Makes the castling move of the side to move on `board`.
pub fn make_castling_move(board: &mut Board, kingside: bool, tables: &Tables)
    requires
        old(board).wf(),
        tables.wf(),
    ensures
        final(board).wf(),
        final(board)@ == played(old(board)@, castle_move(old(board)@.side_to_move, kingside)),
{
    let mv = if board.side_to_move().0 == Side::WHITE {
        if kingside {
            Move::new_castle::<true, true>()
        } else {
            Move::new_castle::<true, false>()
        }
    } else {
        if kingside {
            Move::new_castle::<false, true>()
        } else {
            Move::new_castle::<false, false>()
        }
    };
    board.play_if_possible(mv, tables);
}

/// `FEN`
pub const KEY_FEN: [u8; 3] = [70, 69, 78];
/// `Result`
pub const KEY_RESULT: [u8; 6] = [82, 101, 115, 117, 108, 116];
/// `1/2-1/2`
pub const DRAW: [u8; 7] = [49, 47, 50, 45, 49, 47, 50];

/// Reads a game and sends a few random positions of it with the principal
/// variation of a deep search played out on each, followed by the game's
/// result.
pub struct GameSampler {
    /// Searches the positions.
    pub worker: Worker,
    /// The position of the game so far.
    pub board: Board,
    /// The result of the game: `1-0`, `0-1` or `1/2-1/2`.
    pub result: Vec<u8>,
    /// The positions of the game that may be sampled.
    pub candidates: Vec<Board>,
    /// Picks the candidates.
    pub rng: Rand64,
}

impl GameSampler {
    /// The number of positions sampled from a game.
    pub const SAMPLE_LIMIT: usize = 3;
    /// The size of the transposition table, in MiB.
    pub const HASH_SIZE_MIB: usize = 16;
    /// The depth each sampled position is searched to.
    pub const SEARCH_DEPTH: u8 = 10;

    /// The worker and the boards are well formed.
    pub open spec fn wf(&self) -> bool {
        &&& self.worker.wf()
        &&& self.board.wf()
        &&& forall|i: int| 0 <= i < self.candidates@.len() ==> (#[trigger] self.candidates@[i]).wf()
    }

    /// Creates a sampler at the start of a game: the starting position, a
    /// drawn result and no candidates, with a transposition table of
    /// [`Self::HASH_SIZE_MIB`] MiB.
    pub fn new(commands: Receiver<String>, output: Sender<Vec<u8>>, rng: Rand64, tables: &Tables) -> (sampler: Self)
        requires
            tables.wf(),
        ensures
            sampler.wf(),
            sampler.board@ == crate::board::fen::startpos(),
            sampler.result@ == DRAW@,
            sampler.candidates@.len() == 0,
            sampler.worker.tt@ == Seq::new(
                TranspositionTable::entries_in(Self::HASH_SIZE_MIB as int) as nat,
                |i: int| [0u64, 0u64],
            ),
            sampler.worker.can_print,
            sampler.rng == rng,
    {
        let tt = TranspositionTable::with_capacity(Self::HASH_SIZE_MIB);
        let mut result: Vec<u8> = Vec::new();
        push_all(&mut result, &DRAW);
        Self {
            worker: Worker::new(tt, commands, output),
            board: Board::startpos(tables),
            result,
            candidates: Vec::new(),
            rng,
        }
    }

    /// Reads a header of the game: `FEN` sets the board, `Result` the
    /// result, and any other is ignored. A FEN that does not parse is the
    /// error of [`parse_fen`], and the board is kept.
    pub fn header(&mut self, key: &[u8], value: &[u8], tables: &Tables) -> (parsed: Result<(), ParseError>)
        requires
            old(self).wf(),
            tables.wf(),
        ensures
            final(self).wf(),
            final(self).candidates == old(self).candidates,
            final(self).worker == old(self).worker,
            key@ == KEY_FEN@ ==> match parse_fen(value@) {
                Ok(state) => parsed is Ok && final(self).board@ == state && final(self).result
                    == old(self).result,
                Err(e) => parsed == Err::<(), ParseError>(e) && final(self).board == old(self).board
                    && final(self).result == old(self).result,
            },
            key@ == KEY_RESULT@ ==> parsed is Ok && final(self).board == old(self).board
                && final(self).result@ == value@,
            key@ != KEY_FEN@ && key@ != KEY_RESULT@ ==> parsed is Ok && final(self).board
                == old(self).board && final(self).result == old(self).result,
    {
        if bytes_eq(key, &KEY_FEN) {
            match Board::from_fen(value, tables) {
                Ok(board) => {
                    self.board = board;
                    Ok(())
                },
                Err(e) => Err(e),
            }
        } else if bytes_eq(key, &KEY_RESULT) {
            let mut result: Vec<u8> = Vec::new();
            push_all(&mut result, value);
            self.result = result;
            Ok(())
        } else {
            Ok(())
        }
    }

    /// The headers are over: the position they give is a candidate.
    pub fn end_headers(&mut self)
        requires
            old(self).wf(),
        ensures
            final(self).wf(),
            final(self).candidates@ == old(self).candidates@.push(old(self).board),
            final(self).board == old(self).board,
            final(self).worker == old(self).worker,
            final(self).result == old(self).result,
    {
        self.candidates.push(self.board);
    }

    /// Plays a move of the game; the position after it is a candidate.
    pub fn san(&mut self, play: SanPlay, tables: &Tables)
        requires
            old(self).wf(),
            tables.wf(),
            play matches SanPlay::Normal(san) ==> san_ok(san),
        ensures
            final(self).wf(),
            final(self).candidates@ == old(self).candidates@.push(final(self).board),
            final(self).worker == old(self).worker,
            final(self).result == old(self).result,
            match play {
                SanPlay::Normal(san) => if old(self).board@.side_to_move < 2 {
                    final(self).board@ == played_from(
                        old(self).board@,
                        san,
                        squares_of(san_origins(old(self).board@, san)),
                    )
                } else {
                    final(self).board == old(self).board
                },
                SanPlay::Castle { kingside } => final(self).board@ == played(
                    old(self).board@,
                    castle_move(old(self).board@.side_to_move, kingside),
                ),
            },
    {
        match play {
            SanPlay::Normal(san) => make_non_castle_move(&mut self.board, san, tables),
            SanPlay::Castle { kingside } => make_castling_move(&mut self.board, kingside, tables),
        }
        self.candidates.push(self.board);
    }

    /// Samples [`Self::SAMPLE_LIMIT`] candidates at random, each taken out
    /// of the candidates. Each is searched to [`Self::SEARCH_DEPTH`], with
    /// histories fresh for this game, the moves of the principal variation
    /// are played out on it (each that the board can make), and its FEN,
    /// a space and the result are sent.
    #[verifier::rlimit(40)]
    pub fn sample_positions(&mut self, tables: &Tables)
        requires
            old(self).wf(),
            tables.wf(),
            old(self).candidates@.len() >= Self::SAMPLE_LIMIT,
            forall|i: int|
                0 <= i < old(self).candidates@.len() ==> tree_ok(
                    (#[trigger] old(self).candidates@[i])@,
                    255,
                ),
        ensures
            final(self).wf(),
            final(self).candidates@.len() == old(self).candidates@.len() - Self::SAMPLE_LIMIT,
            forall|i: int|
                0 <= i < final(self).candidates@.len() ==> old(self).candidates@.contains(
                    #[trigger] final(self).candidates@[i],
                ),
            final(self).board == old(self).board,
            final(self).result == old(self).result,
    {
        self.worker.histories = Histories::new();
        let mut sampled: usize = 0;
        while sampled < Self::SAMPLE_LIMIT
            invariant
                self.wf(),
                tables.wf(),
                sampled <= Self::SAMPLE_LIMIT,
                old(self).candidates@.len() >= Self::SAMPLE_LIMIT,
                self.candidates@.len() == old(self).candidates@.len() - sampled,
                forall|i: int|
                    0 <= i < self.candidates@.len() ==> old(self).candidates@.contains(
                        #[trigger] self.candidates@[i],
                    ),
                forall|i: int|
                    0 <= i < self.candidates@.len() ==> tree_ok(
                        (#[trigger] self.candidates@[i])@,
                        255,
                    ),
                self.board == old(self).board,
                self.result == old(self).result,
            decreases Self::SAMPLE_LIMIT - sampled,
        {
            let ghost before = self.candidates@;
            let index = random_in_range(&mut self.rng, 0, self.candidates.len() as u64) as usize;
            let mut board = self.candidates.swap_remove(index);
            assert(before.contains(board));
            assert forall|i: int| 0 <= i < self.candidates@.len() implies old(self).candidates@.contains(
                #[trigger] self.candidates@[i],
            ) && tree_ok(self.candidates@[i]@, 255) && self.candidates@[i].wf() by {
                if i == index {
                    assert(self.candidates@[i] == before[before.len() - 1]);
                } else {
                    assert(self.candidates@[i] == before[i]);
                }
            }
            self.worker.reset_board(&board);
            self.worker.set_limits(Limits::Depth(CompressedDepth(Self::SEARCH_DEPTH)));
            self.worker.start_search(tables);
            play_out(&mut board, &self.worker.root_pv, tables);
            let mut line = board.to_fen();
            line.push(32u8);
            push_all(&mut line, self.result.as_slice());
            send_line(&self.worker.output, line);
            sampled += 1;
        }
    }

    /// The game is over: positions are sampled from it (see
    /// [`Self::sample_positions`]), then the transposition table is cleared
    /// and the candidates dropped. The board stays as the game left it.
    pub fn end_game(&mut self, tables: &Tables)
        requires
            old(self).wf(),
            tables.wf(),
            old(self).candidates@.len() >= Self::SAMPLE_LIMIT,
            forall|i: int|
                0 <= i < old(self).candidates@.len() ==> tree_ok(
                    (#[trigger] old(self).candidates@[i])@,
                    255,
                ),
        ensures
            final(self).wf(),
            final(self).candidates@.len() == 0,
            forall|i: int|
                0 <= i < final(self).worker.tt@.len() ==> #[trigger] final(self).worker.tt@[i] == [
                    0u64,
                    0u64,
                ],
            final(self).board == old(self).board,
            final(self).result == old(self).result,
    {
        self.sample_positions(tables);
        self.worker.tt.clear();
        self.candidates.clear();
    }
}

} // verus!