//! Crab, a UCI-compatible chess engine: the verified core of the engine.
//!
//! The board, move generation, attack tables, evaluation, transposition table
//! and the decisions of the search and of the UCI front end live here.
use vstd::prelude::*;

pub mod defs;
pub mod error;
pub mod bitops;
pub mod bitboard;
pub mod evaluation;
pub mod search;
pub mod movegen;
pub mod lookups;
pub mod board;
pub mod util;
pub mod perft;
pub mod transposition_table;
pub mod uci;
pub mod fen_generation;
pub mod game_parser;

verus! {

} // verus!
