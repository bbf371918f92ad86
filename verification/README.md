# crab

A UCI chess engine whose board, move generation, evaluation, search and
command handling are written in Verus and proved against their contracts.

## Layout

- `src/` is the verified library.
  - `board/`: the board, its mailbox and bitboards, FEN reading and
    writing (with the proof that a written FEN reads back), making moves,
    pseudo-legality, static exchange evaluation and the zobrist keys.
  - `movegen/`: move lists, the generators of each kind of move, sliding
    attacks and the proof that every generated move is pseudo-legal.
  - `evaluation.rs`: tapered piece-square evaluation.
  - `search/`: the alpha-beta search with quiescence, aspiration windows,
    iterative deepening, the staged move picker, the histories, time
    management and the worker that runs a search.
  - `transposition_table.rs`, `perft.rs`, `uci.rs`, `fen_generation.rs`,
    `game_parser.rs`: the transposition table, move path counting, the
    UCI commands, opening generation and sampling positions from games.
- `app/main.rs` is the program around the library: it reads commands and
  files, starts searches on a thread and prints what the library hands
  back.
- `tests/` runs the library on concrete positions.

## Features

Bitboard move generation with magic lookups, UCI, aspiration windows,
principal variation search, a transposition table, null move pruning,
staged move generation (TT move, MVV and SEE ordered captures, killers,
counter moves, then the rest by history), futility pruning, check
extensions, late move reductions, quiescence search and piece-square
tables.
