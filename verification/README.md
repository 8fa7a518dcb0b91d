# rchessengine

A UCI chess engine whose core is verified with Verus.

- `src/` — the verified library.
  - `board.rs`: positions as plain values (bitboards, side to move, castling,
    hash) read from `chess::Board`; the calls into the `chess` crate (move
    generation, making moves, attack tables, FEN) sit behind trusted wrappers
    whose results are named by uninterpreted spec functions.
  - `evaluation/`: material, mobility, king safety, opening principles,
    pawn structure, endgame terms, static exchange evaluation.
  - `ordering.rs`: move ordering (hash move, captures, killers, history).
  - `search/`: transposition table with packed atomic slots, game history,
    history heuristic and killers, quiescence, negamax with null-move
    pruning, late-move reductions and check extensions, aspiration windows
    and iterative deepening.
  - `engine.rs`: a plain material alpha-beta engine, proved to return the
    minimax value of the root.
  - `time.rs`, `uci.rs`, `text.rs`: `go` parameters, time budgets, UCI
    command decisions and the text reading behind them.
- `app/` — unverified glue: the helper-thread search pool, the
  floating-point time scaling and the UCI loop on standard input/output.
- `tests/` — tests run against the compiled library.
