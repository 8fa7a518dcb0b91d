//! A chess engine core: board model over the `chess` crate, static evaluation,
//! move ordering, transposition table, alpha-beta search and UCI planning.
pub mod bits;
pub mod board;
pub mod search;
pub mod evaluation;
pub mod ordering;
pub mod time;
pub mod text;
pub mod uci;
pub mod engine;
