//! Core of a chess engine: bitboard primitives, precomputed attack tables
//! with magic-bitboard sliding lookups, a reversible board state with
//! make/unmake, a legal-move generator, and an alpha-beta search.

pub mod attacks;
pub mod bitboard;
pub mod bitmove;
pub mod bits;
pub mod defs;
pub mod evaluate;
pub mod movegen;
pub mod perft;
pub mod position;
pub mod search;
pub mod uci;
