//! Shared definitions: piece and side encodings, board geometry constants,
//! castling-rights bits, and the `Square` index type.

use vstd::prelude::*;

verus! {

pub type Side = usize;
pub type Piece = usize;

/// Piece-type encoding used by the mailbox and by `Move` records.
pub struct Pieces;

impl Pieces {
    pub const KING: Piece = 0;

    pub const QUEEN: Piece = 1;

    pub const ROOK: Piece = 2;

    pub const BISHOP: Piece = 3;

    pub const KNIGHT: Piece = 4;

    pub const PAWN: Piece = 5;

    pub const NONE: Piece = 6;
}

/// Side encoding: white, black, and a pseudo-side for combined occupancy.
pub struct Sides;

impl Sides {
    pub const WHITE: Side = 0;

    pub const BLACK: Side = 1;

    pub const BOTH: Side = 2;
}

pub const MAX_DEPTH: i8 = 64;

/// Counts of the board's dimensions.
pub struct NrOf;

impl NrOf {
    pub const PIECE_TYPES: usize = 6;

    pub const CASTLING_PERMISSIONS: usize = 16;

    pub const SQUARES: usize = 64;

    pub const FILES: usize = 8;

    pub const RANKS: usize = 8;
}

/// Castling-rights bits, stored in a 4-bit set.
pub struct Castling;

impl Castling {
    pub const WK: u8 = 1;

    pub const WQ: u8 = 2;

    pub const BK: u8 = 4;

    pub const BQ: u8 = 8;

    pub const ALL: u8 = 15;
}

/// A board square index, 0..64, row-major from a1 (index = rank * 8 + file).
#[derive(Copy, Clone, PartialEq, Eq, Structural)]
pub struct Square(pub usize);

impl Square {
    /// The one-bit set holding only this square.
    pub fn to_bb(&self) -> (r: crate::bitboard::BitBoard)
        requires
            self.0 < 64,
        ensures
            r.0 == (1u64 << self.0),
    {
        crate::bitboard::BitBoard(1u64 << (self.0 as u64))
    }
}

/// File indices used by castling and pawn-wrap masks.
pub struct Files;

impl Files {
    pub const A: usize = 0;

    pub const B: usize = 1;

    pub const G: usize = 6;

    pub const H: usize = 7;
}

/// Rank indices used by pawn pushes and promotion.
pub struct Ranks;

impl Ranks {
    pub const R1: usize = 0;

    pub const R2: usize = 1;

    pub const R4: usize = 3;

    pub const R5: usize = 4;

    pub const R7: usize = 6;

    pub const R8: usize = 7;
}

pub const MAX_MOVE_RULE: u8 = 100;

pub const MAX_GAME_MOVES: usize = 2048;

pub const MAX_POSITION_MOVES: usize = 255;

} // verus!
