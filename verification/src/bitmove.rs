//! Move records: the packed 16-bit `BitMove` and the full `Move` record
//! that the generator produces and `make`/`unmake` consume.

use crate::defs::Square;
use vstd::prelude::*;

verus! {

/// A compact move encoding: source in bits 0..6, destination in bits
/// 6..12, flag bits in 12..16.
#[derive(Copy, Clone, PartialEq, Eq, Structural)]
pub struct BitMove {
    pub data: u16,
}

impl BitMove {
    /// Packs flags, source and destination into one word.
    pub fn new(flag_bits: u16, src: Square, dst: Square) -> (r: BitMove)
        requires
            flag_bits < 16,
            src.0 < 64,
            dst.0 < 64,
        ensures
            r.data == flag_bits * 4096 + dst.0 * 64 + src.0,
    {
        let f = flag_bits;
        let s = src.0 as u16;
        let d = dst.0 as u16;
        proof {
            assert(f < 16 && s < 64 && d < 64 ==> ((f << 12) | s | (d << 6)) == f * 4096 + d * 64
                + s) by (bit_vector);
        }
        BitMove { data: (f << 12) | s | (d << 6) }
    }

    /// The null move, with every field zero.
    pub fn null() -> (r: Self)
        ensures
            r.data == 0,
    {
        BitMove { data: 0 }
    }
}

/// A generated move: moving piece, squares, captured and promotion piece
/// types (`Pieces::NONE` when absent), and the special-move flags. A move
/// is only meaningful against the position it was generated from.
#[derive(Copy, Clone, Debug, PartialEq, Eq, Structural)]
pub struct Move {
    pub piece: usize,
    pub from: usize,
    pub to: usize,
    pub captured: usize,
    pub promoted: usize,
    pub en_passant: bool,
    pub double_step: bool,
    pub castling: bool,
}

impl Move {
    /// A quiet or capturing move with no special flag.
    pub fn plain(piece: usize, from: usize, to: usize, captured: usize, promoted: usize) -> (r:
        Move)
        ensures
            r == (Move {
                piece,
                from,
                to,
                captured,
                promoted,
                en_passant: false,
                double_step: false,
                castling: false,
            }),
    {
        Move { piece, from, to, captured, promoted, en_passant: false, double_step: false, castling: false }
    }
}

} // verus!
