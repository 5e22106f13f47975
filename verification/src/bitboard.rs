//! The 64-bit square-set primitive: set algebra, directional single steps
//! with wrap masking, population count, and extraction of the lowest set
//! square.

use crate::bits::{bit_at, pop64, popn, sq_bb};
use crate::defs::Square;
use vstd::prelude::*;

verus! {

pub const FILE_A_BB: u64 = 0x0101010101010101;

pub const FILE_H_BB: u64 = 0x8080808080808080;

pub const RANK_4_BB: u64 = 0x00000000ff000000;

pub const RANK_5_BB: u64 = 0x000000ff00000000;

/// A set of board squares, one bit per square.
#[derive(Copy, Clone, PartialEq, Eq, Structural)]
pub struct BitBoard(pub u64);

impl BitBoard {
    /// Union with another square set.
    pub fn set_bit(self, x: BitBoard) -> (r: BitBoard)
        ensures
            r.0 == self.0 | x.0,
    {
        BitBoard(self.0 | x.0)
    }

    /// Every square moved one rank down; rank 1 falls off the board.
    pub fn south_one(self) -> (r: Self)
        ensures
            r.0 == self.0 >> 8,
            forall|i: int| 0 <= i < 64 ==> bit_at(r.0, i) == (i < 56 && bit_at(self.0, i + 8)),
    {
        proof {
            assert forall|i: int| 0 <= i < 64 implies bit_at(self.0 >> 8, i) == (i < 56 && bit_at(
                self.0,
                i + 8,
            )) by {
                crate::bits::lemma_step_shifts(self.0, i);
            }
        }
        BitBoard(self.0 >> 8)
    }

    /// Every square moved one rank up; rank 8 falls off the board.
    pub fn north_one(self) -> (r: Self)
        ensures
            r.0 == self.0 << 8,
            forall|i: int| 0 <= i < 64 ==> bit_at(r.0, i) == (i >= 8 && bit_at(self.0, i - 8)),
    {
        proof {
            assert forall|i: int| 0 <= i < 64 implies bit_at(self.0 << 8, i) == (i >= 8 && bit_at(
                self.0,
                i - 8,
            )) by {
                crate::bits::lemma_step_shifts(self.0, i);
            }
        }
        BitBoard(self.0 << 8)
    }

    /// How many squares the set holds.
    pub fn pop_count(self) -> (r: u32)
        ensures
            r == pop64(self.0),
            r <= 64,
    {
        let x = self.0;
        let mut c: u32 = 0;
        for i in 0..64usize
            invariant
                c == popn(x, i as int),
                c <= i,
        {
            if x & (1u64 << (i as u64)) != 0 {
                c = c + 1;
            }
        }
        c
    }

    /// Every square moved one file toward the h-file. The mask applied
    /// after the raw shift keeps an h-file piece from wrapping onto the
    /// a-file of the next rank.
    pub fn east_one(self) -> (r: Self)
        ensures
            r.0 == (self.0 << 1) & !FILE_A_BB,
            forall|i: int| 0 <= i < 64 ==> bit_at(r.0, i) == (i % 8 != 0 && bit_at(self.0, i - 1)),
    {
        proof {
            assert forall|i: int| 0 <= i < 64 implies bit_at((self.0 << 1) & !FILE_A_BB, i) == (i % 8
                != 0 && bit_at(self.0, i - 1)) by {
                crate::bits::lemma_step_shifts(self.0, i);
            }
        }
        BitBoard((self.0 << 1) & !FILE_A_BB)
    }

    /// Every square moved one file toward the a-file, with the matching
    /// wrap mask for the h-file.
    pub fn west_one(self) -> (r: Self)
        ensures
            r.0 == (self.0 >> 1) & !FILE_H_BB,
            forall|i: int| 0 <= i < 64 ==> bit_at(r.0, i) == (i % 8 != 7 && bit_at(self.0, i + 1)),
    {
        proof {
            assert forall|i: int| 0 <= i < 64 implies bit_at((self.0 >> 1) & !FILE_H_BB, i) == (i % 8
                != 7 && bit_at(self.0, i + 1)) by {
                crate::bits::lemma_step_shifts(self.0, i);
            }
        }
        BitBoard((self.0 >> 1) & !FILE_H_BB)
    }

    /// Intersection with another square set.
    pub fn intersect(self, x: BitBoard) -> (r: BitBoard)
        ensures
            r.0 == self.0 & x.0,
    {
        BitBoard(self.0 & x.0)
    }

    /// Symmetric difference: the squares in exactly one of the two sets.
    pub fn symmetric_difference(self, x: BitBoard) -> (r: BitBoard)
        ensures
            r.0 == self.0 ^ x.0,
    {
        BitBoard(self.0 ^ x.0)
    }

    /// Complement: every square not in the set.
    pub fn complement(self) -> (r: BitBoard)
        ensures
            r.0 == !self.0,
    {
        BitBoard(!self.0)
    }

    /// Removes the least-significant set square from the set and returns it.
    pub fn next(bitboard: &mut BitBoard) -> (r: Square)
        requires
            old(bitboard).0 != 0,
        ensures
            r.0 < 64,
            r.0 == vstd::std_specs::bits::u64_trailing_zeros(old(bitboard).0),
            bit_at(old(bitboard).0, r.0 as int),
            forall|j: int| 0 <= j < r.0 ==> !bit_at(old(bitboard).0, j),
            final(bitboard).0 == old(bitboard).0 ^ sq_bb(r.0 as int),
            final(bitboard).0 < old(bitboard).0,
            forall|j: int|
                0 <= j < 64 ==> bit_at(final(bitboard).0, j) == (bit_at(old(bitboard).0, j) && j
                    != r.0),
    {
        proof {
            crate::bits::lemma_lowest_bit(bitboard.0);
        }
        let square: u64 = bitboard.0.trailing_zeros() as u64;
        proof {
            crate::bits::lemma_clear_bit_decreases(bitboard.0, square);
            assert forall|j: int|
                0 <= j < 64 implies bit_at(bitboard.0 ^ (1u64 << square), j) == (bit_at(
                bitboard.0,
                j,
            ) && j != square) by {
                crate::bits::lemma_bit_ops(bitboard.0, 1u64 << square, j);
                crate::bits::lemma_one_bit(square as int, j);
            }
        }
        *bitboard = BitBoard(bitboard.0 ^ (1u64 << square));
        Square(square as usize)
    }
}

} // verus!
