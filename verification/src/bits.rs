//! Bit-level groundwork: what it means for a square's bit to be set in a
//! 64-bit board, and the handful of bit-vector facts the rest of the crate
//! builds on (shift semantics with wrap masking, xor round trips, and the
//! carry-based enumeration of the subsets of a mask).

use vstd::prelude::*;

verus! {

/// Whether bit `i` of `x` is set, for a machine-word index.
pub open spec fn bitu(x: u64, i: u64) -> bool {
    i < 64 && (x & (1u64 << i)) != 0
}

/// Whether the bit for square `i` is set; false outside the board.
pub open spec fn bit_at(x: u64, i: int) -> bool {
    0 <= i < 64 && bitu(x, i as u64)
}

/// The one-bit word for square `i` (zero off the board).
pub open spec fn sq_bb(i: int) -> u64 {
    if 0 <= i < 64 {
        1u64 << (i as u64)
    } else {
        0u64
    }
}

/// How the boolean operations on words act on a single square's bit.
pub proof fn lemma_bit_ops(x: u64, y: u64, i: int)
    requires
        0 <= i < 64,
    ensures
        bit_at(x | y, i) == (bit_at(x, i) || bit_at(y, i)),
        bit_at(x & y, i) == (bit_at(x, i) && bit_at(y, i)),
        bit_at(x ^ y, i) == (bit_at(x, i) != bit_at(y, i)),
        bit_at(!x, i) == !bit_at(x, i),
        !bit_at(0u64, i),
{
    let iu = i as u64;
    assert(iu < 64 ==> ((x | y) & (1u64 << iu) != 0) == ((x & (1u64 << iu) != 0) || (y & (1u64
        << iu) != 0)) && ((x & y) & (1u64 << iu) != 0) == ((x & (1u64 << iu) != 0) && (y & (1u64
        << iu) != 0)) && ((x ^ y) & (1u64 << iu) != 0) == ((x & (1u64 << iu) != 0) != (y & (1u64
        << iu) != 0)) && ((!x) & (1u64 << iu) != 0) == !(x & (1u64 << iu) != 0) && (0u64 & (1u64
        << iu)) == 0) by (bit_vector);
}

/// A single-bit word holds exactly its own square.
pub proof fn lemma_one_bit(i: int, j: int)
    requires
        0 <= i < 64,
        0 <= j < 64,
    ensures
        bit_at(sq_bb(i), j) == (i == j),
        sq_bb(i) != 0,
{
    let iu = i as u64;
    let ju = j as u64;
    assert(iu < 64 && ju < 64 ==> ((1u64 << iu) & (1u64 << ju) != 0) == (iu == ju) && (1u64 << iu)
        != 0) by (bit_vector);
}

/// Toggling the same bits twice restores a word.
pub proof fn lemma_xor_restore()
    by (bit_vector)
    ensures
        forall|x: u64, a: u64| #[trigger] ((x ^ a) ^ a) == x,
{
}

/// Masking a rights nibble never grows it.
pub proof fn lemma_u8_and_le(a: u8, b: u8)
    by (bit_vector)
    ensures
        (a & b) <= a,
        (a & b) <= b,
{
}

/// Clearing a set bit strictly shrinks the word.
pub proof fn lemma_clear_bit_decreases(x: u64, i: u64)
    by (bit_vector)
    requires
        i < 64,
        x & (1u64 << i) != 0,
    ensures
        (x ^ (1u64 << i)) < x,
        (x ^ (1u64 << i)) == x - (1u64 << i),
{
}

/// The square of the lowest set bit of a non-empty board: it is set, and
/// every square below it is clear.
pub proof fn lemma_lowest_bit(x: u64)
    requires
        x != 0,
    ensures
        vstd::std_specs::bits::u64_trailing_zeros(x) < 64,
        bit_at(x, vstd::std_specs::bits::u64_trailing_zeros(x) as int),
        forall|j: int|
            0 <= j < vstd::std_specs::bits::u64_trailing_zeros(x) ==> !bit_at(x, j),
{
    vstd::std_specs::bits::axiom_u64_trailing_zeros(x);
    let tz = vstd::std_specs::bits::u64_trailing_zeros(x) as u64;
    assert(tz < 64 && (x >> tz) & 1u64 == 1u64 ==> x & (1u64 << tz) != 0) by (bit_vector);
    assert forall|j: int| 0 <= j < vstd::std_specs::bits::u64_trailing_zeros(x) implies !bit_at(
        x,
        j,
    ) by {
        let ju = j as u64;
        assert((x >> ju) & 1u64 == 0u64);
        assert(ju < 64 && (x >> ju) & 1u64 == 0u64 ==> x & (1u64 << ju) == 0) by (bit_vector);
    }
}

/// How the four single-step shifts act on a square's bit. The horizontal
/// steps mask out the wrapped file after the raw shift, so a piece leaving
/// the h-file never reappears on the a-file of the next rank.
pub proof fn lemma_step_shifts(x: u64, i: int)
    requires
        0 <= i < 64,
    ensures
        bit_at(x << 8, i) == (i >= 8 && bit_at(x, i - 8)),
        bit_at(x >> 8, i) == (i < 56 && bit_at(x, i + 8)),
        bit_at((x << 1) & (!0x0101010101010101u64), i) == (i % 8 != 0 && bit_at(x, i - 1)),
        bit_at((x >> 1) & (!0x8080808080808080u64), i) == (i % 8 != 7 && bit_at(x, i + 1)),
{
    let iu = i as u64;
    assert(iu < 64 ==> ((x << 8) & (1u64 << iu) != 0) == (iu >= 8 && x & (1u64 << (iu - 8) as u64)
        != 0)) by (bit_vector);
    assert(iu < 64 ==> ((x >> 8) & (1u64 << iu) != 0) == (iu < 56 && 0 <= iu + 8 < 64 && x & (1u64
        << (iu + 8) as u64) != 0)) by (bit_vector);
    assert(iu < 64 ==> (((x << 1) & (!0x0101010101010101u64)) & (1u64 << iu) != 0) == (iu % 8 != 0
        && iu >= 1 && x & (1u64 << (iu - 1) as u64) != 0)) by (bit_vector);
    assert(iu < 64 ==> (((x >> 1) & (!0x8080808080808080u64)) & (1u64 << iu) != 0) == (iu % 8 != 7
        && 0 <= iu + 1 < 64 && x & (1u64 << (iu + 1) as u64) != 0)) by (bit_vector);
    assert(0 <= i < 64 ==> (i as u64) % 8 == (i % 8) as u64);
}

/// The next subset of `m` after `o` in increasing numeric order.
pub open spec fn carry_next(o: u64, m: u64) -> u64 {
    vstd::wrapping::u64_specs::wrapping_sub(o, m) & m
}

/// The carry trick walks every subset of a mask in increasing order:
/// the step stays inside the mask, strictly grows until it wraps at the
/// full mask, and skips no subset in between.
pub proof fn lemma_carry_enumerates(o: u64, m: u64, y: u64)
    by (bit_vector)
    requires
        o & m == o,
    ensures
        carry_next(o, m) & m == carry_next(o, m),
        o != m ==> carry_next(o, m) > o,
        o == m ==> carry_next(o, m) == 0,
        (y & m == y && o < y) ==> carry_next(o, m) <= y,
        o <= m,
{
}

/// Subset facts about masks: masking is idempotent, both halves of a
/// union are subsets of it, and being-a-subset is transitive.
pub proof fn lemma_mask_facts(a: u64, b: u64, m: u64)
    by (bit_vector)
    ensures
        (a & m) & m == a & m,
        a & (a | b) == a,
        b & (a | b) == b,
        (a & b == a && b & m == b) ==> a & m == a,
        a | 0u64 == a,
        0u64 & m == 0u64,
{
}

/// A magic index never reaches past the table built for its bit count.
pub proof fn lemma_magic_index_bound(x: u64, bits: u64)
    by (bit_vector)
    requires
        1 <= bits <= 16,
    ensures
        (x >> (64 - bits) as u64) < (1u64 << bits),
        (1usize << bits) == (1u64 << bits) as usize,
        (1u64 << bits) <= 0x10000,
{
}

/// Count of the set bits of `x` among the first `n` squares.
pub open spec fn popn(x: u64, n: int) -> nat
    decreases n,
{
    if n <= 0 {
        0
    } else {
        popn(x, n - 1) + if bit_at(x, n - 1) {
            1nat
        } else {
            0nat
        }
    }
}

/// A word's full population count.
pub open spec fn pop64(x: u64) -> nat {
    popn(x, 64)
}

} // verus!
