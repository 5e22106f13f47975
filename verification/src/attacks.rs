//! Precomputed attack tables: king, knight and pawn attack masks from fixed
//! offset sets, and sliding-piece attacks looked up through magic-bitboard
//! hashing. Building the sliding tables re-checks, for every square and
//! every occupancy subset of its relevant mask, that the hashed slot holds
//! exactly the ray-cast attack set, so a successful build carries the
//! no-collision property of the chosen magic constants.

use crate::bitboard::BitBoard;
use crate::bits::{
    bit_at, lemma_bit_ops, lemma_carry_enumerates, lemma_magic_index_bound, lemma_mask_facts,
    lemma_one_bit, sq_bb,
};
use vstd::pervasive::VecAdditionalExecFns;
use vstd::prelude::*;

verus! {

pub open spec fn rank_of(sq: int) -> int {
    sq / 8
}

pub open spec fn file_of(sq: int) -> int {
    sq % 8
}

pub open spec fn on_board(r: int, f: int) -> bool {
    0 <= r < 8 && 0 <= f < 8
}

/// The one-bit set for the square one (dr, df) step away from `sq`,
/// or empty when the step leaves the board. Stepping is checked on file
/// and rank, never by raw index arithmetic, so no offset ever wraps from
/// the h-file onto the a-file.
pub open spec fn offset_bb(sq: int, dr: int, df: int) -> u64 {
    if 0 <= sq < 64 && on_board(rank_of(sq) + dr, file_of(sq) + df) {
        sq_bb((rank_of(sq) + dr) * 8 + file_of(sq) + df)
    } else {
        0u64
    }
}

pub open spec fn king_attacks_spec(sq: int) -> u64 {
    offset_bb(sq, 1, -1) | offset_bb(sq, 1, 0) | offset_bb(sq, 1, 1) | offset_bb(sq, 0, -1)
        | offset_bb(sq, 0, 1) | offset_bb(sq, -1, -1) | offset_bb(sq, -1, 0) | offset_bb(sq, -1, 1)
}

pub open spec fn knight_attacks_spec(sq: int) -> u64 {
    offset_bb(sq, 2, -1) | offset_bb(sq, 2, 1) | offset_bb(sq, 1, -2) | offset_bb(sq, 1, 2)
        | offset_bb(sq, -1, -2) | offset_bb(sq, -1, 2) | offset_bb(sq, -2, -1) | offset_bb(
        sq,
        -2,
        1,
    )
}

/// Squares a pawn of `side` on `sq` attacks (captures toward), white
/// moving up the board and black down.
pub open spec fn pawn_attacks_spec(side: int, sq: int) -> u64 {
    if side == 0 {
        offset_bb(sq, 1, -1) | offset_bb(sq, 1, 1)
    } else {
        offset_bb(sq, -1, -1) | offset_bb(sq, -1, 1)
    }
}

/// The attack ray leaving (r, f) in direction (dr, df): every square up to
/// and including the first occupied one, the board edge truncating it.
pub open spec fn ray_from(r: int, f: int, dr: int, df: int, occ: u64, fuel: nat) -> u64
    decreases fuel,
{
    if fuel == 0 || !on_board(r + dr, f + df) {
        0u64
    } else {
        let t = (r + dr) * 8 + (f + df);
        sq_bb(t) | if bit_at(occ, t) {
            0u64
        } else {
            ray_from(r + dr, f + df, dr, df, occ, (fuel - 1) as nat)
        }
    }
}

pub open spec fn ray_attacks(sq: int, dr: int, df: int, occ: u64) -> u64 {
    ray_from(rank_of(sq), file_of(sq), dr, df, occ, 8)
}

pub open spec fn rook_attacks_spec(sq: int, occ: u64) -> u64 {
    ray_attacks(sq, 1, 0, occ) | ray_attacks(sq, -1, 0, occ) | ray_attacks(sq, 0, 1, occ)
        | ray_attacks(sq, 0, -1, occ)
}

pub open spec fn bishop_attacks_spec(sq: int, occ: u64) -> u64 {
    ray_attacks(sq, 1, 1, occ) | ray_attacks(sq, 1, -1, occ) | ray_attacks(sq, -1, 1, occ)
        | ray_attacks(sq, -1, -1, occ)
}

pub open spec fn queen_attacks_spec(sq: int, occ: u64) -> u64 {
    rook_attacks_spec(sq, occ) | bishop_attacks_spec(sq, occ)
}

/// The relevant-occupancy ray in one direction: the ray's squares short of
/// its last one, since occupancy on the edge square can never change the
/// attack set.
pub open spec fn mask_from(r: int, f: int, dr: int, df: int, fuel: nat) -> u64
    decreases fuel,
{
    if fuel == 0 || !on_board(r + dr, f + df) || !on_board(r + 2 * dr, f + 2 * df) {
        0u64
    } else {
        sq_bb((r + dr) * 8 + (f + df)) | mask_from(r + dr, f + df, dr, df, (fuel - 1) as nat)
    }
}

pub open spec fn mask_ray(sq: int, dr: int, df: int) -> u64 {
    mask_from(rank_of(sq), file_of(sq), dr, df, 8)
}

pub open spec fn rook_mask_spec(sq: int) -> u64 {
    mask_ray(sq, 1, 0) | mask_ray(sq, -1, 0) | mask_ray(sq, 0, 1) | mask_ray(sq, 0, -1)
}

pub open spec fn bishop_mask_spec(sq: int) -> u64 {
    mask_ray(sq, 1, 1) | mask_ray(sq, 1, -1) | mask_ray(sq, -1, 1) | mask_ray(sq, -1, -1)
}

/// A ray only reads occupancy inside its relevant mask: occupancy limited
/// to any superset `m` of that mask casts the same ray.
proof fn lemma_ray_masked(r: int, f: int, dr: int, df: int, occ: u64, m: u64, fuel: nat)
    requires
        mask_from(r, f, dr, df, fuel) & m == mask_from(r, f, dr, df, fuel),
    ensures
        ray_from(r, f, dr, df, occ & m, fuel) == ray_from(r, f, dr, df, occ, fuel),
    decreases fuel,
{
    if fuel == 0 || !on_board(r + dr, f + df) {
    } else {
        let t = (r + dr) * 8 + (f + df);
        if !on_board(r + 2 * dr, f + 2 * df) {
            // The step after t leaves the board, so whether t blocks is moot:
            // either way the recursion below t is empty.
            assert(ray_from(r + dr, f + df, dr, df, occ, (fuel - 1) as nat) == 0);
            assert(ray_from(r + dr, f + df, dr, df, occ & m, (fuel - 1) as nat) == 0);
            assert(ray_from(r, f, dr, df, occ, fuel) == sq_bb(t) | 0u64);
            assert(ray_from(r, f, dr, df, occ & m, fuel) == sq_bb(t) | 0u64);
        } else {
            let rest = mask_from(r + dr, f + df, dr, df, (fuel - 1) as nat);
            let whole = mask_from(r, f, dr, df, fuel);
            assert(whole == sq_bb(t) | rest);
            lemma_mask_facts(sq_bb(t), rest, m);
            lemma_mask_facts(sq_bb(t), whole, m);
            lemma_mask_facts(rest, whole, m);
            assert(sq_bb(t) & m == sq_bb(t));
            assert(rest & m == rest);
            assert(0 <= t < 64) by {
                assert(0 <= r + dr < 8 && 0 <= f + df < 8);
            }
            lemma_one_bit(t, t);
            lemma_bit_ops(sq_bb(t), m, t);
            lemma_bit_ops(occ, m, t);
            assert(bit_at(m, t));
            assert(bit_at(occ & m, t) == bit_at(occ, t));
            lemma_ray_masked(r + dr, f + df, dr, df, occ, m, (fuel - 1) as nat);
        }
    }
}

/// Rook rays see the same picture through occupancy masked to the rook's
/// relevant mask.
pub proof fn lemma_rook_masked(sq: int, occ: u64)
    ensures
        rook_attacks_spec(sq, occ & rook_mask_spec(sq)) == rook_attacks_spec(sq, occ),
{
    let r = rank_of(sq);
    let f = file_of(sq);
    let m1 = mask_from(r, f, 1, 0, 8);
    let m2 = mask_from(r, f, -1, 0, 8);
    let m3 = mask_from(r, f, 0, 1, 8);
    let m4 = mask_from(r, f, 0, -1, 8);
    let m = rook_mask_spec(sq);
    assert(m1 & m == m1 && m2 & m == m2 && m3 & m == m3 && m4 & m == m4) by {
        assert(m == ((m1 | m2) | m3) | m4);
        assert(m1 & (((m1 | m2) | m3) | m4) == m1 && m2 & (((m1 | m2) | m3) | m4) == m2 && m3 & (((
        m1 | m2) | m3) | m4) == m3 && m4 & (((m1 | m2) | m3) | m4) == m4) by (bit_vector);
    }
    lemma_ray_masked(r, f, 1, 0, occ, m, 8);
    lemma_ray_masked(r, f, -1, 0, occ, m, 8);
    lemma_ray_masked(r, f, 0, 1, occ, m, 8);
    lemma_ray_masked(r, f, 0, -1, occ, m, 8);
}

/// The bishop's counterpart of `lemma_rook_masked`.
pub proof fn lemma_bishop_masked(sq: int, occ: u64)
    ensures
        bishop_attacks_spec(sq, occ & bishop_mask_spec(sq)) == bishop_attacks_spec(sq, occ),
{
    let r = rank_of(sq);
    let f = file_of(sq);
    let m1 = mask_from(r, f, 1, 1, 8);
    let m2 = mask_from(r, f, 1, -1, 8);
    let m3 = mask_from(r, f, -1, 1, 8);
    let m4 = mask_from(r, f, -1, -1, 8);
    let m = bishop_mask_spec(sq);
    assert(m1 & m == m1 && m2 & m == m2 && m3 & m == m3 && m4 & m == m4) by {
        assert(m == ((m1 | m2) | m3) | m4);
        assert(m1 & (((m1 | m2) | m3) | m4) == m1 && m2 & (((m1 | m2) | m3) | m4) == m2 && m3 & (((
        m1 | m2) | m3) | m4) == m3 && m4 & (((m1 | m2) | m3) | m4) == m4) by (bit_vector);
    }
    lemma_ray_masked(r, f, 1, 1, occ, m, 8);
    lemma_ray_masked(r, f, 1, -1, occ, m, 8);
    lemma_ray_masked(r, f, -1, 1, occ, m, 8);
    lemma_ray_masked(r, f, -1, -1, occ, m, 8);
}

fn offset_bb_ex(sq: usize, dr: i32, df: i32) -> (res: u64)
    requires
        sq < 64,
        -2 <= dr <= 2,
        -2 <= df <= 2,
    ensures
        res == offset_bb(sq as int, dr as int, df as int),
{
    let r = (sq / 8) as i32 + dr;
    let f = (sq % 8) as i32 + df;
    if 0 <= r && r < 8 && 0 <= f && f < 8 {
        1u64 << ((r * 8 + f) as u64)
    } else {
        0u64
    }
}

fn king_table() -> (t: Vec<u64>)
    ensures
        t@.len() == 64,
        forall|s: int| 0 <= s < 64 ==> t@[s] == king_attacks_spec(s),
{
    let mut t: Vec<u64> = Vec::new();
    for sq in 0..64usize
        invariant
            t@.len() == sq,
            forall|s: int| 0 <= s < sq ==> t@[s] == king_attacks_spec(s),
    {
        let a = offset_bb_ex(sq, 1, -1) | offset_bb_ex(sq, 1, 0) | offset_bb_ex(sq, 1, 1)
            | offset_bb_ex(sq, 0, -1) | offset_bb_ex(sq, 0, 1) | offset_bb_ex(sq, -1, -1)
            | offset_bb_ex(sq, -1, 0) | offset_bb_ex(sq, -1, 1);
        t.push(a);
    }
    t
}

fn knight_table() -> (t: Vec<u64>)
    ensures
        t@.len() == 64,
        forall|s: int| 0 <= s < 64 ==> t@[s] == knight_attacks_spec(s),
{
    let mut t: Vec<u64> = Vec::new();
    for sq in 0..64usize
        invariant
            t@.len() == sq,
            forall|s: int| 0 <= s < sq ==> t@[s] == knight_attacks_spec(s),
    {
        let a = offset_bb_ex(sq, 2, -1) | offset_bb_ex(sq, 2, 1) | offset_bb_ex(sq, 1, -2)
            | offset_bb_ex(sq, 1, 2) | offset_bb_ex(sq, -1, -2) | offset_bb_ex(sq, -1, 2)
            | offset_bb_ex(sq, -2, -1) | offset_bb_ex(sq, -2, 1);
        t.push(a);
    }
    t
}

fn pawn_table(side: usize) -> (t: Vec<u64>)
    requires
        side < 2,
    ensures
        t@.len() == 64,
        forall|s: int| 0 <= s < 64 ==> t@[s] == pawn_attacks_spec(side as int, s),
{
    let mut t: Vec<u64> = Vec::new();
    for sq in 0..64usize
        invariant
            side < 2,
            t@.len() == sq,
            forall|s: int| 0 <= s < sq ==> t@[s] == pawn_attacks_spec(side as int, s),
    {
        let a = if side == 0 {
            offset_bb_ex(sq, 1, -1) | offset_bb_ex(sq, 1, 1)
        } else {
            offset_bb_ex(sq, -1, -1) | offset_bb_ex(sq, -1, 1)
        };
        t.push(a);
    }
    t
}

fn ray_from_ex(r: i32, f: i32, dr: i32, df: i32, occ: u64, fuel: u8) -> (res: u64)
    requires
        -1 <= r <= 8,
        -1 <= f <= 8,
        -1 <= dr <= 1,
        -1 <= df <= 1,
    ensures
        res == ray_from(r as int, f as int, dr as int, df as int, occ, fuel as nat),
    decreases fuel,
{
    if fuel == 0 {
        return 0u64;
    }
    let nr = r + dr;
    let nf = f + df;
    if !(0 <= nr && nr < 8 && 0 <= nf && nf < 8) {
        return 0u64;
    }
    let t = (nr * 8 + nf) as u64;
    let b = 1u64 << t;
    proof {
        lemma_mask_facts(b, 0, 0);
    }
    if occ & b != 0 {
        b
    } else {
        b | ray_from_ex(nr, nf, dr, df, occ, fuel - 1)
    }
}

fn mask_from_ex(r: i32, f: i32, dr: i32, df: i32, fuel: u8) -> (res: u64)
    requires
        -1 <= r <= 8,
        -1 <= f <= 8,
        -1 <= dr <= 1,
        -1 <= df <= 1,
    ensures
        res == mask_from(r as int, f as int, dr as int, df as int, fuel as nat),
    decreases fuel,
{
    if fuel == 0 {
        return 0u64;
    }
    let nr = r + dr;
    let nf = f + df;
    let nr2 = r + 2 * dr;
    let nf2 = f + 2 * df;
    if !(0 <= nr && nr < 8 && 0 <= nf && nf < 8) || !(0 <= nr2 && nr2 < 8 && 0 <= nf2 && nf2 < 8) {
        return 0u64;
    }
    let b = 1u64 << ((nr * 8 + nf) as u64);
    b | mask_from_ex(nr, nf, dr, df, fuel - 1)
}

fn rook_mask_ex(sq: usize) -> (m: u64)
    requires
        sq < 64,
    ensures
        m == rook_mask_spec(sq as int),
{
    let r = (sq / 8) as i32;
    let f = (sq % 8) as i32;
    mask_from_ex(r, f, 1, 0, 8) | mask_from_ex(r, f, -1, 0, 8) | mask_from_ex(r, f, 0, 1, 8)
        | mask_from_ex(r, f, 0, -1, 8)
}

fn bishop_mask_ex(sq: usize) -> (m: u64)
    requires
        sq < 64,
    ensures
        m == bishop_mask_spec(sq as int),
{
    let r = (sq / 8) as i32;
    let f = (sq % 8) as i32;
    mask_from_ex(r, f, 1, 1, 8) | mask_from_ex(r, f, 1, -1, 8) | mask_from_ex(r, f, -1, 1, 8)
        | mask_from_ex(r, f, -1, -1, 8)
}

fn rook_attacks_ex(sq: usize, occ: u64) -> (a: u64)
    requires
        sq < 64,
    ensures
        a == rook_attacks_spec(sq as int, occ),
{
    let r = (sq / 8) as i32;
    let f = (sq % 8) as i32;
    ray_from_ex(r, f, 1, 0, occ, 8) | ray_from_ex(r, f, -1, 0, occ, 8) | ray_from_ex(
        r,
        f,
        0,
        1,
        occ,
        8,
    ) | ray_from_ex(r, f, 0, -1, occ, 8)
}

fn bishop_attacks_ex(sq: usize, occ: u64) -> (a: u64)
    requires
        sq < 64,
    ensures
        a == bishop_attacks_spec(sq as int, occ),
{
    let r = (sq / 8) as i32;
    let f = (sq % 8) as i32;
    ray_from_ex(r, f, 1, 1, occ, 8) | ray_from_ex(r, f, 1, -1, occ, 8) | ray_from_ex(
        r,
        f,
        -1,
        1,
        occ,
        8,
    ) | ray_from_ex(r, f, -1, -1, occ, 8)
}

/// The hashed table slot for an occupancy pattern: mask to the relevant
/// squares, multiply by the magic constant, keep the top bits.
pub open spec fn magic_index_spec(occ: u64, mask: u64, magic: u64, shift: u64) -> u64 {
    if shift < 64 {
        vstd::wrapping::u64_specs::wrapping_mul(occ & mask, magic) >> shift
    } else {
        0u64
    }
}

/// One occupancy subset hashes to a slot inside the table that holds
/// exactly its ray-cast attack set.
pub open spec fn slot_ok(
    rook: bool,
    sq: int,
    mask: u64,
    magic: u64,
    shift: u64,
    table: Seq<u64>,
    occ: u64,
) -> bool {
    &&& magic_index_spec(occ, mask, magic, shift) < table.len()
    &&& table[magic_index_spec(occ, mask, magic, shift) as int] == if rook {
        rook_attacks_spec(sq, occ)
    } else {
        bishop_attacks_spec(sq, occ)
    }
}

/// A square's sliding-attack entry is sound: the stored mask is the
/// relevant-occupancy mask, and every occupancy subset of it hashes to
/// its exact attack set — the defining no-collision property of the
/// magic constants, established exhaustively at build time.
pub open spec fn slider_entry_ok(
    rook: bool,
    sq: int,
    mask: u64,
    magic: u64,
    shift: u64,
    table: Seq<u64>,
) -> bool {
    &&& mask == if rook {
        rook_mask_spec(sq)
    } else {
        bishop_mask_spec(sq)
    }
    &&& shift < 64
    &&& table.len() <= 0x10000
    &&& forall|occ: u64|
        #[trigger] (occ & mask) == occ ==> slot_ok(rook, sq, mask, magic, shift, table, occ)
}

/// The attack set a square's slider entry must produce for a subset.
pub open spec fn slider_attacks(rook: bool, sq: int, occ: u64) -> u64 {
    if rook {
        rook_attacks_spec(sq, occ)
    } else {
        bishop_attacks_spec(sq, occ)
    }
}

/// A square's relevant-occupancy mask for the given slider class.
pub open spec fn slider_mask(rook: bool, sq: int) -> u64 {
    if rook {
        rook_mask_spec(sq)
    } else {
        bishop_mask_spec(sq)
    }
}

/// The hash shift a square's table uses: the word width less the mask's
/// bit count.
pub open spec fn slider_shift(rook: bool, sq: int) -> u64 {
    (64 - crate::bits::pop64(slider_mask(rook, sq))) as u64
}

/// A sound magic constant for a square: the relevant mask's bit count is
/// usable, and no two occupancy subsets hash to the same slot while
/// needing different attack sets. Building a square's table succeeds on
/// exactly such constants.
pub open spec fn magic_ok(rook: bool, sq: int, magic: u64) -> bool {
    &&& 1 <= crate::bits::pop64(slider_mask(rook, sq)) <= 16
    &&& forall|o1: u64, o2: u64|
        (#[trigger] (o1 & slider_mask(rook, sq))) == o1 && (#[trigger] (o2 & slider_mask(
            rook,
            sq,
        ))) == o2 && magic_index_spec(o1, slider_mask(rook, sq), magic, slider_shift(rook, sq))
            == magic_index_spec(o2, slider_mask(rook, sq), magic, slider_shift(rook, sq))
            ==> slider_attacks(rook, sq, o1) == slider_attacks(rook, sq, o2)
}

/// Two subsets hashing to one slot while needing different attack sets
/// refute the constant's soundness.
proof fn lemma_collision_refutes(rook: bool, sq: int, magic: u64, o1: u64, o2: u64)
    requires
        (o1 & slider_mask(rook, sq)) == o1,
        (o2 & slider_mask(rook, sq)) == o2,
        magic_index_spec(o1, slider_mask(rook, sq), magic, slider_shift(rook, sq))
            == magic_index_spec(o2, slider_mask(rook, sq), magic, slider_shift(rook, sq)),
        slider_attacks(rook, sq, o1) != slider_attacks(rook, sq, o2),
    ensures
        !magic_ok(rook, sq, magic),
{
    if magic_ok(rook, sq, magic) {
        assert((o1 & slider_mask(rook, sq)) == o1 && (o2 & slider_mask(rook, sq)) == o2);
        assert(slider_attacks(rook, sq, o1) == slider_attacks(rook, sq, o2));
        assert(false);
    }
}

/// One table slot carries the attack set of some subset hashing to it.
pub open spec fn slot_witnessed(
    rook: bool,
    sq: int,
    mask: u64,
    magic: u64,
    shift: u64,
    table: Seq<u64>,
    o: u64,
) -> bool {
    exists|o2: u64|
        (#[trigger] (o2 & mask)) == o2 && magic_index_spec(o2, mask, magic, shift)
            == magic_index_spec(o, mask, magic, shift) && magic_index_spec(o, mask, magic, shift)
            < table.len() && table[magic_index_spec(o, mask, magic, shift) as int]
            == slider_attacks(rook, sq, o2)
}

/// Writing one subset's slot keeps every slot witnessed: an untouched
/// slot keeps its witness, and the written slot is witnessed by the
/// written subset itself.
proof fn lemma_set_slot(
    rook: bool,
    sq: int,
    mask: u64,
    magic: u64,
    shift: u64,
    t0: Seq<u64>,
    w: u64,
    o: u64,
)
    requires
        (w & mask) == w,
        magic_index_spec(w, mask, magic, shift) < t0.len(),
        (o & mask) == o,
        slot_witnessed(rook, sq, mask, magic, shift, t0, o) || magic_index_spec(
            o,
            mask,
            magic,
            shift,
        ) == magic_index_spec(w, mask, magic, shift),
    ensures
        slot_witnessed(
            rook,
            sq,
            mask,
            magic,
            shift,
            t0.update(magic_index_spec(w, mask, magic, shift) as int, slider_attacks(rook, sq, w)),
            o,
        ),
{
    let iw = magic_index_spec(w, mask, magic, shift);
    let io = magic_index_spec(o, mask, magic, shift);
    let t1 = t0.update(iw as int, slider_attacks(rook, sq, w));
    if io == iw {
        assert((w & mask) == w && magic_index_spec(w, mask, magic, shift) == io && io < t1.len()
            && t1[io as int] == slider_attacks(rook, sq, w));
    } else {
        let o2 = choose|o2: u64|
            (o2 & mask) == o2 && magic_index_spec(o2, mask, magic, shift) == io && io < t0.len()
                && t0[io as int] == slider_attacks(rook, sq, o2);
        assert(t1[io as int] == t0[io as int]);
        assert((o2 & mask) == o2 && magic_index_spec(o2, mask, magic, shift) == io && io
            < t1.len() && t1[io as int] == slider_attacks(rook, sq, o2));
    }
}

/// Builds one square's magic entry and proves it sound by checking every
/// occupancy subset of the relevant mask against direct ray casting.
/// Returns the mask, the shift width, and the filled table; returns
/// nothing exactly on an unsound constant: a failure refutes `magic_ok`.
#[verifier::rlimit(60)]
fn build_slider(sq: usize, magic: u64, rook: bool) -> (r: Option<(u64, u64, Vec<u64>)>)
    requires
        sq < 64,
    ensures
        r matches Some(t) ==> slider_entry_ok(rook, sq as int, t.0, magic, t.1, t.2@),
        r.is_none() ==> !magic_ok(rook, sq as int, magic),
{
    let mask = if rook {
        rook_mask_ex(sq)
    } else {
        bishop_mask_ex(sq)
    };
    let bits = BitBoard(mask).pop_count();
    if bits < 1 || bits > 16 {
        return None;
    }
    let shift: u64 = 64 - (bits as u64);
    proof {
        lemma_magic_index_bound(0, bits as u64);
    }
    let size: usize = 1usize << (bits as u64);
    let mut table: Vec<u64> = Vec::new();
    let mut i: usize = 0;
    while i < size
        invariant
            table@.len() == i,
            i <= size,
        decreases size - i,
    {
        table.push(0u64);
        i = i + 1;
    }
    // Fill every subset's slot; a later subset may overwrite an earlier
    // one, which the checking pass below will catch if the attack sets
    // differ.
    let mut occ: u64 = 0;
    proof {
        lemma_mask_facts(0, 0, mask);
    }
    loop
        invariant
            sq < 64,
            occ & mask == occ,
            occ <= mask,
            table@.len() == size,
            1 <= bits <= 16,
            shift == 64 - bits,
            size == (1u64 << (bits as u64)) as usize,
            mask == if rook {
                rook_mask_spec(sq as int)
            } else {
                bishop_mask_spec(sq as int)
            },
            forall|o: u64|
                (#[trigger] (o & mask)) == o && o < occ ==> slot_witnessed(
                    rook,
                    sq as int,
                    mask,
                    magic,
                    shift,
                    table@,
                    o,
                ),
        ensures
            table@.len() == size,
            forall|o: u64|
                (#[trigger] (o & mask)) == o ==> slot_witnessed(
                    rook,
                    sq as int,
                    mask,
                    magic,
                    shift,
                    table@,
                    o,
                ),
        decreases mask - occ,
    {
        proof {
            lemma_carry_enumerates(occ, mask, 0);
        }
        let att = if rook {
            rook_attacks_ex(sq, occ)
        } else {
            bishop_attacks_ex(sq, occ)
        };
        let idx = (occ.wrapping_mul(magic) >> shift) as usize;
        proof {
            lemma_magic_index_bound(occ.wrapping_mul(magic), bits as u64);
        }
        let ghost t0 = table@;
        table.set(idx, att);
        proof {
            assert(table@ == t0.update(
                magic_index_spec(occ, mask, magic, shift) as int,
                slider_attacks(rook, sq as int, occ),
            ));
            assert forall|o: u64| (#[trigger] (o & mask)) == o && o <= occ implies slot_witnessed(
                rook,
                sq as int,
                mask,
                magic,
                shift,
                table@,
                o,
            ) by {
                lemma_set_slot(rook, sq as int, mask, magic, shift, t0, occ, o);
            }
        }
        if occ == mask {
            proof {
                assert forall|o: u64| (#[trigger] (o & mask)) == o implies slot_witnessed(
                    rook,
                    sq as int,
                    mask,
                    magic,
                    shift,
                    table@,
                    o,
                ) by {
                    lemma_carry_enumerates(o, mask, o);
                }
            }
            break;
        }
        let ghost prev = occ;
        occ = occ.wrapping_sub(mask) & mask;
        proof {
            lemma_carry_enumerates(occ, mask, 0);
            assert forall|o: u64| (#[trigger] (o & mask)) == o && o < occ implies slot_witnessed(
                rook,
                sq as int,
                mask,
                magic,
                shift,
                table@,
                o,
            ) by {
                lemma_carry_enumerates(prev, mask, o);
            }
        }
    }
    // Exhaustive verification pass: every subset must read back its exact
    // ray-cast attack set through the hash.
    let mut occ: u64 = 0;
    proof {
        lemma_mask_facts(0, 0, mask);
    }
    loop
        invariant
            sq < 64,
            occ & mask == occ,
            occ <= mask,
            table@.len() == size,
            1 <= bits <= 16,
            bits == crate::bits::pop64(mask),
            shift == 64 - bits,
            size == (1u64 << (bits as u64)) as usize,
            mask == if rook {
                rook_mask_spec(sq as int)
            } else {
                bishop_mask_spec(sq as int)
            },
            forall|y: u64|
                #[trigger] (y & mask) == y && y < occ ==> slot_ok(
                    rook,
                    sq as int,
                    mask,
                    magic,
                    shift,
                    table@,
                    y,
                ),
            forall|o: u64|
                (#[trigger] (o & mask)) == o ==> slot_witnessed(
                    rook,
                    sq as int,
                    mask,
                    magic,
                    shift,
                    table@,
                    o,
                ),
        decreases
            mask - occ,
    {
        proof {
            lemma_carry_enumerates(occ, mask, 0);
        }
        let att = if rook {
            rook_attacks_ex(sq, occ)
        } else {
            bishop_attacks_ex(sq, occ)
        };
        let idx = (occ.wrapping_mul(magic) >> shift) as usize;
        proof {
            lemma_magic_index_bound(occ.wrapping_mul(magic), bits as u64);
        }
        if table[idx] != att {
            // The slot was filled from some subset hashing here with a
            // different attack set: the constant collides.
            proof {
                assert(slot_witnessed(rook, sq as int, mask, magic, shift, table@, occ));
                let o2 = choose|o2: u64|
                    (o2 & mask) == o2 && magic_index_spec(o2, mask, magic, shift)
                        == magic_index_spec(occ, mask, magic, shift) && magic_index_spec(
                        occ,
                        mask,
                        magic,
                        shift,
                    ) < table@.len() && table@[magic_index_spec(occ, mask, magic, shift) as int]
                        == slider_attacks(rook, sq as int, o2);
                assert(mask == slider_mask(rook, sq as int));
                assert(shift == slider_shift(rook, sq as int));
                lemma_collision_refutes(rook, sq as int, magic, o2, occ);
            }
            return None;
        }
        assert(slot_ok(rook, sq as int, mask, magic, shift, table@, occ));
        if occ == mask {
            proof {
                assert forall|y: u64| #[trigger] (y & mask) == y implies slot_ok(
                    rook,
                    sq as int,
                    mask,
                    magic,
                    shift,
                    table@,
                    y,
                ) by {
                    lemma_carry_enumerates(y, mask, y);
                }
            }
            return Some((mask, shift, table));
        }
        let old_occ: Ghost<u64> = Ghost(occ);
        occ = occ.wrapping_sub(mask) & mask;
        proof {
            lemma_carry_enumerates(occ, mask, 0);
            assert forall|y: u64| #[trigger] (y & mask) == y && y < occ implies slot_ok(
                rook,
                sq as int,
                mask,
                magic,
                shift,
                table@,
                y,
            ) by {
                lemma_carry_enumerates(old_occ@, mask, y);
            }
        }
    }
}

/// The rook magic multipliers as the specification sees them.
pub open spec fn rook_magics_spec() -> Seq<u64> {
    seq![
        0x2280008130400221u64,
        0x0140006000100041u64,
        0x4100140841002000u64,
        0x0100041000200900u64,
        0x0a80024800040080u64,
        0x09000803004e0400u64,
        0x0400008201043018u64,
        0xc200082040920104u64,
        0x0204800080400628u64,
        0x4200402000401000u64,
        0x0812002200104080u64,
        0x0101000820100101u64,
        0x00c0800800800400u64,
        0x0882001002010408u64,
        0x0002000408018200u64,
        0x4401002042008100u64,
        0x2018208000400880u64,
        0x8040048040802000u64,
        0x20b0002000280402u64,
        0xc450008080080010u64,
        0x2210850010080100u64,
        0x0000808004000200u64,
        0x8088040018624130u64,
        0x0300020028804904u64,
        0x0800400580008020u64,
        0x0500200040100040u64,
        0x0410200080801000u64,
        0x050021010010000cu64,
        0x1002002200081004u64,
        0x0000040080800200u64,
        0x0002002200080441u64,
        0x6134803080004100u64,
        0x0080002000400040u64,
        0x0030201008400044u64,
        0x20308a1000802000u64,
        0x0460800800801002u64,
        0x0028010025000850u64,
        0xaa8200140e008810u64,
        0x0001000421008200u64,
        0x0000800141800300u64,
        0x1000802040008010u64,
        0x40c0100800242000u64,
        0x0410080024002000u64,
        0x0808100100090020u64,
        0x0000080004008080u64,
        0x0004000402008080u64,
        0x0050020110040008u64,
        0x000e808041220014u64,
        0x2c091442a0800100u64,
        0x4004482208810600u64,
        0x0310200010008080u64,
        0x0030010020081100u64,
        0x4000110004080100u64,
        0x0002000280040080u64,
        0x00c2000801040200u64,
        0x0800800100006080u64,
        0x1000104081082202u64,
        0xc001088020124202u64,
        0x10200a0022118042u64,
        0x0900042100100009u64,
        0x4c21000800100205u64,
        0x0001000802040001u64,
        0x0832000400c82102u64,
        0x1200104881040822u64,
    ]
}

/// The bishop magic multipliers as the specification sees them.
pub open spec fn bishop_magics_spec() -> Seq<u64> {
    seq![
        0x0022200802890048u64,
        0x0491240110420000u64,
        0x2016041112000010u64,
        0x0020a10040214104u64,
        0x8084042085000001u64,
        0x00012820900000a0u64,
        0x200088c820300004u64,
        0xb002004400841010u64,
        0x0010400862040040u64,
        0x0002048804ad0208u64,
        0x0001098803010100u64,
        0x2000444400840000u64,
        0x4000020210000000u64,
        0x0a00060924a00082u64,
        0x10000410a2282000u64,
        0x8800010121012019u64,
        0x0041240802040402u64,
        0x0420888401020229u64,
        0x0081005004002442u64,
        0x441800040c20a81au64,
        0x0001000820080422u64,
        0x0806204202100240u64,
        0x010040510108204au64,
        0x0420800214440200u64,
        0x0020047020840404u64,
        0x0104202004014408u64,
        0x00003000020c01c0u64,
        0x001c004044010042u64,
        0x2001001011004000u64,
        0xc004024018080a08u64,
        0x2041012214008800u64,
        0x0000420001090110u64,
        0x040c20200028c200u64,
        0x0101040302202810u64,
        0x0001140a03040804u64,
        0x0200020080080080u64,
        0x0242080410060200u64,
        0x0004102080024800u64,
        0x0110850040630428u64,
        0x2548204040508202u64,
        0x0214100446241000u64,
        0x0013080804023240u64,
        0x10000c0044008800u64,
        0x800106020421ba00u64,
        0x4800181010400c00u64,
        0x0040082104084040u64,
        0x01040102420a0400u64,
        0x0410821e00280040u64,
        0x0414040109080000u64,
        0x0104840402020019u64,
        0x0000020442480000u64,
        0x0000202442020080u64,
        0xc00c412020411000u64,
        0x1000418408208300u64,
        0x8009a21444040000u64,
        0x0420011131090800u64,
        0x0002042402480400u64,
        0x4040620114029200u64,
        0x8300400144044405u64,
        0x0402910280208800u64,
        0x00008808e0024400u64,
        0x0003900810100088u64,
        0x0250210204284280u64,
        0x0028820c18020010u64,
    ]
}

/// The rook magic multipliers, one per square, found offline; `new`
/// re-verifies them exhaustively before trusting any lookup to them.
fn rook_magics_vec() -> (v: Vec<u64>)
    ensures
        v@ == rook_magics_spec(),
        v@.len() == 64,
{
    vec![
        0x2280008130400221u64,
        0x0140006000100041u64,
        0x4100140841002000u64,
        0x0100041000200900u64,
        0x0a80024800040080u64,
        0x09000803004e0400u64,
        0x0400008201043018u64,
        0xc200082040920104u64,
        0x0204800080400628u64,
        0x4200402000401000u64,
        0x0812002200104080u64,
        0x0101000820100101u64,
        0x00c0800800800400u64,
        0x0882001002010408u64,
        0x0002000408018200u64,
        0x4401002042008100u64,
        0x2018208000400880u64,
        0x8040048040802000u64,
        0x20b0002000280402u64,
        0xc450008080080010u64,
        0x2210850010080100u64,
        0x0000808004000200u64,
        0x8088040018624130u64,
        0x0300020028804904u64,
        0x0800400580008020u64,
        0x0500200040100040u64,
        0x0410200080801000u64,
        0x050021010010000cu64,
        0x1002002200081004u64,
        0x0000040080800200u64,
        0x0002002200080441u64,
        0x6134803080004100u64,
        0x0080002000400040u64,
        0x0030201008400044u64,
        0x20308a1000802000u64,
        0x0460800800801002u64,
        0x0028010025000850u64,
        0xaa8200140e008810u64,
        0x0001000421008200u64,
        0x0000800141800300u64,
        0x1000802040008010u64,
        0x40c0100800242000u64,
        0x0410080024002000u64,
        0x0808100100090020u64,
        0x0000080004008080u64,
        0x0004000402008080u64,
        0x0050020110040008u64,
        0x000e808041220014u64,
        0x2c091442a0800100u64,
        0x4004482208810600u64,
        0x0310200010008080u64,
        0x0030010020081100u64,
        0x4000110004080100u64,
        0x0002000280040080u64,
        0x00c2000801040200u64,
        0x0800800100006080u64,
        0x1000104081082202u64,
        0xc001088020124202u64,
        0x10200a0022118042u64,
        0x0900042100100009u64,
        0x4c21000800100205u64,
        0x0001000802040001u64,
        0x0832000400c82102u64,
        0x1200104881040822u64,
    ]
}

/// The bishop magic multipliers, one per square.
fn bishop_magics_vec() -> (v: Vec<u64>)
    ensures
        v@ == bishop_magics_spec(),
        v@.len() == 64,
{
    vec![
        0x0022200802890048u64,
        0x0491240110420000u64,
        0x2016041112000010u64,
        0x0020a10040214104u64,
        0x8084042085000001u64,
        0x00012820900000a0u64,
        0x200088c820300004u64,
        0xb002004400841010u64,
        0x0010400862040040u64,
        0x0002048804ad0208u64,
        0x0001098803010100u64,
        0x2000444400840000u64,
        0x4000020210000000u64,
        0x0a00060924a00082u64,
        0x10000410a2282000u64,
        0x8800010121012019u64,
        0x0041240802040402u64,
        0x0420888401020229u64,
        0x0081005004002442u64,
        0x441800040c20a81au64,
        0x0001000820080422u64,
        0x0806204202100240u64,
        0x010040510108204au64,
        0x0420800214440200u64,
        0x0020047020840404u64,
        0x0104202004014408u64,
        0x00003000020c01c0u64,
        0x001c004044010042u64,
        0x2001001011004000u64,
        0xc004024018080a08u64,
        0x2041012214008800u64,
        0x0000420001090110u64,
        0x040c20200028c200u64,
        0x0101040302202810u64,
        0x0001140a03040804u64,
        0x0200020080080080u64,
        0x0242080410060200u64,
        0x0004102080024800u64,
        0x0110850040630428u64,
        0x2548204040508202u64,
        0x0214100446241000u64,
        0x0013080804023240u64,
        0x10000c0044008800u64,
        0x800106020421ba00u64,
        0x4800181010400c00u64,
        0x0040082104084040u64,
        0x01040102420a0400u64,
        0x0410821e00280040u64,
        0x0414040109080000u64,
        0x0104840402020019u64,
        0x0000020442480000u64,
        0x0000202442020080u64,
        0xc00c412020411000u64,
        0x1000418408208300u64,
        0x8009a21444040000u64,
        0x0420011131090800u64,
        0x0002042402480400u64,
        0x4040620114029200u64,
        0x8300400144044405u64,
        0x0402910280208800u64,
        0x00008808e0024400u64,
        0x0003900810100088u64,
        0x0250210204284280u64,
        0x0028820c18020010u64,
    ]
}

/// The read-only attack tables: per-square king, knight and pawn masks,
/// and magic-hashed sliding attacks for rook and bishop (queen is their
/// union).
pub struct AttackTables {
    pub king: Vec<u64>,
    pub knight: Vec<u64>,
    pub pawn_white: Vec<u64>,
    pub pawn_black: Vec<u64>,
    pub rook_masks: Vec<u64>,
    pub rook_magics: Vec<u64>,
    pub rook_shifts: Vec<u64>,
    pub rook_table: Vec<Vec<u64>>,
    pub bishop_masks: Vec<u64>,
    pub bishop_magics: Vec<u64>,
    pub bishop_shifts: Vec<u64>,
    pub bishop_table: Vec<Vec<u64>>,
}

impl AttackTables {
    /// Every table holds, for every square (and occupancy subset, for the
    /// sliders), exactly the attack set of the square geometry.
    pub open spec fn wf(self) -> bool {
        &&& self.king@.len() == 64
        &&& self.knight@.len() == 64
        &&& self.pawn_white@.len() == 64
        &&& self.pawn_black@.len() == 64
        &&& self.rook_masks@.len() == 64
        &&& self.rook_magics@.len() == 64
        &&& self.rook_shifts@.len() == 64
        &&& self.rook_table@.len() == 64
        &&& self.bishop_masks@.len() == 64
        &&& self.bishop_magics@.len() == 64
        &&& self.bishop_shifts@.len() == 64
        &&& self.bishop_table@.len() == 64
        &&& forall|s: int| 0 <= s < 64 ==> #[trigger] self.king@[s] == king_attacks_spec(s)
        &&& forall|s: int| 0 <= s < 64 ==> #[trigger] self.knight@[s] == knight_attacks_spec(s)
        &&& forall|s: int| 0 <= s < 64 ==> #[trigger] self.pawn_white@[s] == pawn_attacks_spec(0, s)
        &&& forall|s: int| 0 <= s < 64 ==> #[trigger] self.pawn_black@[s] == pawn_attacks_spec(1, s)
        &&& forall|s: int|
            0 <= s < 64 ==> slider_entry_ok(
                true,
                s,
                #[trigger] self.rook_masks@[s],
                self.rook_magics@[s],
                self.rook_shifts@[s],
                self.rook_table@[s]@,
            )
        &&& forall|s: int|
            0 <= s < 64 ==> slider_entry_ok(
                false,
                s,
                #[trigger] self.bishop_masks@[s],
                self.bishop_magics@[s],
                self.bishop_shifts@[s],
                self.bishop_table@[s]@,
            )
    }

    /// Builds all tables, verifying the magic constants exhaustively:
    /// a returned value satisfies `wf`, so every sliding lookup through it
    /// equals direct ray casting. A failed build refutes the soundness of
    /// one of the configured constants.
    pub fn new() -> (r: Option<AttackTables>)
        ensures
            r matches Some(t) ==> t.wf(),
            r.is_none() ==> exists|sq: int|
                0 <= sq < 64 && (!magic_ok(true, sq, #[trigger] rook_magics_spec()[sq])
                    || !magic_ok(false, sq, bishop_magics_spec()[sq])),
    {
        let king = king_table();
        let knight = knight_table();
        let pawn_white = pawn_table(0);
        let pawn_black = pawn_table(1);
        let rook_magics = rook_magics_vec();
        let bishop_magics = bishop_magics_vec();
        let mut rook_masks: Vec<u64> = Vec::new();
        let mut rook_shifts: Vec<u64> = Vec::new();
        let mut rook_table: Vec<Vec<u64>> = Vec::new();
        let mut bishop_masks: Vec<u64> = Vec::new();
        let mut bishop_shifts: Vec<u64> = Vec::new();
        let mut bishop_table: Vec<Vec<u64>> = Vec::new();
        for sq in 0..64usize
            invariant
                rook_magics@ == rook_magics_spec(),
                bishop_magics@ == bishop_magics_spec(),
                rook_magics@.len() == 64,
                bishop_magics@.len() == 64,
                rook_masks@.len() == sq,
                rook_shifts@.len() == sq,
                rook_table@.len() == sq,
                bishop_masks@.len() == sq,
                bishop_shifts@.len() == sq,
                bishop_table@.len() == sq,
                forall|s: int|
                    0 <= s < sq ==> slider_entry_ok(
                        true,
                        s,
                        #[trigger] rook_masks@[s],
                        rook_magics@[s],
                        rook_shifts@[s],
                        rook_table@[s]@,
                    ),
                forall|s: int|
                    0 <= s < sq ==> slider_entry_ok(
                        false,
                        s,
                        #[trigger] bishop_masks@[s],
                        bishop_magics@[s],
                        bishop_shifts@[s],
                        bishop_table@[s]@,
                    ),
        {
            match build_slider(sq, rook_magics[sq], true) {
                Some((mask, shift, table)) => {
                    rook_masks.push(mask);
                    rook_shifts.push(shift);
                    rook_table.push(table);
                },
                None => {
                    proof {
                        assert(!magic_ok(true, sq as int, rook_magics_spec()[sq as int]));
                    }
                    return None;
                },
            }
            match build_slider(sq, bishop_magics[sq], false) {
                Some((mask, shift, table)) => {
                    bishop_masks.push(mask);
                    bishop_shifts.push(shift);
                    bishop_table.push(table);
                },
                None => {
                    proof {
                        assert(!magic_ok(false, sq as int, bishop_magics_spec()[sq as int]));
                        assert(rook_magics_spec()[sq as int] == rook_magics@[sq as int]);
                    }
                    return None;
                },
            }
        }
        Some(
            AttackTables {
                king,
                knight,
                pawn_white,
                pawn_black,
                rook_masks,
                rook_magics,
                rook_shifts,
                rook_table,
                bishop_masks,
                bishop_magics,
                bishop_shifts,
                bishop_table,
            },
        )
    }

    /// King attack set for a square.
    pub fn get_king_attacks(&self, sq: usize) -> (a: u64)
        requires
            self.wf(),
            sq < 64,
        ensures
            a == king_attacks_spec(sq as int),
    {
        self.king[sq]
    }

    /// Knight attack set for a square.
    pub fn get_knight_attacks(&self, sq: usize) -> (a: u64)
        requires
            self.wf(),
            sq < 64,
        ensures
            a == knight_attacks_spec(sq as int),
    {
        self.knight[sq]
    }

    /// Squares a pawn of `side` on `sq` attacks.
    pub fn get_pawn_attacks(&self, side: usize, sq: usize) -> (a: u64)
        requires
            self.wf(),
            side < 2,
            sq < 64,
        ensures
            a == pawn_attacks_spec(side as int, sq as int),
    {
        if side == 0 {
            self.pawn_white[sq]
        } else {
            self.pawn_black[sq]
        }
    }

    /// Rook attack set under an occupancy, via the magic hash.
    pub fn get_rook_attacks(&self, sq: usize, occ: u64) -> (a: u64)
        requires
            self.wf(),
            sq < 64,
        ensures
            a == rook_attacks_spec(sq as int, occ),
    {
        let mask = self.rook_masks[sq];
        let blockers = occ & mask;
        proof {
            lemma_mask_facts(occ, 0, mask);
            assert(blockers & mask == blockers);
            assert(slot_ok(
                true,
                sq as int,
                mask,
                self.rook_magics@[sq as int],
                self.rook_shifts@[sq as int],
                self.rook_table@[sq as int]@,
                blockers,
            ));
            lemma_rook_masked(sq as int, occ);
        }
        let idx = (blockers.wrapping_mul(self.rook_magics[sq]) >> self.rook_shifts[sq]) as usize;
        self.rook_table[sq][idx]
    }

    /// Bishop attack set under an occupancy, via the magic hash.
    pub fn get_bishop_attacks(&self, sq: usize, occ: u64) -> (a: u64)
        requires
            self.wf(),
            sq < 64,
        ensures
            a == bishop_attacks_spec(sq as int, occ),
    {
        let mask = self.bishop_masks[sq];
        let blockers = occ & mask;
        proof {
            lemma_mask_facts(occ, 0, mask);
            assert(blockers & mask == blockers);
            assert(slot_ok(
                false,
                sq as int,
                mask,
                self.bishop_magics@[sq as int],
                self.bishop_shifts@[sq as int],
                self.bishop_table@[sq as int]@,
                blockers,
            ));
            lemma_bishop_masked(sq as int, occ);
        }
        let idx = (blockers.wrapping_mul(self.bishop_magics[sq]) >> self.bishop_shifts[sq])
            as usize;
        self.bishop_table[sq][idx]
    }

    /// Queen attacks: the union of the rook and bishop attack sets.
    pub fn get_queen_attacks(&self, sq: usize, occ: u64) -> (a: u64)
        requires
            self.wf(),
            sq < 64,
        ensures
            a == queen_attacks_spec(sq as int, occ),
    {
        self.get_rook_attacks(sq, occ) | self.get_bishop_attacks(sq, occ)
    }
}

} // verus!

