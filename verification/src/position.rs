//! The mutable board state: twelve per-side-per-piece bitboards, a mailbox,
//! side to move, castling rights, en-passant square and clocks, plus the
//! undo history that makes every `make` exactly reversible by `unmake`.
//!
//! The abstract value of a position is `Core`; `spec_make` and
//! `spec_unmake` describe one move's effect and its exact inverse, and the
//! history chain invariant ties every stacked undo record to the snapshot
//! it restores.

use crate::attacks::{
    bishop_attacks_spec, king_attacks_spec, knight_attacks_spec, pawn_attacks_spec,
    rook_attacks_spec,
};
use crate::bitmove::Move;
use crate::bits::{bit_at, sq_bb};
use vstd::prelude::*;

verus! {

/// The abstract state of a board: everything `make` can change.
/// Piece boards are indexed side * 6 + piece, with piece encodings
/// 0 king, 1 queen, 2 rook, 3 bishop, 4 knight, 5 pawn; 6 in the mailbox
/// means empty.
#[verifier::ext_equal]
pub struct Core {
    pub bb: Seq<u64>,
    pub mailbox: Seq<usize>,
    pub side_to_move: usize,
    pub castling: u8,
    pub en_passant: Option<usize>,
    pub halfmove: u32,
    pub fullmove: u32,
}

/// Exactly board `own` holds square `s`, and no other board does.
pub open spec fn only_owner(bbs: Seq<u64>, s: int, own: int) -> bool {
    forall|i: int| 0 <= i < 12 ==> (bit_at(#[trigger] bbs[i], s) == (i == own))
}

/// No board holds square `s`.
pub open spec fn no_owner(bbs: Seq<u64>, s: int) -> bool {
    forall|i: int| 0 <= i < 12 ==> !bit_at(#[trigger] bbs[i], s)
}

/// The mailbox and the piece boards agree on square `s`: an empty entry
/// means no board holds the square, and a piece entry means exactly one
/// side's board of that piece type holds it.
pub open spec fn sq_ok(bbs: Seq<u64>, mb: Seq<usize>, s: int) -> bool {
    if mb[s] == 6 {
        no_owner(bbs, s)
    } else {
        mb[s] < 6 && (only_owner(bbs, s, mb[s] as int) || only_owner(bbs, s, 6 + mb[s] as int))
    }
}

pub open spec fn boards_ok(bbs: Seq<u64>, mb: Seq<usize>) -> bool {
    &&& bbs.len() == 12
    &&& mb.len() == 64
    &&& forall|s: int| 0 <= s < 64 ==> #[trigger] sq_ok(bbs, mb, s)
}

/// The en-passant square is only ever the square passed over by the
/// double push played on the previous ply: the right rank, empty, with
/// the pushed pawn standing behind it.
pub open spec fn ep_ok(c: Core) -> bool {
    match c.en_passant {
        Option::None => true,
        Option::Some(e) => {
            if c.side_to_move == 0 {
                40 <= e < 48 && c.mailbox[e as int] == 6 && c.mailbox[e - 8] == 5 && bit_at(
                    c.bb[11],
                    e - 8,
                )
            } else {
                16 <= e < 24 && c.mailbox[e as int] == 6 && c.mailbox[e + 8] == 5 && bit_at(
                    c.bb[5],
                    e + 8,
                )
            }
        },
    }
}

/// The state invariant: mailbox and boards agree square by square, the
/// scalars are in range, and the en-passant square is coherent.
pub open spec fn core_wf(c: Core) -> bool {
    &&& boards_ok(c.bb, c.mailbox)
    &&& c.side_to_move < 2
    &&& c.castling < 16
    &&& ep_ok(c)
}

/// The square a capture removes: the destination, except for en passant,
/// where the captured pawn stands behind the destination.
pub open spec fn capture_square(m: Move, us: int) -> int {
    if m.en_passant {
        if us == 0 {
            m.to - 8
        } else {
            m.to + 8
        }
    } else {
        m.to as int
    }
}

/// The piece standing on the destination afterward: the promotion piece
/// if there is one, else the mover.
pub open spec fn final_piece(m: Move) -> usize {
    if m.promoted != 6 {
        m.promoted
    } else {
        m.piece
    }
}

/// The castling rook's origin square for a castle move.
pub open spec fn rook_from(m: Move) -> int {
    if m.to == 6 {
        7
    } else if m.to == 2 {
        0
    } else if m.to == 62 {
        63
    } else {
        56
    }
}

/// The castling rook's destination square for a castle move.
pub open spec fn rook_to(m: Move) -> int {
    if m.to == 6 {
        5
    } else if m.to == 2 {
        3
    } else if m.to == 62 {
        61
    } else {
        59
    }
}

/// The rights kept when a piece moves from or to square `s`: leaving or
/// disturbing a king or rook home square drops the matching rights.
pub open spec fn castle_perm_mask(s: int) -> u8 {
    if s == 0 {
        13
    } else if s == 4 {
        12
    } else if s == 7 {
        14
    } else if s == 56 {
        7
    } else if s == 60 {
        3
    } else if s == 63 {
        11
    } else {
        15
    }
}

/// What the generator guarantees of every move it emits, and all that
/// `make` needs to apply and exactly reverse it: squares in range and
/// distinct, the mover really standing on the source, the capture field
/// agreeing with the destination (or, for en passant, with the square
/// behind it), and each special flag implying its structural setup.
pub open spec fn pseudo_ok(c: Core, m: Move) -> bool {
    let us = c.side_to_move as int;
    let them = 1 - us;
    &&& m.from < 64
    &&& m.to < 64
    &&& m.from != m.to
    &&& m.piece < 6
    &&& m.captured <= 6
    &&& c.mailbox[m.from as int] == m.piece
    &&& bit_at(c.bb[us * 6 + m.piece], m.from as int)
    &&& if m.en_passant {
        let cs = capture_square(m, us);
        &&& m.piece == 5
        &&& m.captured == 5
        &&& c.en_passant == Option::Some(m.to)
        &&& (us == 0 ==> 40 <= m.to < 48)
        &&& (us == 1 ==> 16 <= m.to < 24)
        &&& c.mailbox[m.to as int] == 6
        &&& c.mailbox[cs] == 5
        &&& bit_at(c.bb[them * 6 + 5], cs)
        &&& cs != m.from
    } else {
        &&& (m.captured == 6 ==> c.mailbox[m.to as int] == 6)
        &&& (m.captured != 6 ==> c.mailbox[m.to as int] == m.captured && bit_at(
            c.bb[them * 6 + m.captured],
            m.to as int,
        ))
    }
    &&& (m.promoted != 6 ==> m.piece == 5 && (m.promoted == 1 || m.promoted == 2 || m.promoted == 3
        || m.promoted == 4))
    &&& (m.double_step ==> m.piece == 5 && !m.en_passant && m.captured == 6 && m.promoted == 6 && (
    (us == 0 && 8 <= m.from < 16 && m.to == m.from + 16 && c.mailbox[m.from + 8] == 6) || (us == 1
        && 48 <= m.from < 56 && m.from == m.to + 16 && c.mailbox[m.from - 8] == 6)))
    &&& (m.castling ==> m.piece == 0 && m.captured == 6 && m.promoted == 6 && !m.en_passant
        && !m.double_step && ((us == 0 && m.from == 4 && (m.to == 6 || m.to == 2)) || (us == 1
        && m.from == 60 && (m.to == 62 || m.to == 58))) && c.mailbox[rook_from(m)] == 2 && bit_at(
        c.bb[us * 6 + 2],
        rook_from(m),
    ) && c.mailbox[rook_to(m)] == 6)
}

/// The boards after applying `m` for side `us`: clear the source, remove
/// a captured piece, set the destination (promotion replacing the pawn),
/// and relocate the rook on castling.
pub open spec fn boards_after(bbs: Seq<u64>, mb: Seq<usize>, m: Move, us: int) -> (Seq<u64>, Seq<
    usize,
>) {
    let them = 1 - us;
    let b1 = bbs.update(us * 6 + m.piece, bbs[us * 6 + m.piece] ^ sq_bb(m.from as int));
    let m1 = mb.update(m.from as int, 6usize);
    let cs = capture_square(m, us);
    let b2 = if m.captured != 6 {
        b1.update(them * 6 + m.captured, b1[them * 6 + m.captured] ^ sq_bb(cs))
    } else {
        b1
    };
    let m2 = if m.captured != 6 {
        m1.update(cs, 6usize)
    } else {
        m1
    };
    let fp = final_piece(m);
    let b3 = b2.update(us * 6 + fp, b2[us * 6 + fp] ^ sq_bb(m.to as int));
    let m3 = m2.update(m.to as int, fp);
    if m.castling {
        let b4 = b3.update(us * 6 + 2, b3[us * 6 + 2] ^ (sq_bb(rook_from(m)) | sq_bb(rook_to(m))));
        let m4 = m3.update(rook_from(m), 6usize).update(rook_to(m), 2usize);
        (b4, m4)
    } else {
        (b3, m3)
    }
}

/// The boards before `m` was applied by side `us`: the exact reverse of
/// `boards_after`, mirroring its conditional structure.
pub open spec fn boards_before(bbs: Seq<u64>, mb: Seq<usize>, m: Move, us: int) -> (Seq<u64>, Seq<
    usize,
>) {
    let them = 1 - us;
    let b0 = if m.castling {
        bbs.update(us * 6 + 2, bbs[us * 6 + 2] ^ (sq_bb(rook_from(m)) | sq_bb(rook_to(m))))
    } else {
        bbs
    };
    let m0 = if m.castling {
        mb.update(rook_to(m), 6usize).update(rook_from(m), 2usize)
    } else {
        mb
    };
    let fp = final_piece(m);
    let b1 = b0.update(us * 6 + fp, b0[us * 6 + fp] ^ sq_bb(m.to as int));
    let m1 = m0.update(
        m.to as int,
        if m.en_passant || m.captured == 6 {
            6usize
        } else {
            m.captured
        },
    );
    let cs = capture_square(m, us);
    let b2 = if m.captured != 6 {
        b1.update(them * 6 + m.captured, b1[them * 6 + m.captured] ^ sq_bb(cs))
    } else {
        b1
    };
    let m2 = if m.en_passant {
        m1.update(cs, 5usize)
    } else {
        m1
    };
    let b3 = b2.update(us * 6 + m.piece, b2[us * 6 + m.piece] ^ sq_bb(m.from as int));
    let m3 = m2.update(m.from as int, m.piece);
    (b3, m3)
}

/// The full abstract effect of one made move.
pub open spec fn spec_make(c: Core, m: Move) -> Core {
    let r = boards_after(c.bb, c.mailbox, m, c.side_to_move as int);
    Core {
        bb: r.0,
        mailbox: r.1,
        side_to_move: (1 - c.side_to_move) as usize,
        castling: c.castling & castle_perm_mask(m.from as int) & castle_perm_mask(m.to as int),
        en_passant: if m.double_step {
            Option::Some(((m.from + m.to) / 2) as usize)
        } else {
            Option::None
        },
        halfmove: if m.piece == 5 || m.captured != 6 {
            0u32
        } else if c.halfmove < 0xffffffffu32 {
            (c.halfmove + 1) as u32
        } else {
            c.halfmove
        },
        fullmove: if c.side_to_move == 1 && c.fullmove < 0xffffffffu32 {
            (c.fullmove + 1) as u32
        } else {
            c.fullmove
        },
    }
}

/// The exact reversal of `spec_make`, given the undo record's saved
/// scalars.
pub open spec fn spec_unmake(c2: Core, m: Move, cast: u8, ep: Option<usize>, hm: u32, fm: u32) -> Core {
    let us = 1 - c2.side_to_move as int;
    let r = boards_before(c2.bb, c2.mailbox, m, us);
    Core {
        bb: r.0,
        mailbox: r.1,
        side_to_move: us as usize,
        castling: cast,
        en_passant: ep,
        halfmove: hm,
        fullmove: fm,
    }
}

/// What `unmake` needs of the current state and the move being taken
/// back, all implied by the state having been produced by `spec_make`.
pub open spec fn unmake_ok(c: Core, m: Move) -> bool {
    let us = 1 - c.side_to_move as int;
    &&& c.side_to_move < 2
    &&& c.bb.len() == 12
    &&& c.mailbox.len() == 64
    &&& m.from < 64
    &&& m.to < 64
    &&& m.piece < 6
    &&& m.captured <= 6
    &&& m.promoted <= 6
    &&& (m.promoted != 6 ==> m.promoted < 6)
    &&& (m.en_passant ==> m.captured == 5 && ((us == 0 && 40 <= m.to < 48) || (us == 1 && 16 <= m.to
        < 24)))
    &&& (m.castling ==> m.to == 6 || m.to == 2 || m.to == 62 || m.to == 58)
}

/// All squares either side occupies.
pub open spec fn occ_side(c: Core, side: int) -> u64 {
    c.bb[side * 6] | c.bb[side * 6 + 1] | c.bb[side * 6 + 2] | c.bb[side * 6 + 3] | c.bb[side * 6
        + 4] | c.bb[side * 6 + 5]
}

pub open spec fn occ_all(c: Core) -> u64 {
    occ_side(c, 0) | occ_side(c, 1)
}

/// Whether side `by` attacks square `sq`: a leaper of theirs sits on a
/// square whose attack set covers `sq`, or a slider reaches it through
/// the combined occupancy.
pub open spec fn attacked_by(c: Core, sq: int, by: int) -> bool {
    ||| knight_attacks_spec(sq) & c.bb[by * 6 + 4] != 0
    ||| king_attacks_spec(sq) & c.bb[by * 6] != 0
    ||| pawn_attacks_spec(1 - by, sq) & c.bb[by * 6 + 5] != 0
    ||| rook_attacks_spec(sq, occ_all(c)) & (c.bb[by * 6 + 2] | c.bb[by * 6 + 1]) != 0
    ||| bishop_attacks_spec(sq, occ_all(c)) & (c.bb[by * 6 + 3] | c.bb[by * 6 + 1]) != 0
}

/// Whether `side`'s king stands attacked (vacuously safe with no king on
/// the board).
pub open spec fn king_attacked(c: Core, side: int) -> bool {
    c.bb[side * 6] != 0 && attacked_by(
        c,
        vstd::std_specs::bits::u64_trailing_zeros(c.bb[side * 6]) as int,
        1 - side,
    )
}

/// The side to move has no legal reply: every pseudo-legal move leaves
/// its own king attacked.
pub open spec fn no_legal_moves(c: Core) -> bool {
    forall|m: Move| #[trigger] pseudo_ok(c, m) ==> king_attacked(spec_make(c, m), c.side_to_move as int)
}

/// Whether applying `m` toggles the bit of board `i` at square `s`.
/// Each toggle site is hit exactly once, so the boards after the move
/// differ from the boards before by exactly these flips.
pub open spec fn flips(c: Core, m: Move, i: int, s: int) -> bool {
    let us = c.side_to_move as int;
    let them = 1 - us;
    ||| (i == us * 6 + m.piece && s == m.from)
    ||| (i == us * 6 + final_piece(m) && s == m.to)
    ||| (m.captured != 6 && i == them * 6 + m.captured && s == capture_square(m, us))
    ||| (m.castling && i == us * 6 + 2 && (s == rook_from(m) || s == rook_to(m)))
}

/// The mailbox entry at `s` after applying `m`.
pub open spec fn mb_after_at(c: Core, m: Move, s: int) -> usize {
    let us = c.side_to_move as int;
    if m.castling && s == rook_to(m) {
        2usize
    } else if m.castling && s == rook_from(m) {
        6usize
    } else if s == m.to {
        final_piece(m)
    } else if m.captured != 6 && s == capture_square(m, us) {
        6usize
    } else if s == m.from {
        6usize
    } else {
        c.mailbox[s]
    }
}

proof fn lemma_xor_bit(x: u64, q: int, s: int)
    requires
        0 <= q < 64,
        0 <= s < 64,
    ensures
        bit_at(x ^ sq_bb(q), s) == if q == s {
            !bit_at(x, s)
        } else {
            bit_at(x, s)
        },
{
    crate::bits::lemma_bit_ops(x, sq_bb(q), s);
    crate::bits::lemma_one_bit(q, s);
}

proof fn lemma_xor_bit2(x: u64, q1: int, q2: int, s: int)
    requires
        0 <= q1 < 64,
        0 <= q2 < 64,
        q1 != q2,
        0 <= s < 64,
    ensures
        bit_at(x ^ (sq_bb(q1) | sq_bb(q2)), s) == if q1 == s || q2 == s {
            !bit_at(x, s)
        } else {
            bit_at(x, s)
        },
{
    crate::bits::lemma_bit_ops(sq_bb(q1), sq_bb(q2), s);
    crate::bits::lemma_bit_ops(x, sq_bb(q1) | sq_bb(q2), s);
    crate::bits::lemma_one_bit(q1, s);
    crate::bits::lemma_one_bit(q2, s);
}

/// Bit-level reading of `boards_after`: board `i` at square `s` is the
/// old bit, toggled exactly when `flips` says so.
proof fn lemma_after_bit(c: Core, m: Move, i: int, s: int)
    requires
        core_wf(c),
        pseudo_ok(c, m),
        0 <= i < 12,
        0 <= s < 64,
    ensures
        bit_at(boards_after(c.bb, c.mailbox, m, c.side_to_move as int).0[i], s) == (bit_at(
            c.bb[i],
            s,
        ) != flips(c, m, i, s)),
{
    let us = c.side_to_move as int;
    let them = 1 - us;
    let cs = capture_square(m, us);
    let fp = final_piece(m);
    let b1 = c.bb.update(us * 6 + m.piece, c.bb[us * 6 + m.piece] ^ sq_bb(m.from as int));
    let b2 = if m.captured != 6 {
        b1.update(them * 6 + m.captured, b1[them * 6 + m.captured] ^ sq_bb(cs))
    } else {
        b1
    };
    let b3 = b2.update(us * 6 + fp, b2[us * 6 + fp] ^ sq_bb(m.to as int));
    if m.en_passant {
        assert(0 <= cs < 64);
    }
    if i == us * 6 + m.piece {
        lemma_xor_bit(c.bb[i], m.from as int, s);
    }
    if m.captured != 6 && i == them * 6 + m.captured {
        lemma_xor_bit(b1[i], cs, s);
    }
    if i == us * 6 + fp {
        lemma_xor_bit(b2[i], m.to as int, s);
    }
    if m.castling && i == us * 6 + 2 {
        lemma_xor_bit2(b3[i], rook_from(m), rook_to(m), s);
    }
}

/// The mailbox after `boards_after` reads as `mb_after_at`.
proof fn lemma_after_mb(c: Core, m: Move, s: int)
    requires
        core_wf(c),
        pseudo_ok(c, m),
        0 <= s < 64,
    ensures
        boards_after(c.bb, c.mailbox, m, c.side_to_move as int).1[s] == mb_after_at(c, m, s),
{
    let us = c.side_to_move as int;
    if m.en_passant {
        assert(0 <= capture_square(m, us) < 64);
    }
}

/// Invariant preservation: one pseudo-legal move keeps mailbox and
/// boards in agreement on every square, the rights nibble in range, and
/// the en-passant square coherent.
pub proof fn lemma_make_wf(c: Core, m: Move)
    requires
        core_wf(c),
        pseudo_ok(c, m),
    ensures
        core_wf(spec_make(c, m)),
{
    let us = c.side_to_move as int;
    let them = 1 - us;
    let cs = capture_square(m, us);
    let fp = final_piece(m);
    let c2 = spec_make(c, m);
    let after = boards_after(c.bb, c.mailbox, m, us);
    crate::bits::lemma_u8_and_le(
        c.castling & castle_perm_mask(m.from as int),
        castle_perm_mask(m.to as int),
    );
    crate::bits::lemma_u8_and_le(c.castling, castle_perm_mask(m.from as int));
    assert forall|s: int| 0 <= s < 64 implies #[trigger] sq_ok(after.0, after.1, s) by {
        assert(sq_ok(c.bb, c.mailbox, s));
        lemma_after_mb(c, m, s);
        assert forall|i: int| 0 <= i < 12 implies bit_at(#[trigger] after.0[i], s) == (bit_at(
            c.bb[i],
            s,
        ) != flips(c, m, i, s)) by {
            lemma_after_bit(c, m, i, s);
        }
        if s == m.from {
            // The mover leaves: its board alone was set here, and it is
            // the only one toggled.
            assert(no_owner(after.0, s));
        } else if m.captured != 6 && s == cs && s != m.to {
            // En-passant victim square: the victim's board is cleared.
            assert(no_owner(after.0, s));
        } else if s == m.to {
            // The destination now holds the arriving piece alone.
            assert(only_owner(after.0, s, us * 6 + fp));
        } else if m.castling && s == rook_from(m) {
            assert(no_owner(after.0, s));
        } else if m.castling && s == rook_to(m) {
            assert(only_owner(after.0, s, us * 6 + 2));
        } else {
            assert(mb_after_at(c, m, s) == c.mailbox[s]);
            assert forall|i: int| 0 <= i < 12 implies bit_at(#[trigger] after.0[i], s) == bit_at(
                c.bb[i],
                s,
            ) by {
                assert(!flips(c, m, i, s));
            }
        }
    }
    // En-passant coherence of the new state.
    if m.double_step {
        let e = (m.from + m.to) / 2;
        lemma_after_mb(c, m, e as int);
        lemma_after_mb(c, m, m.to as int);
        assert forall|i: int| 0 <= i < 12 implies bit_at(#[trigger] after.0[i], m.to as int) == (
        bit_at(c.bb[i], m.to as int) != flips(c, m, i, m.to as int)) by {
            lemma_after_bit(c, m, i, m.to as int);
        }
        assert(c2.mailbox[e as int] == 6);
        assert(c2.mailbox[m.to as int] == 5);
        assert(sq_ok(c.bb, c.mailbox, m.to as int));
        assert(no_owner(c.bb, m.to as int));
        assert(!bit_at(c.bb[us * 6 + 5], m.to as int));
        assert(flips(c, m, us * 6 + 5, m.to as int));
        assert(bit_at(c2.bb[us * 6 + 5], m.to as int));
    }
}

/// The round-trip at the heart of `unmake`: reversing a pseudo-legal
/// move restores the boards and mailbox exactly, field for field.
pub proof fn lemma_make_unmake(c: Core, m: Move)
    requires
        core_wf(c),
        pseudo_ok(c, m),
    ensures
        unmake_ok(spec_make(c, m), m),
        spec_unmake(spec_make(c, m), m, c.castling, c.en_passant, c.halfmove, c.fullmove) == c,
{
    let us = c.side_to_move as int;
    let them = 1 - us;
    let cs = capture_square(m, us);
    let fp = final_piece(m);
    let c2 = spec_make(c, m);
    let after = boards_after(c.bb, c.mailbox, m, us);
    let before = boards_before(after.0, after.1, m, us);
    crate::bits::lemma_xor_restore();
    if m.en_passant {
        assert(0 <= cs < 64);
    }
    assert(before.0 =~= c.bb) by {
        assert(before.0.len() == 12);
        assert forall|i: int| 0 <= i < 12 implies before.0[i] == c.bb[i] by {
            lemma_xor_restore_chain(c, m, i);
        }
    }
    assert(before.1 =~= c.mailbox) by {
        assert(before.1.len() == 64);
        assert forall|s: int| 0 <= s < 64 implies before.1[s] == c.mailbox[s] by {
            lemma_after_mb(c, m, s);
        }
    }
    let back = spec_unmake(c2, m, c.castling, c.en_passant, c.halfmove, c.fullmove);
    assert(back =~= c);
}

/// Per-board cancellation: the reverse xor chain of `boards_before`
/// undoes the forward chain of `boards_after` on every board index.
proof fn lemma_xor_restore_chain(c: Core, m: Move, i: int)
    requires
        core_wf(c),
        pseudo_ok(c, m),
        0 <= i < 12,
    ensures
        boards_before(
            boards_after(c.bb, c.mailbox, m, c.side_to_move as int).0,
            boards_after(c.bb, c.mailbox, m, c.side_to_move as int).1,
            m,
            c.side_to_move as int,
        ).0[i] == c.bb[i],
{
    crate::bits::lemma_xor_restore();
}

/// A set bit names its square's occupant: the mailbox holds that board's
/// piece type there, and no other board holds the square.
pub proof fn lemma_owner_from_bit(c: Core, i: int, s: int)
    requires
        core_wf(c),
        0 <= i < 12,
        0 <= s < 64,
        bit_at(c.bb[i], s),
    ensures
        c.mailbox[s] == if i < 6 {
            i
        } else {
            i - 6
        },
        only_owner(c.bb, s, i),
{
    assert(sq_ok(c.bb, c.mailbox, s));
    let mbv = c.mailbox[s] as int;
    if c.mailbox[s] == 6 {
        assert(!bit_at(c.bb[i], s));
    } else if only_owner(c.bb, s, mbv) {
        assert(bit_at(c.bb[i], s) == (i == mbv));
    } else {
        assert(only_owner(c.bb, s, 6 + mbv));
        assert(bit_at(c.bb[i], s) == (i == 6 + mbv));
    }
}

/// A side's occupancy holds a square exactly when one of its six boards
/// does.
pub proof fn lemma_occ_bit(c: Core, side: int, s: int)
    requires
        c.bb.len() == 12,
        0 <= side < 2,
        0 <= s < 64,
    ensures
        bit_at(occ_side(c, side), s) == (bit_at(c.bb[side * 6], s) || bit_at(c.bb[side * 6 + 1], s)
            || bit_at(c.bb[side * 6 + 2], s) || bit_at(c.bb[side * 6 + 3], s) || bit_at(
            c.bb[side * 6 + 4],
            s,
        ) || bit_at(c.bb[side * 6 + 5], s)),
{
    let x0 = c.bb[side * 6];
    let x1 = c.bb[side * 6 + 1];
    let x2 = c.bb[side * 6 + 2];
    let x3 = c.bb[side * 6 + 3];
    let x4 = c.bb[side * 6 + 4];
    let x5 = c.bb[side * 6 + 5];
    crate::bits::lemma_bit_ops(x0, x1, s);
    crate::bits::lemma_bit_ops(x0 | x1, x2, s);
    crate::bits::lemma_bit_ops(x0 | x1 | x2, x3, s);
    crate::bits::lemma_bit_ops(x0 | x1 | x2 | x3, x4, s);
    crate::bits::lemma_bit_ops(x0 | x1 | x2 | x3 | x4, x5, s);
}

/// The occupancy aggregates of a coherent state: the combined occupancy
/// is the union of the two sides', and the two sides' are disjoint.
pub proof fn lemma_occupancy_invariant(c: Core)
    requires
        core_wf(c),
    ensures
        occ_all(c) == occ_side(c, 0) | occ_side(c, 1),
        occ_side(c, 0) & occ_side(c, 1) == 0,
{
    let both = occ_side(c, 0) & occ_side(c, 1);
    if both != 0 {
        crate::bits::lemma_lowest_bit(both);
        let s = vstd::std_specs::bits::u64_trailing_zeros(both) as int;
        crate::bits::lemma_bit_ops(occ_side(c, 0), occ_side(c, 1), s);
        lemma_occ_bit(c, 0, s);
        lemma_occ_bit(c, 1, s);
        assert(exists|i: int| 0 <= i < 6 && bit_at(c.bb[i], s));
        let i0 = choose|i: int| 0 <= i < 6 && bit_at(c.bb[i], s);
        assert(exists|i: int| 6 <= i < 12 && bit_at(c.bb[i], s));
        let i1 = choose|i: int| 6 <= i < 12 && bit_at(c.bb[i], s);
        lemma_owner_from_bit(c, i0, s);
        assert(bit_at(c.bb[i1], s) == (i1 == i0));
        assert(false);
    }
}

/// A non-empty square outside the side to move's occupancy belongs to
/// the opponent: its piece board holds the square.
pub proof fn lemma_capture_owner(c: Core, s: int)
    requires
        core_wf(c),
        0 <= s < 64,
        c.mailbox[s] != 6,
        !bit_at(occ_side(c, c.side_to_move as int), s),
    ensures
        c.mailbox[s] < 6,
        bit_at(c.bb[(1 - c.side_to_move) * 6 + c.mailbox[s]], s),
{
    let us = c.side_to_move as int;
    let them = 1 - us;
    let mbv = c.mailbox[s] as int;
    assert(sq_ok(c.bb, c.mailbox, s));
    lemma_occ_bit(c, us, s);
    if only_owner(c.bb, s, us * 6 + mbv) {
        assert(bit_at(c.bb[us * 6 + mbv], s));
        assert(false);
    }
    assert(only_owner(c.bb, s, them * 6 + mbv));
    assert(bit_at(c.bb[them * 6 + mbv], s));
}

/// One undo-stack entry: the move made and the scalars it overwrote,
/// which together exactly invert the matching `make`.
#[derive(Copy, Clone)]
pub struct UndoRecord {
    pub m: Move,
    pub castling: u8,
    pub en_passant: Option<usize>,
    pub halfmove: u32,
    pub fullmove: u32,
}

/// The board state. The twelve bitboards are indexed side * 6 + piece;
/// occupancy aggregates are computed on demand from them. `snaps` is the
/// ghost trail of the states the undo stack can restore.
pub struct Position {
    pub bb: Vec<u64>,
    pub mailbox: Vec<usize>,
    pub side_to_move: usize,
    pub castling: u8,
    pub en_passant: Option<usize>,
    pub halfmove: u32,
    pub fullmove: u32,
    pub history: Vec<UndoRecord>,
    pub snaps: Ghost<Seq<Core>>,
}

impl Position {
    /// The abstract value of the mutable state.
    pub open spec fn abs(self) -> Core {
        Core {
            bb: self.bb@,
            mailbox: self.mailbox@,
            side_to_move: self.side_to_move,
            castling: self.castling,
            en_passant: self.en_passant,
            halfmove: self.halfmove,
            fullmove: self.fullmove,
        }
    }

    /// Undo entry `i` restores snapshot `i`: the record holds that
    /// snapshot's scalars, the move was pseudo-legal there, and making it
    /// yields the next snapshot (or the current state at the top).
    pub open spec fn chain_link_ok(self, i: int) -> bool {
        let s = self.snaps@[i];
        let next = if i + 1 < self.snaps@.len() {
            self.snaps@[i + 1]
        } else {
            self.abs()
        };
        &&& core_wf(s)
        &&& pseudo_ok(s, self.history@[i].m)
        &&& self.history@[i].castling == s.castling
        &&& self.history@[i].en_passant == s.en_passant
        &&& self.history@[i].halfmove == s.halfmove
        &&& self.history@[i].fullmove == s.fullmove
        &&& next == spec_make(s, self.history@[i].m)
    }

    /// The position invariant: a coherent current state, and an undo
    /// stack whose entries replay exactly the snapshot trail.
    pub open spec fn wf(self) -> bool {
        &&& core_wf(self.abs())
        &&& self.snaps@.len() == self.history@.len()
        &&& forall|i: int| 0 <= i < self.history@.len() ==> #[trigger] self.chain_link_ok(i)
    }

    /// All squares `side` occupies.
    pub fn occupancy(&self, side: usize) -> (r: u64)
        requires
            self.bb@.len() == 12,
            side < 2,
        ensures
            r == occ_side(self.abs(), side as int),
    {
        self.bb[side * 6] | self.bb[side * 6 + 1] | self.bb[side * 6 + 2] | self.bb[side * 6 + 3]
            | self.bb[side * 6 + 4] | self.bb[side * 6 + 5]
    }

    /// All occupied squares.
    pub fn occupancy_all(&self) -> (r: u64)
        requires
            self.bb@.len() == 12,
        ensures
            r == occ_all(self.abs()),
    {
        self.occupancy(0) | self.occupancy(1)
    }

    /// Whether side `by` attacks `sq`, computed against the current
    /// occupancy through the attack tables.
    pub fn square_attacked(&self, sq: usize, by: usize, tables: &crate::attacks::AttackTables) -> (r:
        bool)
        requires
            self.bb@.len() == 12,
            sq < 64,
            by < 2,
            tables.wf(),
        ensures
            r == attacked_by(self.abs(), sq as int, by as int),
    {
        let occ = self.occupancy_all();
        let knight_hit = tables.get_knight_attacks(sq) & self.bb[by * 6 + 4] != 0;
        let king_hit = tables.get_king_attacks(sq) & self.bb[by * 6] != 0;
        let pawn_hit = tables.get_pawn_attacks(1 - by, sq) & self.bb[by * 6 + 5] != 0;
        let rook_hit = tables.get_rook_attacks(sq, occ) & (self.bb[by * 6 + 2] | self.bb[by * 6
            + 1]) != 0;
        let bishop_hit = tables.get_bishop_attacks(sq, occ) & (self.bb[by * 6 + 3] | self.bb[by * 6
            + 1]) != 0;
        knight_hit || king_hit || pawn_hit || rook_hit || bishop_hit
    }

    /// Applies every board and scalar effect of `m`, unconditionally.
    fn apply_move(&mut self, m: Move)
        requires
            core_wf(old(self).abs()),
            pseudo_ok(old(self).abs(), m),
        ensures
            final(self).abs() == spec_make(old(self).abs(), m),
            final(self).history@ == old(self).history@,
            final(self).snaps@ == old(self).snaps@,
    {
        let us = self.side_to_move;
        let them = 1 - us;
        let i_mover = us * 6 + m.piece;
        let v0 = self.bb[i_mover];
        self.bb.set(i_mover, v0 ^ (1u64 << (m.from as u64)));
        self.mailbox.set(m.from, 6);
        if m.captured != 6 {
            let cs = if m.en_passant {
                if us == 0 {
                    m.to - 8
                } else {
                    m.to + 8
                }
            } else {
                m.to
            };
            let i_cap = them * 6 + m.captured;
            let v1 = self.bb[i_cap];
            self.bb.set(i_cap, v1 ^ (1u64 << (cs as u64)));
            self.mailbox.set(cs, 6);
        }
        let fp = if m.promoted != 6 {
            m.promoted
        } else {
            m.piece
        };
        let i_fin = us * 6 + fp;
        let v2 = self.bb[i_fin];
        self.bb.set(i_fin, v2 ^ (1u64 << (m.to as u64)));
        self.mailbox.set(m.to, fp);
        if m.castling {
            let rf: usize = if m.to == 6 {
                7
            } else if m.to == 2 {
                0
            } else if m.to == 62 {
                63
            } else {
                56
            };
            let rt: usize = if m.to == 6 {
                5
            } else if m.to == 2 {
                3
            } else if m.to == 62 {
                61
            } else {
                59
            };
            let i_rook = us * 6 + 2;
            let v3 = self.bb[i_rook];
            self.bb.set(i_rook, v3 ^ ((1u64 << (rf as u64)) | (1u64 << (rt as u64))));
            self.mailbox.set(rf, 6);
            self.mailbox.set(rt, 2);
        }
        self.castling = self.castling & castle_perm(m.from) & castle_perm(m.to);
        self.en_passant = if m.double_step {
            Option::Some((m.from + m.to) / 2)
        } else {
            Option::None
        };
        self.halfmove = if m.piece == 5 || m.captured != 6 {
            0
        } else if self.halfmove < 0xffffffff {
            self.halfmove + 1
        } else {
            self.halfmove
        };
        if self.side_to_move == 1 && self.fullmove < 0xffffffff {
            self.fullmove = self.fullmove + 1;
        }
        self.side_to_move = them;
        proof {
            assert(self.abs() =~= spec_make(old(self).abs(), m));
        }
    }

    /// Reverses every effect of `m`, mirroring `apply_move`'s conditional
    /// structure in the opposite order and restoring the saved scalars.
    fn undo_move(&mut self, u: UndoRecord)
        requires
            unmake_ok(old(self).abs(), u.m),
        ensures
            final(self).abs() == spec_unmake(
                old(self).abs(),
                u.m,
                u.castling,
                u.en_passant,
                u.halfmove,
                u.fullmove,
            ),
            final(self).history@ == old(self).history@,
            final(self).snaps@ == old(self).snaps@,
    {
        let m = u.m;
        let us = 1 - self.side_to_move;
        let them = self.side_to_move;
        if m.castling {
            let rf: usize = if m.to == 6 {
                7
            } else if m.to == 2 {
                0
            } else if m.to == 62 {
                63
            } else {
                56
            };
            let rt: usize = if m.to == 6 {
                5
            } else if m.to == 2 {
                3
            } else if m.to == 62 {
                61
            } else {
                59
            };
            let i_rook = us * 6 + 2;
            let v0 = self.bb[i_rook];
            self.bb.set(i_rook, v0 ^ ((1u64 << (rf as u64)) | (1u64 << (rt as u64))));
            self.mailbox.set(rt, 6);
            self.mailbox.set(rf, 2);
        }
        let fp = if m.promoted != 6 {
            m.promoted
        } else {
            m.piece
        };
        let i_fin = us * 6 + fp;
        let v1 = self.bb[i_fin];
        self.bb.set(i_fin, v1 ^ (1u64 << (m.to as u64)));
        self.mailbox.set(
            m.to,
            if m.en_passant || m.captured == 6 {
                6
            } else {
                m.captured
            },
        );
        if m.captured != 6 {
            let cs = if m.en_passant {
                if us == 0 {
                    m.to - 8
                } else {
                    m.to + 8
                }
            } else {
                m.to
            };
            let i_cap = them * 6 + m.captured;
            let v2 = self.bb[i_cap];
            self.bb.set(i_cap, v2 ^ (1u64 << (cs as u64)));
            if m.en_passant {
                self.mailbox.set(cs, 5);
            }
        }
        let i_mover = us * 6 + m.piece;
        let v3 = self.bb[i_mover];
        self.bb.set(i_mover, v3 ^ (1u64 << (m.from as u64)));
        self.mailbox.set(m.from, m.piece);
        self.castling = u.castling;
        self.en_passant = u.en_passant;
        self.halfmove = u.halfmove;
        self.fullmove = u.fullmove;
        self.side_to_move = us;
        proof {
            assert(self.abs() =~= spec_unmake(
                old(self).abs(),
                u.m,
                u.castling,
                u.en_passant,
                u.halfmove,
                u.fullmove,
            ));
        }
    }

    /// Applies a pseudo-legal move. Returns true and leaves the new state
    /// in place, with an undo record stacked, exactly when the mover's
    /// king is not left attacked; otherwise every effect is rolled back
    /// and the position is identical to before the call.
    pub fn make(&mut self, m: Move, mg: &crate::movegen::MoveGenerator) -> (legal: bool)
        requires
            old(self).wf(),
            pseudo_ok(old(self).abs(), m),
            mg.wf(),
        ensures
            final(self).wf(),
            legal == !king_attacked(
                spec_make(old(self).abs(), m),
                old(self).abs().side_to_move as int,
            ),
            !legal ==> final(self).abs() == old(self).abs() && final(self).history@ == old(
                self,
            ).history@ && final(self).snaps@ == old(self).snaps@,
            legal ==> final(self).abs() == spec_make(old(self).abs(), m) && final(self).history@
                == old(self).history@.push(
                UndoRecord {
                    m,
                    castling: old(self).castling,
                    en_passant: old(self).en_passant,
                    halfmove: old(self).halfmove,
                    fullmove: old(self).fullmove,
                },
            ) && final(self).snaps@ == old(self).snaps@.push(old(self).abs()),
    {
        let ghost c0 = self.abs();
        let us = self.side_to_move;
        let undo = UndoRecord {
            m,
            castling: self.castling,
            en_passant: self.en_passant,
            halfmove: self.halfmove,
            fullmove: self.fullmove,
        };
        proof {
            lemma_make_wf(c0, m);
            lemma_make_unmake(c0, m);
        }
        self.apply_move(m);
        let king_bb = self.bb[us * 6];
        let legal = if king_bb == 0 {
            true
        } else {
            proof {
                crate::bits::lemma_lowest_bit(king_bb);
            }
            let ksq = king_bb.trailing_zeros() as usize;
            !self.square_attacked(ksq, 1 - us, &mg.tables)
        };
        if legal {
            self.history.push(undo);
            self.snaps = Ghost(self.snaps@.push(c0));
            proof {
                assert forall|i: int|
                    0 <= i < self.history@.len() implies #[trigger] self.chain_link_ok(i) by {
                    if i < old(self).history@.len() {
                        assert(old(self).chain_link_ok(i));
                    }
                }
            }
            true
        } else {
            self.undo_move(undo);
            proof {
                assert(self.abs() =~= c0);
                assert forall|i: int|
                    0 <= i < self.history@.len() implies #[trigger] self.chain_link_ok(i) by {
                    assert(old(self).chain_link_ok(i));
                }
            }
            false
        }
    }

    /// Takes back the last made move, restoring the previous state field
    /// for field. Must only be called with a non-empty history.
    pub fn unmake(&mut self)
        requires
            old(self).wf(),
            old(self).history@.len() > 0,
        ensures
            final(self).wf(),
            final(self).abs() == old(self).snaps@.last(),
            final(self).history@ == old(self).history@.drop_last(),
            final(self).snaps@ == old(self).snaps@.drop_last(),
    {
        let ghost n = old(self).history@.len() as int;
        proof {
            assert(old(self).chain_link_ok(n - 1));
            let prev = old(self).snaps@[n - 1];
            lemma_make_unmake(prev, old(self).history@[n - 1].m);
        }
        let u = self.history.pop().unwrap();
        self.undo_move(u);
        self.snaps = Ghost(self.snaps@.drop_last());
        proof {
            assert(self.abs() =~= old(self).snaps@[n - 1]);
            assert forall|i: int|
                0 <= i < self.history@.len() implies #[trigger] self.chain_link_ok(i) by {
                assert(old(self).chain_link_ok(i));
                if i + 1 < n {
                    assert(old(self).chain_link_ok(i + 1));
                }
            }
        }
    }
}


/// The en-passant part of input validity: the square is on the right
/// rank for the side to move, empty, with the pushed pawn behind it.
pub open spec fn ep_parts_ok(bbs: Seq<u64>, side_to_move: usize, e: usize) -> bool {
    if side_to_move == 0 {
        40 <= e < 48 && no_owner(bbs, e as int) && bit_at(bbs[11], e - 8)
    } else {
        16 <= e < 24 && no_owner(bbs, e as int) && bit_at(bbs[5], e + 8)
    }
}

/// When a set of parts describes a board: twelve boards that never
/// overlap, scalars in range, and a coherent en-passant square.
/// `from_parts` succeeds on exactly such parts.
pub open spec fn parts_ok(
    bbs: Seq<u64>,
    side_to_move: usize,
    castling: u8,
    en_passant: Option<usize>,
) -> bool {
    &&& bbs.len() == 12
    &&& side_to_move < 2
    &&& castling < 16
    &&& forall|s: int, i: int, j: int|
        0 <= s < 64 && 0 <= i < j < 12 ==> !(#[trigger] bit_at(bbs[i], s) && #[trigger] bit_at(
            bbs[j],
            s,
        ))
    &&& match en_passant {
        Option::None => true,
        Option::Some(e) => ep_parts_ok(bbs, side_to_move, e),
    }
}

/// With boards and mailbox in agreement, the en-passant validity test on
/// the mailbox reads the same as the one on the boards.
proof fn lemma_ep_parts_equiv(bbs: Seq<u64>, mbs: Seq<usize>, side_to_move: usize, e: usize)
    requires
        bbs.len() == 12,
        mbs.len() == 64,
        side_to_move < 2,
        forall|q: int| 0 <= q < 64 ==> #[trigger] sq_ok(bbs, mbs, q),
    ensures
        ep_parts_ok(bbs, side_to_move, e) == if side_to_move == 0 {
            40 <= e < 48 && mbs[e as int] == 6 && mbs[e - 8] == 5 && bit_at(bbs[11], e - 8)
        } else {
            16 <= e < 24 && mbs[e as int] == 6 && mbs[e + 8] == 5 && bit_at(bbs[5], e + 8)
        },
{
    let in_range = if side_to_move == 0 {
        40 <= e < 48
    } else {
        16 <= e < 24
    };
    if in_range {
        let ei = e as int;
        let pi = if side_to_move == 0 {
            e - 8
        } else {
            e + 8
        };
        let pawn_board = if side_to_move == 0 {
            11int
        } else {
            5int
        };
        assert(sq_ok(bbs, mbs, ei));
        assert(sq_ok(bbs, mbs, pi));
        // mailbox empty at e exactly when no board holds e
        if mbs[ei] != 6 {
            let mbv = mbs[ei] as int;
            if only_owner(bbs, ei, mbv) {
                assert(bit_at(bbs[mbv], ei));
            } else {
                assert(only_owner(bbs, ei, 6 + mbv));
                assert(bit_at(bbs[6 + mbv], ei));
            }
            assert(!no_owner(bbs, ei));
        }
        // the pushed pawn's bit forces the mailbox entry
        if bit_at(bbs[pawn_board], pi) {
            if mbs[pi] == 6 {
                assert(!bit_at(bbs[pawn_board], pi));
            } else {
                let mbv = mbs[pi] as int;
                if only_owner(bbs, pi, mbv) {
                    assert(bit_at(bbs[pawn_board], pi) == (pawn_board == mbv));
                } else {
                    assert(only_owner(bbs, pi, 6 + mbv));
                    assert(bit_at(bbs[pawn_board], pi) == (pawn_board == 6 + mbv));
                }
                assert(mbs[pi] == 5);
            }
        }
    }
}

/// The twelve starting boards never overlap, so the starting parts are
/// valid.
proof fn lemma_start_parts_ok()
    ensures
        parts_ok(start_bbs(), 0, 15, Option::None),
{
    assert forall|s: int, i: int, j: int|
        0 <= s < 64 && 0 <= i < j < 12 implies !(#[trigger] bit_at(start_bbs()[i], s)
        && #[trigger] bit_at(start_bbs()[j], s)) by {
        let v = start_bbs();
        assert(v[0] == 0x10u64 && v[1] == 0x08u64 && v[2] == 0x81u64 && v[3] == 0x24u64 && v[4] == 0x42u64 && v[5] == 0xff00u64 && v[6] == 0x1000000000000000u64 && v[7] == 0x0800000000000000u64 && v[8] == 0x8100000000000000u64 && v[9] == 0x2400000000000000u64 && v[10] == 0x4200000000000000u64 && v[11] == 0x00ff000000000000u64);
        assert(0x10u64 & 0x08u64 == 0 && 0x10u64 & 0x81u64 == 0 && 0x10u64 & 0x24u64 == 0 && 0x10u64 & 0x42u64 == 0 && 0x10u64 & 0xff00u64 == 0 && 0x10u64 & 0x1000000000000000u64 == 0 && 0x10u64 & 0x0800000000000000u64 == 0 && 0x10u64 & 0x8100000000000000u64 == 0 && 0x10u64 & 0x2400000000000000u64 == 0 && 0x10u64 & 0x4200000000000000u64 == 0 && 0x10u64 & 0x00ff000000000000u64 == 0 && 0x08u64 & 0x81u64 == 0 && 0x08u64 & 0x24u64 == 0 && 0x08u64 & 0x42u64 == 0 && 0x08u64 & 0xff00u64 == 0 && 0x08u64 & 0x1000000000000000u64 == 0 && 0x08u64 & 0x0800000000000000u64 == 0 && 0x08u64 & 0x8100000000000000u64 == 0 && 0x08u64 & 0x2400000000000000u64 == 0 && 0x08u64 & 0x4200000000000000u64 == 0 && 0x08u64 & 0x00ff000000000000u64 == 0 && 0x81u64 & 0x24u64 == 0 && 0x81u64 & 0x42u64 == 0 && 0x81u64 & 0xff00u64 == 0 && 0x81u64 & 0x1000000000000000u64 == 0 && 0x81u64 & 0x0800000000000000u64 == 0 && 0x81u64 & 0x8100000000000000u64 == 0 && 0x81u64 & 0x2400000000000000u64 == 0 && 0x81u64 & 0x4200000000000000u64 == 0 && 0x81u64 & 0x00ff000000000000u64 == 0 && 0x24u64 & 0x42u64 == 0 && 0x24u64 & 0xff00u64 == 0 && 0x24u64 & 0x1000000000000000u64 == 0 && 0x24u64 & 0x0800000000000000u64 == 0 && 0x24u64 & 0x8100000000000000u64 == 0 && 0x24u64 & 0x2400000000000000u64 == 0 && 0x24u64 & 0x4200000000000000u64 == 0 && 0x24u64 & 0x00ff000000000000u64 == 0 && 0x42u64 & 0xff00u64 == 0 && 0x42u64 & 0x1000000000000000u64 == 0 && 0x42u64 & 0x0800000000000000u64 == 0 && 0x42u64 & 0x8100000000000000u64 == 0 && 0x42u64 & 0x2400000000000000u64 == 0 && 0x42u64 & 0x4200000000000000u64 == 0 && 0x42u64 & 0x00ff000000000000u64 == 0 && 0xff00u64 & 0x1000000000000000u64 == 0 && 0xff00u64 & 0x0800000000000000u64 == 0 && 0xff00u64 & 0x8100000000000000u64 == 0 && 0xff00u64 & 0x2400000000000000u64 == 0 && 0xff00u64 & 0x4200000000000000u64 == 0 && 0xff00u64 & 0x00ff000000000000u64 == 0 && 0x1000000000000000u64 & 0x0800000000000000u64 == 0 && 0x1000000000000000u64 & 0x8100000000000000u64 == 0 && 0x1000000000000000u64 & 0x2400000000000000u64 == 0 && 0x1000000000000000u64 & 0x4200000000000000u64 == 0 && 0x1000000000000000u64 & 0x00ff000000000000u64 == 0 && 0x0800000000000000u64 & 0x8100000000000000u64 == 0 && 0x0800000000000000u64 & 0x2400000000000000u64 == 0 && 0x0800000000000000u64 & 0x4200000000000000u64 == 0 && 0x0800000000000000u64 & 0x00ff000000000000u64 == 0 && 0x8100000000000000u64 & 0x2400000000000000u64 == 0 && 0x8100000000000000u64 & 0x4200000000000000u64 == 0 && 0x8100000000000000u64 & 0x00ff000000000000u64 == 0 && 0x2400000000000000u64 & 0x4200000000000000u64 == 0 && 0x2400000000000000u64 & 0x00ff000000000000u64 == 0 && 0x4200000000000000u64 & 0x00ff000000000000u64 == 0) by (bit_vector);
        assert(v[i] & v[j] == 0);
        crate::bits::lemma_bit_ops(v[i], v[j], s);
    }
}

/// The twelve piece boards of the standard starting position, indexed
/// side * 6 + piece.
pub open spec fn start_bbs() -> Seq<u64> {
    seq![
        0x10u64,
        0x08u64,
        0x81u64,
        0x24u64,
        0x42u64,
        0xff00u64,
        0x1000000000000000u64,
        0x0800000000000000u64,
        0x8100000000000000u64,
        0x2400000000000000u64,
        0x4200000000000000u64,
        0x00ff000000000000u64,
    ]
}

impl Position {
    /// Builds a position from its parts, deriving the mailbox from the
    /// boards. Returns nothing if the boards overlap anywhere, a scalar
    /// is out of range, or the en-passant square is incoherent; a
    /// returned position satisfies the full invariant with an empty
    /// history.
    pub fn from_parts(
        bb: Vec<u64>,
        side_to_move: usize,
        castling: u8,
        en_passant: Option<usize>,
        halfmove: u32,
        fullmove: u32,
    ) -> (r: Option<Position>)
        ensures
            r matches Some(p) ==> p.wf() && p.bb@ == bb@ && p.side_to_move == side_to_move
                && p.castling == castling && p.en_passant == en_passant && p.halfmove == halfmove
                && p.fullmove == fullmove && p.history@.len() == 0 && p.snaps@.len() == 0,
            parts_ok(bb@, side_to_move, castling, en_passant) ==> r.is_some(),
    {
        if bb.len() != 12 || side_to_move >= 2 || castling >= 16 {
            return Option::None;
        }
        let mut mailbox: Vec<usize> = Vec::new();
        let mut s: usize = 0;
        while s < 64
            invariant
                bb@.len() == 12,
                mailbox@.len() == s,
                s <= 64,
                forall|q: int| 0 <= q < s ==> #[trigger] sq_ok(bb@, mailbox@, q),
            decreases 64 - s,
        {
            let ghost mb0 = mailbox@;
            let mut owner: usize = 12;
            let mut i: usize = 0;
            while i < 12
                invariant
                    i <= 12,
                    s < 64,
                    bb@.len() == 12,
                    owner <= 12,
                    owner < 12 ==> owner < i,
                    owner == 12 ==> forall|j: int| 0 <= j < i ==> !bit_at(#[trigger] bb@[j], s as int),
                    owner < 12 ==> bit_at(bb@[owner as int], s as int) && forall|j: int|
                        0 <= j < i && j != owner ==> !bit_at(#[trigger] bb@[j], s as int),
                decreases 12 - i,
            {
                if (bb[i] & (1u64 << (s as u64))) != 0 {
                    if owner != 12 {
                        // Two boards claim this square: the parts are
                        // invalid, witnessed by this very pair.
                        proof {
                            assert(bit_at(bb@[owner as int], s as int) && bit_at(
                                bb@[i as int],
                                s as int,
                            ));
                            assert(!parts_ok(bb@, side_to_move, castling, en_passant));
                        }
                        return Option::None;
                    }
                    owner = i;
                }
                i = i + 1;
            }
            if owner == 12 {
                mailbox.push(6);
                proof {
                    assert(no_owner(bb@, s as int));
                    assert(sq_ok(bb@, mailbox@, s as int));
                }
            } else {
                let pc = if owner < 6 {
                    owner
                } else {
                    owner - 6
                };
                mailbox.push(pc);
                proof {
                    assert forall|k: int| 0 <= k < 12 implies bit_at(#[trigger] bb@[k], s as int)
                        == (k == owner as int) by {
                        if k != owner as int {
                            assert(!bit_at(bb@[k], s as int));
                        }
                    }
                    assert(only_owner(bb@, s as int, owner as int));
                    assert(sq_ok(bb@, mailbox@, s as int));
                }
            }
            proof {
                assert forall|q: int| 0 <= q < s implies #[trigger] sq_ok(bb@, mailbox@, q) by {
                    assert(sq_ok(bb@, mb0, q));
                    assert(mailbox@[q] == mb0[q]);
                }
            }
            s = s + 1;
        }
        let ep_good = match en_passant {
            Option::None => true,
            Option::Some(e) => {
                proof {
                    lemma_ep_parts_equiv(bb@, mailbox@, side_to_move, e);
                }
                if side_to_move == 0 {
                    40 <= e && e < 48 && mailbox[e] == 6 && mailbox[e - 8] == 5 && (bb[11] & (1u64
                        << ((e - 8) as u64))) != 0
                } else {
                    16 <= e && e < 24 && mailbox[e] == 6 && mailbox[e + 8] == 5 && (bb[5] & (1u64
                        << ((e + 8) as u64))) != 0
                }
            },
        };
        if !ep_good {
            return Option::None;
        }
        let p = Position {
            bb,
            mailbox,
            side_to_move,
            castling,
            en_passant,
            halfmove,
            fullmove,
            history: Vec::new(),
            snaps: Ghost(Seq::empty()),
        };
        Option::Some(p)
    }

    /// The standard starting position: all rights held, white to move.
    /// Built through `from_parts`, whose validation always succeeds on
    /// these boards.
    pub fn startpos() -> (r: Option<Position>)
        ensures
            r.is_some(),
            r matches Some(p) ==> p.wf() && p.bb@ == start_bbs() && p.side_to_move == 0
                && p.castling == 15 && (p.en_passant matches Option::None) && p.halfmove == 0
                && p.fullmove == 1 && p.history@.len() == 0 && p.snaps@.len() == 0,
    {
        let bb: Vec<u64> = vec![
            0x10u64,
            0x08u64,
            0x81u64,
            0x24u64,
            0x42u64,
            0xff00u64,
            0x1000000000000000u64,
            0x0800000000000000u64,
            0x8100000000000000u64,
            0x2400000000000000u64,
            0x4200000000000000u64,
            0x00ff000000000000u64,
        ];
        proof {
            assert(bb@ =~= start_bbs());
            lemma_start_parts_ok();
        }
        Position::from_parts(bb, 0, 15, Option::None, 0, 1)
    }
}

/// The rights kept when a move touches square `s`.
fn castle_perm(s: usize) -> (r: u8)
    ensures
        r == castle_perm_mask(s as int),
{
    if s == 0 {
        13
    } else if s == 4 {
        12
    } else if s == 7 {
        14
    } else if s == 56 {
        7
    } else if s == 60 {
        3
    } else if s == 63 {
        11
    } else {
        15
    }
}

} // verus!
