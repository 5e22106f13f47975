//! The coordinate-move adapter: decoding `e2e4`-style move text against
//! the current position, applying such move lists, and resetting to the
//! starting position. Reading the command stream itself stays outside
//! the core.

use crate::attacks::AttackTables;
use crate::bitmove::Move;
use crate::bits::bit_at;
use crate::movegen::{gen_ok, MoveGenerator};
use crate::position::{king_attacked, spec_make, Core, Position};
use vstd::prelude::*;
use vstd::string::StringSliceAdditionalSpecFns;

verus! {

/// The square index written at byte offset `i` (file letter, then rank
/// digit).
pub open spec fn uci_sq(b: Seq<u8>, i: int) -> int {
    (b[i + 1] - 0x31) * 8 + (b[i] - 0x61)
}

/// The piece a promotion letter names, or the empty marker for any
/// other byte.
pub open spec fn promo_piece(ch: u8) -> usize {
    if ch == 0x71 {
        1usize
    } else if ch == 0x72 {
        2usize
    } else if ch == 0x62 {
        3usize
    } else if ch == 0x6e {
        4usize
    } else {
        6usize
    }
}

/// When coordinate move text is accepted against a state: four or five
/// bytes, files a..h and ranks 1..8, a piece of the side to move on the
/// source square, and a recognized promotion letter if there is one.
pub open spec fn uci_move_ok(c: Core, b: Seq<u8>) -> bool {
    &&& 4 <= b.len() <= 5
    &&& 0x61 <= b[0] <= 0x68
    &&& 0x31 <= b[1] <= 0x38
    &&& 0x61 <= b[2] <= 0x68
    &&& 0x31 <= b[3] <= 0x38
    &&& c.mailbox[uci_sq(b, 0)] != 6
    &&& bit_at(c.bb[c.side_to_move * 6 + c.mailbox[uci_sq(b, 0)]], uci_sq(b, 0))
    &&& (b.len() == 5 ==> promo_piece(b[4]) != 6)
}

/// The move such text decodes to: mover and capture read from the
/// mailbox, promotion from the letter, and no special flag.
pub open spec fn uci_decoded(c: Core, b: Seq<u8>) -> Move {
    Move {
        piece: c.mailbox[uci_sq(b, 0)],
        from: uci_sq(b, 0) as usize,
        to: uci_sq(b, 2) as usize,
        captured: c.mailbox[uci_sq(b, 2)],
        promoted: if b.len() == 5 {
            promo_piece(b[4])
        } else {
            6usize
        },
        en_passant: false,
        double_step: false,
        castling: false,
    }
}

/// Decodes 4-5 character coordinate move text against the position:
/// resolves the moving piece from the mailbox, rejects text whose source
/// square holds no piece of the side to move, and fills the capture and
/// promotion fields. Returns exactly the decoded move when the text is
/// accepted, and nothing otherwise.
pub fn parse_uci_move(board: &Position, move_str: &str) -> (r: Option<Move>)
    requires
        board.wf(),
    ensures
        r == if uci_move_ok(board.abs(), move_str.spec_bytes()) {
            Option::Some(uci_decoded(board.abs(), move_str.spec_bytes()))
        } else {
            Option::<Move>::None
        },
{
    let b = move_str.as_bytes();
    if b.len() < 4 || b.len() > 5 {
        return Option::None;
    }
    let f0 = b[0];
    let r0 = b[1];
    let f1 = b[2];
    let r1 = b[3];
    if f0 < 0x61 || f0 > 0x68 || r0 < 0x31 || r0 > 0x38 || f1 < 0x61 || f1 > 0x68 || r1 < 0x31
        || r1 > 0x38 {
        return Option::None;
    }
    let from = ((r0 - 0x31) as usize) * 8 + ((f0 - 0x61) as usize);
    let to = ((r1 - 0x31) as usize) * 8 + ((f1 - 0x61) as usize);
    let piece = board.mailbox[from];
    if piece == 6 {
        return Option::None;
    }
    proof {
        assert(crate::position::sq_ok(board.abs().bb, board.abs().mailbox, from as int));
    }
    if (board.bb[board.side_to_move * 6 + piece] & (1u64 << (from as u64))) == 0 {
        return Option::None;
    }
    let captured = board.mailbox[to];
    let promoted: usize = if b.len() == 5 {
        let ch = b[4];
        if ch == 0x71 {
            1
        } else if ch == 0x72 {
            2
        } else if ch == 0x62 {
            3
        } else if ch == 0x6e {
            4
        } else {
            return Option::None;
        }
    } else {
        6
    };
    Option::Some(
        Move {
            piece,
            from,
            to,
            captured,
            promoted,
            en_passant: false,
            double_step: false,
            castling: false,
        },
    )
}

/// The decoded move completed with the special-move flags the board
/// implies: a king's two-square home move is a castle, a pawn landing on
/// the en-passant square captures in passing, and a pawn's two-rank jump
/// is a double push.
pub open spec fn flagged(c: Core, m0: Move) -> Move {
    if m0.piece == 0 && ((c.side_to_move == 0 && m0.from == 4 && (m0.to == 6 || m0.to == 2)) || (
    c.side_to_move == 1 && m0.from == 60 && (m0.to == 62 || m0.to == 58))) {
        Move { castling: true, ..m0 }
    } else if m0.piece == 5 && c.en_passant == Option::Some(m0.to) && m0.captured == 6 {
        Move { captured: 5, en_passant: true, ..m0 }
    } else if m0.piece == 5 && (m0.to == m0.from + 16 || m0.from == m0.to + 16) {
        Move { double_step: true, ..m0 }
    } else {
        m0
    }
}

/// The effect of one move-text item: text the decoder rejects, a move
/// that fails the generator's emission conditions, and a move `make`
/// rejects all leave the state as it was; otherwise the move is made.
pub open spec fn apply_step(c: Core, b: Seq<u8>) -> Core {
    if uci_move_ok(c, b) {
        let m = flagged(c, uci_decoded(c, b));
        if gen_ok(c, m) && !king_attacked(spec_make(c, m), c.side_to_move as int) {
            spec_make(c, m)
        } else {
            c
        }
    } else {
        c
    }
}

/// The left-to-right fold of the first `n` move-text items.
pub open spec fn apply_all(c: Core, ms: Seq<String>, n: int) -> Core
    decreases n,
{
    if n <= 0 {
        c
    } else {
        apply_step(apply_all(c, ms, n - 1), vstd::utf8::encode_utf8(ms[n - 1]@))
    }
}

/// How many of the first `n` items were accepted and made: one undo
/// record is stacked per step that moved the state.
pub open spec fn apply_added(c: Core, ms: Seq<String>, n: int) -> nat
    decreases n,
{
    if n <= 0 {
        0nat
    } else {
        let prev = apply_all(c, ms, n - 1);
        apply_added(c, ms, n - 1) + if apply_step(prev, vstd::utf8::encode_utf8(ms[n - 1]@))
            != prev {
            1nat
        } else {
            0nat
        }
    }
}

/// Completes a decoded move with the flags the board implies.
fn complete_flags(board: &Position, m0: Move) -> (m: Move)
    ensures
        m == flagged(board.abs(), m0),
{
    let us = board.side_to_move;
    if m0.piece == 0 && ((us == 0 && m0.from == 4 && (m0.to == 6 || m0.to == 2)) || (us == 1
        && m0.from == 60 && (m0.to == 62 || m0.to == 58))) {
        Move { castling: true, ..m0 }
    } else if m0.piece == 5 && (match board.en_passant {
        Option::Some(e) => e == m0.to,
        Option::None => false,
    }) && m0.captured == 6 {
        Move { captured: 5, en_passant: true, ..m0 }
    } else if m0.piece == 5 && ((m0.to >= 16 && m0.to - 16 == m0.from) || (m0.from >= 16
        && m0.from - 16 == m0.to)) {
        Move { double_step: true, ..m0 }
    } else {
        m0
    }
}

/// Whether the move meets the generator's emission conditions against
/// the current state, checked field by field.
fn move_applicable(board: &Position, m: Move, tables: &AttackTables) -> (r: bool)
    requires
        board.wf(),
        tables.wf(),
    ensures
        r == gen_ok(board.abs(), m),
{
    let us = board.side_to_move;
    let them = 1 - us;
    if !(m.from < 64 && m.to < 64 && m.from != m.to && m.piece < 6 && m.captured <= 6) {
        return false;
    }
    if board.mailbox[m.from] != m.piece {
        return false;
    }
    if (board.bb[us * 6 + m.piece] & (1u64 << (m.from as u64))) == 0 {
        return false;
    }
    if m.en_passant {
        if !(m.piece == 5 && m.captured == 5) {
            return false;
        }
        let ep_match = match board.en_passant {
            Option::Some(e) => e == m.to,
            Option::None => false,
        };
        if !ep_match {
            return false;
        }
        if us == 0 && !(40 <= m.to && m.to < 48) {
            return false;
        }
        if us == 1 && !(16 <= m.to && m.to < 24) {
            return false;
        }
        let cs: usize = if us == 0 {
            m.to - 8
        } else {
            m.to + 8
        };
        if board.mailbox[m.to] != 6 || board.mailbox[cs] != 5 {
            return false;
        }
        if (board.bb[them * 6 + 5] & (1u64 << (cs as u64))) == 0 {
            return false;
        }
        if cs == m.from {
            return false;
        }
    } else {
        if m.captured == 6 {
            if board.mailbox[m.to] != 6 {
                return false;
            }
        } else {
            if board.mailbox[m.to] != m.captured {
                return false;
            }
            if (board.bb[them * 6 + m.captured] & (1u64 << (m.to as u64))) == 0 {
                return false;
            }
        }
    }
    if m.promoted != 6 {
        if !(m.piece == 5 && (m.promoted == 1 || m.promoted == 2 || m.promoted == 3 || m.promoted
            == 4)) {
            return false;
        }
    }
    if m.double_step {
        let ok = m.piece == 5 && !m.en_passant && m.captured == 6 && m.promoted == 6 && ((us == 0
            && 8 <= m.from && m.from < 16 && m.to == m.from + 16 && board.mailbox[m.from + 8] == 6)
            || (us == 1 && 48 <= m.from && m.from < 56 && m.from == m.to + 16
            && board.mailbox[m.from - 8] == 6));
        if !ok {
            return false;
        }
    }
    if m.castling {
        let basics = m.piece == 0 && m.captured == 6 && m.promoted == 6 && !m.en_passant
            && !m.double_step && ((us == 0 && m.from == 4 && (m.to == 6 || m.to == 2)) || (us == 1
            && m.from == 60 && (m.to == 62 || m.to == 58)));
        if !basics {
            return false;
        }
        let rf: usize = if m.to == 6 {
            7
        } else if m.to == 2 {
            0
        } else if m.to == 62 {
            63
        } else {
            56
        };
        let rt: usize = if m.to == 6 {
            5
        } else if m.to == 2 {
            3
        } else if m.to == 62 {
            61
        } else {
            59
        };
        if board.mailbox[rf] != 2 || board.mailbox[rt] != 6 {
            return false;
        }
        if (board.bb[us * 6 + 2] & (1u64 << (rf as u64))) == 0 {
            return false;
        }
        let ready = if m.to == 6 {
            board.castling & 1 != 0 && board.mailbox[5] == 6 && board.mailbox[6] == 6
                && !board.square_attacked(4, 1, tables) && !board.square_attacked(5, 1, tables)
                && !board.square_attacked(6, 1, tables)
        } else if m.to == 2 {
            board.castling & 2 != 0 && board.mailbox[3] == 6 && board.mailbox[2] == 6
                && board.mailbox[1] == 6 && !board.square_attacked(4, 1, tables)
                && !board.square_attacked(3, 1, tables) && !board.square_attacked(2, 1, tables)
        } else if m.to == 62 {
            board.castling & 4 != 0 && board.mailbox[61] == 6 && board.mailbox[62] == 6
                && !board.square_attacked(60, 0, tables) && !board.square_attacked(61, 0, tables)
                && !board.square_attacked(62, 0, tables)
        } else {
            board.castling & 8 != 0 && board.mailbox[59] == 6 && board.mailbox[58] == 6
                && board.mailbox[57] == 6 && !board.square_attacked(60, 0, tables)
                && !board.square_attacked(59, 0, tables) && !board.square_attacked(58, 0, tables)
        };
        if !ready {
            return false;
        }
    }
    proof {
        assert(gen_ok(board.abs(), m));
    }
    true
}

/// Applies a list of coordinate moves in order: each item is decoded,
/// completed with the flags the board implies, checked against the
/// generator's emission conditions, and made; an item failing any of
/// these steps is skipped with the state unchanged, and the rest are
/// still attempted. The result is exactly the left-to-right fold of
/// `apply_step`.
pub fn apply_moves(board: &mut Position, mg: &MoveGenerator, moves: &Vec<String>)
    requires
        old(board).wf(),
        mg.wf(),
    ensures
        final(board).wf(),
        final(board).abs() == apply_all(old(board).abs(), moves@, moves@.len() as int),
        final(board).history@.len() == old(board).history@.len() + apply_added(
            old(board).abs(),
            moves@,
            moves@.len() as int,
        ),
{
    let mut k: usize = 0;
    while k < moves.len()
        invariant
            board.wf(),
            mg.wf(),
            k <= moves@.len(),
            board.abs() == apply_all(old(board).abs(), moves@, k as int),
            board.history@.len() == old(board).history@.len() + apply_added(
                old(board).abs(),
                moves@,
                k as int,
            ),
        decreases moves@.len() - k,
    {
        let ghost pre = board.abs();
        let ghost bytes = vstd::utf8::encode_utf8(moves@[k as int]@);
        match parse_uci_move(board, moves[k].as_str()) {
            Option::Some(m0) => {
                let m = complete_flags(board, m0);
                if move_applicable(board, m, &mg.tables) {
                    let _ = board.make(m, mg);
                }
            },
            Option::None => {},
        }
        proof {
            assert(board.abs() == apply_step(pre, bytes));
            assert(apply_all(old(board).abs(), moves@, k + 1) == apply_step(
                apply_all(old(board).abs(), moves@, k as int),
                bytes,
            ));
            if board.abs() != pre {
                assert(board.abs().side_to_move != pre.side_to_move);
            }
            assert(apply_added(old(board).abs(), moves@, k + 1) == apply_added(
                old(board).abs(),
                moves@,
                k as int,
            ) + if apply_step(pre, bytes) != pre {
                1nat
            } else {
                0nat
            });
        }
        k = k + 1;
    }
}

/// Replaces the position with a fresh starting position: all rights
/// held, white to move, no en-passant square, clocks at their start
/// values, empty history. Always succeeds.
pub fn reset(board: &mut Position) -> (ok: bool)
    ensures
        ok,
        final(board).wf(),
        final(board).bb@ == crate::position::start_bbs(),
        final(board).side_to_move == 0,
        final(board).castling == 15,
        final(board).en_passant matches Option::None,
        final(board).halfmove == 0,
        final(board).fullmove == 1,
        final(board).history@.len() == 0,
{
    match Position::startpos() {
        Option::Some(p) => {
            *board = p;
            true
        },
        Option::None => false,
    }
}

} // verus!
