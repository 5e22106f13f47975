//! Static evaluation: plain material count, side-relative (positive
//! favors the side to move). The search only relies on the sign
//! convention and the value bound.

use crate::bitboard::BitBoard;
use crate::bits::pop64;
use crate::position::{Core, Position};
use vstd::prelude::*;

verus! {

/// Centipawn value of a piece type (the king carries none: both sides
/// always keep theirs within legal play).
pub open spec fn piece_value(p: int) -> int {
    if p == 1 {
        900
    } else if p == 2 {
        500
    } else if p == 3 {
        325
    } else if p == 4 {
        325
    } else if p == 5 {
        100
    } else {
        0
    }
}

/// Material balance from the side to move's point of view.
pub open spec fn material_spec(c: Core) -> int {
    let us = c.side_to_move as int;
    let them = 1 - us;
    900 * (pop64(c.bb[us * 6 + 1]) - pop64(c.bb[them * 6 + 1])) + 500 * (pop64(c.bb[us * 6 + 2])
        - pop64(c.bb[them * 6 + 2])) + 325 * (pop64(c.bb[us * 6 + 3]) - pop64(c.bb[them * 6 + 3]))
        + 325 * (pop64(c.bb[us * 6 + 4]) - pop64(c.bb[them * 6 + 4])) + 100 * (pop64(
        c.bb[us * 6 + 5],
    ) - pop64(c.bb[them * 6 + 5]))
}

/// The current material balance, positive when the side to move is
/// ahead.
pub fn evaluate_position(board: &Position) -> (score: i32)
    requires
        board.bb@.len() == 12,
        board.side_to_move < 2,
    ensures
        score == material_spec(board.abs()),
        -144000 <= score <= 144000,
{
    let us = board.side_to_move;
    let them = 1 - us;
    let q = (BitBoard(board.bb[us * 6 + 1]).pop_count() as i32 - BitBoard(
        board.bb[them * 6 + 1],
    ).pop_count() as i32) * 900;
    let r = (BitBoard(board.bb[us * 6 + 2]).pop_count() as i32 - BitBoard(
        board.bb[them * 6 + 2],
    ).pop_count() as i32) * 500;
    let b = (BitBoard(board.bb[us * 6 + 3]).pop_count() as i32 - BitBoard(
        board.bb[them * 6 + 3],
    ).pop_count() as i32) * 325;
    let n = (BitBoard(board.bb[us * 6 + 4]).pop_count() as i32 - BitBoard(
        board.bb[them * 6 + 4],
    ).pop_count() as i32) * 325;
    let p = (BitBoard(board.bb[us * 6 + 5]).pop_count() as i32 - BitBoard(
        board.bb[them * 6 + 5],
    ).pop_count() as i32) * 100;
    q + r + b + n + p
}

} // verus!
