//! Perft: counts the distinct move sequences of a given length, the
//! standard cross-check of generator and make/unmake together.

use crate::bitmove::Move;
use crate::movegen::{moves_ok, MoveGenerator};
use crate::position::{no_legal_moves, Position};
use vstd::prelude::*;

verus! {

/// Number of legal move sequences of length `depth` from the current
/// position (saturating at the counter's limit). The position comes
/// back exactly as it went in.
pub fn perft(board: &mut Position, depth: i8, mg: &MoveGenerator) -> (nodes: u64)
    requires
        old(board).wf(),
        mg.wf(),
        0 <= depth,
    ensures
        final(board).wf(),
        final(board).abs() == old(board).abs(),
        final(board).history@ == old(board).history@,
        final(board).snaps@ == old(board).snaps@,
        depth == 0 ==> nodes == 1,
        depth >= 1 && no_legal_moves(old(board).abs()) ==> nodes == 0,
    decreases depth,
{
    if depth == 0 {
        return 1;
    }
    let mut list: Vec<Move> = Vec::new();
    mg.generate_all_moves(board, &mut list);
    let mut total: u64 = 0;
    let mut i: usize = 0;
    while i < list.len()
        invariant
            board.wf(),
            mg.wf(),
            1 <= depth,
            board.abs() == old(board).abs(),
            board.history@ == old(board).history@,
            board.snaps@ == old(board).snaps@,
            moves_ok(board.abs(), list@),
            i <= list@.len(),
            no_legal_moves(old(board).abs()) ==> total == 0,
        decreases list@.len() - i,
    {
        let m = list[i];
        if board.make(m, mg) {
            let below = perft(board, depth - 1, mg);
            board.unmake();
            proof {
                assert(board.history@ =~= old(board).history@);
                assert(board.snaps@ =~= old(board).snaps@);
            }
            total = if total <= 0xffffffffffffffffu64 - below {
                total + below
            } else {
                0xffffffffffffffffu64
            };
        }
        i = i + 1;
    }
    total
}

} // verus!
