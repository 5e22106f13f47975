//! Negamax alpha-beta search with a fail-hard beta cutoff. The search
//! mutates one shared position through `make`/`unmake` and is proved to
//! hand it back exactly as it found it, however deep the recursion.

use crate::bitmove::Move;
use crate::evaluate::{evaluate_position, material_spec};
use crate::movegen::{moves_ok, MoveGenerator};
use crate::position::{king_attacked, no_legal_moves, pseudo_ok, spec_make, Position};
use vstd::prelude::*;

verus! {

/// The score reported for being checkmated, biased by remaining depth so
/// that faster mates score worse for the mated side.
pub const MATE_SCORE: i32 = 999000;

/// Search limits handed in by the driver: target depth and the clock
/// values the time budget derives from.
pub struct SearchInfo {
    pub depth: i8,
    pub time: u32,
    pub increment: u32,
}

impl SearchInfo {
    /// Empty limits: no depth chosen yet, no clock.
    pub fn new() -> (r: Self)
        ensures
            r.depth == -1,
            r.time == 0,
            r.increment == 0,
    {
        SearchInfo { depth: -1, time: 0, increment: 0 }
    }
}

/// The per-move time budget: a simple fraction of remaining clock time
/// plus half the increment.
pub fn allotted_search_time(time: u32, increment: u32) -> (r: u32)
    ensures
        r == time / 20 + increment / 2,
{
    time / 20 + increment / 2
}

/// Negamax alpha-beta. At depth zero returns the static evaluation;
/// otherwise tries every generated move that `make` accepts, negating
/// the recursive score, and stops early once the best score reaches
/// `beta`. With no legal move at all, returns a mate score biased by
/// depth when the king is attacked and a draw score otherwise. The
/// position comes back exactly as it went in.
pub fn alpha_beta(
    board: &mut Position,
    depth: i8,
    alpha: i32,
    beta: i32,
    info: &SearchInfo,
    move_generator: &MoveGenerator,
) -> (score: i32)
    requires
        old(board).wf(),
        move_generator.wf(),
        0 <= depth,
        -1000000 <= alpha <= 1000000,
        -1000000 <= beta <= 1000000,
    ensures
        final(board).wf(),
        final(board).abs() == old(board).abs(),
        final(board).history@ == old(board).history@,
        final(board).snaps@ == old(board).snaps@,
        -1000000 <= score <= 1000000,
        depth == 0 ==> score == material_spec(old(board).abs()),
        depth >= 1 && no_legal_moves(old(board).abs()) && king_attacked(
            old(board).abs(),
            old(board).abs().side_to_move as int,
        ) ==> score == -MATE_SCORE - depth,
        depth >= 1 && no_legal_moves(old(board).abs()) && !king_attacked(
            old(board).abs(),
            old(board).abs().side_to_move as int,
        ) ==> score == 0,
    decreases depth,
{
    if depth == 0 {
        return evaluate_position(board);
    }
    let mut best: i32 = -1000000;
    let mut alpha_run: i32 = alpha;
    let mut list: Vec<Move> = Vec::new();
    move_generator.generate_all_moves(board, &mut list);
    let mut any_legal = false;
    let mut i: usize = 0;
    while i < list.len()
        invariant
            board.wf(),
            move_generator.wf(),
            1 <= depth,
            board.abs() == old(board).abs(),
            board.history@ == old(board).history@,
            board.snaps@ == old(board).snaps@,
            moves_ok(board.abs(), list@),
            -1000000 <= best <= 1000000,
            -1000000 <= alpha_run <= 1000000,
            -1000000 <= beta <= 1000000,
            i <= list@.len(),
            no_legal_moves(old(board).abs()) ==> !any_legal,
        decreases list@.len() - i,
    {
        let m = list[i];
        // A rejected move has already been rolled back inside make, so
        // unmake is only paired with an accepted one.
        if board.make(m, move_generator) {
            any_legal = true;
            let score = -alpha_beta(board, depth - 1, -beta, -alpha_run, info, move_generator);
            board.unmake();
            proof {
                assert(board.history@ =~= old(board).history@);
                assert(board.snaps@ =~= old(board).snaps@);
            }
            if score > best {
                best = score;
            }
            if score > alpha_run {
                alpha_run = score;
            }
            if score >= beta {
                proof {
                    assert(pseudo_ok(old(board).abs(), m) && !king_attacked(
                        spec_make(old(board).abs(), m),
                        old(board).abs().side_to_move as int,
                    ));
                }
                return best;
            }
        }
        i = i + 1;
    }
    if !any_legal {
        // No legal reply: distinguish checkmate from stalemate by
        // whether the king stands attacked.
        let us = board.side_to_move;
        let king_bb = board.bb[us * 6];
        let in_check = if king_bb == 0 {
            false
        } else {
            proof {
                crate::bits::lemma_lowest_bit(king_bb);
            }
            let ksq = king_bb.trailing_zeros() as usize;
            board.square_attacked(ksq, 1 - us, &move_generator.tables)
        };
        if in_check {
            return -MATE_SCORE - (depth as i32);
        } else {
            return 0;
        }
    }
    best
}

} // verus!
