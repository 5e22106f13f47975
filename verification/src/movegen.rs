//! The move generator: stateless over a position and the attack tables,
//! emitting the side to move's moves in a fixed piece-type order — king,
//! queen, rook, bishop, knight, pawns, then castling. Every emitted move
//! is pseudo-legal (`pseudo_ok`), which is exactly what `Position::make`
//! requires; leaving the own king attacked is caught by `make` itself.

use crate::attacks::AttackTables;
use crate::bitboard::BitBoard;
use crate::bitmove::Move;
use crate::bits::bit_at;
use crate::position::{
    attacked_by, lemma_capture_owner, lemma_occ_bit, lemma_owner_from_bit, occ_all, occ_side,
    pseudo_ok, Core, Position,
};
use vstd::prelude::*;

verus! {

/// The full emission conditions for a castle landing on `to`: the right
/// still held, king and rook on their home squares, every square
/// strictly between them empty, and the king's start, transit and
/// landing squares unattacked.
pub open spec fn castle_ready(c: Core, to: int) -> bool {
    if to == 6 {
        &&& c.side_to_move == 0
        &&& c.castling & 1 != 0
        &&& c.mailbox[4] == 0 && bit_at(c.bb[0], 4)
        &&& c.mailbox[5] == 6 && c.mailbox[6] == 6
        &&& c.mailbox[7] == 2 && bit_at(c.bb[2], 7)
        &&& !attacked_by(c, 4, 1) && !attacked_by(c, 5, 1) && !attacked_by(c, 6, 1)
    } else if to == 2 {
        &&& c.side_to_move == 0
        &&& c.castling & 2 != 0
        &&& c.mailbox[4] == 0 && bit_at(c.bb[0], 4)
        &&& c.mailbox[3] == 6 && c.mailbox[2] == 6 && c.mailbox[1] == 6
        &&& c.mailbox[0] == 2 && bit_at(c.bb[2], 0)
        &&& !attacked_by(c, 4, 1) && !attacked_by(c, 3, 1) && !attacked_by(c, 2, 1)
    } else if to == 62 {
        &&& c.side_to_move == 1
        &&& c.castling & 4 != 0
        &&& c.mailbox[60] == 0 && bit_at(c.bb[6], 60)
        &&& c.mailbox[61] == 6 && c.mailbox[62] == 6
        &&& c.mailbox[63] == 2 && bit_at(c.bb[8], 63)
        &&& !attacked_by(c, 60, 0) && !attacked_by(c, 61, 0) && !attacked_by(c, 62, 0)
    } else if to == 58 {
        &&& c.side_to_move == 1
        &&& c.castling & 8 != 0
        &&& c.mailbox[60] == 0 && bit_at(c.bb[6], 60)
        &&& c.mailbox[59] == 6 && c.mailbox[58] == 6 && c.mailbox[57] == 6
        &&& c.mailbox[56] == 2 && bit_at(c.bb[8], 56)
        &&& !attacked_by(c, 60, 0) && !attacked_by(c, 59, 0) && !attacked_by(c, 58, 0)
    } else {
        false
    }
}

/// The castle move landing on `to`.
pub open spec fn castle_move(to: int) -> Move {
    Move {
        piece: 0,
        from: if to == 6 || to == 2 {
            4
        } else {
            60
        },
        to: to as usize,
        captured: 6,
        promoted: 6,
        en_passant: false,
        double_step: false,
        castling: true,
    }
}

/// What the generator guarantees of each emitted move: pseudo-legality,
/// and for a castle the full emission conditions.
pub open spec fn gen_ok(c: Core, m: Move) -> bool {
    &&& pseudo_ok(c, m)
    &&& (m.castling ==> castle_ready(c, m.to as int))
}

/// Every move of the list meets the generator's guarantee.
pub open spec fn moves_ok(c: Core, l: Seq<Move>) -> bool {
    forall|k: int| 0 <= k < l.len() ==> gen_ok(c, #[trigger] l[k])
}

/// The list holds the move somewhere.
pub open spec fn contains_move(l: Seq<Move>, m: Move) -> bool {
    exists|k: int| 0 <= k < l.len() && l[k] == m
}

/// Pushing another move keeps every held move in the list.
proof fn lemma_contains_push(l: Seq<Move>, m: Move, x: Move)
    requires
        contains_move(l, m),
    ensures
        contains_move(l.push(x), m),
{
    let k = choose|k: int| 0 <= k < l.len() && l[k] == m;
    assert(l.push(x)[k] == m);
}

/// Wraps the attack tables; generation itself keeps no state.
pub struct MoveGenerator {
    pub tables: AttackTables,
}

impl MoveGenerator {
    pub open spec fn wf(self) -> bool {
        self.tables.wf()
    }

    /// Builds the generator's attack tables, verifying the magic
    /// constants; a failure refutes the soundness of one of them.
    pub fn new() -> (r: Option<MoveGenerator>)
        ensures
            r matches Some(g) ==> g.wf(),
            r.is_none() ==> exists|sq: int|
                0 <= sq < 64 && (!crate::attacks::magic_ok(
                    true,
                    sq,
                    #[trigger] crate::attacks::rook_magics_spec()[sq],
                ) || !crate::attacks::magic_ok(
                    false,
                    sq,
                    crate::attacks::bishop_magics_spec()[sq],
                )),
    {
        match AttackTables::new() {
            Option::Some(t) => Option::Some(MoveGenerator { tables: t }),
            Option::None => Option::None,
        }
    }

    /// Fills `list` with every pseudo-legal move for the side to move,
    /// in the fixed generation order: king, queen, rook, bishop, knight,
    /// pawns, castles. Each emitted move meets the generator's guarantee,
    /// and a castle whose emission conditions hold is always emitted.
    pub fn generate_all_moves(&self, pos: &Position, list: &mut Vec<Move>)
        requires
            self.wf(),
            pos.wf(),
        ensures
            moves_ok(pos.abs(), final(list)@),
            forall|to: int|
                castle_ready(pos.abs(), to) ==> contains_move(final(list)@, #[trigger] castle_move(to)),
    {
        list.clear();
        self.piece_moves(pos, 0, list);
        self.piece_moves(pos, 1, list);
        self.piece_moves(pos, 2, list);
        self.piece_moves(pos, 3, list);
        self.piece_moves(pos, 4, list);
        self.pawn_moves(pos, list);
        self.castling_moves(pos, list);
    }

    /// Moves of one non-pawn piece type: attack-table targets minus the
    /// own occupancy, quiet or capturing.
    fn piece_moves(&self, pos: &Position, pc: usize, list: &mut Vec<Move>)
        requires
            self.wf(),
            pos.wf(),
            pc < 5,
            moves_ok(pos.abs(), old(list)@),
        ensures
            moves_ok(pos.abs(), final(list)@),
    {
        let us = pos.side_to_move;
        let own = pos.occupancy(us);
        let occ = pos.occupancy_all();
        let mut pieces = BitBoard(pos.bb[us * 6 + pc]);
        while pieces.0 != 0
            invariant
                self.wf(),
                pos.wf(),
                pc < 5,
                us == pos.side_to_move,
                us < 2,
                own == occ_side(pos.abs(), us as int),
                occ == occ_all(pos.abs()),
                moves_ok(pos.abs(), list@),
                forall|j: int|
                    0 <= j < 64 ==> (#[trigger] bit_at(pieces.0, j) ==> bit_at(
                        pos.abs().bb[us * 6 + pc],
                        j,
                    )),
            decreases pieces.0,
        {
            let from = BitBoard::next(&mut pieces).0;
            proof {
                lemma_owner_from_bit(pos.abs(), us * 6 + pc, from as int);
            }
            let att = if pc == 0 {
                self.tables.get_king_attacks(from)
            } else if pc == 1 {
                self.tables.get_queen_attacks(from, occ)
            } else if pc == 2 {
                self.tables.get_rook_attacks(from, occ)
            } else if pc == 3 {
                self.tables.get_bishop_attacks(from, occ)
            } else {
                self.tables.get_knight_attacks(from)
            };
            let mut targets = BitBoard(att & !own);
            proof {
                assert forall|j: int| 0 <= j < 64 implies (#[trigger] bit_at(att & !own, j)
                    ==> !bit_at(own, j)) by {
                    crate::bits::lemma_bit_ops(att, !own, j);
                    crate::bits::lemma_bit_ops(own, own, j);
                }
            }
            while targets.0 != 0
                invariant
                    pos.wf(),
                    pc < 5,
                    us == pos.side_to_move,
                    us < 2,
                    from < 64,
                    own == occ_side(pos.abs(), us as int),
                    pos.abs().mailbox[from as int] == pc,
                    bit_at(pos.abs().bb[us * 6 + pc], from as int),
                    moves_ok(pos.abs(), list@),
                    forall|j: int|
                        0 <= j < 64 ==> (#[trigger] bit_at(targets.0, j) ==> !bit_at(own, j)),
                decreases targets.0,
            {
                let to = BitBoard::next(&mut targets).0;
                if to != from {
                    let cap = pos.mailbox[to];
                    proof {
                        if cap != 6 {
                            lemma_capture_owner(pos.abs(), to as int);
                        }
                    }
                    let mv = Move {
                        piece: pc,
                        from,
                        to,
                        captured: cap,
                        promoted: 6,
                        en_passant: false,
                        double_step: false,
                        castling: false,
                    };
                    proof {
                        assert(gen_ok(pos.abs(), mv));
                    }
                    list.push(mv);
                }
            }
        }
    }

    /// Pawn moves: single and double pushes, captures, promotions and en
    /// passant, with white moving up the board and black down.
    fn pawn_moves(&self, pos: &Position, list: &mut Vec<Move>)
        requires
            self.wf(),
            pos.wf(),
            moves_ok(pos.abs(), old(list)@),
        ensures
            moves_ok(pos.abs(), final(list)@),
    {
        let us = pos.side_to_move;
        let them = 1 - us;
        let their_occ = pos.occupancy(them);
        let mut pawns = BitBoard(pos.bb[us * 6 + 5]);
        while pawns.0 != 0
            invariant
                self.wf(),
                pos.wf(),
                us == pos.side_to_move,
                us < 2,
                them == 1 - us,
                their_occ == occ_side(pos.abs(), them as int),
                moves_ok(pos.abs(), list@),
                forall|j: int|
                    0 <= j < 64 ==> (#[trigger] bit_at(pawns.0, j) ==> bit_at(
                        pos.abs().bb[us * 6 + 5],
                        j,
                    )),
            decreases pawns.0,
        {
            let from = BitBoard::next(&mut pawns).0;
            proof {
                lemma_owner_from_bit(pos.abs(), us * 6 + 5, from as int);
            }
            // Pushes.
            let to1: usize = if us == 0 {
                from + 8
            } else if from >= 8 {
                from - 8
            } else {
                64
            };
            if to1 < 64 && pos.mailbox[to1] == 6 {
                let promo_rank = if us == 0 {
                    to1 >= 56
                } else {
                    to1 < 8
                };
                if promo_rank {
                    self.push_promotions(pos, from, to1, 6, list);
                } else {
                    let mv = Move {
                        piece: 5,
                        from,
                        to: to1,
                        captured: 6,
                        promoted: 6,
                        en_passant: false,
                        double_step: false,
                        castling: false,
                    };
                    proof {
                        assert(gen_ok(pos.abs(), mv));
                    }
                    list.push(mv);
                    let on_start = if us == 0 {
                        8 <= from && from < 16
                    } else {
                        48 <= from && from < 56
                    };
                    if on_start {
                        let to2: usize = if us == 0 {
                            from + 16
                        } else {
                            from - 16
                        };
                        if pos.mailbox[to2] == 6 {
                            let dmv = Move {
                                piece: 5,
                                from,
                                to: to2,
                                captured: 6,
                                promoted: 6,
                                en_passant: false,
                                double_step: true,
                                castling: false,
                            };
                            proof {
                                assert(gen_ok(pos.abs(), dmv));
                            }
                            list.push(dmv);
                        }
                    }
                }
            }
            // Captures.
            let att = self.tables.get_pawn_attacks(us, from);
            let mut caps = BitBoard(att & their_occ);
            proof {
                assert forall|j: int| 0 <= j < 64 implies (#[trigger] bit_at(att & their_occ, j)
                    ==> bit_at(their_occ, j)) by {
                    crate::bits::lemma_bit_ops(att, their_occ, j);
                }
            }
            while caps.0 != 0
                invariant
                    pos.wf(),
                    us == pos.side_to_move,
                    us < 2,
                    them == 1 - us,
                    from < 64,
                    their_occ == occ_side(pos.abs(), them as int),
                    pos.abs().mailbox[from as int] == 5,
                    bit_at(pos.abs().bb[us * 6 + 5], from as int),
                    moves_ok(pos.abs(), list@),
                    forall|j: int|
                        0 <= j < 64 ==> (#[trigger] bit_at(caps.0, j) ==> bit_at(their_occ, j)),
                decreases caps.0,
            {
                let to = BitBoard::next(&mut caps).0;
                if to != from {
                    proof {
                        lemma_occ_bit(pos.abs(), them as int, to as int);
                        let c = pos.abs();
                        assert(exists|i: int|
                            them * 6 <= i < them * 6 + 6 && bit_at(c.bb[i], to as int));
                        let i = choose|i: int|
                            them * 6 <= i < them * 6 + 6 && bit_at(c.bb[i], to as int);
                        lemma_owner_from_bit(c, i, to as int);
                    }
                    let cap = pos.mailbox[to];
                    let promo_rank = if us == 0 {
                        to >= 56
                    } else {
                        to < 8
                    };
                    if promo_rank {
                        self.push_promotions(pos, from, to, cap, list);
                    } else {
                        let mv = Move {
                            piece: 5,
                            from,
                            to,
                            captured: cap,
                            promoted: 6,
                            en_passant: false,
                            double_step: false,
                            castling: false,
                        };
                        proof {
                            assert(gen_ok(pos.abs(), mv));
                        }
                        list.push(mv);
                    }
                }
            }
            // En passant.
            match pos.en_passant {
                Option::Some(e) => {
                    if e < 64 && (att & (1u64 << (e as u64))) != 0 && e != from {
                        let cs: usize = if us == 0 {
                            e - 8
                        } else {
                            e + 8
                        };
                        if cs != from {
                            let mv = Move {
                                piece: 5,
                                from,
                                to: e,
                                captured: 5,
                                promoted: 6,
                                en_passant: true,
                                double_step: false,
                                castling: false,
                            };
                            proof {
                                assert(gen_ok(pos.abs(), mv));
                            }
                            list.push(mv);
                        }
                    }
                },
                Option::None => {},
            }
        }
    }

    /// The four promotion moves for one pawn arrival square.
    fn push_promotions(&self, pos: &Position, from: usize, to: usize, cap: usize, list: &mut Vec<
        Move,
    >)
        requires
            pos.wf(),
            moves_ok(pos.abs(), old(list)@),
            from < 64,
            to < 64,
            from != to,
            pos.abs().mailbox[from as int] == 5,
            bit_at(pos.abs().bb[pos.abs().side_to_move * 6 + 5], from as int),
            cap == 6 ==> pos.abs().mailbox[to as int] == 6,
            cap != 6 ==> cap < 6 && pos.abs().mailbox[to as int] == cap && bit_at(
                pos.abs().bb[(1 - pos.abs().side_to_move) * 6 + cap],
                to as int,
            ),
        ensures
            moves_ok(pos.abs(), final(list)@),
    {
        let mut promo: usize = 1;
        while promo <= 4
            invariant
                pos.wf(),
                moves_ok(pos.abs(), list@),
                from < 64,
                to < 64,
                from != to,
                1 <= promo,
                pos.abs().mailbox[from as int] == 5,
                bit_at(pos.abs().bb[pos.abs().side_to_move * 6 + 5], from as int),
                cap == 6 ==> pos.abs().mailbox[to as int] == 6,
                cap != 6 ==> cap < 6 && pos.abs().mailbox[to as int] == cap && bit_at(
                    pos.abs().bb[(1 - pos.abs().side_to_move) * 6 + cap],
                    to as int,
                ),
            decreases 5 - promo,
        {
            let mv = Move {
                piece: 5,
                from,
                to,
                captured: cap,
                promoted: promo,
                en_passant: false,
                double_step: false,
                castling: false,
            };
            proof {
                assert(gen_ok(pos.abs(), mv));
            }
            list.push(mv);
            promo = promo + 1;
        }
    }

    /// Castling moves, emitted exactly when the right is still held, the
    /// squares between king and rook are empty, and the king's start,
    /// transit and landing squares are unattacked.
    fn castling_moves(&self, pos: &Position, list: &mut Vec<Move>)
        requires
            self.wf(),
            pos.wf(),
            moves_ok(pos.abs(), old(list)@),
        ensures
            moves_ok(pos.abs(), final(list)@),
            forall|to: int|
                castle_ready(pos.abs(), to) ==> contains_move(final(list)@, #[trigger] castle_move(to)),
    {
        let us = pos.side_to_move;
        let them = 1 - us;
        if us == 0 {
            if pos.castling & 1 != 0 && pos.mailbox[4] == 0 && (pos.bb[0] & (1u64 << 4u64)) != 0
                && pos.mailbox[5] == 6 && pos.mailbox[6] == 6 && pos.mailbox[7] == 2 && (pos.bb[2]
                & (1u64 << 7u64)) != 0 && !pos.square_attacked(4, them, &self.tables)
                && !pos.square_attacked(5, them, &self.tables) && !pos.square_attacked(
                6,
                them,
                &self.tables,
            ) {
                let mv = Move {
                    piece: 0,
                    from: 4,
                    to: 6,
                    captured: 6,
                    promoted: 6,
                    en_passant: false,
                    double_step: false,
                    castling: true,
                };
                proof {
                    assert(mv == castle_move(6));
                    assert(castle_ready(pos.abs(), 6));
                    assert(gen_ok(pos.abs(), mv));
                }
                list.push(mv);
                proof {
                    assert(list@[list@.len() - 1] == castle_move(6));
                    assert(contains_move(list@, castle_move(6)));
                }
            }
            if pos.castling & 2 != 0 && pos.mailbox[4] == 0 && (pos.bb[0] & (1u64 << 4u64)) != 0
                && pos.mailbox[3] == 6 && pos.mailbox[2] == 6 && pos.mailbox[1] == 6
                && pos.mailbox[0] == 2 && (pos.bb[2] & (1u64 << 0u64)) != 0 && !pos.square_attacked(
                4,
                them,
                &self.tables,
            ) && !pos.square_attacked(3, them, &self.tables) && !pos.square_attacked(
                2,
                them,
                &self.tables,
            ) {
                let mv = Move {
                    piece: 0,
                    from: 4,
                    to: 2,
                    captured: 6,
                    promoted: 6,
                    en_passant: false,
                    double_step: false,
                    castling: true,
                };
                let ghost pre = list@;
                proof {
                    assert(mv == castle_move(2));
                    assert(castle_ready(pos.abs(), 2));
                    assert(gen_ok(pos.abs(), mv));
                }
                list.push(mv);
                proof {
                    assert(list@[list@.len() - 1] == castle_move(2));
                    assert(contains_move(list@, castle_move(2)));
                    if contains_move(pre, castle_move(6)) {
                        lemma_contains_push(pre, castle_move(6), mv);
                    }
                }
            }
        } else {
            if pos.castling & 4 != 0 && pos.mailbox[60] == 0 && (pos.bb[6] & (1u64 << 60u64)) != 0
                && pos.mailbox[61] == 6 && pos.mailbox[62] == 6 && pos.mailbox[63] == 2 && (
            pos.bb[8] & (1u64 << 63u64)) != 0 && !pos.square_attacked(60, them, &self.tables)
                && !pos.square_attacked(61, them, &self.tables) && !pos.square_attacked(
                62,
                them,
                &self.tables,
            ) {
                let mv = Move {
                    piece: 0,
                    from: 60,
                    to: 62,
                    captured: 6,
                    promoted: 6,
                    en_passant: false,
                    double_step: false,
                    castling: true,
                };
                proof {
                    assert(mv == castle_move(62));
                    assert(castle_ready(pos.abs(), 62));
                    assert(gen_ok(pos.abs(), mv));
                }
                list.push(mv);
                proof {
                    assert(list@[list@.len() - 1] == castle_move(62));
                    assert(contains_move(list@, castle_move(62)));
                }
            }
            if pos.castling & 8 != 0 && pos.mailbox[60] == 0 && (pos.bb[6] & (1u64 << 60u64)) != 0
                && pos.mailbox[59] == 6 && pos.mailbox[58] == 6 && pos.mailbox[57] == 6
                && pos.mailbox[56] == 2 && (pos.bb[8] & (1u64 << 56u64)) != 0
                && !pos.square_attacked(60, them, &self.tables) && !pos.square_attacked(
                59,
                them,
                &self.tables,
            ) && !pos.square_attacked(58, them, &self.tables) {
                let mv = Move {
                    piece: 0,
                    from: 60,
                    to: 58,
                    captured: 6,
                    promoted: 6,
                    en_passant: false,
                    double_step: false,
                    castling: true,
                };
                let ghost pre = list@;
                proof {
                    assert(mv == castle_move(58));
                    assert(castle_ready(pos.abs(), 58));
                    assert(gen_ok(pos.abs(), mv));
                }
                list.push(mv);
                proof {
                    assert(list@[list@.len() - 1] == castle_move(58));
                    assert(contains_move(list@, castle_move(58)));
                    if contains_move(pre, castle_move(62)) {
                        lemma_contains_push(pre, castle_move(62), mv);
                    }
                }
            }
        }
    }
}

} // verus!
