use newton::bitboard::BitBoard;
use newton::bitmove::{BitMove, Move};
use newton::defs::{Castling, Pieces, Sides, Square};
use newton::position::Position;
use newton::uci::{apply_moves, parse_uci_move, reset};
use newton::movegen::MoveGenerator;

fn startpos() -> Position {
    Position::startpos().expect("start position must build")
}

fn mg() -> MoveGenerator {
    MoveGenerator::new().expect("attack tables must build")
}

fn positions_equal(a: &Position, b: &Position) -> bool {
    a.bb == b.bb && a.mailbox == b.mailbox && a.side_to_move == b.side_to_move
        && a.castling == b.castling && a.en_passant == b.en_passant && a.halfmove == b.halfmove
        && a.fullmove == b.fullmove && a.history.len() == b.history.len()
}

fn strings(v: &[&str]) -> Vec<String> {
    v.iter().map(|s| s.to_string()).collect()
}

#[test]
fn bitboard_set_bit_unions() {
    let a = BitBoard(0x1);
    let r = a.set_bit(BitBoard(0x100));
    assert_eq!(r.0, 0x101);
}

#[test]
fn bitboard_set_algebra() {
    let a = BitBoard(0b1100);
    let b = BitBoard(0b1010);
    assert_eq!(a.intersect(b).0, 0b1000);
    assert_eq!(a.symmetric_difference(b).0, 0b0110);
    assert_eq!(a.complement().0, !0b1100u64);
}

#[test]
fn bitboard_north_south() {
    assert_eq!(BitBoard(0xff00).north_one().0, 0xff0000);
    assert_eq!(BitBoard(0xff00).south_one().0, 0xff);
    // rank 8 falls off the board going north
    assert_eq!(BitBoard(0xff00000000000000).north_one().0, 0);
}

#[test]
fn bitboard_east_west_wrap_masking() {
    // a piece on h1 (bit 7) must not wrap to a2 when stepping east
    assert_eq!(BitBoard(0x80).east_one().0, 0);
    // a piece on a2 (bit 8) must not wrap to h1 when stepping west
    assert_eq!(BitBoard(0x100).west_one().0, 0);
    // plain steps
    assert_eq!(BitBoard(0x1).east_one().0, 0x2);
    assert_eq!(BitBoard(0x2).west_one().0, 0x1);
}

#[test]
fn bitboard_pop_count() {
    assert_eq!(BitBoard(0).pop_count(), 0);
    assert_eq!(BitBoard(0xff00).pop_count(), 8);
    assert_eq!(BitBoard(u64::MAX).pop_count(), 64);
    assert_eq!(BitBoard(0x8000000000000001).pop_count(), 2);
}

#[test]
fn bitboard_next_extracts_lowest() {
    let mut b = BitBoard(0b101000);
    let s1 = BitBoard::next(&mut b);
    assert_eq!(s1.0, 3);
    assert_eq!(b.0, 0b100000);
    let s2 = BitBoard::next(&mut b);
    assert_eq!(s2.0, 5);
    assert_eq!(b.0, 0);
}

#[test]
fn square_to_bb() {
    assert_eq!(Square(0).to_bb().0, 1);
    assert_eq!(Square(63).to_bb().0, 0x8000000000000000);
}

#[test]
fn bitmove_packs_fields() {
    let m = BitMove::new(3, Square(12), Square(28));
    assert_eq!(m.data, 3 * 4096 + 28 * 64 + 12);
    assert_eq!(BitMove::null().data, 0);
}

#[test]
fn piece_and_side_encodings() {
    assert_eq!(Pieces::KING, 0);
    assert_eq!(Pieces::PAWN, 5);
    assert_eq!(Pieces::NONE, 6);
    assert_eq!(Sides::WHITE, 0);
    assert_eq!(Sides::BLACK, 1);
    assert_eq!(Castling::ALL, 15);
}

#[test]
fn startpos_layout() {
    let p = startpos();
    assert_eq!(p.side_to_move, 0);
    assert_eq!(p.castling, 15);
    assert_eq!(p.en_passant, None);
    assert_eq!(p.halfmove, 0);
    assert_eq!(p.fullmove, 1);
    // e1 king, d1 queen, corners rooks, rank 2 pawns, empty middle
    assert_eq!(p.mailbox[4], Pieces::KING);
    assert_eq!(p.mailbox[3], Pieces::QUEEN);
    assert_eq!(p.mailbox[0], Pieces::ROOK);
    assert_eq!(p.mailbox[7], Pieces::ROOK);
    for s in 8..16 {
        assert_eq!(p.mailbox[s], Pieces::PAWN);
    }
    for s in 16..48 {
        assert_eq!(p.mailbox[s], Pieces::NONE);
    }
    assert_eq!(p.mailbox[60], Pieces::KING);
    assert_eq!(p.bb[5], 0xff00);
    assert_eq!(p.bb[11], 0x00ff000000000000);
}

#[test]
fn make_unmake_round_trip_restores_everything() {
    let g = mg();
    let mut p = startpos();
    let fresh = startpos();
    let mut list = Vec::new();
    g.generate_all_moves(&p, &mut list);
    // play and take back every single opening move
    for &m in &list {
        if p.make(m, &g) {
            p.unmake();
            assert!(positions_equal(&p, &fresh), "round trip broke for {}->{}", m.from, m.to);
        } else {
            assert!(positions_equal(&p, &fresh), "rejection changed state");
        }
    }
}

#[test]
fn rejected_move_leaves_state_untouched() {
    // white king e1, white rook e2 pinned by black queen e8
    let mut bb = vec![0u64; 12];
    bb[0] = 1 << 4; // white king e1
    bb[2] = 1 << 12; // white rook e2
    bb[7] = 1 << 60; // black queen e8
    bb[6] = 1 << 56; // black king a8
    let mut p = Position::from_parts(bb.clone(), 0, 0, None, 0, 1).expect("valid parts");
    let q = Position::from_parts(bb, 0, 0, None, 0, 1).expect("valid parts");
    let g = mg();
    let mut list = Vec::new();
    g.generate_all_moves(&p, &mut list);
    // moving the pinned rook sideways must be rejected and change nothing
    let side = list
        .iter()
        .copied()
        .find(|m| m.from == 12 && m.to == 11)
        .expect("rook d2 move generated");
    assert!(!p.make(side, &g));
    assert!(positions_equal(&p, &q));
    // moving along the pin is legal
    let up = list
        .iter()
        .copied()
        .find(|m| m.from == 12 && m.to == 20)
        .expect("rook e3 move generated");
    assert!(p.make(up, &g));
    assert!(!positions_equal(&p, &q));
}

fn check_board_agreement(p: &Position) {
    // mailbox and bitboards must agree on every square, boards disjoint
    for s in 0..64 {
        let mut owner = None;
        for i in 0..12 {
            if p.bb[i] & (1u64 << s) != 0 {
                assert!(owner.is_none(), "two boards claim square {}", s);
                owner = Some(i);
            }
        }
        match owner {
            None => assert_eq!(p.mailbox[s as usize], 6, "square {}", s),
            Some(i) => assert_eq!(p.mailbox[s as usize], i % 6, "square {}", s),
        }
    }
    let white = p.occupancy(0);
    let black = p.occupancy(1);
    assert_eq!(p.occupancy_all(), white | black);
    assert_eq!(white & black, 0);
}

#[test]
fn invariants_hold_through_make_unmake_sequences() {
    let g = mg();
    let mut p = startpos();
    let moves = strings(&["e2e4", "e7e5", "g1f3", "b8c6", "f1b5", "g8f6", "e1g1", "f6e4"]);
    apply_moves(&mut p, &g, &moves);
    check_board_agreement(&p);
    // wander the tree a little: make/unmake interleaved
    let mut list = Vec::new();
    g.generate_all_moves(&p, &mut list);
    for &m in &list {
        if p.make(m, &g) {
            check_board_agreement(&p);
            let mut deeper = Vec::new();
            g.generate_all_moves(&p, &mut deeper);
            for &d in deeper.iter().take(3) {
                if p.make(d, &g) {
                    check_board_agreement(&p);
                    p.unmake();
                }
            }
            p.unmake();
            check_board_agreement(&p);
        }
    }
}

#[test]
fn from_parts_rejects_overlap_and_bad_ep() {
    let mut bb = vec![0u64; 12];
    bb[0] = 1 << 4;
    bb[5] = 1 << 4; // pawn on the king's square
    assert!(Position::from_parts(bb, 0, 0, None, 0, 1).is_none());
    let mut bb2 = vec![0u64; 12];
    bb2[0] = 1 << 4;
    bb2[6] = 1 << 60;
    // en-passant square with no pawn behind it
    assert!(Position::from_parts(bb2.clone(), 0, 0, Some(44), 0, 1).is_none());
    // out-of-range side
    assert!(Position::from_parts(bb2, 2, 0, None, 0, 1).is_none());
}

#[test]
fn parse_uci_move_decodes_fields() {
    let p = startpos();
    let m = parse_uci_move(&p, "e2e4").expect("legal text");
    assert_eq!(m.piece, Pieces::PAWN);
    assert_eq!(m.from, 12);
    assert_eq!(m.to, 28);
    assert_eq!(m.captured, Pieces::NONE);
    assert_eq!(m.promoted, Pieces::NONE);
    assert!(!m.en_passant && !m.double_step && !m.castling);
    let n = parse_uci_move(&p, "g1f3").expect("knight text");
    assert_eq!(n.piece, Pieces::KNIGHT);
    assert_eq!(n.from, 6);
    assert_eq!(n.to, 21);
}

#[test]
fn parse_uci_move_rejects_bad_text() {
    let p = startpos();
    assert!(parse_uci_move(&p, "").is_none());
    assert!(parse_uci_move(&p, "e2e").is_none());
    assert!(parse_uci_move(&p, "e2e4qq").is_none());
    assert!(parse_uci_move(&p, "i2e4").is_none());
    assert!(parse_uci_move(&p, "e9e4").is_none());
    assert!(parse_uci_move(&p, "e3e4").is_none()); // empty source
    assert!(parse_uci_move(&p, "e7e5").is_none()); // not the side to move
    assert!(parse_uci_move(&p, "e2e4x").is_none()); // unknown promotion letter
}

#[test]
fn parse_uci_move_promotion_letters() {
    // white pawn on e7 ready to promote
    let mut bb = vec![0u64; 12];
    bb[0] = 1 << 4;
    bb[5] = 1 << 52;
    bb[6] = 1 << 56;
    let p = Position::from_parts(bb, 0, 0, None, 0, 1).expect("valid parts");
    assert_eq!(parse_uci_move(&p, "e7e8q").unwrap().promoted, Pieces::QUEEN);
    assert_eq!(parse_uci_move(&p, "e7e8r").unwrap().promoted, Pieces::ROOK);
    assert_eq!(parse_uci_move(&p, "e7e8b").unwrap().promoted, Pieces::BISHOP);
    assert_eq!(parse_uci_move(&p, "e7e8n").unwrap().promoted, Pieces::KNIGHT);
}

#[test]
fn apply_moves_sets_en_passant_square() {
    let g = mg();
    let mut p = startpos();
    apply_moves(&mut p, &g, &strings(&["e2e4"]));
    assert_eq!(p.side_to_move, 1);
    assert_eq!(p.en_passant, Some(20)); // e3 passed over
    assert_eq!(p.halfmove, 0);
    apply_moves(&mut p, &g, &strings(&["g8f6"]));
    assert_eq!(p.en_passant, None);
    assert_eq!(p.fullmove, 2);
}

#[test]
fn apply_moves_ignores_garbage() {
    let g = mg();
    let mut p = startpos();
    let fresh = startpos();
    apply_moves(&mut p, &g, &strings(&["zzzz", "e2e9", "e7e5", "e2e2"]));
    assert!(positions_equal(&p, &fresh));
}

#[test]
fn reset_restores_start() {
    let g = mg();
    let mut p = startpos();
    apply_moves(&mut p, &g, &strings(&["e2e4", "c7c5"]));
    assert!(reset(&mut p));
    assert!(positions_equal(&p, &startpos()));
}

#[test]
fn halfmove_clock_counts_and_resets() {
    let g = mg();
    let mut p = startpos();
    apply_moves(&mut p, &g, &strings(&["g1f3", "g8f6", "b1c3"]));
    assert_eq!(p.halfmove, 3);
    apply_moves(&mut p, &g, &strings(&["e7e5"]));
    assert_eq!(p.halfmove, 0); // pawn move resets
}

#[test]
fn move_record_equality() {
    let a = Move::plain(5, 12, 28, 6, 6);
    let b = Move::plain(5, 12, 28, 6, 6);
    assert_eq!(a, b);
    assert!(a != Move::plain(5, 12, 20, 6, 6));
}
