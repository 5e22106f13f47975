use newton::attacks::AttackTables;
use newton::defs::Pieces;
use newton::evaluate::evaluate_position;
use newton::movegen::MoveGenerator;
use newton::perft::perft;
use newton::position::Position;
use newton::search::{alpha_beta, allotted_search_time, SearchInfo, MATE_SCORE};
use newton::uci::apply_moves;

fn startpos() -> Position {
    Position::startpos().expect("start position must build")
}

fn mg() -> MoveGenerator {
    MoveGenerator::new().expect("attack tables must build")
}

fn strings(v: &[&str]) -> Vec<String> {
    v.iter().map(|s| s.to_string()).collect()
}

#[test]
fn attack_tables_build() {
    assert!(AttackTables::new().is_some());
}

#[test]
fn rook_attacks_spot_checks() {
    let t = AttackTables::new().unwrap();
    // empty board, rook on a1: whole a-file and first rank
    assert_eq!(t.get_rook_attacks(0, 0), 0x01010101010101fe);
    // blocker on a4 truncates the file (blocker square included)
    assert_eq!(t.get_rook_attacks(0, 1 << 24), 0x00000000010101fe);
    // rook on d4 with a blocker on d6
    let d4 = 27;
    let d6 = 43;
    let att = t.get_rook_attacks(d4, 1u64 << d6);
    assert!(att & (1u64 << d6) != 0); // the blocker is attackable
    assert!(att & (1u64 << 51) == 0); // d7 behind it is not
}

#[test]
fn bishop_and_queen_attacks_spot_checks() {
    let t = AttackTables::new().unwrap();
    // bishop on a1, empty board: the long diagonal
    assert_eq!(t.get_bishop_attacks(0, 0), 0x8040201008040200);
    // queen = rook | bishop
    let occ = 0x0000001818000000u64;
    assert_eq!(
        t.get_queen_attacks(27, occ),
        t.get_rook_attacks(27, occ) | t.get_bishop_attacks(27, occ)
    );
}

#[test]
fn leaper_attacks_spot_checks() {
    let t = AttackTables::new().unwrap();
    // knight on b1 reaches a3, c3, d2
    assert_eq!(t.get_knight_attacks(1), (1u64 << 16) | (1u64 << 18) | (1u64 << 11));
    // king on e1
    let e1 = 4;
    let expect = (1u64 << 3) | (1u64 << 5) | (1u64 << 11) | (1u64 << 12) | (1u64 << 13);
    assert_eq!(t.get_king_attacks(e1), expect);
    // white pawn on a2 attacks only b3 (no wrap)
    assert_eq!(t.get_pawn_attacks(0, 8), 1u64 << 17);
    // black pawn on h7 attacks only g6
    assert_eq!(t.get_pawn_attacks(1, 55), 1u64 << 46);
}

#[test]
fn perft_startpos_depth_1() {
    let g = mg();
    let mut p = startpos();
    assert_eq!(perft(&mut p, 1, &g), 20);
}

#[test]
fn perft_startpos_depth_2() {
    let g = mg();
    let mut p = startpos();
    assert_eq!(perft(&mut p, 2, &g), 400);
}

#[test]
fn perft_startpos_depth_3() {
    let g = mg();
    let mut p = startpos();
    assert_eq!(perft(&mut p, 3, &g), 8902);
}

#[test]
fn en_passant_capture_removes_the_right_pawn() {
    let g = mg();
    let mut p = startpos();
    apply_moves(&mut p, &g, &strings(&["e2e4", "a7a6", "e4e5", "d7d5"]));
    // black's double push just passed d6
    assert_eq!(p.en_passant, Some(43));
    let mut list = Vec::new();
    g.generate_all_moves(&p, &mut list);
    let ep = list
        .iter()
        .copied()
        .find(|m| m.en_passant)
        .expect("en-passant capture generated");
    assert_eq!(ep.from, 36); // e5
    assert_eq!(ep.to, 43); // d6
    assert_eq!(ep.captured, Pieces::PAWN);
    assert!(p.make(ep, &g));
    // the captured pawn stood on d5, not on the destination square
    assert_eq!(p.mailbox[35], Pieces::NONE);
    assert_eq!(p.mailbox[43], Pieces::PAWN);
    assert_eq!(p.bb[11] & (1u64 << 35), 0);
    // and the move is exactly reversible
    p.unmake();
    assert_eq!(p.mailbox[35], Pieces::PAWN);
    assert_eq!(p.mailbox[43], Pieces::NONE);
    assert_eq!(p.mailbox[36], Pieces::PAWN);
    assert_eq!(p.en_passant, Some(43));
}

fn castle_parts(extra: impl Fn(&mut Vec<u64>)) -> Vec<u64> {
    let mut bb = vec![0u64; 12];
    bb[0] = 1 << 4; // white king e1
    bb[2] = 1 << 7; // white rook h1
    bb[6] = 1 << 60; // black king e8
    extra(&mut bb);
    bb
}

fn has_castle(p: &Position, g: &MoveGenerator) -> bool {
    let mut list = Vec::new();
    g.generate_all_moves(p, &mut list);
    list.iter().any(|m| m.castling && m.to == 6)
}

#[test]
fn castling_allowed_with_right_rook_and_empty_path() {
    let g = mg();
    let bb = castle_parts(|_| {});
    let mut p = Position::from_parts(bb, 0, 1, None, 0, 1).expect("valid parts");
    assert!(has_castle(&p, &g));
    let mut list = Vec::new();
    g.generate_all_moves(&p, &mut list);
    let c = list.iter().copied().find(|m| m.castling).unwrap();
    assert!(p.make(c, &g));
    assert_eq!(p.mailbox[6], Pieces::KING);
    assert_eq!(p.mailbox[5], Pieces::ROOK);
    assert_eq!(p.mailbox[4], Pieces::NONE);
    assert_eq!(p.mailbox[7], Pieces::NONE);
    assert_eq!(p.castling, 0);
    p.unmake();
    assert_eq!(p.mailbox[4], Pieces::KING);
    assert_eq!(p.mailbox[7], Pieces::ROOK);
    assert_eq!(p.castling, 1);
}

#[test]
fn castling_blocked_without_the_right() {
    let g = mg();
    let bb = castle_parts(|_| {});
    // same squares, but the kingside right was lost (rook had moved)
    let p = Position::from_parts(bb, 0, 0, None, 0, 1).expect("valid parts");
    assert!(!has_castle(&p, &g));
}

#[test]
fn castling_blocked_by_attacked_transit_square() {
    let g = mg();
    // black rook on f8 eyes f1, the king's transit square
    let bb = castle_parts(|bb| bb[8] = 1 << 61);
    let p = Position::from_parts(bb, 0, 1, None, 0, 1).expect("valid parts");
    assert!(!has_castle(&p, &g));
}

#[test]
fn castling_blocked_by_occupied_square() {
    let g = mg();
    // own bishop still on f1
    let bb = castle_parts(|bb| bb[3] = 1 << 5);
    let p = Position::from_parts(bb, 0, 1, None, 0, 1).expect("valid parts");
    assert!(!has_castle(&p, &g));
}

#[test]
fn apply_moves_refuses_castling_through_check() {
    let g = mg();
    // black rook on f8 attacks f1: the castle text must be ignored
    let bb = castle_parts(|bb| bb[8] = 1 << 61);
    let mut p = Position::from_parts(bb.clone(), 0, 1, None, 0, 1).expect("valid parts");
    let q = Position::from_parts(bb, 0, 1, None, 0, 1).expect("valid parts");
    apply_moves(&mut p, &g, &strings(&["e1g1"]));
    assert_eq!(p.mailbox, q.mailbox);
    assert_eq!(p.bb, q.bb);
    assert_eq!(p.side_to_move, 0);
}

#[test]
fn apply_moves_castles_when_legal() {
    let g = mg();
    let bb = castle_parts(|_| {});
    let mut p = Position::from_parts(bb, 0, 1, None, 0, 1).expect("valid parts");
    apply_moves(&mut p, &g, &strings(&["e1g1"]));
    assert_eq!(p.mailbox[6], Pieces::KING);
    assert_eq!(p.mailbox[5], Pieces::ROOK);
    assert_eq!(p.mailbox[4], Pieces::NONE);
    assert_eq!(p.mailbox[7], Pieces::NONE);
    assert_eq!(p.castling, 0);
}

#[test]
fn evaluate_material_balance() {
    let p = startpos();
    assert_eq!(evaluate_position(&p), 0);
    // white up a queen, white to move
    let mut bb = vec![0u64; 12];
    bb[0] = 1 << 4;
    bb[1] = 1 << 3;
    bb[6] = 1 << 60;
    let q = Position::from_parts(bb.clone(), 0, 0, None, 0, 1).unwrap();
    assert_eq!(evaluate_position(&q), 900);
    // same board, black to move: sign flips
    let r = Position::from_parts(bb, 1, 0, None, 0, 1).unwrap();
    assert_eq!(evaluate_position(&r), -900);
}

#[test]
fn search_depth_one_startpos_is_level() {
    let g = mg();
    let mut p = startpos();
    let info = SearchInfo::new();
    let score = alpha_beta(&mut p, 1, -1000000, 1000000, &info, &g);
    assert_eq!(score, 0);
    // the search hands the position back untouched
    assert_eq!(p.mailbox[12], Pieces::PAWN);
    assert_eq!(p.side_to_move, 0);
    assert_eq!(p.history.len(), 0);
}

#[test]
fn search_prefers_winning_material() {
    let g = mg();
    // white rook can capture an undefended black queen
    let mut bb = vec![0u64; 12];
    bb[0] = 1 << 4; // white king e1
    bb[2] = 1 << 0; // white rook a1
    bb[7] = 1 << 56; // black queen a8
    bb[6] = 1 << 62; // black king g8
    let mut p = Position::from_parts(bb, 0, 0, None, 0, 1).unwrap();
    let info = SearchInfo::new();
    let score = alpha_beta(&mut p, 2, -1000000, 1000000, &info, &g);
    assert!(score >= 400, "expected material win, got {}", score);
}

#[test]
fn search_reports_checkmate() {
    let g = mg();
    let mut p = startpos();
    // fool's mate: white is checkmated with black to have just moved
    apply_moves(&mut p, &g, &strings(&["f2f3", "e7e5", "g2g4", "d8h4"]));
    assert_eq!(p.side_to_move, 0);
    let info = SearchInfo::new();
    let score = alpha_beta(&mut p, 1, -1000000, 1000000, &info, &g);
    assert_eq!(score, -MATE_SCORE - 1);
}

#[test]
fn search_reports_stalemate_as_draw() {
    let g = mg();
    // black king a8, white king b6 and queen c7: black to move, no legal
    // reply, king not attacked
    let mut bb = vec![0u64; 12];
    bb[6] = 1 << 56; // black king a8
    bb[0] = 1 << 41; // white king b6
    bb[1] = 1 << 50; // white queen c7
    let mut p = Position::from_parts(bb, 1, 0, None, 0, 1).unwrap();
    let info = SearchInfo::new();
    let score = alpha_beta(&mut p, 1, -1000000, 1000000, &info, &g);
    assert_eq!(score, 0);
}

#[test]
fn search_info_defaults_and_time_budget() {
    let info = SearchInfo::new();
    assert_eq!(info.depth, -1);
    assert_eq!(info.time, 0);
    assert_eq!(info.increment, 0);
    assert_eq!(allotted_search_time(2000, 100), 150);
    assert_eq!(allotted_search_time(0, 0), 0);
}

#[test]
fn promotion_round_trip() {
    let g = mg();
    // white pawn on a7 promotes, including by capture on b8
    let mut bb = vec![0u64; 12];
    bb[0] = 1 << 4; // white king e1
    bb[5] = 1 << 48; // white pawn a7
    bb[10] = 1 << 57; // black knight b8
    bb[6] = 1 << 62; // black king g8
    let mut p = Position::from_parts(bb, 0, 0, None, 0, 1).unwrap();
    let mut list = Vec::new();
    g.generate_all_moves(&p, &mut list);
    let quiet_promos: Vec<_> = list.iter().copied().filter(|m| m.to == 56).collect();
    assert_eq!(quiet_promos.len(), 4);
    let capture_promo = list
        .iter()
        .copied()
        .find(|m| m.to == 57 && m.promoted == Pieces::QUEEN)
        .expect("capture promotion generated");
    assert!(p.make(capture_promo, &g));
    assert_eq!(p.mailbox[57], Pieces::QUEEN);
    assert_eq!(p.bb[5], 0); // the pawn is gone
    assert_eq!(p.bb[10], 0); // so is the knight
    p.unmake();
    assert_eq!(p.mailbox[48], Pieces::PAWN);
    assert_eq!(p.mailbox[57], Pieces::KNIGHT);
}
