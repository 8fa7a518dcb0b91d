use rchessengine::board::{Color, GameBoard, Move, PieceKind};
use rchessengine::search::heuristics::{record_killer, HistoryHeuristic};
use rchessengine::search::history::GameHistory;
use rchessengine::search::transposition::{
    decode_move, encode_move, pack, score_from_tt, score_to_tt, unpack, Bound, TranspositionTable,
};
use rchessengine::search::{format_uci_score, SearchResult, SearchStats, Searcher, MATE_SCORE};

fn mv(from: u8, to: u8) -> Move {
    Move { from, to, promotion: None }
}

#[test]
fn uci_score_in_centipawns() {
    assert_eq!(format_uci_score(0), "cp 0");
    assert_eq!(format_uci_score(135), "cp 135");
    assert_eq!(format_uci_score(-42), "cp -42");
}

#[test]
fn uci_score_as_mate_distance() {
    assert_eq!(format_uci_score(MATE_SCORE - 1), "mate 1");
    assert_eq!(format_uci_score(MATE_SCORE - 3), "mate 2");
    assert_eq!(format_uci_score(-(MATE_SCORE - 2)), "mate -1");
    assert_eq!(format_uci_score(MATE_SCORE - 1000), "mate 500");
    assert_eq!(format_uci_score(MATE_SCORE - 1001), format!("cp {}", MATE_SCORE - 1001));
}

#[test]
fn game_history_counts_repetitions() {
    let mut h = GameHistory::new();
    h.push(10);
    h.push(20);
    h.push(10);
    assert_eq!(h.len(), 3);
    assert_eq!(h.count(10), 2);
    assert_eq!(h.count(20), 1);
    assert_eq!(h.count(30), 0);
    h.pop();
    assert_eq!(h.count(10), 1);
    h.pop();
    h.pop();
    h.pop();
    assert_eq!(h.len(), 0);
    assert_eq!(h.count(10), 0);
}

#[test]
fn game_history_push_then_pop_restores() {
    let mut h = GameHistory::default();
    h.push(1);
    h.push(2);
    h.push(99);
    h.pop();
    assert_eq!(h.len(), 2);
    assert_eq!(h.count(99), 0);
    assert_eq!(h.count(2), 1);
    h.clear();
    assert_eq!(h.len(), 0);
    assert_eq!(h.count(1), 0);
}

#[test]
fn mate_scores_are_stored_relative_to_the_node() {
    let s = MATE_SCORE - 5;
    assert_eq!(score_to_tt(s, 3), MATE_SCORE - 2);
    assert_eq!(score_from_tt(score_to_tt(s, 3), 3), s);
    assert_eq!(score_to_tt(-s, 3), -(MATE_SCORE - 2));
    assert_eq!(score_from_tt(score_to_tt(-s, 3), 3), -s);
    assert_eq!(score_to_tt(250, 7), 250);
    assert_eq!(score_from_tt(250, 7), 250);
}

#[test]
fn bound_codes() {
    assert_eq!(Bound::from_u8(0), Bound::Exact);
    assert_eq!(Bound::from_u8(1), Bound::Lower);
    assert_eq!(Bound::from_u8(2), Bound::Upper);
    assert_eq!(Bound::from_u8(3), Bound::Exact);
    assert_eq!(Bound::Upper.bits(), 2);
}

#[test]
fn move_codes_round_trip() {
    assert_eq!(encode_move(None), 0xFFFF);
    assert_eq!(decode_move(0xFFFF), None);
    let m = Move { from: 52, to: 60, promotion: Some(PieceKind::Queen) };
    assert_eq!(encode_move(Some(m)), 52 | (60 << 6) | (4 << 12));
    assert_eq!(decode_move(encode_move(Some(m))), Some(m));
    assert_eq!(decode_move(encode_move(Some(mv(12, 28)))), Some(mv(12, 28)));
}

#[test]
fn packed_entries_round_trip() {
    let data = pack(7, -1234, Bound::Lower, Some(mv(6, 21)));
    assert_ne!(data & (1u64 << 63), 0);
    let e = unpack(data);
    assert_eq!(e.depth, 7);
    assert_eq!(e.score, -1234);
    assert_eq!(e.bound, Bound::Lower);
    assert_eq!(e.best_move(), Some(mv(6, 21)));
    // depths are kept up to 255
    assert_eq!(unpack(pack(1000, 5, Bound::Exact, None)).depth, 255);
}

#[test]
fn table_sizes_are_powers_of_two() {
    assert_eq!(TranspositionTable::slots_for_mb(1), 65536);
    assert_eq!(TranspositionTable::slots_for_mb(0), 65536);
    assert_eq!(TranspositionTable::slots_for_mb(3), 131072);
    let t = TranspositionTable::with_size_mb(1);
    assert_eq!(t.len(), 65536);
    assert_eq!(t.index(65536 + 17), 17);
}

#[test]
fn table_reads_back_what_was_stored() {
    let t = TranspositionTable::with_size_mb(1);
    let key = 0x1234_5678_9abc_def0u64;
    assert!(t.probe(key).is_none());
    t.store(key, 5, 321, Bound::Exact, Some(mv(12, 28)));
    let e = t.probe(key).expect("stored");
    assert_eq!(e.depth, 5);
    assert_eq!(e.score, 321);
    assert_eq!(e.bound, Bound::Exact);
    assert_eq!(e.best_move(), Some(mv(12, 28)));
    // another key on the same slot does not read the entry
    assert!(t.probe(key ^ (1u64 << 40)).is_none());
    t.clear();
    assert!(t.probe(key).is_none());
}

#[test]
fn table_keeps_deeper_entries() {
    let t = TranspositionTable::with_size_mb(1);
    let key = 99u64;
    t.store(key, 6, 10, Bound::Lower, None);
    t.store(key, 4, 20, Bound::Exact, None);
    assert_eq!(t.probe(key).unwrap().score, 10);
    t.store(key, 6, 30, Bound::Exact, None);
    assert_eq!(t.probe(key).unwrap().score, 30);
    // an exact entry is not replaced by a bound at the same depth
    t.store(key, 6, 40, Bound::Upper, None);
    assert_eq!(t.probe(key).unwrap().score, 30);
    t.store(key, 7, 50, Bound::Upper, None);
    assert_eq!(t.probe(key).unwrap().score, 50);
}

#[test]
fn history_rewards_the_best_move() {
    let mut h = HistoryHeuristic::new();
    let best = mv(12, 28);
    let other = mv(6, 21);
    h.update(Color::White, best, &[other, best], 3);
    assert_eq!(h.score(Color::White, best), 9);
    assert_eq!(h.score(Color::White, other), -9);
    assert_eq!(h.score(Color::Black, best), 0);
    h.update(Color::White, best, &[best], 3);
    assert_eq!(h.score(Color::White, best), 18);
    h.clear();
    assert_eq!(h.score(Color::White, best), 0);
}

#[test]
fn history_stays_within_bounds() {
    let mut h = HistoryHeuristic::new();
    let best = mv(1, 2);
    for _ in 0..200 {
        h.update(Color::Black, best, &[best], 200);
    }
    let s = h.score(Color::Black, best);
    assert!(s <= 16384 && s > 16000);
}

#[test]
fn killers_shift_in_new_moves() {
    let mut k = [None, None];
    record_killer(&mut k, mv(1, 2));
    assert_eq!(k, [Some(mv(1, 2)), None]);
    record_killer(&mut k, mv(3, 4));
    assert_eq!(k, [Some(mv(3, 4)), Some(mv(1, 2))]);
    record_killer(&mut k, mv(3, 4));
    assert_eq!(k, [Some(mv(3, 4)), Some(mv(1, 2))]);
}

#[test]
fn search_stats_start_counting() {
    let s = SearchStats::new(None);
    assert_eq!(s.nodes, 0);
    assert_eq!(s.tt_hits, 0);
    assert_eq!(s.tt_cutoffs, 0);
    assert!(!s.stopped);
}

#[test]
fn search_stats_stop_on_expired_deadline() {
    let d = rchessengine::time::SearchDeadline::new(std::time::Duration::from_millis(0));
    let mut s = SearchStats::new(Some(d));
    for _ in 0..5000 {
        s.check_time();
    }
    assert!(s.stopped);
}

#[test]
fn absorb_takes_deeper_helper_results() {
    let mut main = SearchResult { best_move: Some(mv(1, 2)), score: 10, depth_reached: 3, nodes: 100, tt_hits: 5, tt_cutoffs: 1 };
    let helper = SearchResult { best_move: Some(mv(3, 4)), score: 20, depth_reached: 4, nodes: 50, tt_hits: 2, tt_cutoffs: 2 };
    main.absorb(&helper);
    assert_eq!(main.best_move, Some(mv(3, 4)));
    assert_eq!(main.score, 20);
    assert_eq!(main.depth_reached, 4);
    assert_eq!(main.nodes, 150);
    let shallow = SearchResult { best_move: Some(mv(5, 6)), score: 99, depth_reached: 2, nodes: 1, tt_hits: 0, tt_cutoffs: 0 };
    main.absorb(&shallow);
    assert_eq!(main.best_move, Some(mv(3, 4)));
    assert_eq!(main.nodes, 151);
}

#[test]
fn iterative_search_finds_back_rank_mate() {
    let b = GameBoard::from_fen("6k1/5ppp/8/8/8/8/8/R5K1 w - - 0 1").unwrap();
    let mut s = Searcher::new();
    assert!(s.set_hash_size_mb(1));
    let mut h = GameHistory::new();
    h.push(b.position().hash);
    let r = s.search_iterative(&b, 4, &mut h, None);
    assert_eq!(r.best_move, Some(mv(0, 56)));
    assert_eq!(r.score, MATE_SCORE - 1);
    assert_eq!(format_uci_score(r.score), "mate 1");
    assert_eq!(h.len(), 1);
}

#[test]
fn iterative_search_returns_a_legal_move() {
    let b = GameBoard::start();
    let mut s = Searcher::new();
    s.set_hash_size_mb(1);
    let mut h = GameHistory::new();
    h.push(b.position().hash);
    let r = s.search_iterative(&b, 2, &mut h, None);
    let m = r.best_move.expect("a move");
    assert!(b.is_legal(m));
    assert_eq!(r.depth_reached, 2);
    assert!(r.nodes > 0);
}
