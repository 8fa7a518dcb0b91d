use rchessengine::board::{Color, GameBoard, Move};
use rchessengine::evaluation::evaluate_relative;
use rchessengine::ordering::{ordered_legal_moves, sort_by_capture_score};
use rchessengine::search::heuristics::HistoryHeuristic;
use rchessengine::search::history::GameHistory;
use rchessengine::search::negamax::{negamax, negamax_node, node_bound};
use rchessengine::search::transposition::{pack, unpack, Bound};
use rchessengine::search::quiescence::quiescence;
use rchessengine::search::{SearchStats, Searcher, INF};

fn mv(from: u8, to: u8) -> Move {
    Move { from, to, promotion: None }
}

#[test]
fn threefold_repetition_scores_zero() {
    let b = GameBoard::from_fen("6k1/5ppp/8/8/8/8/8/R5K1 w - - 0 1").unwrap();
    let mut s = Searcher::new();
    s.set_hash_size_mb(1);
    let mut h = GameHistory::new();
    for _ in 0..3 {
        h.push(b.position().hash);
    }
    let mut stats = SearchStats::new(None);
    assert_eq!(negamax(&mut s, &b, 3, -INF, INF, 1, &mut stats, &mut h), 0);
    assert_eq!(h.len(), 3);
}

#[test]
fn negamax_leaves_history_as_it_was() {
    let b = GameBoard::start();
    let mut s = Searcher::new();
    s.set_hash_size_mb(1);
    let mut h = GameHistory::new();
    h.push(b.position().hash);
    let mut stats = SearchStats::new(None);
    let v = negamax(&mut s, &b, 2, -INF, INF, 1, &mut stats, &mut h);
    assert!(-INF <= v && v <= INF);
    assert_eq!(h.len(), 1);
    assert_eq!(h.count(b.position().hash), 1);
    assert!(stats.nodes > 0);
}

#[test]
fn quiescence_without_captures_stands_pat() {
    let b = GameBoard::start();
    let mut stats = SearchStats::new(None);
    let v = quiescence(&b, -INF, INF, 0, &mut stats).0;
    assert_eq!(v, evaluate_relative(b.position()));
}

#[test]
fn quiescence_fails_hard_at_beta() {
    // White to move can win a queen for a pawn; the search stays within the window
    let b = GameBoard::from_fen("4k3/8/8/3q4/4P3/8/8/4K3 w - - 0 1").unwrap();
    let mut stats = SearchStats::new(None);
    let v = quiescence(&b, -50, 50, 0, &mut stats).0;
    assert_eq!(v, 50);
}

#[test]
fn hash_move_is_ordered_first() {
    let b = GameBoard::start();
    let h = HistoryHeuristic::new();
    let g1f3 = mv(6, 21);
    let moves = ordered_legal_moves(&b, Some(g1f3), [None, None], &h, Color::White);
    assert_eq!(moves.len(), 20);
    assert_eq!(moves[0], g1f3);
    for m in b.legal_moves() {
        assert!(moves.contains(&m));
    }
}

#[test]
fn captures_come_before_killers_and_quiet_moves() {
    // the e4 pawn can take on d5; a killer quiet move comes after it
    let b = GameBoard::from_fen("4k3/8/8/3p4/4P3/8/8/4K3 w - - 0 1").unwrap();
    let h = HistoryHeuristic::new();
    let killer = mv(4, 5);
    let moves = ordered_legal_moves(&b, None, [Some(killer), None], &h, Color::White);
    assert_eq!(moves[0], mv(28, 35));
    assert_eq!(moves[1], killer);
}

#[test]
fn captures_sorted_by_victim_then_attacker() {
    // the knight on c3 and the pawn on e4 can both take the queen on d5;
    // the knight can also take the pawn on b5
    let b = GameBoard::from_fen("4k3/8/8/1p1q4/4P3/2N5/8/4K3 w - - 0 1").unwrap();
    let caps = vec![mv(18, 33), mv(18, 35), mv(28, 35)];
    let sorted = sort_by_capture_score(b.position(), caps);
    assert_eq!(sorted, vec![mv(28, 35), mv(18, 35), mv(18, 33)]);
}

#[test]
fn same_hash_size_changes_nothing() {
    let mut s = Searcher::new();
    assert!(!s.set_hash_size_mb(256));
    assert_eq!(s.hash_mb(), 256);
    assert!(s.set_hash_size_mb(0));
    assert_eq!(s.hash_mb(), 1);
    assert_eq!(s.table().len(), 65536);
}

#[test]
fn depth_zero_negamax_scores_mate_by_ply() {
    let b = GameBoard::from_fen("rnb1kbnr/pppp1ppp/8/4p3/6Pq/5P2/PPPPP2P/RNBQKBNR w KQkq - 1 3").unwrap();
    let mut s = Searcher::new();
    s.set_hash_size_mb(1);
    let mut h = GameHistory::new();
    let mut stats = SearchStats::new(None);
    let v = negamax(&mut s, &b, 0, -INF, INF, 4, &mut stats, &mut h);
    assert_eq!(v, -rchessengine::search::MATE_SCORE + 4);
}

#[test]
fn deadline_reports_its_instant() {
    let d = rchessengine::time::SearchDeadline::new(std::time::Duration::from_secs(3600));
    assert!(!d.expired());
    assert!(d.remaining() > std::time::Duration::from_secs(3000));
    assert!(d.instant().unwrap() > std::time::Instant::now());
}

#[test]
fn deadline_beyond_the_clock_never_passes() {
    let d = rchessengine::time::SearchDeadline::new(std::time::Duration::MAX);
    assert!(d.instant().is_none());
    assert!(!d.expired());
    assert_eq!(d.remaining(), std::time::Duration::MAX);
}

const FOOLS_MATE: &str = "rnb1kbnr/pppp1ppp/8/4p3/6Pq/5P2/PPPPP2P/RNBQKBNR w KQkq - 1 3";

#[test]
fn node_without_table_entry_scores_mate_by_ply() {
    let b = GameBoard::from_fen(FOOLS_MATE).unwrap();
    let mut s = Searcher::new();
    s.set_hash_size_mb(1);
    let mut h = GameHistory::new();
    let mut stats = SearchStats::new(None);
    let v = negamax_node(&mut s, &b, 2, -INF, INF, 3, &mut stats, &mut h, None).0;
    assert_eq!(v, -rchessengine::search::MATE_SCORE + 3);
}

#[test]
fn node_without_table_entry_scores_stalemate_as_draw() {
    let b = GameBoard::from_fen("7k/5Q2/6K1/8/8/8/8/8 b - - 0 1").unwrap();
    let mut s = Searcher::new();
    s.set_hash_size_mb(1);
    let mut h = GameHistory::new();
    let mut stats = SearchStats::new(None);
    assert_eq!(negamax_node(&mut s, &b, 3, -INF, INF, 1, &mut stats, &mut h, None).0, 0);
}

#[test]
fn node_takes_exact_table_scores() {
    let b = GameBoard::start();
    let mut s = Searcher::new();
    s.set_hash_size_mb(1);
    let mut h = GameHistory::new();
    let mut stats = SearchStats::new(None);
    let exact = unpack(pack(5, 123, Bound::Exact, None));
    assert_eq!(negamax_node(&mut s, &b, 4, -INF, INF, 2, &mut stats, &mut h, Some(exact)).0, 123);
    assert_eq!(stats.tt_cutoffs, 1);
    // a lower bound below beta does not cut the node off, and a shallower entry is not used
    let lower = unpack(pack(5, 10, Bound::Lower, None));
    let v = negamax_node(&mut s, &b, 1, -INF, 50, 2, &mut stats, &mut h, Some(lower)).0;
    assert!(v >= -INF && v <= INF);
    let shallow = unpack(pack(0, 777, Bound::Exact, None));
    assert_ne!(negamax_node(&mut s, &b, 1, -INF, INF, 2, &mut stats, &mut h, Some(shallow)).0, 777);
}

#[test]
fn node_bounds() {
    assert_eq!(node_bound(-5, 0, 10), Bound::Upper);
    assert_eq!(node_bound(0, 0, 10), Bound::Upper);
    assert_eq!(node_bound(10, 0, 10), Bound::Lower);
    assert_eq!(node_bound(5, 0, 10), Bound::Exact);
}

#[test]
fn quiescence_stands_pat_above_beta() {
    // White is a queen up and not in check: the stand-pat score cuts off at beta
    let b = GameBoard::from_fen("4k3/8/8/8/8/8/8/3QK3 w - - 0 1").unwrap();
    let mut stats = SearchStats::new(None);
    assert_eq!(quiescence(&b, -50, 50, 0, &mut stats).0, 50);
    let mut stats = SearchStats::new(None);
    let v = quiescence(&b, -INF, INF, 0, &mut stats).0;
    assert!(v >= evaluate_relative(b.position()));
}

#[test]
fn quiescence_in_check_searches_the_evasions() {
    // White is in check from the rook on e8 and can only step aside; no
    // capture wins material, so the result is the evasions' best score
    let b = GameBoard::from_fen("4r1k1/8/8/8/8/8/8/4K3 w - - 0 1").unwrap();
    let mut stats = SearchStats::new(None);
    let v = quiescence(&b, -INF, INF, 0, &mut stats).0;
    assert!(v < 0);
    assert!(v > -INF);
}

#[test]
fn unlimited_search_keeps_deepening() {
    let b = GameBoard::start();
    let mut s = Searcher::new();
    s.set_hash_size_mb(1);
    let mut h = GameHistory::new();
    h.push(b.position().hash);
    let r = s.search_iterative(&b, 3, &mut h, None);
    assert_eq!(r.depth_reached, 3);
}

#[test]
fn deadline_poll_stops_on_the_last_count() {
    let d = rchessengine::time::SearchDeadline::new(std::time::Duration::from_secs(3600));
    let mut s = SearchStats::new(Some(d));
    let mut polls = 0;
    for _ in 0..2048 {
        if s.countdown_step() {
            polls += 1;
        }
    }
    assert_eq!(polls, 1);
    assert!(!s.stopped);
    s.record_poll(false);
    assert!(!s.stopped);
    s.record_poll(true);
    assert!(s.stopped);
    assert!(!s.countdown_step());
}

#[test]
fn root_search_finds_the_mate() {
    let b = GameBoard::from_fen("6k1/5ppp/8/8/8/8/8/R5K1 w - - 0 1").unwrap();
    let mut s = Searcher::new();
    s.set_hash_size_mb(1);
    let mut h = GameHistory::new();
    h.push(b.position().hash);
    let mut stats = SearchStats::new(None);
    let (m, score, _trace, _windows) = s.search_root(&b, 2, &mut h, &mut stats, Some(100));
    assert_eq!(m, Some(mv(0, 56)));
    assert_eq!(score, rchessengine::search::MATE_SCORE - 1);
}
