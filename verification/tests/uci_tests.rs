use rchessengine::board::{Color, GameBoard, Move, PieceKind};
use rchessengine::search::history::GameHistory;
use rchessengine::uci::{handle_position, handle_setoption, parse_square, parse_uci_move, plan_go, GoPlan};

fn mv(from: u8, to: u8) -> Move {
    Move { from, to, promotion: None }
}

#[test]
fn parse_plain_move() {
    let b = GameBoard::start();
    assert_eq!(parse_uci_move(&b, "e2e4"), Some(mv(12, 28)));
    assert_eq!(parse_uci_move(&b, "a1h8"), Some(mv(0, 63)));
}

#[test]
fn parse_promotion_letters() {
    let b = GameBoard::start();
    assert_eq!(parse_uci_move(&b, "e7e8q"), Some(Move { from: 52, to: 60, promotion: Some(PieceKind::Queen) }));
    assert_eq!(parse_uci_move(&b, "a2a1n"), Some(Move { from: 8, to: 0, promotion: Some(PieceKind::Knight) }));
    assert_eq!(parse_uci_move(&b, "b7b8r"), Some(Move { from: 49, to: 57, promotion: Some(PieceKind::Rook) }));
    assert_eq!(parse_uci_move(&b, "c7c8b"), Some(Move { from: 50, to: 58, promotion: Some(PieceKind::Bishop) }));
    // any other fifth character means no promotion
    assert_eq!(parse_uci_move(&b, "e7e8x"), Some(mv(52, 60)));
    assert_eq!(parse_uci_move(&b, "e7e8Q"), Some(mv(52, 60)));
}

#[test]
fn parse_rejects_bad_squares_and_short_text() {
    let b = GameBoard::start();
    assert_eq!(parse_uci_move(&b, "e2e"), None);
    assert_eq!(parse_uci_move(&b, ""), None);
    assert_eq!(parse_uci_move(&b, "i2e4"), None);
    assert_eq!(parse_uci_move(&b, "e9e4"), None);
    assert_eq!(parse_uci_move(&b, "e2e0"), None);
    assert_eq!(parse_uci_move(&b, "E2E4"), None);
    assert_eq!(parse_uci_move(&b, "é2e4"), None);
}

#[test]
fn squares_are_rank_times_eight_plus_file() {
    assert_eq!(parse_square('a', '1'), Some(0));
    assert_eq!(parse_square('h', '1'), Some(7));
    assert_eq!(parse_square('a', '8'), Some(56));
    assert_eq!(parse_square('h', '8'), Some(63));
    assert_eq!(parse_square('z', '1'), None);
}

#[test]
fn position_startpos_with_moves() {
    let mut b = GameBoard::from_fen("8/8/8/8/8/8/8/K6k w - - 0 1").unwrap();
    let mut h = GameHistory::new();
    handle_position(&mut b, &mut h, &["startpos", "moves", "e2e4", "e7e5"]);
    let expected = GameBoard::start().make_move(mv(12, 28)).make_move(mv(52, 36));
    assert_eq!(*b.position(), *expected.position());
    assert_eq!(h.len(), 3);
    assert_eq!(h.count(GameBoard::start().position().hash), 1);
    assert_eq!(h.count(expected.position().hash), 1);
}

#[test]
fn position_stops_at_first_illegal_move() {
    let mut b = GameBoard::start();
    let mut h = GameHistory::new();
    handle_position(&mut b, &mut h, &["startpos", "moves", "e2e4", "e2e4", "e7e5"]);
    assert_eq!(h.len(), 2);
    assert_eq!(b.position().side_to_move, Color::Black);
}

#[test]
fn position_stops_at_unreadable_move() {
    let mut b = GameBoard::start();
    let mut h = GameHistory::new();
    handle_position(&mut b, &mut h, &["startpos", "moves", "g1f3", "junk", "e7e5"]);
    assert_eq!(h.len(), 2);
    assert_eq!(b.position().piece_on(21), Some(PieceKind::Knight));
}

#[test]
fn position_from_fen_fields() {
    let mut b = GameBoard::start();
    let mut h = GameHistory::new();
    h.push(7);
    handle_position(&mut b, &mut h, &["fen", "4k3/8/8/8/8/8/8/4K2R", "w", "K", "-", "0", "1", "moves", "e1g1"]);
    let fen_board = GameBoard::from_fen("4k3/8/8/8/8/8/8/4K2R w K - 0 1").unwrap();
    let castled = fen_board.make_move(mv(4, 6));
    assert_eq!(*b.position(), *castled.position());
    assert_eq!(h.len(), 2);
    assert_eq!(h.count(7), 0);
    assert_eq!(h.count(fen_board.position().hash), 1);
}

#[test]
fn position_with_bad_fen_keeps_board_and_empties_history() {
    let mut b = GameBoard::start();
    let before = *b.position();
    let mut h = GameHistory::new();
    h.push(1);
    handle_position(&mut b, &mut h, &["fen", "garbage"]);
    assert_eq!(*b.position(), before);
    assert_eq!(h.len(), 0);
}

#[test]
fn position_with_moves_only_plays_on_the_current_board() {
    let mut b = GameBoard::start();
    let mut h = GameHistory::new();
    h.push(5);
    handle_position(&mut b, &mut h, &["moves", "e2e4"]);
    let expected = GameBoard::start().make_move(mv(12, 28));
    assert_eq!(*b.position(), *expected.position());
    assert_eq!(h.len(), 1);
    assert_eq!(h.count(5), 0);
}

#[test]
fn position_with_unknown_keyword_clears_history_only() {
    let mut b = GameBoard::start();
    let before = *b.position();
    let mut h = GameHistory::new();
    h.push(5);
    handle_position(&mut b, &mut h, &["bogus", "moves", "e2e4"]);
    assert_eq!(*b.position(), before);
    assert_eq!(h.len(), 0);
}

#[test]
fn setoption_threads_is_clamped() {
    assert_eq!(handle_setoption(&["name", "Threads", "value", "8"]), Some(8));
    assert_eq!(handle_setoption(&["name", "Threads", "value", "100"]), Some(64));
    assert_eq!(handle_setoption(&["name", "Threads", "value", "0"]), Some(1));
    assert_eq!(handle_setoption(&["name", "Threads", "value", "+3"]), Some(3));
}

#[test]
fn setoption_other_options_are_ignored() {
    assert_eq!(handle_setoption(&["name", "Hash", "value", "8"]), None);
    assert_eq!(handle_setoption(&["name", "Threads", "value", "x"]), None);
    assert_eq!(handle_setoption(&["name", "Threads", "value", "-1"]), None);
    assert_eq!(handle_setoption(&["name", "Threads"]), None);
    assert_eq!(handle_setoption(&["name", "Threads", "value"]), None);
    assert_eq!(handle_setoption(&["Threads", "value", "4"]), None);
    assert_eq!(handle_setoption(&["name", "Thread", "s", "value", "4"]), None);
    assert_eq!(handle_setoption(&[]), None);
}

#[test]
fn go_with_depth_only_is_fixed_depth() {
    let (params, plan) = plan_go(&["depth", "5"], 1);
    assert_eq!(params.depth, Some(5));
    assert_eq!(plan, GoPlan::FixedDepth { depth: 5 });
}

#[test]
fn go_with_clock_is_timed() {
    let (params, plan) = plan_go(&["wtime", "1000", "btime", "2000"], 3);
    assert_eq!(params.wtime_ms, Some(1000));
    assert_eq!(params.btime_ms, Some(2000));
    assert_eq!(plan, GoPlan::Timed { max_depth: 64, ply: 2 });
}

#[test]
fn go_depth_is_capped_in_timed_search() {
    let (_, plan) = plan_go(&["depth", "100", "movetime", "50"], 0);
    assert_eq!(plan, GoPlan::Timed { max_depth: 64, ply: 0 });
    let (_, plan) = plan_go(&["depth", "10", "wtime", "5"], 5);
    assert_eq!(plan, GoPlan::Timed { max_depth: 10, ply: 4 });
}

#[test]
fn go_without_arguments_is_timed() {
    let (_, plan) = plan_go(&[], 1);
    assert_eq!(plan, GoPlan::Timed { max_depth: 64, ply: 0 });
}
