use rchessengine::bits::popcnt;
use rchessengine::evaluation::mobility::piece_attacks;
use rchessengine::board::{BoardStatus, Color, GameBoard, Move, PieceKind};
use rchessengine::engine::{evaluate, negamax, search_best_move, SearchStats, INF, MATE_SCORE};

const FOOLS_MATE: &str = "rnb1kbnr/pppp1ppp/8/4p3/6Pq/5P2/PPPPP2P/RNBQKBNR w KQkq - 1 3";
const BACK_RANK: &str = "6k1/5ppp/8/8/8/8/8/R5K1 w - - 0 1";
const STALEMATE: &str = "7k/5Q2/6K1/8/8/8/8/8 b - - 0 1";

fn board(fen: &str) -> GameBoard {
    GameBoard::from_fen(fen).expect("valid FEN")
}

#[test]
fn start_position_has_twenty_legal_moves() {
    let b = GameBoard::start();
    assert_eq!(b.legal_moves().len(), 20);
    assert_eq!(b.status(), BoardStatus::Ongoing);
    assert_eq!(b.position().side_to_move, Color::White);
    assert_eq!(b.position().occupied, b.position().white | b.position().black);
}

#[test]
fn start_position_is_the_starting_fen() {
    let a = GameBoard::start();
    let b = board(rchessengine::board::START_FEN);
    assert_eq!(*a.position(), *b.position());
}

#[test]
fn malformed_fen_is_refused() {
    assert!(GameBoard::from_fen("not a position").is_none());
    assert!(GameBoard::from_fen("").is_none());
}

#[test]
fn fools_mate_is_checkmate() {
    let b = board(FOOLS_MATE);
    assert_eq!(b.status(), BoardStatus::Checkmate);
    assert_eq!(b.legal_moves().len(), 0);
    assert!(b.position().in_check());
    assert!(b.null_move().is_none());
}

#[test]
fn stalemate_is_recognised() {
    let b = board(STALEMATE);
    assert_eq!(b.status(), BoardStatus::Stalemate);
    assert!(!b.position().in_check());
}

#[test]
fn making_a_move_changes_side_and_squares() {
    let b = GameBoard::start();
    let e2e4 = Move { from: 12, to: 28, promotion: None };
    assert!(b.is_legal(e2e4));
    assert!(!b.is_legal(Move { from: 12, to: 36, promotion: None }));
    let after = b.make_move(e2e4);
    let p = after.position();
    assert_eq!(p.side_to_move, Color::Black);
    assert_eq!(p.piece_on(28), Some(PieceKind::Pawn));
    assert_eq!(p.piece_on(12), None);
    assert_eq!(p.color_on(28), Some(Color::White));
    assert_ne!(p.hash, b.position().hash);
}

#[test]
fn null_move_passes_the_turn() {
    let b = GameBoard::start();
    let n = b.null_move().expect("not in check");
    assert_eq!(n.position().side_to_move, Color::Black);
    assert_eq!(n.position().occupied, b.position().occupied);
}

#[test]
fn attack_tables_of_corner_squares() {
    // a knight on a1 reaches b3 and c2; a king on a1 reaches a2, b1 and b2
    assert_eq!(piece_attacks(PieceKind::Knight, 0, 0), (1u64 << 17) | (1u64 << 10));
    assert_eq!(piece_attacks(PieceKind::King, 0, 0), (1u64 << 8) | (1u64 << 1) | (1u64 << 9));
    // a rook on a1 sees the first rank and the a-file up to the blocker on a3
    assert_eq!(piece_attacks(PieceKind::Rook, 0, 1u64 << 16), 0xFE | (1u64 << 8) | (1u64 << 16));
    // a bishop on a1 of an empty board sees the long diagonal
    assert_eq!(piece_attacks(PieceKind::Bishop, 0, 0), 0x8040_2010_0804_0200);
    assert_eq!(popcnt(piece_attacks(PieceKind::Queen, 27, 0)), 27);
}

#[test]
fn material_of_start_position_is_balanced() {
    assert_eq!(evaluate(&GameBoard::start()), 0);
}

#[test]
fn material_counts_an_extra_rook() {
    assert_eq!(evaluate(&board(BACK_RANK)), 500 - 300);
}

#[test]
fn engine_finds_back_rank_mate() {
    let b = board(BACK_RANK);
    let (best, score, nodes) = search_best_move(&b, 1);
    assert_eq!(best, Some(Move { from: 0, to: 56, promotion: None }));
    assert_eq!(score, MATE_SCORE - 1);
    assert!(nodes > 0);
}

#[test]
fn engine_depth_two_keeps_the_mate() {
    let b = board(BACK_RANK);
    let (best, score, _) = search_best_move(&b, 2);
    assert_eq!(best, Some(Move { from: 0, to: 56, promotion: None }));
    assert_eq!(score, MATE_SCORE - 1);
}

#[test]
fn engine_without_legal_moves_returns_nothing() {
    let b = board(FOOLS_MATE);
    let (best, score, nodes) = search_best_move(&b, 3);
    assert_eq!(best, None);
    assert_eq!(score, -INF);
    assert_eq!(nodes, 0);
}

#[test]
fn negamax_scores_checkmate_by_ply() {
    let b = board(FOOLS_MATE);
    let mut stats = SearchStats { nodes: 0 };
    assert_eq!(negamax(&b, 4, -INF, INF, 3, &mut stats), -MATE_SCORE + 3);
    assert_eq!(stats.nodes, 1);
}

#[test]
fn negamax_scores_stalemate_as_zero() {
    let b = board(STALEMATE);
    let mut stats = SearchStats { nodes: 0 };
    assert_eq!(negamax(&b, 2, -INF, INF, 0, &mut stats), 0);
}

#[test]
fn negamax_full_window_finds_mate_value() {
    let b = board(BACK_RANK);
    let mut stats = SearchStats { nodes: 0 };
    assert_eq!(negamax(&b, 1, -INF, INF, 0, &mut stats), MATE_SCORE - 1);
}

#[test]
fn negamax_fail_high_bounds_from_below() {
    // with a window below the mate value the search fails high at or above beta
    let b = board(BACK_RANK);
    let mut stats = SearchStats { nodes: 0 };
    let v = negamax(&b, 1, -100, 100, 0, &mut stats);
    assert!(v >= 100);
    assert!(v <= MATE_SCORE - 1);
}

#[test]
fn negamax_leaf_is_material_for_side_to_move() {
    let b = board("4k3/8/8/8/8/8/8/4K2R b - - 0 1");
    let mut stats = SearchStats { nodes: 0 };
    assert_eq!(negamax(&b, 0, -INF, INF, 0, &mut stats), -500);
}
