use rchessengine::board::{Color, GameBoard, PieceKind};
use rchessengine::evaluation::endgame::distance;
use rchessengine::evaluation::king_safety::file_mask;
use rchessengine::evaluation::material::{material_score, piece_value};
use rchessengine::evaluation::see::see;
use rchessengine::evaluation::{evaluate, evaluate_relative, pawn_attacks_to};
use rchessengine::text::{parse_unsigned, text_eq};
use rchessengine::time::{finish_time_budget, moves_to_go, parse_go_params, plan_time_budget, BudgetPlan, GoParams};

#[test]
fn go_params_read_every_keyword() {
    let p = parse_go_params(&[
        "wtime", "300000", "btime", "290000", "winc", "2000", "binc", "1000", "movestogo", "40", "depth", "9",
        "movetime", "700",
    ]);
    assert_eq!(p.wtime_ms, Some(300000));
    assert_eq!(p.btime_ms, Some(290000));
    assert_eq!(p.winc_ms, 2000);
    assert_eq!(p.binc_ms, 1000);
    assert_eq!(p.movestogo, Some(40));
    assert_eq!(p.depth, Some(9));
    assert_eq!(p.movetime_ms, Some(700));
}

#[test]
fn go_params_skip_bad_values() {
    let p = parse_go_params(&["depth", "x", "movetime", "100", "winc", "-5", "infinite"]);
    assert_eq!(p.depth, None);
    assert_eq!(p.movetime_ms, Some(100));
    assert_eq!(p.winc_ms, 0);
    let q = parse_go_params(&["depth"]);
    assert_eq!(q, GoParams::default());
    let r = parse_go_params(&["depth", "99999999999"]);
    assert_eq!(r.depth, None);
}

#[test]
fn moves_to_go_by_clock() {
    let mut p = GoParams::default();
    assert_eq!(moves_to_go(&p, 5_000), 12);
    assert_eq!(moves_to_go(&p, 20_000), 20);
    assert_eq!(moves_to_go(&p, 60_000), 30);
    p.movestogo = Some(0);
    assert_eq!(moves_to_go(&p, 60_000), 1);
    p.movestogo = Some(7);
    assert_eq!(moves_to_go(&p, 60_000), 7);
}

#[test]
fn budget_plans() {
    let mut p = GoParams::default();
    assert_eq!(plan_time_budget(&p, Color::White), BudgetPlan::Fixed(5000));
    p.movetime_ms = Some(1000);
    assert_eq!(plan_time_budget(&p, Color::White), BudgetPlan::Fixed(950));
    p.movetime_ms = Some(10);
    assert_eq!(plan_time_budget(&p, Color::Black), BudgetPlan::Fixed(1));
    let mut q = GoParams::default();
    q.wtime_ms = Some(60_000);
    q.winc_ms = 1000;
    assert_eq!(
        plan_time_budget(&q, Color::White),
        BudgetPlan::Scaled { time_left: 60_000, opponent_time: 60_000, allocated: 2500 }
    );
    assert_eq!(plan_time_budget(&q, Color::Black), BudgetPlan::Fixed(5000));
    q.btime_ms = Some(9_000);
    assert_eq!(
        plan_time_budget(&q, Color::Black),
        BudgetPlan::Scaled { time_left: 9_000, opponent_time: 60_000, allocated: 750 }
    );
}

#[test]
fn budget_is_capped() {
    assert_eq!(finish_time_budget(1000, 5000, 330), 330);
    assert_eq!(finish_time_budget(1000, 200, 330), 200);
    assert_eq!(finish_time_budget(100, 5000, 330), 50);
    assert_eq!(finish_time_budget(10, 100, 3), 1);
}

#[test]
fn unsigned_numbers_read_as_std_does() {
    assert_eq!(parse_unsigned("42", u64::MAX), Some(42));
    assert_eq!(parse_unsigned("+42", u64::MAX), Some(42));
    assert_eq!(parse_unsigned("", u64::MAX), None);
    assert_eq!(parse_unsigned("+", u64::MAX), None);
    assert_eq!(parse_unsigned("4x", u64::MAX), None);
    assert_eq!(parse_unsigned("4294967295", u32::MAX as u64), Some(4294967295));
    assert_eq!(parse_unsigned("4294967296", u32::MAX as u64), None);
    assert_eq!(parse_unsigned("18446744073709551615", u64::MAX), Some(u64::MAX));
    assert_eq!(parse_unsigned("18446744073709551616", u64::MAX), None);
}

#[test]
fn text_helpers() {
    assert!(text_eq("go", "go"));
    assert!(!text_eq("go", "go "));
}

#[test]
fn start_position_evaluates_even() {
    let b = GameBoard::start();
    assert_eq!(evaluate(b.position()), 0);
    assert_eq!(evaluate_relative(b.position()), 0);
    assert_eq!(material_score(b.position()), 0);
}

#[test]
fn relative_evaluation_flips_for_black() {
    let w = GameBoard::from_fen("4k3/8/8/8/8/8/8/3QK3 w - - 0 1").unwrap();
    let b = GameBoard::from_fen("4k3/8/8/8/8/8/8/3QK3 b - - 0 1").unwrap();
    assert_eq!(evaluate(w.position()), evaluate(b.position()));
    assert_eq!(evaluate_relative(w.position()), -evaluate_relative(b.position()));
    assert!(evaluate(w.position()) > 500);
}

#[test]
fn piece_values() {
    assert_eq!(piece_value(PieceKind::Pawn), 100);
    assert_eq!(piece_value(PieceKind::Knight), 300);
    assert_eq!(piece_value(PieceKind::Bishop), 330);
    assert_eq!(piece_value(PieceKind::Rook), 500);
    assert_eq!(piece_value(PieceKind::Queen), 900);
    assert_eq!(piece_value(PieceKind::King), 0);
}

#[test]
fn exchange_on_undefended_pawn() {
    let b = GameBoard::from_fen("4k3/8/8/3p4/4P3/8/8/4K3 w - - 0 1").unwrap();
    assert_eq!(see(b.position(), 35, PieceKind::Pawn, 28, PieceKind::Pawn), 100);
}

#[test]
fn exchange_on_defended_pawn() {
    // the queen takes on d5 and the c6 pawn recaptures; the first gain stands
    let b = GameBoard::from_fen("4k3/8/2p5/3p4/8/8/8/3QK3 w - - 0 1").unwrap();
    assert_eq!(see(b.position(), 35, PieceKind::Pawn, 3, PieceKind::Queen), 100);
}

#[test]
fn pawn_attack_sources() {
    assert_eq!(pawn_attacks_to(28, Color::White), (1u64 << 19) | (1u64 << 21));
    assert_eq!(pawn_attacks_to(28, Color::Black), (1u64 << 35) | (1u64 << 37));
    assert_eq!(pawn_attacks_to(24, Color::White), 1u64 << 17);
    assert_eq!(pawn_attacks_to(4, Color::White), 0);
}

#[test]
fn king_distances() {
    assert_eq!(distance(0, 63), 7);
    assert_eq!(distance(12, 28), 2);
    assert_eq!(distance(27, 27), 0);
}

#[test]
fn file_masks() {
    assert_eq!(file_mask(0), 0x0101_0101_0101_0101);
    assert_eq!(file_mask(7), 0x8080_8080_8080_8080);
}
