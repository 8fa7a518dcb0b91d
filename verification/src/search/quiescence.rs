//! Quiescence search: captures (or all evasions in check) until the
//! position is quiet, with stand-pat, delta pruning and exchange pruning.
use vstd::prelude::*;
use crate::bits::lemma_bit_ops;
use crate::board::{consistent, generated_move, spec_legal_moves, spec_make_move, spec_masked_moves, spec_status, BoardStatus, GameBoard, Move, Position};
use crate::evaluation::{evaluate_relative, spec_eval_relative, EVAL_BOUND};
use crate::evaluation::material::{lemma_occupied_colored, piece_value, spec_piece_value};
use crate::evaluation::see::{see, spec_see};
use crate::ordering::sort_by_capture_score;
use crate::search::{SearchStats, INF, MATE_SCORE};
use crate::engine::max_int;
use crate::search::negamax::{best_of, searched_in_order, ChildSearch};
use crate::search::root::lemma_best_of_ge;

verus! {

/// The smaller of two integers.
pub open spec fn min_int(a: int, b: int) -> int {
    if a <= b {
        a
    } else {
        b
    }
}

pub const DELTA_MARGIN: i32 = 200;

/// Plies beyond which the quiescence search stops and evaluates.
pub const MAX_QS_PLY: i32 = 100;

/// Plies the search may reach at all.
pub const PLY_LIMIT: i32 = 1_000_000;

/// The lower end of a quiescence node's result out of check: the window's
/// `alpha` raised to the static evaluation; in check, `alpha` alone.
pub open spec fn quiescence_floor(p: Position, alpha: i32) -> int {
    if p.checkers == 0 {
        max_int(alpha as int, spec_eval_relative(p))
    } else {
        alpha as int
    }
}

/// The captures a quiescence node out of check: the legal moves onto the
/// opponent's pieces.
pub open spec fn qs_captures(p: Position) -> Seq<Move> {
    spec_masked_moves(p, p.spec_color_bb(p.side_to_move.spec_opponent()))
}

/// Whether a capture must be searched when the node's lower bound is `a`:
/// a promotion or a move to an empty square always; otherwise when the
/// static evaluation plus the victim's value plus the delta margin (200)
/// exceeds `a`, and the attacker is worth no more than the victim or the
/// static exchange value of the capture is not negative.
pub open spec fn qs_must_search(p: Position, m: Move, a: int) -> bool {
    ||| m.promotion.is_some()
    ||| p.spec_piece_on(m.to as u64).is_none()
    ||| {
        let victim = p.spec_piece_on(m.to as u64).unwrap();
        let attacker = p.spec_piece_on(m.from as u64).unwrap();
        &&& spec_eval_relative(p) + spec_piece_value(victim) + 200 > a
        &&& (spec_piece_value(attacker) <= spec_piece_value(victim) || spec_see(p, m.to, victim, m.from, attacker) >= 0)
    }
}

/// Which captures a quiescence node must search: every promotion; a
/// capture that passes the delta test (evaluation + victim + 200 above the
/// bound) and does not lose material in the exchange (static exchange value
/// at least 0) whatever the attacker; and no capture by a more valuable
/// piece that loses material.  Raising the bound never adds a capture.
pub proof fn law_qs_capture_selection(p: Position, m: Move, a: int, b: int)
    ensures
        m.promotion.is_some() ==> qs_must_search(p, m, a),
        ({
            let victim = p.spec_piece_on(m.to as u64).unwrap();
            let attacker = p.spec_piece_on(m.from as u64).unwrap();
            &&& (p.spec_piece_on(m.to as u64).is_some() && spec_eval_relative(p) + spec_piece_value(victim) + 200 > a
                && spec_see(p, m.to, victim, m.from, attacker) >= 0 ==> qs_must_search(p, m, a))
            &&& (m.promotion.is_none() && p.spec_piece_on(m.to as u64).is_some() && spec_piece_value(attacker)
                > spec_piece_value(victim) && spec_see(p, m.to, victim, m.from, attacker) < 0 ==> !qs_must_search(p, m, a))
            &&& (m.promotion.is_none() && p.spec_piece_on(m.to as u64).is_some() && spec_eval_relative(p)
                + spec_piece_value(victim) + 200 <= a ==> !qs_must_search(p, m, a))
        }),
        a <= b && qs_must_search(p, m, b) ==> qs_must_search(p, m, a),
{
}

/// What a quiescence search of `p` within `(alpha, beta)` at `ply`, with
/// counters `s0` before and `s1` after, may return: a score within
/// `[-INF, INF]`; the evaluation once stopped or at the ply limit; the mate
/// or stalemate score; within the window for an ongoing position; and the
/// stand-pat bounds out of check.
pub open spec fn quiescence_post(p: Position, alpha: int, beta: int, ply: int, s0: SearchStats, s1: SearchStats, r: int) -> bool {
    &&& -INF <= r <= INF
    &&& (s0.stopped || ply >= MAX_QS_PLY) ==> r == spec_eval_relative(p)
    &&& !s0.stopped && ply < MAX_QS_PLY && (s0.countdown() > 1 || s0.deadline.is_none()) && spec_status(p)
        == BoardStatus::Checkmate ==> r == -MATE_SCORE + ply
    &&& !s0.stopped && ply < MAX_QS_PLY && (s0.countdown() > 1 || s0.deadline.is_none()) && spec_status(p)
        == BoardStatus::Stalemate ==> r == 0
    &&& !s1.stopped && spec_status(p) == BoardStatus::Ongoing && ply < MAX_QS_PLY ==> alpha <= r <= beta
    &&& !s1.stopped && spec_status(p) == BoardStatus::Ongoing && ply < MAX_QS_PLY && p.checkers == 0 ==> (
    spec_eval_relative(p) >= beta ==> r == beta) && (spec_eval_relative(p) < beta ==> r >= spec_eval_relative(p))
}

/// Searches captures from a position, within the window `(alpha, beta)`,
/// failing hard: a result at or above `beta` is `beta`.  Out of check the
/// side to move may stand pat: an evaluation at or above `beta` returns
/// `beta` at once, and otherwise the result is at least the evaluation.
#[verifier::rlimit(60)]
pub fn quiescence(board: &GameBoard, alpha: i32, beta: i32, ply: i32, stats: &mut SearchStats) -> (r: (i32, Ghost<Seq<int>>, Ghost<Seq<ChildSearch>>))
    requires
        consistent(board@),
        old(stats).wf(),
        -INF <= alpha < beta <= INF,
        0 <= ply <= PLY_LIMIT,
    ensures
        final(stats).wf(),
        final(stats).deadline == old(stats).deadline,
        final(stats).stopped ==> old(stats).stopped || old(stats).deadline.is_some(),
        old(stats).stopped ==> final(stats).stopped,
        -INF <= r.0 <= INF,
        (old(stats).stopped || ply >= MAX_QS_PLY) ==> r.0 == spec_eval_relative(board@),
        !old(stats).stopped && ply < MAX_QS_PLY && (old(stats).countdown() > 1 || old(stats).deadline.is_none()) && spec_status(board@)
            == BoardStatus::Checkmate ==> r.0 == -MATE_SCORE + ply,
        !old(stats).stopped && ply < MAX_QS_PLY && (old(stats).countdown() > 1 || old(stats).deadline.is_none()) && spec_status(board@)
            == BoardStatus::Stalemate ==> r.0 == 0,
        !final(stats).stopped && spec_status(board@) == BoardStatus::Ongoing && ply < MAX_QS_PLY ==> alpha <= r.0 <= beta,
        !final(stats).stopped && spec_status(board@) == BoardStatus::Ongoing && ply < MAX_QS_PLY && board@.checkers == 0
            ==> (spec_eval_relative(board@) >= beta ==> r.0 == beta) && (spec_eval_relative(board@) < beta ==> r.0 >= spec_eval_relative(board@)),
        !final(stats).stopped && spec_status(board@) == BoardStatus::Ongoing && ply < MAX_QS_PLY ==> {
            let lo = if board@.checkers == 0 { max_int(alpha as int, spec_eval_relative(board@)) } else { alpha as int };
            &&& forall|i: int| 0 <= i < r.1@.len() ==> -INF <= #[trigger] r.1@[i] <= INF
            &&& forall|i: int| 0 <= i < r.1@.len() - 1 ==> #[trigger] r.1@[i] < beta
            &&& r.0 == min_int(beta as int, max_int(lo, best_of(r.1@)))
            &&& board@.checkers != 0 ==> searched_in_order(r.1@, spec_legal_moves(board@).len() as int, beta as int)
        },
        quiescence_post(board@, alpha as int, beta as int, ply as int, *old(stats), *final(stats), r.0 as int),
        r.2@.len() == r.1@.len(),
        forall|i: int| 0 <= i < r.2@.len() ==> {
            let c = #[trigger] r.2@[i];
            &&& r.1@[i] == -(c.value as int)
            &&& spec_legal_moves(board@).contains(c.mv)
            &&& c.alpha == -beta
            &&& c.beta == -max_int(quiescence_floor(board@, alpha), best_of(r.1@.take(i)))
            &&& !c.before.stopped && !c.after.stopped && c.before.deadline == old(stats).deadline
            &&& quiescence_post(spec_make_move(board@, c.mv), c.alpha as int, c.beta as int, ply + 1, c.before, c.after, c.value as int)
        },
        !final(stats).stopped && spec_status(board@) == BoardStatus::Ongoing && ply < MAX_QS_PLY && board@.checkers == 0
            && r.0 < beta ==> forall|m: Move| #[trigger] qs_captures(board@).contains(m) && qs_must_search(board@, m, r.0 as int)
            ==> exists|k: int| 0 <= k < r.2@.len() && #[trigger] r.2@[k].mv == m && r.0 >= r.1@[k],
        board@.checkers == 0 ==> forall|k: int| 0 <= k < r.2@.len() ==> qs_captures(board@).contains(#[trigger] r.2@[k].mv)
            && qs_must_search(board@, r.2@[k].mv, -(r.2@[k].beta as int)),
    decreases MAX_QS_PLY - ply,
{
    stats.count_node();
    stats.check_time();
    if stats.stopped || ply >= MAX_QS_PLY {
        return (evaluate_relative(board.position()), Ghost(Seq::empty()), Ghost(Seq::empty()));
    }
    match board.status() {
        BoardStatus::Checkmate => {
            return (-MATE_SCORE + ply, Ghost(Seq::empty()), Ghost(Seq::empty()));
        },
        BoardStatus::Stalemate => {
            return (0, Ghost(Seq::empty()), Ghost(Seq::empty()));
        },
        BoardStatus::Ongoing => {},
    }
    let p = board.position();
    let in_check = p.checkers != 0;
    let mut a = alpha;
    let stand_pat: Option<i32> = if !in_check {
        let sp = evaluate_relative(p);
        if sp >= beta {
            return (beta, Ghost(Seq::empty()), Ghost(Seq::empty()));
        }
        if sp > a {
            a = sp;
        }
        Some(sp)
    } else {
        None
    };
    let moves: Vec<Move> = if in_check {
        board.legal_moves()
    } else {
        let targets = p.color_bb(p.side_to_move.opponent());
        board.masked_moves(targets)
    };
    let ghost generated = moves@;
    let moves = sort_by_capture_score(p, moves);
    let ghost alpha0 = a;
    let ghost mut scores: Seq<int> = Seq::empty();
    let ghost mut children: Seq<ChildSearch> = Seq::empty();
    let n = moves.len();
    let mut i: usize = 0;
    while i < n
        invariant
            n == moves@.len(),
            i <= n,
            consistent(board@),
            *p == board@,
            stats.wf(),
            stats.deadline == old(stats).deadline,
            stats.stopped ==> old(stats).stopped || old(stats).deadline.is_some(),
            !stats.stopped,
            0 <= ply < MAX_QS_PLY,
            -INF <= a < beta <= INF,
            -INF <= alpha < beta,
            alpha <= alpha0 <= a,
            !old(stats).stopped,
            a == max_int(alpha0 as int, best_of(scores)),
            alpha0 == (if board@.checkers == 0 { max_int(alpha as int, spec_eval_relative(board@)) } else { alpha as int }),
            forall|k: int| 0 <= k < scores.len() ==> -INF <= #[trigger] scores[k] <= INF && scores[k] < beta,
            board@.checkers != 0 ==> scores.len() == i,
            children.len() == scores.len(),
            forall|k: int| 0 <= k < children.len() ==> {
                let c = #[trigger] children[k];
                &&& scores[k] == -(c.value as int)
                &&& spec_legal_moves(board@).contains(c.mv)
                &&& c.alpha == -beta
                &&& c.beta == -max_int(alpha0 as int, best_of(scores.take(k)))
                &&& !c.before.stopped && !c.after.stopped && c.before.deadline == old(stats).deadline
                &&& quiescence_post(spec_make_move(board@, c.mv), c.alpha as int, c.beta as int, ply + 1, c.before, c.after, c.value as int)
            },
            board@.checkers != 0 ==> n == spec_legal_moves(board@).len(),
            n == moves@.len(),
            stand_pat matches Some(sp) ==> -EVAL_BOUND <= sp <= EVAL_BOUND,
            stand_pat matches Some(sp) ==> sp == spec_eval_relative(board@) && sp <= a,
            stand_pat.is_none() <==> board@.checkers != 0,
            forall|k: int| 0 <= k < n ==> generated.contains(#[trigger] moves@[k]),
            forall|k: int| 0 <= k < generated.len() ==> generated_move(board@, #[trigger] generated[k]),
            forall|k: int| 0 <= k < generated.len() ==> spec_legal_moves(board@).contains(#[trigger] generated[k]),
            board@.checkers == 0 ==> generated == qs_captures(board@),
            moves@.to_multiset() == generated.to_multiset(),
            forall|k: int| 0 <= k < i && qs_must_search(board@, #[trigger] moves@[k], a as int) ==> exists|j: int|
                0 <= j < children.len() && #[trigger] children[j].mv == moves@[k],
            board@.checkers == 0 ==> forall|k: int| 0 <= k < children.len() ==> qs_captures(board@).contains(#[trigger] children[k].mv)
                && qs_must_search(board@, children[k].mv, -(children[k].beta as int)),
        decreases n - i,
    {
        let m = moves[i];
        i = i + 1;
        proof {
            let k = choose|k: int| 0 <= k < generated.len() && generated[k] == m;
            assert(generated_move(board@, generated[k]));
            assert(spec_legal_moves(board@).contains(generated[k]));
        }
        if let Some(sp) = stand_pat {
            if m.promotion.is_none() {
                if let Some(victim) = p.piece_on(m.to as u64) {
                    let optimistic = sp + piece_value(victim) + DELTA_MARGIN;
                    if optimistic <= a {
                        proof {
                            assert(moves@[i - 1] == m);
                            assert(!qs_must_search(board@, m, a as int));
                        }
                        continue;
                    }
                    proof {
                        lemma_bit_ops(p.white, p.black, m.from as u64);
                    }
                    let attacker = p.piece_on(m.from as u64).unwrap();
                    let skip_see = piece_value(attacker) <= piece_value(victim);
                    if !skip_see {
                        proof {
                            lemma_bit_ops(p.white, p.black, m.from as u64);
                        }
                        if see(p, m.to, victim, m.from, attacker) < 0 {
                            proof {
                                assert(moves@[i - 1] == m);
                                assert(!qs_must_search(board@, m, a as int));
                            }
                            continue;
                        }
                    }
                }
            }
        }
        proof {
            if board@.checkers == 0 {
                assert(generated.contains(moves@[i - 1]));
                assert(qs_must_search(board@, m, a as int));
            }
        }
        let next = board.make_move(m);
        let ghost before = *stats;
        let child_alpha: i32 = -beta;
        let child_beta: i32 = -a;
        let (child, _child_scores, _grandchildren) = quiescence(&next, child_alpha, child_beta, ply + 1, stats);
        let score = -child;
        if stats.stopped {
            return (0, Ghost(Seq::empty()), Ghost(Seq::empty()));
        }
        let ghost prev = scores;
        let ghost prev_children = children;
        proof {
            let rec = ChildSearch {
                mv: m,
                depth: 0,
                alpha: child_alpha,
                beta: child_beta,
                before: before,
                after: *stats,
                value: child,
            };
            scores = scores.push(score as int);
            children = children.push(rec);
            assert(scores.drop_last() == prev);
            assert(best_of(scores) == max_int(best_of(prev), score as int));
            assert(scores.take(prev.len() as int) =~= prev);
            assert forall|k: int| 0 <= k < children.len() implies {
                let c = #[trigger] children[k];
                &&& scores[k] == -(c.value as int)
                &&& spec_legal_moves(board@).contains(c.mv)
                &&& c.alpha == -beta
                &&& c.beta == -max_int(alpha0 as int, best_of(scores.take(k)))
                &&& !c.before.stopped && !c.after.stopped && c.before.deadline == old(stats).deadline
                &&& quiescence_post(spec_make_move(board@, c.mv), c.alpha as int, c.beta as int, ply + 1, c.before, c.after, c.value as int)
            } by {
                if k < prev.len() {
                    assert(children[k] == prev_children[k]);
                    assert(scores[k] == prev[k]);
                    assert(scores.take(k) =~= prev.take(k));
                }
            }
            assert forall|k: int| board@.checkers == 0 && 0 <= k < children.len() implies qs_captures(board@).contains(
                #[trigger] children[k].mv) && qs_must_search(board@, children[k].mv, -(children[k].beta as int)) by {
                if k < prev.len() {
                    assert(children[k] == prev_children[k]);
                }
            }
        }
        if score >= beta {
            proof {
                lemma_best_of_ge(scores);
                let last = scores.len() - 1;
                assert(scores[last] == score);
                assert(best_of(scores) >= beta);
                assert forall|k: int| 0 <= k < scores.len() - 1 implies #[trigger] scores[k] < beta by {
                    assert(scores[k] == prev[k]);
                }
                assert forall|k: int| 0 <= k < scores.len() implies -INF <= #[trigger] scores[k] <= INF by {
                    if k < last {
                        assert(scores[k] == prev[k]);
                    }
                }
            }
            return (beta, Ghost(scores), Ghost(children));
        }
        let ghost a_before = a;
        if score > a {
            a = score;
        }
        proof {
            assert(children[children.len() - 1].mv == m);
            assert(moves@[i - 1] == m);
            assert forall|k: int| 0 <= k < i && qs_must_search(board@, #[trigger] moves@[k], a as int) implies exists|j: int|
                0 <= j < children.len() && #[trigger] children[j].mv == moves@[k] by {
                if k < i - 1 {
                    assert(qs_must_search(board@, moves@[k], a_before as int));
                    let j = choose|j: int| 0 <= j < prev_children.len() && #[trigger] prev_children[j].mv == moves@[k];
                    assert(children[j] == prev_children[j]);
                } else {
                    assert(children[children.len() - 1].mv == moves@[k]);
                }
            }
        }
    }
    proof {
        if board@.checkers == 0 {
            lemma_best_of_ge(scores);
            assert forall|m: Move| #[trigger] qs_captures(board@).contains(m) && qs_must_search(board@, m, a as int)
                implies exists|k: int| 0 <= k < children.len() && #[trigger] children[k].mv == m && a >= scores[k] by {
                vstd::seq_lib::to_multiset_contains(generated, m);
                vstd::seq_lib::to_multiset_contains(moves@, m);
                let x = choose|x: int| 0 <= x < moves@.len() && moves@[x] == m;
                assert(qs_must_search(board@, moves@[x], a as int));
                let j = choose|j: int| 0 <= j < children.len() && #[trigger] children[j].mv == moves@[x];
                assert(scores[j] <= best_of(scores));
            }
        }
    }
    (a, Ghost(scores), Ghost(children))
}

} // verus!
