//! The root of the search: the principal-variation loop over the root
//! moves, aspiration windows, and iterative deepening.
use vstd::prelude::*;
use std::time::Duration;
use crate::board::{consistent, generated_move, spec_legal_moves, spec_make_move, GameBoard, Move, Position};
use crate::ordering::ordered_legal_moves;
use crate::search::history::GameHistory;
use crate::search::negamax::{
    best_of, explains, history_room, lemma_occurrences_le_len, negamax, negamax_measure, negamax_post, searched_in_order,
    ChildSearch,
};
use crate::engine::max_int;
use crate::search::transposition::{score_to_tt, Bound};
use crate::search::{Searcher, SearchResult, SearchStats, ASPIRATION_WINDOW, INF, MATE_SCORE, MATE_THRESHOLD, MAX_SEARCH_DEPTH};
use crate::time::{duration_from_millis, duration_lt, SearchDeadline};

verus! {

/// `i32::saturating_add`.
pub open spec fn spec_sat_add(a: int, b: int) -> int {
    if a + b > i32::MAX {
        i32::MAX as int
    } else if a + b < i32::MIN {
        i32::MIN as int
    } else {
        a + b
    }
}

/// Adds, clamping to the `i32` range.
pub fn sat_add(a: i32, b: i32) -> (r: i32)
    ensures
        r == spec_sat_add(a as int, b as int),
{
    let s: i64 = a as i64 + b as i64;
    if s > i32::MAX as i64 {
        i32::MAX
    } else if s < i32::MIN as i64 {
        i32::MIN
    } else {
        s as i32
    }
}

/// Subtracts, clamping to the `i32` range.
pub fn sat_sub(a: i32, b: i32) -> (r: i32)
    ensures
        r == spec_sat_add(a as int, -(b as int)),
{
    let s: i64 = a as i64 - b as i64;
    if s > i32::MAX as i64 {
        i32::MAX
    } else if s < i32::MIN as i64 {
        i32::MIN
    } else {
        s as i32
    }
}

/// Doubles a positive window, clamping to `i32::MAX`.
pub fn sat_double(w: i32) -> (r: i32)
    requires
        w > 0,
    ensures
        r == spec_sat_add(w as int, w as int),
        r >= w,
        r == w ==> w == i32::MAX,
{
    let s: i64 = w as i64 * 2;
    if s > i32::MAX as i64 {
        i32::MAX
    } else {
        s as i32
    }
}

/// Room in the history for a root search of `depth`.
pub open spec fn root_room(history: Seq<u64>, depth: u32) -> bool {
    history.len() + negamax_measure(depth, 1) + 3 <= u32::MAX
}

/// `m` is the first of the `searched` moves whose score is `v`: every
/// earlier move scored below it.
pub open spec fn first_attaining(searched: Seq<Move>, scores: Seq<int>, m: Move, v: int) -> bool {
    exists|j: int|
        0 <= j < searched.len() && searched[j] == m && scores[j] == v && forall|i: int|
            0 <= i < j ==> #[trigger] scores[i] < v
}

/// No score exceeds the best of them.
pub proof fn lemma_best_of_ge(s: Seq<int>)
    ensures
        forall|i: int| 0 <= i < s.len() ==> #[trigger] s[i] <= best_of(s),
    decreases s.len(),
{
    if s.len() > 0 {
        lemma_best_of_ge(s.drop_last());
        assert forall|i: int| 0 <= i < s.len() implies #[trigger] s[i] <= best_of(s) by {
            if i < s.len() - 1 {
                assert(s.drop_last()[i] == s[i]);
            }
        }
    }
}

/// Recording one more root move's score keeps the best score the best of
/// the scores, and the best move the first to reach it.
pub proof fn lemma_record_score(
    searched: Seq<Move>,
    scores: Seq<int>,
    best: Option<Move>,
    best_score: int,
    m: Move,
    score: int,
)
    requires
        searched.len() == scores.len(),
        best.is_none() <==> scores.len() == 0,
        scores.len() == 0 ==> best_score == -INF,
        scores.len() > 0 ==> best_score == best_of(scores),
        best matches Some(bm) ==> first_attaining(searched, scores, bm, best_score),
        -INF <= score,
    ensures
        ({
            let (nb, ns) = if score > best_score || best.is_none() { (m, score) } else { (best.unwrap(), best_score) };
            &&& best_of(scores.push(score)) == ns
            &&& first_attaining(searched.push(m), scores.push(score), nb, ns)
        }),
{
    lemma_best_of_ge(scores);
    let s2 = scores.push(score);
    let t2 = searched.push(m);
    assert(s2.drop_last() == scores);
    assert(best_of(s2) == max_int(best_of(scores), score));
    if score > best_score || best.is_none() {
        let j = scores.len() as int;
        assert(t2[j] == m && s2[j] == score);
        assert forall|i: int| 0 <= i < j implies #[trigger] s2[i] < score by {
            assert(s2[i] == scores[i]);
        }
    } else {
        let bm = best.unwrap();
        let j = choose|j: int|
            0 <= j < searched.len() && searched[j] == bm && scores[j] == best_score && forall|i: int|
                0 <= i < j ==> #[trigger] scores[i] < best_score;
        assert(t2[j] == bm && s2[j] == best_score);
        assert forall|i: int| 0 <= i < j implies #[trigger] s2[i] < best_score by {
            assert(s2[i] == scores[i]);
        }
    }
}

/// The depth the root searches each move to.
pub open spec fn child_depth(depth: u32) -> u32 {
    if depth >= 1 {
        (depth - 1) as u32
    } else {
        0
    }
}

impl Searcher {
    /// Searches every root move within `(alpha_init, beta)`: the first with
    /// the full window, the others with a null window and a re-search when
    /// they beat `alpha`.  Returns the best move and its score; stores the
    /// result in the table unless time ran out.
    pub fn search_root_window(
        &mut self,
        board: &GameBoard,
        depth: u32,
        history: &mut GameHistory,
        stats: &mut SearchStats,
        alpha_init: i32,
        beta: i32,
    ) -> (r: (Option<Move>, i32, Ghost<Seq<Move>>, Ghost<Seq<int>>, Ghost<Seq<ChildSearch>>))
        requires
            old(self).wf(),
            consistent(board@),
            old(stats).wf(),
            old(history).wf(),
            -INF <= alpha_init < beta <= INF,
            depth <= MAX_SEARCH_DEPTH,
            root_room(old(history)@, depth),
        ensures
            final(self).wf(),
            final(self).spec_hash_mb() == old(self).spec_hash_mb(),
            final(stats).wf(),
            final(stats).deadline == old(stats).deadline,
            final(stats).stopped ==> old(stats).stopped || old(stats).deadline.is_some(),
            old(stats).stopped ==> final(stats).stopped,
            final(history).wf(),
            final(history)@ == old(history)@,
            -INF <= r.1 <= INF,
            r.0 matches Some(m) ==> spec_legal_moves(board@).contains(m),
            !final(stats).stopped && spec_legal_moves(board@).len() > 0 ==> r.0.is_some(),
            r.0.is_none() ==> r.1 == -INF,
            spec_legal_moves(board@).len() == 0 ==> r.0.is_none() && r.1 == -INF,
            r.2@.len() == r.3@.len(),
            forall|i: int| 0 <= i < r.2@.len() ==> spec_legal_moves(board@).contains(#[trigger] r.2@[i]),
            !final(stats).stopped && spec_legal_moves(board@).len() > 0 ==> {
                &&& searched_in_order(r.3@, spec_legal_moves(board@).len() as int, beta as int)
                &&& r.1 == best_of(r.3@)
                &&& r.0 matches Some(m) && first_attaining(r.2@, r.3@, m, r.1 as int)
            },
            explains(board@, r.3@, r.4@, child_depth(depth), alpha_init as int, beta as int, 0, old(history)@, old(stats).deadline),
            forall|i: int| 0 <= i < r.2@.len() ==> #[trigger] r.2@[i] == r.4@[i].mv,
            forall|i: int| 0 <= i < r.4@.len() ==> #[trigger] r.4@[i].depth == child_depth(depth),
    {
        let mut alpha = alpha_init;
        let ghost mut searched: Seq<Move> = Seq::empty();
        let ghost mut scores: Seq<int> = Seq::empty();
        let ghost mut children: Seq<ChildSearch> = Seq::empty();
        let mut best_move: Option<Move> = None;
        let mut best_score: i32 = -INF;
        let p = board.position();
        let hash = p.hash;
        let tt_move: Option<Move> = match self.table().probe(hash) {
            Some(entry) => entry.best_move(),
            None => None,
        };
        let side_to_move = p.side_to_move;
        let killers_here = self.killers_at(0);
        let moves = ordered_legal_moves(board, tt_move, killers_here, self.history_table(), side_to_move);
        let child_depth: u32 = if depth >= 1 { depth - 1 } else { 0 };
        assert(child_depth == self::child_depth(depth));
        let n = moves.len();
        let mut move_index: usize = 0;
        while move_index < n
            invariant_except_break
                -INF <= alpha < beta,
                move_index > 0 ==> best_move.is_some(),
                scores.len() == move_index,
                forall|i: int| 0 <= i < scores.len() ==> #[trigger] scores[i] < beta,
            invariant
                searched.len() == scores.len(),
                scores.len() <= move_index,
                forall|i: int| 0 <= i < searched.len() ==> spec_legal_moves(board@).contains(#[trigger] searched[i]),
                forall|i: int| 0 <= i < scores.len() ==> -INF <= #[trigger] scores[i] <= INF,
                best_move.is_none() <==> scores.len() == 0,
                scores.len() > 0 ==> best_score == best_of(scores),
                alpha == max_int(alpha_init as int, best_score as int) || scores.len() == 0 && alpha == alpha_init,
                best_move matches Some(bm) ==> first_attaining(searched, scores, bm, best_score as int),
                n == moves@.len(),
                move_index <= n,
                self.wf(),
                self.spec_hash_mb() == old(self).spec_hash_mb(),
                consistent(board@),
                *p == board@,
                stats.wf(),
                stats.deadline == old(stats).deadline,
                stats.stopped ==> old(stats).stopped || old(stats).deadline.is_some(),
                old(stats).stopped ==> stats.stopped,
                history.wf(),
                history@ == old(history)@,
                -INF <= alpha_init < beta <= INF,
                alpha_init <= alpha <= INF,
                -INF <= best_score <= INF,
                child_depth <= MAX_SEARCH_DEPTH,
                root_room(old(history)@, depth),
                child_depth <= depth,
                moves@.to_multiset() == spec_legal_moves(board@).to_multiset(),
                moves@.len() == spec_legal_moves(board@).len(),
                forall|k: int| 0 <= k < n ==> generated_move(board@, #[trigger] moves@[k]),
                best_move matches Some(bm) ==> spec_legal_moves(board@).contains(bm),
                best_move.is_none() ==> best_score == -INF,
                explains(board@, scores, children, self::child_depth(depth), alpha_init as int, beta as int, 0, old(history)@, old(stats).deadline),
                forall|i: int| 0 <= i < searched.len() ==> #[trigger] searched[i] == children[i].mv,
                forall|i: int| 0 <= i < children.len() ==> #[trigger] children[i].depth == self::child_depth(depth),
                child_depth == self::child_depth(depth),
            ensures
                self.wf(),
                self.spec_hash_mb() == old(self).spec_hash_mb(),
                stats.wf(),
                stats.deadline == old(stats).deadline,
                stats.stopped ==> old(stats).stopped || old(stats).deadline.is_some(),
                old(stats).stopped ==> stats.stopped,
                history.wf(),
                history@ == old(history)@,
                -INF <= best_score <= INF,
                best_move matches Some(bm) ==> spec_legal_moves(board@).contains(bm),
                best_move.is_none() ==> best_score == -INF,
                !stats.stopped && n > 0 ==> best_move.is_some(),
                searched.len() == scores.len(),
                forall|i: int| 0 <= i < searched.len() ==> spec_legal_moves(board@).contains(#[trigger] searched[i]),
                !stats.stopped && n > 0 ==> searched_in_order(scores, n as int, beta as int) && best_score == best_of(
                    scores,
                ),
                best_move matches Some(bm) ==> first_attaining(searched, scores, bm, best_score as int),
                explains(board@, scores, children, self::child_depth(depth), alpha_init as int, beta as int, 0, old(history)@, old(stats).deadline),
                forall|i: int| 0 <= i < searched.len() ==> #[trigger] searched[i] == children[i].mv,
                forall|i: int| 0 <= i < children.len() ==> #[trigger] children[i].depth == self::child_depth(depth),
                child_depth == self::child_depth(depth),
            decreases n - move_index,
        {
            let m = moves[move_index];
            proof {
                vstd::seq_lib::to_multiset_contains(moves@, m);
                vstd::seq_lib::to_multiset_contains(spec_legal_moves(board@), m);
                assert(moves@[move_index as int] == m);
                assert(spec_legal_moves(board@).contains(m));
            }
            let next = board.make_move(m);
            proof {
                lemma_occurrences_le_len(history@, next@.hash);
            }
            history.push(next.position().hash);
            let child_hi: i32 = -alpha;
            let full_lo: i32 = -beta;
            let null_lo: i32 = -alpha - 1;
            let ghost mut rec: ChildSearch = arbitrary();
            let score = if move_index == 0 {
                let ghost before = *stats;
                let c = negamax(self, &next, child_depth, full_lo, child_hi, 1, stats, history);
                proof {
                    rec = ChildSearch { mv: m, depth: child_depth, alpha: full_lo, beta: child_hi, before, after: *stats, value: c };
                }
                -c
            } else {
                let ghost before = *stats;
                let c = negamax(self, &next, child_depth, null_lo, child_hi, 1, stats, history);
                proof {
                    rec = ChildSearch { mv: m, depth: child_depth, alpha: null_lo, beta: child_hi, before, after: *stats, value: c };
                }
                let mut s = -c;
                if s > alpha && s < beta {
                    let ghost before2 = *stats;
                    let c2 = negamax(self, &next, child_depth, full_lo, child_hi, 1, stats, history);
                    proof {
                        rec = ChildSearch { mv: m, depth: child_depth, alpha: full_lo, beta: child_hi, before: before2, after: *stats, value: c2 };
                    }
                    s = -c2;
                }
                s
            };
            history.pop();
            proof {
                assert(history@ == old(history)@);
            }
            if stats.stopped {
                break;
            }
            let ghost prev = scores;
            let ghost prev_searched = searched;
            let ghost prev_best = best_move;
            let ghost prev_score = best_score;
            if score > best_score || best_move.is_none() {
                best_score = score;
                best_move = Some(m);
            }
            if best_score > alpha {
                alpha = best_score;
            }
            let ghost prev_children = children;
            proof {
                lemma_record_score(prev_searched, prev, prev_best, prev_score as int, m, score as int);
                searched = searched.push(m);
                scores = scores.push(score as int);
                children = children.push(rec);
                assert(scores.take(prev.len() as int) =~= prev);
                assert forall|k: int| 0 <= k < children.len() implies {
                    let c = #[trigger] children[k];
                    let q = spec_make_move(board@, c.mv);
                    &&& scores[k] == -(c.value as int)
                    &&& spec_legal_moves(board@).contains(c.mv)
                    &&& c.beta == -max_int(alpha_init as int, best_of(scores.take(k)))
                    &&& (c.alpha == -beta || c.alpha == c.beta - 1)
                    &&& c.depth <= self::child_depth(depth)
                    &&& !c.before.stopped && !c.after.stopped && c.before.deadline == old(stats).deadline
                    &&& negamax_post(q, c.depth, c.alpha as int, c.beta as int, 1int, c.before, c.after, old(history)@.push(q.hash), c.value as int)
                } by {
                    if k < prev.len() {
                        assert(children[k] == prev_children[k]);
                        assert(scores[k] == prev[k]);
                        assert(scores.take(k) =~= prev.take(k));
                    }
                }
                assert forall|i: int| 0 <= i < searched.len() implies #[trigger] searched[i] == children[i].mv by {
                    if i < prev.len() {
                        assert(searched[i] == prev_searched[i]);
                        assert(children[i] == prev_children[i]);
                    }
                }
                assert forall|i: int| 0 <= i < children.len() implies #[trigger] children[i].depth == self::child_depth(depth) by {
                    if i < prev.len() {
                        assert(children[i] == prev_children[i]);
                    }
                }
            }
            move_index = move_index + 1;
            if alpha >= beta {
                break;
            }
        }
        if !stats.stopped {
            let stored = score_to_tt(best_score, 0);
            self.table().store(hash, depth, stored, Bound::Exact, best_move);
        }
        (best_move, best_score, Ghost(searched), Ghost(scores), Ghost(children))
    }

    /// Searches the root at `depth`, first within an aspiration window
    /// around the previous score (unless that was a mate score), widening the
    /// failing side and doubling the window until the score falls inside;
    /// it searches at most 31 windows.
    pub fn search_root(
        &mut self,
        board: &GameBoard,
        depth: u32,
        history: &mut GameHistory,
        stats: &mut SearchStats,
        aspiration: Option<i32>,
    ) -> (r: (Option<Move>, i32, Ghost<(int, int, Seq<Move>, Seq<int>, Seq<ChildSearch>)>, Ghost<nat>))
        requires
            old(self).wf(),
            consistent(board@),
            old(stats).wf(),
            old(history).wf(),
            depth <= MAX_SEARCH_DEPTH,
            root_room(old(history)@, depth),
            aspiration matches Some(prev) ==> -INF <= prev <= INF,
        ensures
            final(self).wf(),
            final(self).spec_hash_mb() == old(self).spec_hash_mb(),
            final(stats).wf(),
            final(stats).deadline == old(stats).deadline,
            final(stats).stopped ==> old(stats).stopped || old(stats).deadline.is_some(),
            old(stats).stopped ==> final(stats).stopped,
            final(history).wf(),
            final(history)@ == old(history)@,
            -INF <= r.1 <= INF,
            r.0 matches Some(m) ==> spec_legal_moves(board@).contains(m),
            !final(stats).stopped && spec_legal_moves(board@).len() > 0 ==> r.0.is_some(),
            !final(stats).stopped ==> root_trace_ok(board@, depth, old(history)@, old(stats).deadline, r.0, r.1 as int, r.2@),
            1 <= r.3@ <= 31,
    {
        let mut window: i32 = ASPIRATION_WINDOW;
        let (mut alpha, mut beta): (i32, i32) = match aspiration {
            Some(prev) => {
                let abs_prev: i32 = if prev < 0 { -prev } else { prev };
                if abs_prev < MATE_THRESHOLD {
                    let lo = sat_sub(prev, window);
                    let hi = sat_add(prev, window);
                    (if lo > -INF { lo } else { -INF }, if hi < INF { hi } else { INF })
                } else {
                    (-INF, INF)
                }
            },
            None => (-INF, INF),
        };
        let ghost mut count: nat = 0;
        assert(pow2_int(0) == 1);
        loop
            invariant
                self.wf(),
                self.spec_hash_mb() == old(self).spec_hash_mb(),
                consistent(board@),
                stats.wf(),
                stats.deadline == old(stats).deadline,
                stats.stopped ==> old(stats).stopped || old(stats).deadline.is_some(),
                old(stats).stopped ==> stats.stopped,
                history.wf(),
                history@ == old(history)@,
                depth <= MAX_SEARCH_DEPTH,
                root_room(old(history)@, depth),
                -INF <= alpha < beta <= INF,
                window > 0,
                window < i32::MAX ==> window >= 25 * pow2_int(count),
                window == i32::MAX ==> count + (if alpha > -INF { 2int } else { 0int }) + (if beta < INF { 1int } else { 0int }) <= 30,
            decreases i32::MAX - window, (if alpha > -INF { 1int } else { 0int }), (if beta < INF { 1int } else { 0int }),
        {
            let (best_move, best_score, searched, scores, children) = self.search_root_window(board, depth, history, stats, alpha, beta);
            let ghost trace = (alpha as int, beta as int, searched@, scores@, children@);
            proof {
                if window < i32::MAX {
                    lemma_window_count(window as int, count);
                }
            }
            if stats.stopped {
                return (best_move, best_score, Ghost(trace), Ghost(count + 1));
            }
            let ghost old_window = window;
            if best_score <= alpha && alpha > -INF {
                let mid: i64 = (alpha as i64 + beta as i64) / 2;
                beta = mid as i32;
                window = sat_double(window);
                let lo = sat_sub(best_score, window);
                alpha = if lo > -INF { lo } else { -INF };
                proof {
                    count = count + 1;
                    if window < i32::MAX {
                        assert(pow2_int(count) == 2 * pow2_int((count - 1) as nat));
                    }
                }
                continue;
            }
            if best_score >= beta && beta < INF {
                window = sat_double(window);
                let hi = sat_add(best_score, window);
                beta = if hi < INF { hi } else { INF };
                proof {
                    count = count + 1;
                    if window < i32::MAX {
                        assert(pow2_int(count) == 2 * pow2_int((count - 1) as nat));
                    }
                }
                continue;
            }
            return (best_move, best_score, Ghost(trace), Ghost(count + 1));
        }
    }
}

/// What a root search at `depth` that did not stop returns, with the trace
/// `(lo, hi, searched, scores, children)` of its last window: the score lies
/// strictly inside `(lo, hi)` (or at an open end); with legal moves, the
/// moves were searched in order, the score is the best of their scores and
/// the move is the first to reach it; and every score is the negated value of
/// the recorded child search of that move (`explains`).
pub open spec fn root_trace_ok(
    p: Position,
    depth: u32,
    h: Seq<u64>,
    deadline: Option<SearchDeadline>,
    best: Option<Move>,
    score: int,
    t: (int, int, Seq<Move>, Seq<int>, Seq<ChildSearch>),
) -> bool {
    let (lo, hi, searched, scores, children) = t;
    &&& -INF <= lo < hi <= INF
    &&& score > lo || lo == -INF
    &&& score < hi || hi == INF
    &&& spec_legal_moves(p).len() > 0 ==> searched_in_order(scores, spec_legal_moves(p).len() as int, hi) && score
        == best_of(scores) && (best matches Some(m) && first_attaining(searched, scores, m, score))
    &&& explains(p, scores, children, child_depth(depth), lo, hi, 0, h, deadline)
    &&& forall|i: int| 0 <= i < searched.len() ==> #[trigger] searched[i] == children[i].mv
    &&& forall|i: int| 0 <= i < children.len() ==> #[trigger] children[i].depth == child_depth(depth)
}

/// Every root move that a completed root search at `depth` records was
/// searched exactly one ply shallower (at depth 0 when `depth` is 0), never
/// less deep.
pub proof fn law_root_moves_searched_one_ply_shallower(
    p: Position,
    depth: u32,
    h: Seq<u64>,
    deadline: Option<SearchDeadline>,
    best: Option<Move>,
    score: int,
    t: (int, int, Seq<Move>, Seq<int>, Seq<ChildSearch>),
)
    requires
        root_trace_ok(p, depth, h, deadline, best, score, t),
    ensures
        forall|i: int| 0 <= i < t.4.len() ==> (depth >= 1 ==> #[trigger] t.4[i].depth == depth - 1) && (depth == 0 ==> t.4[i].depth == 0),
{
}

/// Two to the power `k`.
pub open spec fn pow2_int(k: nat) -> int
    decreases k,
{
    if k == 0 {
        1
    } else {
        2 * pow2_int((k - 1) as nat)
    }
}

/// A window that has doubled `count` times from 25 and is still below
/// `i32::MAX` has doubled at most 26 times.
proof fn lemma_window_count(window: int, count: nat)
    requires
        window < i32::MAX,
        window >= 25 * pow2_int(count),
    ensures
        count <= 26,
{
    if count > 26 {
        lemma_pow2_mono(27, count);
        assert(pow2_int(27) == 134217728) by {
            reveal_with_fuel(pow2_int, 28);
        }
    }
}

/// Powers of two grow with the exponent.
proof fn lemma_pow2_mono(a: nat, b: nat)
    requires
        a <= b,
    ensures
        1 <= pow2_int(a) <= pow2_int(b),
    decreases b,
{
    if b > 0 {
        if a < b {
            lemma_pow2_mono(a, (b - 1) as nat);
        } else {
            lemma_pow2_mono(0, (b - 1) as nat);
        }
    }
}

/// What a completed iteration reports: its depth, score and the nodes
/// searched so far.
#[derive(Clone, Copy)]
pub struct DepthReport {
    pub depth: u32,
    pub score: i32,
    pub nodes: u64,
    pub best_move: Option<Move>,
    pub root: Ghost<(int, int, Seq<Move>, Seq<int>, Seq<ChildSearch>)>,
}

/// The state of an iterative-deepening search between iterations.
#[derive(Clone, Copy)]
pub struct IterativeSearch {
    pub best_move: Option<Move>,
    pub best_score: i32,
    pub depth_reached: u32,
    pub total_nodes: u64,
    pub total_tt_hits: u64,
    pub total_tt_cutoffs: u64,
    pub next_depth: u32,
    pub last_depth: u32,
    pub finished: bool,
    pub last_root: Ghost<(int, int, Seq<Move>, Seq<int>, Seq<ChildSearch>)>,
}

/// Stops once the deadline is this close.
pub const MIN_REMAINING_MS: u64 = 50;

/// Scores above this end the deepening: a mate has been found.
pub const MATE_FOUND: i32 = MATE_SCORE - 10000;

impl IterativeSearch {
    /// The state's shape: depths from 1 up to the last, within the search limit.
    pub open spec fn wf(&self) -> bool {
        &&& 1 <= self.next_depth <= self.last_depth + 1
        &&& 1 <= self.last_depth <= MAX_SEARCH_DEPTH
        &&& self.depth_reached <= self.next_depth
        &&& self.depth_reached <= self.last_depth
        &&& -INF <= self.best_score <= INF
        &&& (self.best_move.is_some() <==> self.depth_reached >= 1)
        &&& !self.finished ==> self.depth_reached < self.next_depth
    }

    /// The result so far.
    pub fn result(&self) -> (r: SearchResult)
        ensures
            r.best_move == self.best_move,
            r.score == self.best_score,
            r.depth_reached == self.depth_reached,
            r.nodes == self.total_nodes,
            r.tt_hits == self.total_tt_hits,
            r.tt_cutoffs == self.total_tt_cutoffs,
    {
        SearchResult {
            best_move: self.best_move,
            score: self.best_score,
            depth_reached: self.depth_reached,
            nodes: self.total_nodes,
            tt_hits: self.total_tt_hits,
            tt_cutoffs: self.total_tt_cutoffs,
        }
    }
}

impl Searcher {
    /// Starts an iterative search to `max_depth` (at least 1): killers and
    /// history are reset, nothing found yet.
    pub fn begin_iterative(&mut self, max_depth: u32) -> (r: IterativeSearch)
        requires
            old(self).wf(),
            max_depth <= MAX_SEARCH_DEPTH,
        ensures
            final(self).wf(),
            final(self).spec_hash_mb() == old(self).spec_hash_mb(),
            r.wf(),
            r.best_move.is_none(),
            r.best_score == 0,
            r.depth_reached == 0,
            r.total_nodes == 0 && r.total_tt_hits == 0 && r.total_tt_cutoffs == 0,
            r.next_depth == 1,
            r.last_depth == if max_depth < 1 { 1 } else { max_depth },
            !r.finished,
    {
        self.reset_heuristics_pub();
        IterativeSearch {
            best_move: None,
            best_score: 0,
            depth_reached: 0,
            total_nodes: 0,
            total_tt_hits: 0,
            total_tt_cutoffs: 0,
            next_depth: 1,
            last_depth: if max_depth < 1 { 1 } else { max_depth },
            finished: false,
            last_root: Ghost(arbitrary()),
        }
    }

    /// Runs the next iteration.  Returns its report when it completed and the
    /// deepening goes on; `None` (and the search finished) when the depths
    /// are exhausted, the deadline is less than 50 ms away (from the second
    /// iteration on), time ran out during the iteration, or a mate was found.
    pub fn iterate(
        &mut self,
        board: &GameBoard,
        history: &mut GameHistory,
        deadline: Option<SearchDeadline>,
        it: &mut IterativeSearch,
    ) -> (r: Option<DepthReport>)
        requires
            old(self).wf(),
            consistent(board@),
            old(history).wf(),
            old(it).wf(),
            root_room(old(history)@, old(it).last_depth),
        ensures
            final(self).wf(),
            final(self).spec_hash_mb() == old(self).spec_hash_mb(),
            final(history).wf(),
            final(history)@ == old(history)@,
            final(it).wf(),
            final(it).last_depth == old(it).last_depth,
            old(it).finished ==> *final(it) == *old(it) && r.is_none(),
            r.is_none() ==> final(it).finished,
            r matches Some(rep) ==> rep.depth == old(it).next_depth && final(it).next_depth == old(it).next_depth + 1
                && !final(it).finished && rep.nodes == final(it).total_nodes,
            r.is_some() ==> final(it).depth_reached == old(it).next_depth || final(it).best_move == old(it).best_move,
            final(it).best_move matches Some(m) ==> (old(it).best_move == Some(m) || spec_legal_moves(board@).contains(m)),
            old(it).next_depth > old(it).last_depth ==> final(it).finished && r.is_none(),
            old(it).best_move.is_some() ==> final(it).best_move.is_some(),
            deadline.is_none() && !old(it).finished && old(it).next_depth <= old(it).last_depth
                && spec_legal_moves(board@).len() > 0 ==> final(it).best_move.is_some()
                && final(it).depth_reached == old(it).next_depth
                && (final(it).finished ==> final(it).best_score > MATE_FOUND)
                && (!final(it).finished ==> final(it).next_depth == old(it).next_depth + 1),
            !old(it).finished && old(it).next_depth > old(it).last_depth ==> final(it).depth_reached
                == old(it).depth_reached && final(it).best_score == old(it).best_score,
            r matches Some(rep) ==> spec_legal_moves(board@).len() > 0 ==> final(it).depth_reached == rep.depth
                && final(it).best_score == rep.score,
            r matches Some(rep) ==> root_trace_ok(board@, rep.depth, old(history)@, deadline, rep.best_move, rep.score as int, rep.root@)
                && (rep.best_move.is_some() ==> final(it).best_move == rep.best_move && final(it).best_score == rep.score
                && final(it).depth_reached == rep.depth),
            final(it).depth_reached != old(it).depth_reached ==> final(it).depth_reached == old(it).next_depth
                && root_trace_ok(board@, final(it).depth_reached, old(history)@, deadline, final(it).best_move,
                final(it).best_score as int, final(it).last_root@),
            final(it).depth_reached == old(it).depth_reached ==> final(it).best_move == old(it).best_move
                && final(it).best_score == old(it).best_score && final(it).last_root == old(it).last_root,
    {
        if it.finished {
            return None;
        }
        if it.next_depth > it.last_depth {
            it.finished = true;
            return None;
        }
        let depth = it.next_depth;
        if let Some(d) = deadline {
            if depth > 1 && duration_lt(d.remaining(), duration_from_millis(MIN_REMAINING_MS)) {
                it.finished = true;
                return None;
            }
        }
        let mut stats = SearchStats::new(deadline);
        let aspiration = if depth > 1 && it.depth_reached > 0 { Some(it.best_score) } else { None };
        let (root_move, root_score, trace, _windows) = self.search_root(board, depth, history, &mut stats, aspiration);
        it.total_nodes = it.total_nodes.wrapping_add(stats.nodes);
        it.total_tt_hits = it.total_tt_hits.wrapping_add(stats.tt_hits);
        it.total_tt_cutoffs = it.total_tt_cutoffs.wrapping_add(stats.tt_cutoffs);
        if stats.stopped {
            it.finished = true;
            return None;
        }
        if let Some(m) = root_move {
            it.best_move = Some(m);
            it.best_score = root_score;
            it.depth_reached = depth;
            it.last_root = trace;
        }
        if root_score > MATE_FOUND {
            it.finished = true;
            return None;
        }
        it.next_depth = depth + 1;
        Some(DepthReport { depth, score: root_score, nodes: it.total_nodes, best_move: root_move, root: trace })
    }

    /// Iterative deepening from depth 1 to `max_depth` (at least 1), without
    /// reporting: the loop of `iterate` until it stops.
    pub fn search_iterative(
        &mut self,
        board: &GameBoard,
        max_depth: u32,
        history: &mut GameHistory,
        deadline: Option<SearchDeadline>,
    ) -> (r: SearchResult)
        requires
            old(self).wf(),
            consistent(board@),
            old(history).wf(),
            max_depth <= MAX_SEARCH_DEPTH,
            root_room(old(history)@, if max_depth < 1 { 1 } else { max_depth }),
        ensures
            final(self).wf(),
            final(self).spec_hash_mb() == old(self).spec_hash_mb(),
            final(history).wf(),
            final(history)@ == old(history)@,
            r.best_move matches Some(m) ==> spec_legal_moves(board@).contains(m),
            -INF <= r.score <= INF,
            r.depth_reached <= (if max_depth < 1 { 1 } else { max_depth }),
            r.best_move.is_some() <==> r.depth_reached >= 1,
            deadline.is_none() && spec_legal_moves(board@).len() > 0 ==> r.best_move.is_some(),
            deadline.is_none() && spec_legal_moves(board@).len() > 0 ==> r.depth_reached == (if max_depth < 1 {
                1
            } else {
                max_depth
            }) || r.score > MATE_FOUND,
            r.depth_reached >= 1 ==> exists|t: (int, int, Seq<Move>, Seq<int>, Seq<ChildSearch>)|
                root_trace_ok(board@, r.depth_reached, old(history)@, deadline, r.best_move, r.score as int, t),
    {
        let mut it = self.begin_iterative(max_depth);
        loop
            invariant
                self.wf(),
                self.spec_hash_mb() == old(self).spec_hash_mb(),
                consistent(board@),
                history.wf(),
                history@ == old(history)@,
                it.wf(),
                it.last_depth == if max_depth < 1 { 1 } else { max_depth },
                root_room(old(history)@, it.last_depth),
                it.best_move matches Some(m) ==> spec_legal_moves(board@).contains(m),
                deadline.is_none() && spec_legal_moves(board@).len() > 0 && (it.finished || it.next_depth > 1)
                    ==> it.best_move.is_some(),
                deadline.is_none() && spec_legal_moves(board@).len() > 0 && !it.finished ==> it.depth_reached + 1
                    == it.next_depth,
                deadline.is_none() && spec_legal_moves(board@).len() > 0 && it.finished ==> it.depth_reached
                    == it.last_depth || it.best_score > MATE_FOUND,
                it.depth_reached >= 1 ==> root_trace_ok(board@, it.depth_reached, old(history)@, deadline, it.best_move,
                    it.best_score as int, it.last_root@),
            ensures
                it.finished,
            decreases (if it.finished { 0int } else { 1int }), it.last_depth + 1 - it.next_depth,
        {
            let report = self.iterate(board, history, deadline, &mut it);
            if report.is_none() {
                break;
            }
        }
        let r = it.result();
        proof {
            if r.depth_reached >= 1 {
                assert(root_trace_ok(board@, r.depth_reached, old(history)@, deadline, r.best_move, r.score as int, it.last_root@));
            }
        }
        r
    }
}

} // verus!
