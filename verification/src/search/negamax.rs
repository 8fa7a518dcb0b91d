//! The principal-variation negamax search with transposition table,
//! null-move pruning, late-move reductions and check extensions.
use vstd::prelude::*;
use crate::bits::{popcnt, popcount};
use crate::board::{consistent, generated_move, spec_legal_moves, spec_make_move, Color, GameBoard, Move, Position};
use crate::ordering::ordered_legal_moves;
use crate::search::heuristics::HistoryHeuristic;
use crate::search::history::{occurrences, GameHistory};
use crate::search::quiescence::{quiescence, MAX_QS_PLY, PLY_LIMIT};
use crate::board::{spec_status, BoardStatus};
use crate::evaluation::spec_eval_relative;
use crate::search::transposition::{score_from_tt, score_to_tt, spec_score_from_tt, Bound, TTEntry, MATE_IN_MAX_PLY};
use crate::search::{Searcher, SearchStats, INF, MATE_SCORE, MAX_SEARCH_DEPTH};
use crate::engine::max_int;
use crate::time::SearchDeadline;

verus! {

pub const NULL_MOVE_R: u32 = 2;
pub const NULL_MOVE_MIN_DEPTH: u32 = NULL_MOVE_R + 1;
pub const LMR_MIN_DEPTH: u32 = 3;
pub const LMR_MIN_MOVE_INDEX: usize = 3;
pub const CHECK_EXTENSION: u32 = 1;
pub const MAX_CHECK_EXTENSION_PLY: i32 = 64;

/// A bound on the remaining recursion: each child lowers the depth, or
/// (with a check extension, only below `MAX_CHECK_EXTENSION_PLY`) the plies
/// left before extensions stop.
pub open spec fn negamax_measure(depth: u32, ply: i32) -> int {
    depth as int + if ply < MAX_CHECK_EXTENSION_PLY {
        MAX_CHECK_EXTENSION_PLY - ply
    } else {
        0
    }
}

/// Whether a side has a piece other than pawns and its king.
pub open spec fn spec_has_non_pawn_material(p: Position, c: Color) -> bool {
    popcount(p.spec_color_bb(c) & !(p.pawns | p.kings)) > 0
}

/// Whether a side has a piece other than pawns and its king.
pub fn has_non_pawn_material(p: &Position, color: Color) -> (r: bool)
    ensures
        r == spec_has_non_pawn_material(*p, color),
{
    let pieces = p.color_bb(color);
    let pawns_and_king = p.pawns | p.kings;
    popcnt(pieces & !pawns_and_king) > 0
}

/// Hashes never occur more often than the history is long.
pub proof fn lemma_occurrences_le_len(s: Seq<u64>, h: u64)
    ensures
        occurrences(s, h) <= s.len(),
    decreases s.len(),
{
    if s.len() > 0 {
        lemma_occurrences_le_len(s.drop_last(), h);
    }
}

/// The searches a node may still start fit the history's counters.
pub open spec fn history_room(history: Seq<u64>, depth: u32, ply: i32) -> bool {
    history.len() + negamax_measure(depth, ply) + 2 <= u32::MAX
}

/// What a search of `p` to `depth` within `(alpha, beta)` at `ply`, with
/// counters `s0` before and `s1` after and game history `h`, may return: a
/// score within `[-INF, INF]`; 0 once stopped or after a threefold
/// repetition; at depth 0 the quiescence values (evaluation at the ply limit,
/// mate and stalemate scores, within the window); deeper, the mate and
/// stalemate scores of a node without legal moves that no table entry cut
/// off.
pub open spec fn negamax_post(
    p: Position,
    depth: u32,
    alpha: int,
    beta: int,
    ply: int,
    s0: SearchStats,
    s1: SearchStats,
    h: Seq<u64>,
    r: int,
) -> bool {
    &&& -INF <= r <= INF
    &&& s0.stopped ==> s1.stopped && r == 0
    &&& !s0.stopped && (s0.countdown() > 1 || s0.deadline.is_none()) && occurrences(h, p.hash) >= 3 ==> r == 0
        && !s1.stopped
    &&& depth > 0 && s1.stopped ==> r == 0
    &&& depth > 0 && !s0.stopped && (s0.countdown() > 1 || s0.deadline.is_none()) && occurrences(h, p.hash) < 3
        && spec_legal_moves(p).len() == 0 && s1.tt_cutoffs == s0.tt_cutoffs ==> {
        &&& p.checkers != 0 ==> r == -MATE_SCORE + ply
        &&& p.checkers == 0 && !spec_tries_null_move(p, depth, beta as i32) ==> r == 0
    }
    &&& depth == 0 && !s0.stopped && (s0.countdown() > 2 || s0.deadline.is_none()) && occurrences(h, p.hash) < 3 ==> {
        &&& ply >= MAX_QS_PLY ==> r == spec_eval_relative(p)
        &&& ply < MAX_QS_PLY && spec_status(p) == BoardStatus::Checkmate ==> r == -MATE_SCORE + ply
        &&& ply < MAX_QS_PLY && spec_status(p) == BoardStatus::Stalemate ==> r == 0
        &&& ply < MAX_QS_PLY && spec_status(p) == BoardStatus::Ongoing && !s1.stopped ==> alpha <= r <= beta
    }
}

/// Searches `board` to `depth` plies within the window `(alpha, beta)`.
/// The result is a score from the side to move's point of view; a search
/// that has run out of time returns 0, as does a position repeated three
/// times in the history (which leaves the searcher as it was).  At depth 0
/// the node is the quiescence search; deeper, the table is looked up and the
/// node is searched by `negamax_node`.  The game history is left as it was.
pub fn negamax(
    search: &mut Searcher,
    board: &GameBoard,
    depth: u32,
    alpha: i32,
    beta: i32,
    ply: i32,
    stats: &mut SearchStats,
    history: &mut GameHistory,
) -> (r: i32)
    requires
        old(search).wf(),
        consistent(board@),
        old(stats).wf(),
        old(history).wf(),
        -INF <= alpha < beta <= INF,
        0 <= ply,
        ply + negamax_measure(depth, ply) <= PLY_LIMIT,
        depth <= MAX_SEARCH_DEPTH,
        history_room(old(history)@, depth, ply),
    ensures
        final(search).wf(),
        final(search).spec_hash_mb() == old(search).spec_hash_mb(),
        final(stats).wf(),
        final(stats).deadline == old(stats).deadline,
        final(stats).stopped ==> old(stats).stopped || old(stats).deadline.is_some(),
        old(stats).stopped ==> final(stats).stopped && r == 0,
        final(history).wf(),
        final(history)@ == old(history)@,
        -INF <= r <= INF,
        negamax_post(board@, depth, alpha as int, beta as int, ply as int, *old(stats), *final(stats), old(history)@, r as int),
        !old(stats).stopped && (old(stats).countdown() > 1 || old(stats).deadline.is_none())
            && occurrences(old(history)@, board@.hash) >= 3 ==> {
            &&& r == 0
            &&& final(stats).nodes == old(stats).nodes.wrapping_add(1)
            &&& final(stats).tt_hits == old(stats).tt_hits
            &&& final(stats).tt_cutoffs == old(stats).tt_cutoffs
            &&& !final(stats).stopped
            &&& *final(search) == *old(search)
        },
        depth > 0 && final(stats).stopped ==> r == 0,
        depth > 0 && !old(stats).stopped && (old(stats).countdown() > 1 || old(stats).deadline.is_none())
            && occurrences(old(history)@, board@.hash) < 3 && spec_legal_moves(board@).len() == 0
            && final(stats).tt_cutoffs == old(stats).tt_cutoffs ==> {
            &&& board@.checkers != 0 ==> r == -MATE_SCORE + ply
            &&& board@.checkers == 0 && !spec_tries_null_move(board@, depth, beta) ==> r == 0
        },
        depth == 0 && !old(stats).stopped && (old(stats).countdown() > 2 || old(stats).deadline.is_none())
            && occurrences(old(history)@, board@.hash) < 3
            ==> {
            &&& ply >= MAX_QS_PLY ==> r == spec_eval_relative(board@)
            &&& ply < MAX_QS_PLY && spec_status(board@) == BoardStatus::Checkmate ==> r == -MATE_SCORE + ply
            &&& ply < MAX_QS_PLY && spec_status(board@) == BoardStatus::Stalemate ==> r == 0
            &&& ply < MAX_QS_PLY && spec_status(board@) == BoardStatus::Ongoing && !final(stats).stopped
                ==> alpha <= r <= beta
        },
    decreases negamax_measure(depth, ply), 1int,
{
    stats.count_node();
    stats.check_time();
    if stats.stopped {
        return 0;
    }
    let p = board.position();
    let hash = p.hash;
    if history.count(hash) >= 3 {
        return 0;
    }
    if depth == 0 {
        let (v, _scores, _children) = quiescence(board, alpha, beta, ply, stats);
        return v;
    }
    let probe = search.table().probe(hash);
    let (v, _scores, _children) = negamax_node(search, board, depth, alpha, beta, ply, stats, history, probe);
    v
}

/// The kind of bound a node's score is, for the table: an upper bound when
/// it failed low (at or below the entry `alpha`), a lower bound when it
/// failed high (at or above `beta`), else exact.
pub open spec fn spec_node_bound(best: int, alpha: int, beta: int) -> Bound {
    if best <= alpha {
        Bound::Upper
    } else if best >= beta {
        Bound::Lower
    } else {
        Bound::Exact
    }
}

/// The kind of bound a node's score is.
pub fn node_bound(best: i32, alpha: i32, beta: i32) -> (r: Bound)
    ensures
        r == spec_node_bound(best as int, alpha as int, beta as int),
{
    if best <= alpha {
        Bound::Upper
    } else if best >= beta {
        Bound::Lower
    } else {
        Bound::Exact
    }
}

/// The score a table entry read for a node gives it, if it cuts the node
/// off: an entry searched at least as deep whose score, adjusted to the
/// node's ply, lies within `[-INF, INF]` and is exact, a lower bound at or
/// above `beta`, or an upper bound at or below `alpha`.  An adjusted score
/// outside `[-INF, INF]` (an extreme score stored further from the root and
/// read nearer to it, or a slot torn by concurrent writes) cuts nothing off:
/// the node is searched instead, so that scores stay within `[-INF, INF]`.
pub open spec fn spec_tt_cutoff(probe: Option<TTEntry>, depth: u32, alpha: i32, beta: i32, ply: i32) -> Option<int> {
    match probe {
        Some(e) => {
            let adjusted = spec_score_from_tt(e.score as int, ply as int);
            if e.depth >= #[verifier::truncate] (depth as i16) && -INF <= adjusted <= INF {
                match e.bound {
                    Bound::Exact => Some(adjusted),
                    Bound::Lower => if adjusted >= beta { Some(adjusted) } else { None },
                    Bound::Upper => if adjusted <= alpha { Some(adjusted) } else { None },
                }
            } else {
                None
            }
        },
        None => None,
    }
}

/// Whether a node tries a null move first: not in check, at least
/// `NULL_MOVE_MIN_DEPTH` deep, `beta` not within 1000 of a mate score, and
/// the side to move has a piece besides pawns and its king.
pub open spec fn spec_tries_null_move(p: Position, depth: u32, beta: i32) -> bool {
    &&& p.checkers == 0
    &&& depth >= NULL_MOVE_MIN_DEPTH
    &&& (if beta < 0 { -beta } else { beta as int }) < MATE_SCORE - 1000
    &&& spec_has_non_pawn_material(p, p.side_to_move)
}

/// `children` records the searches behind `scores`, the scores of moves
/// searched in order from `p` at `ply` within `(alpha, beta)` (game history
/// `h`, deadline `deadline`): each score is the negated value of a legal
/// move's child search, at most `depth` deep, whose window's upper end is
/// the negated best so far (`alpha` at the start) and whose lower end is the
/// negated `beta` or one below the upper end, and which neither started nor
/// ended stopped; its value is one that `negamax_post` admits for the child
/// position.
pub open spec fn explains(
    p: Position,
    scores: Seq<int>,
    children: Seq<ChildSearch>,
    depth: u32,
    alpha: int,
    beta: int,
    ply: int,
    h: Seq<u64>,
    deadline: Option<SearchDeadline>,
) -> bool {
    &&& children.len() == scores.len()
    &&& forall|k: int| 0 <= k < children.len() ==> {
        let c = #[trigger] children[k];
        let q = spec_make_move(p, c.mv);
        &&& scores[k] == -(c.value as int)
        &&& spec_legal_moves(p).contains(c.mv)
        &&& c.beta == -max_int(alpha, best_of(scores.take(k)))
        &&& (c.alpha == -beta || c.alpha == c.beta - 1)
        &&& c.depth <= depth
        &&& !c.before.stopped && !c.after.stopped && c.before.deadline == deadline
        &&& negamax_post(q, c.depth, c.alpha as int, c.beta as int, ply + 1, c.before, c.after, h.push(q.hash), c.value as int)
    }
}

/// One child search made by a node, for the record of what the node's
/// result was made from: the move, the depth and window the last search of
/// it used, the counters before and after that search, and its value.
pub struct ChildSearch {
    pub mv: Move,
    pub depth: u32,
    pub alpha: i32,
    pub beta: i32,
    pub before: SearchStats,
    pub after: SearchStats,
    pub value: i32,
}

/// The best of some scores, `-INF` for none.
pub open spec fn best_of(s: Seq<int>) -> int
    decreases s.len(),
{
    if s.len() == 0 {
        -INF as int
    } else {
        max_int(best_of(s.drop_last()), s.last())
    }
}

/// The scores of the moves a node searched, in search order, out of `n`
/// moves: at least one, each within `[-INF, INF]`, every one before the last
/// below `beta`, and either all `n` moves searched or the last at or above
/// `beta` (the cutoff that ends the search).
pub open spec fn searched_in_order(s: Seq<int>, n: int, beta: int) -> bool {
    &&& 1 <= s.len() <= n
    &&& forall|i: int| 0 <= i < s.len() ==> -INF <= #[trigger] s[i] <= INF
    &&& forall|i: int| 0 <= i < s.len() - 1 ==> #[trigger] s[i] < beta
    &&& (s.len() == n || s.last() >= beta)
}

/// The body of a search node below the root, given what the table lookup
/// for the node's hash returned: a table cutoff, a null-move cutoff, mate
/// and stalemate scores for a node without legal moves, and otherwise the
/// principal-variation search of the ordered moves with late-move
/// reductions and check extensions.  The result is stored in the table.
pub fn negamax_node(
    search: &mut Searcher,
    board: &GameBoard,
    depth: u32,
    alpha: i32,
    beta: i32,
    ply: i32,
    stats: &mut SearchStats,
    history: &mut GameHistory,
    probe: Option<TTEntry>,
) -> (r: (i32, Ghost<Seq<int>>, Ghost<Seq<ChildSearch>>))
    requires
        old(search).wf(),
        consistent(board@),
        old(stats).wf(),
        !old(stats).stopped,
        old(history).wf(),
        -INF <= alpha < beta <= INF,
        0 <= ply,
        1 <= depth,
        ply + negamax_measure(depth, ply) <= PLY_LIMIT,
        depth <= MAX_SEARCH_DEPTH,
        history_room(old(history)@, depth, ply),
    ensures
        final(search).wf(),
        final(search).spec_hash_mb() == old(search).spec_hash_mb(),
        final(stats).wf(),
        final(stats).deadline == old(stats).deadline,
        final(stats).stopped ==> old(stats).deadline.is_some(),
        final(history).wf(),
        final(history)@ == old(history)@,
        -INF <= r.0 <= INF,
        final(stats).stopped ==> r.0 == 0,
        spec_tt_cutoff(probe, depth, alpha, beta, ply) matches Some(v) ==> r.0 == v && *final(search) == *old(search)
            && !final(stats).stopped,
        spec_tt_cutoff(probe, depth, alpha, beta, ply).is_none() && spec_legal_moves(board@).len() == 0
            && board@.checkers != 0 ==> r.0 == -MATE_SCORE + ply,
        spec_tt_cutoff(probe, depth, alpha, beta, ply).is_none() && spec_legal_moves(board@).len() == 0
            && board@.checkers == 0 && !spec_tries_null_move(board@, depth, beta) ==> r.0 == 0,
        spec_tt_cutoff(probe, depth, alpha, beta, ply).is_some() ==> final(stats).tt_cutoffs
            == old(stats).tt_cutoffs.wrapping_add(1),
        spec_tt_cutoff(probe, depth, alpha, beta, ply).is_none() && spec_legal_moves(board@).len() == 0 && (
        board@.checkers != 0 || !spec_tries_null_move(board@, depth, beta)) ==> final(stats).tt_cutoffs
            == old(stats).tt_cutoffs,
        spec_tt_cutoff(probe, depth, alpha, beta, ply).is_none() && spec_legal_moves(board@).len() > 0
            && !final(stats).stopped ==> (r.1@.len() == 0 && spec_tries_null_move(board@, depth, beta) && r.0 == beta)
            || (searched_in_order(r.1@, spec_legal_moves(board@).len() as int, beta as int) && r.0 == best_of(r.1@)),
        explains(board@, r.1@, r.2@, depth, alpha as int, beta as int, ply as int, old(history)@, old(stats).deadline),
    decreases negamax_measure(depth, ply), 0int,
{
    let p = board.position();
    let hash = p.hash;
    let in_check = p.checkers != 0;
    let alpha_at_entry = alpha;
    let mut a = alpha;
    let tt_move: Option<Move> = match probe {
        Some(entry) => {
            if entry.depth >= #[verifier::truncate] (depth as i16) {
                stats.tt_hits = stats.tt_hits.wrapping_add(1);
                let adjusted_score = score_from_tt(entry.score, ply);
                if -INF <= adjusted_score && adjusted_score <= INF {
                    match entry.bound {
                        Bound::Exact => {
                            stats.tt_cutoffs = stats.tt_cutoffs.wrapping_add(1);
                            return (adjusted_score, Ghost(Seq::empty()), Ghost(Seq::empty()));
                        },
                        Bound::Lower => {
                            if adjusted_score >= beta {
                                stats.tt_cutoffs = stats.tt_cutoffs.wrapping_add(1);
                                return (adjusted_score, Ghost(Seq::empty()), Ghost(Seq::empty()));
                            }
                        },
                        Bound::Upper => {
                            if adjusted_score <= a {
                                stats.tt_cutoffs = stats.tt_cutoffs.wrapping_add(1);
                                return (adjusted_score, Ghost(Seq::empty()), Ghost(Seq::empty()));
                            }
                        },
                    }
                }
            }
            entry.best_move()
        },
        None => None,
    };
    let side_to_move = p.side_to_move;
    let abs_beta: i32 = if beta < 0 { -beta } else { beta };
    if !in_check && depth >= NULL_MOVE_MIN_DEPTH && abs_beta < MATE_SCORE - 1000 && has_non_pawn_material(p, side_to_move) {
        if let Some(null_board) = board.null_move() {
            let reduced_depth = depth - 1 - NULL_MOVE_R;
            proof {
                lemma_occurrences_le_len(history@, null_board@.hash);
            }
            history.push(null_board.position().hash);
            let child = negamax(search, &null_board, reduced_depth, -beta, -beta + 1, ply + 1, stats, history);
            let null_score = -child;
            history.pop();
            proof {
                assert(history@ == old(history)@);
            }
            if stats.stopped {
                return (0, Ghost(Seq::empty()), Ghost(Seq::empty()));
            }
            if null_score >= beta {
                return (beta, Ghost(Seq::empty()), Ghost(Seq::empty()));
            }
        }
    }
    let killers_here = if ply < 72 { search.killers_at(ply as usize) } else { [None, None] };
    let moves = ordered_legal_moves(board, tt_move, killers_here, search.history_table(), side_to_move);
    if moves.len() == 0 {
        return (if in_check { -MATE_SCORE + ply } else { 0 }, Ghost(Seq::empty()), Ghost(Seq::empty()));
    }
    let mut best: i32 = -INF;
    let ghost mut scores: Seq<int> = Seq::empty();
    let ghost mut children: Seq<ChildSearch> = Seq::empty();
    let mut best_move: Option<Move> = None;
    let mut quiets_tried: Vec<Move> = Vec::new();
    let n = moves.len();
    let mut move_index: usize = 0;
    while move_index < n
        invariant_except_break
            -INF <= a < beta,
            forall|i: int| 0 <= i < scores.len() ==> #[trigger] scores[i] < beta,
            scores.len() == move_index,
        invariant
            n == moves@.len(),
            move_index <= n,
            search.wf(),
            search.spec_hash_mb() == old(search).spec_hash_mb(),
            consistent(board@),
            *p == board@,
            stats.wf(),
            stats.deadline == old(stats).deadline,
            stats.stopped ==> old(stats).stopped || old(stats).deadline.is_some(),
            !stats.stopped,
            history.wf(),
            history@ == old(history)@,
            -INF <= alpha < beta <= INF,
            alpha_at_entry == alpha,
            alpha <= a <= INF,
            spec_tt_cutoff(probe, depth, alpha, beta, ply).is_none(),
            -INF <= best <= INF,
            best == best_of(scores),
            a == max_int(alpha as int, best_of(scores)),
            forall|i: int| 0 <= i < scores.len() ==> -INF <= #[trigger] scores[i] <= INF,
            scores.len() <= move_index,
            n >= 1,
            children.len() == scores.len(),
            forall|k: int| 0 <= k < children.len() ==> {
                let c = #[trigger] children[k];
                let q = spec_make_move(board@, c.mv);
                &&& scores[k] == -(c.value as int)
                &&& spec_legal_moves(board@).contains(c.mv)
                &&& c.beta == -max_int(alpha as int, best_of(scores.take(k)))
                &&& (c.alpha == -beta || c.alpha == c.beta - 1)
                &&& c.depth <= depth
                &&& !c.before.stopped && !c.after.stopped && c.before.deadline == old(stats).deadline
                &&& negamax_post(q, c.depth, c.alpha as int, c.beta as int, ply + 1, c.before, c.after, old(history)@.push(q.hash), c.value as int)
            },
            0 <= ply,
            ply + negamax_measure(depth, ply) <= PLY_LIMIT,
            1 <= depth <= MAX_SEARCH_DEPTH,
            history_room(old(history)@, depth, ply),
            moves@.to_multiset() == spec_legal_moves(board@).to_multiset(),
            forall|k: int| 0 <= k < n ==> generated_move(board@, #[trigger] moves@[k]),
            forall|k: int| 0 <= k < quiets_tried@.len() ==> generated_move(board@, #[trigger] quiets_tried@[k]),
            best_move matches Some(bm) ==> generated_move(board@, bm),
        ensures
            search.wf(),
            search.spec_hash_mb() == old(search).spec_hash_mb(),
            stats.wf(),
            stats.deadline == old(stats).deadline,
            stats.stopped ==> old(stats).stopped || old(stats).deadline.is_some(),
            !stats.stopped,
            history.wf(),
            history@ == old(history)@,
            -INF <= best <= INF,
            forall|k: int| 0 <= k < quiets_tried@.len() ==> generated_move(board@, #[trigger] quiets_tried@[k]),
            best_move matches Some(bm) ==> generated_move(board@, bm),
            searched_in_order(scores, n as int, beta as int),
            best == best_of(scores),
            children.len() == scores.len(),
            forall|k: int| 0 <= k < children.len() ==> {
                let c = #[trigger] children[k];
                let q = spec_make_move(board@, c.mv);
                &&& scores[k] == -(c.value as int)
                &&& spec_legal_moves(board@).contains(c.mv)
                &&& c.beta == -max_int(alpha as int, best_of(scores.take(k)))
                &&& (c.alpha == -beta || c.alpha == c.beta - 1)
                &&& c.depth <= depth
                &&& !c.before.stopped && !c.after.stopped && c.before.deadline == old(stats).deadline
                &&& negamax_post(q, c.depth, c.alpha as int, c.beta as int, ply + 1, c.before, c.after, old(history)@.push(q.hash), c.value as int)
            },
        decreases n - move_index,
    {
        let m = moves[move_index];
        proof {
            vstd::seq_lib::to_multiset_contains(moves@, m);
            vstd::seq_lib::to_multiset_contains(spec_legal_moves(board@), m);
            assert(moves@[move_index as int] == m);
            assert(spec_legal_moves(board@).contains(m));
        }
        let is_capture = p.piece_on(m.to as u64).is_some();
        if !is_capture {
            quiets_tried.push(m);
        }
        let next = board.make_move(m);
        let gives_check = next.position().checkers != 0;
        let extension: u32 = if gives_check && ply < MAX_CHECK_EXTENSION_PLY { CHECK_EXTENSION } else { 0 };
        proof {
            lemma_occurrences_le_len(history@, next@.hash);
        }
        history.push(next.position().hash);
        let full_depth = depth - 1 + extension;
        let child_hi: i32 = -a;
        let full_lo: i32 = -beta;
        let null_lo: i32 = -a - 1;
        let ghost mut rec: ChildSearch = arbitrary();
        let score = if move_index == 0 {
            let ghost before = *stats;
            let c = negamax(search, &next, full_depth, full_lo, child_hi, ply + 1, stats, history);
            proof {
                rec = ChildSearch { mv: m, depth: full_depth, alpha: full_lo, beta: child_hi, before, after: *stats, value: c };
            }
            -c
        } else {
            let reduce = !is_capture && !gives_check && !in_check && depth >= LMR_MIN_DEPTH && move_index
                >= LMR_MIN_MOVE_INDEX;
            let searched_depth = if reduce {
                if depth - 1 >= 1 { depth - 2 } else { 0 }
            } else {
                full_depth
            };
            let ghost before = *stats;
            let c = negamax(search, &next, searched_depth, null_lo, child_hi, ply + 1, stats, history);
            proof {
                rec = ChildSearch { mv: m, depth: searched_depth, alpha: null_lo, beta: child_hi, before, after: *stats, value: c };
            }
            let mut s = -c;
            if s > a && searched_depth < full_depth {
                let ghost before2 = *stats;
                let c2 = negamax(search, &next, full_depth, null_lo, child_hi, ply + 1, stats, history);
                proof {
                    rec = ChildSearch { mv: m, depth: full_depth, alpha: null_lo, beta: child_hi, before: before2, after: *stats, value: c2 };
                }
                s = -c2;
            }
            if s > a && s < beta {
                let ghost before3 = *stats;
                let c3 = negamax(search, &next, full_depth, full_lo, child_hi, ply + 1, stats, history);
                proof {
                    rec = ChildSearch { mv: m, depth: full_depth, alpha: full_lo, beta: child_hi, before: before3, after: *stats, value: c3 };
                }
                s = -c3;
            }
            s
        };
        history.pop();
        proof {
            assert(history@ == old(history)@);
        }
        if stats.stopped {
            return (0, Ghost(Seq::empty()), Ghost(Seq::empty()));
        }
        let ghost prev = scores;
        if score > best {
            best = score;
            best_move = Some(m);
        }
        if score > a {
            a = score;
        }
        let ghost prev_children = children;
        proof {
            scores = scores.push(score as int);
            children = children.push(rec);
            assert(scores.drop_last() == prev);
            assert(scores.take(prev.len() as int) =~= prev);
            assert forall|k: int| 0 <= k < children.len() implies {
                let c = #[trigger] children[k];
                let q = spec_make_move(board@, c.mv);
                &&& scores[k] == -(c.value as int)
                &&& spec_legal_moves(board@).contains(c.mv)
                &&& c.beta == -max_int(alpha as int, best_of(scores.take(k)))
                &&& (c.alpha == -beta || c.alpha == c.beta - 1)
                &&& c.depth <= depth
                &&& !c.before.stopped && !c.after.stopped && c.before.deadline == old(stats).deadline
                &&& negamax_post(q, c.depth, c.alpha as int, c.beta as int, ply + 1, c.before, c.after, old(history)@.push(q.hash), c.value as int)
            } by {
                if k < prev.len() {
                    assert(children[k] == prev_children[k]);
                    assert(scores[k] == prev[k]);
                    assert(scores.take(k) =~= prev.take(k));
                }
            }
        }
        move_index = move_index + 1;
        if a >= beta {
            break;
        }
    }
    let bound = node_bound(best, alpha_at_entry, beta);
    if bound == Bound::Lower {
        if let Some(bm) = best_move {
            let bm_is_capture = p.piece_on(bm.to as u64).is_some();
            if !bm_is_capture {
                assert(depth * depth <= i32::MAX) by (nonlinear_arith)
                    requires
                        depth <= 46340,
                ;
                search.record_killer_at(ply as usize, bm);
                search.update_history(side_to_move, bm, quiets_tried.as_slice(), depth);
            }
        }
    }
    let stored = score_to_tt(best, ply);
    search.table().store(hash, depth, stored, bound, best_move);
    (best, Ghost(scores), Ghost(children))
}

} // verus!
