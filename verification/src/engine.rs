//! A plain material engine: alpha-beta negamax over the legal moves with a
//! material evaluation, and the root search that picks a move.
use vstd::prelude::*;
use crate::board::{
    consistent, generated_move, move_on_board, spec_legal_moves, spec_make_move, spec_status, BoardStatus, Color, GameBoard,
    Move, Position,
};
use crate::evaluation::material::{material_score, spec_material_score};

verus! {

/// The depth searched when none is given.
pub const DEFAULT_DEPTH: u32 = 6;

/// A bound beyond every score.
pub const INF: i32 = 1_073_741_823;

/// The score of being mated at the root.
pub const MATE_SCORE: i32 = 900_000;

/// The deepest ply a search may reach.
pub const MAX_ENGINE_PLY: u32 = 1_000_000;

/// The count of positions visited.
pub struct SearchStats {
    pub nodes: u64,
}

/// The material balance from the side to move's point of view.
pub open spec fn side_eval(p: Position) -> int {
    if p.side_to_move == Color::White {
        spec_material_score(p)
    } else {
        -spec_material_score(p)
    }
}

/// The larger of two integers.
pub open spec fn max_int(a: int, b: int) -> int {
    if a >= b {
        a
    } else {
        b
    }
}

/// The minimax value of `p` searched `depth` plies deep, `ply` plies from
/// the root: a mate is worth `-MATE_SCORE + ply` to the mated side, a
/// stalemate 0, a leaf its material balance for the side to move, and any
/// other position the best of its moves.
pub open spec fn minimax(p: Position, depth: nat, ply: int) -> int
    decreases depth, 0nat,
{
    match spec_status(p) {
        BoardStatus::Checkmate => -MATE_SCORE + ply,
        BoardStatus::Stalemate => 0,
        BoardStatus::Ongoing => if depth == 0 {
            side_eval(p)
        } else {
            best_reply(p, spec_legal_moves(p), spec_legal_moves(p).len(), (depth - 1) as nat, ply)
        },
    }
}

/// The best value, for the side to move in `p`, among the first `k` moves of
/// `ms`, each reply searched `d` plies deep (`-INF` when `k` is 0).
pub open spec fn best_reply(p: Position, ms: Seq<Move>, k: nat, d: nat, ply: int) -> int
    decreases d, k,
{
    if k == 0 {
        -INF as int
    } else {
        max_int(
            best_reply(p, ms, (k - 1) as nat, d, ply),
            -minimax(spec_make_move(p, ms[k - 1]), d, ply + 1),
        )
    }
}

/// The depth the root searches each reply to.
pub open spec fn reply_depth(depth: u32) -> nat {
    if depth == 0 {
        0
    } else {
        (depth - 1) as nat
    }
}

/// The value of the root: the best of its legal moves, each searched one
/// ply shallower (a depth-0 root still looks one move ahead).
pub open spec fn root_value(p: Position, depth: u32) -> int {
    best_reply(p, spec_legal_moves(p), spec_legal_moves(p).len(), reply_depth(depth), 0)
}

/// Taking more moves into account never lowers the best value.
pub proof fn lemma_best_reply_mono(p: Position, ms: Seq<Move>, j: nat, k: nat, d: nat, ply: int)
    requires
        j <= k,
    ensures
        best_reply(p, ms, j, d, ply) <= best_reply(p, ms, k, d, ply),
    decreases k,
{
    if j < k {
        lemma_best_reply_mono(p, ms, j, (k - 1) as nat, d, ply);
    }
}

/// At a root that is not over and is searched at least one ply deep, the
/// value the root search aims at is the minimax value of the root.
pub proof fn law_root_value_is_minimax(p: Position, depth: u32)
    requires
        depth >= 1,
        spec_status(p) == BoardStatus::Ongoing,
    ensures
        root_value(p, depth) == minimax(p, depth as nat, 0),
{
}

/// The material balance from White's point of view (White's material
/// minus Black's).
pub fn evaluate(board: &GameBoard) -> (r: i32)
    requires
        consistent(board@),
    ensures
        r == spec_material_score(board@),
        -64 * 900 <= r <= 64 * 900,
{
    material_score(board.position())
}

/// Alpha-beta negamax within the window `(alpha, beta)`, fail-soft: a result
/// at or below `alpha` bounds the minimax value from above, one at or above
/// `beta` bounds it from below, and one strictly inside the window is the
/// minimax value itself.
pub fn negamax(board: &GameBoard, depth: u32, alpha: i32, beta: i32, ply: i32, stats: &mut SearchStats) -> (v: i32)
    requires
        consistent(board@),
        -INF <= alpha < beta <= INF,
        0 <= ply,
        ply + depth <= MAX_ENGINE_PLY,
    ensures
        -MATE_SCORE <= v <= MATE_SCORE,
        v <= alpha ==> minimax(board@, depth as nat, ply as int) <= v,
        v >= beta ==> minimax(board@, depth as nat, ply as int) >= v,
        alpha < v < beta ==> minimax(board@, depth as nat, ply as int) == v,
    decreases depth,
{
    stats.nodes = stats.nodes.wrapping_add(1);
    let p = board.position();
    match board.status() {
        BoardStatus::Checkmate => {
            return -MATE_SCORE + ply;
        },
        BoardStatus::Stalemate => {
            return 0;
        },
        BoardStatus::Ongoing => {},
    }
    if depth == 0 {
        let e = evaluate(board);
        return if p.side_to_move == Color::White {
            e
        } else {
            -e
        };
    }
    let moves = board.legal_moves();
    let ghost ms = spec_legal_moves(board@);
    proof {
        assert forall|i: int| 0 <= i < moves@.len() implies move_on_board(#[trigger] ms[i]) by {
            assert(generated_move(board@, moves@[i]));
        }
    }
    let ghost d: nat = (depth - 1) as nat;
    let n = moves.len();
    let mut best: i32 = -INF;
    let mut a: i32 = alpha;
    let mut k: usize = 0;
    while k < n
        invariant_except_break
            n == moves@.len(),
            moves@ == ms,
            ms == spec_legal_moves(board@),
            forall|i: int| 0 <= i < n ==> move_on_board(#[trigger] ms[i]),
            ms.len() > 0,
            consistent(board@),
            -INF <= alpha < beta <= INF,
            0 <= ply,
            ply + depth <= MAX_ENGINE_PLY,
            depth > 0,
            d == depth - 1,
            k <= n,
            a == max_int(alpha as int, best as int),
            a < beta,
            k == 0 ==> best == -INF,
            k > 0 ==> -MATE_SCORE <= best <= MATE_SCORE,
            best <= alpha ==> best_reply(board@, ms, k as nat, d, ply as int) <= best,
            alpha < best < beta ==> best_reply(board@, ms, k as nat, d, ply as int) == best,
        ensures
            n == ms.len(),
            ms == spec_legal_moves(board@),
            k <= n,
            k > 0,
            -MATE_SCORE <= best <= MATE_SCORE,
            best <= alpha ==> best_reply(board@, ms, k as nat, d, ply as int) <= best,
            alpha < best < beta ==> best_reply(board@, ms, k as nat, d, ply as int) == best,
            best >= beta ==> best_reply(board@, ms, k as nat, d, ply as int) >= best,
            best < beta ==> k == n,
        decreases n - k,
    {
        let m = moves[k];
        proof {
            assert(ms.contains(m)) by {
                assert(ms[k as int] == m);
            }
        }
        let next = board.make_move(m);
        let child = negamax(&next, depth - 1, -beta, -a, ply + 1, stats);
        let score = -child;
        let ghost old_best = best;
        proof {
            assert(best_reply(board@, ms, (k + 1) as nat, d, ply as int) == max_int(
                best_reply(board@, ms, k as nat, d, ply as int),
                -minimax(spec_make_move(board@, ms[k as int]), d, ply + 1),
            ));
        }
        if score > best {
            best = score;
        }
        if best > a {
            a = best;
        }
        k = k + 1;
        if a >= beta {
            break;
        }
    }
    proof {
        if best >= beta {
            lemma_best_reply_mono(board@, ms, k as nat, n as nat, d, ply as int);
        }
        assert(minimax(board@, depth as nat, ply as int) == best_reply(board@, ms, n as nat, d, ply as int));
    }
    best
}

/// Searches every legal move of the root with a full window and keeps the
/// first that reaches the best score.  Returns the move (none when there is
/// no legal move), its score for the side to move, and the positions visited.
pub fn search_best_move(board: &GameBoard, depth: u32) -> (r: (Option<Move>, i32, u64))
    requires
        consistent(board@),
        depth <= MAX_ENGINE_PLY,
    ensures
        r.0.is_none() <==> spec_legal_moves(board@).len() == 0,
        r.0.is_none() ==> r.1 == -INF,
        r.0 matches Some(m) ==> spec_legal_moves(board@).contains(m)
            && r.1 == -minimax(spec_make_move(board@, m), reply_depth(depth), 1)
            && r.1 == root_value(board@, depth),
{
    let mut stats = SearchStats { nodes: 0 };
    let mut alpha: i32 = -INF;
    let beta: i32 = INF;
    let mut best_move: Option<Move> = None;
    let mut best_score: i32 = -INF;
    let moves = board.legal_moves();
    let ghost ms = spec_legal_moves(board@);
    proof {
        assert forall|i: int| 0 <= i < moves@.len() implies move_on_board(#[trigger] ms[i]) by {
            assert(generated_move(board@, moves@[i]));
        }
    }
    let child_depth: u32 = if depth == 0 { 0 } else { depth - 1 };
    let ghost d: nat = reply_depth(depth);
    let n = moves.len();
    let mut k: usize = 0;
    while k < n
        invariant
            n == moves@.len(),
            moves@ == ms,
            ms == spec_legal_moves(board@),
            forall|i: int| 0 <= i < n ==> move_on_board(#[trigger] ms[i]),
            consistent(board@),
            child_depth == d,
            child_depth + 1 <= MAX_ENGINE_PLY,
            beta == INF,
            k <= n,
            k == 0 <==> best_move.is_none(),
            k == 0 ==> best_score == -INF && alpha == -INF,
            k > 0 ==> -MATE_SCORE <= best_score <= MATE_SCORE && alpha == best_score,
            k > 0 ==> best_reply(board@, ms, k as nat, d, 0) == best_score,
            best_move matches Some(bm) ==> ms.contains(bm)
                && best_score == -minimax(spec_make_move(board@, bm), d, 1),
        decreases n - k,
    {
        let m = moves[k];
        proof {
            assert(ms.contains(m)) by {
                assert(ms[k as int] == m);
            }
        }
        let next = board.make_move(m);
        let child = negamax(&next, child_depth, -beta, -alpha, 1, &mut stats);
        let score = -child;
        proof {
            assert(best_reply(board@, ms, (k + 1) as nat, d, 0) == max_int(
                best_reply(board@, ms, k as nat, d, 0),
                -minimax(spec_make_move(board@, ms[k as int]), d, 1),
            ));
        }
        if score > best_score || best_move.is_none() {
            best_score = score;
            best_move = Some(m);
        }
        if best_score > alpha {
            alpha = best_score;
        }
        k = k + 1;
    }
    (best_move, best_score, stats.nodes)
}

} // verus!
