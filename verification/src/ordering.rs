//! Move ordering: hash move first, then captures by victim and attacker,
//! killer moves, and quiet moves by their history score.
use vstd::prelude::*;
use vstd::multiset::Multiset;
use crate::board::{generated_move, move_on_board, spec_legal_moves, Color, GameBoard, Move, Position};
use crate::evaluation::material::{piece_value, spec_piece_value};
use crate::search::heuristics::{history_bounded, history_index, opt_move_is, HistoryHeuristic, HISTORY_LEN};

verus! {

broadcast use vstd::seq_lib::group_to_multiset_ensures;

pub const TT_BONUS: i32 = 1_000_000_000;
pub const CAPTURE_BASE: i32 = 100_000_000;
pub const KILLER_1_BONUS: i32 = 90_000;
pub const KILLER_2_BONUS: i32 = 80_000;

/// The capture score of a move: 10000 plus ten times the victim's value
/// minus the attacker's; 0 for a move to an empty square.
pub open spec fn spec_move_order_score(p: Position, m: Move) -> int {
    match p.spec_piece_on(m.to as u64) {
        Some(victim) => 10_000 + spec_piece_value(victim) * 10 - match p.spec_piece_on(m.from as u64) {
            Some(a) => spec_piece_value(a),
            None => 0,
        },
        None => 0,
    }
}

/// Scores a capture by most valuable victim, least valuable attacker.
pub fn move_order_score(p: &Position, m: Move) -> (r: i32)
    requires
        move_on_board(m),
    ensures
        r == spec_move_order_score(*p, m),
        0 <= r <= 10_000 + 9000,
{
    if let Some(victim) = p.piece_on(m.to as u64) {
        let attacker_value = match p.piece_on(m.from as u64) {
            Some(a) => piece_value(a),
            None => 0,
        };
        10_000 + piece_value(victim) * 10 - attacker_value
    } else {
        0
    }
}

/// The sort key of a move (lower sorts first): the hash move first, then
/// captures, the two killers, and the remaining moves by history.
pub open spec fn spec_order_key(p: Position, tt_move: Option<Move>, killers: [Option<Move>; 2], history: Seq<i32>, color: Color, m: Move) -> int {
    if tt_move == Some(m) {
        -TT_BONUS
    } else if p.spec_piece_on(m.to as u64).is_some() {
        -(CAPTURE_BASE + spec_move_order_score(p, m))
    } else if killers@[0] == Some(m) {
        -KILLER_1_BONUS
    } else if killers@[1] == Some(m) {
        -KILLER_2_BONUS
    } else {
        -(history[history_index(color, m)] as int)
    }
}

/// Whether the move lands on an occupied square (a capture for ordering).
pub open spec fn lands_on_piece(p: Position, m: Move) -> bool {
    p.spec_piece_on(m.to as u64).is_some()
}

/// A move ordered by its history score: not the hash move, not a capture,
/// not a killer.
pub open spec fn quiet_rank(p: Position, tt_move: Option<Move>, killers: [Option<Move>; 2], m: Move) -> bool {
    &&& tt_move != Some(m)
    &&& !lands_on_piece(p, m)
    &&& killers@[0] != Some(m)
    &&& killers@[1] != Some(m)
}

/// Two moves in ascending order-key order rank as the engine orders them:
/// nothing precedes the hash move; a capture (not the hash move) is preceded
/// only by the hash move or another capture; and of two captures, neither
/// the hash move, the earlier has at least the later's capture score
/// (most valuable victim, then least valuable attacker); then come the
/// first killer, the second killer, and the other moves by descending
/// history score.
pub proof fn law_order_key_ranks(
    p: Position,
    tt_move: Option<Move>,
    killers: [Option<Move>; 2],
    history: Seq<i32>,
    color: Color,
    a: Move,
    b: Move,
)
    requires
        generated_move(p, a),
        generated_move(p, b),
        history.len() == HISTORY_LEN,
        history_bounded(history),
        spec_order_key(p, tt_move, killers, history, color, a) <= spec_order_key(p, tt_move, killers, history, color, b),
    ensures
        tt_move == Some(b) ==> tt_move == Some(a),
        tt_move != Some(b) && lands_on_piece(p, b) ==> tt_move == Some(a) || lands_on_piece(p, a),
        tt_move != Some(a) && tt_move != Some(b) && lands_on_piece(p, a) && lands_on_piece(p, b)
            ==> spec_move_order_score(p, a) >= spec_move_order_score(p, b),
        tt_move != Some(b) && !lands_on_piece(p, b) && killers@[0] == Some(b) ==> tt_move == Some(a)
            || lands_on_piece(p, a) || killers@[0] == Some(a),
        tt_move != Some(b) && !lands_on_piece(p, b) && killers@[1] == Some(b) ==> tt_move == Some(a)
            || lands_on_piece(p, a) || killers@[0] == Some(a) || killers@[1] == Some(a),
        quiet_rank(p, tt_move, killers, a) && quiet_rank(p, tt_move, killers, b)
            ==> history[history_index(color, a)] >= history[history_index(color, b)],
{
    assert(0 <= history_index(color, a) < HISTORY_LEN);
    assert(0 <= history_index(color, b) < HISTORY_LEN);
    assert(-16384 <= history[history_index(color, a)] <= 16384);
    assert(-16384 <= history[history_index(color, b)] <= 16384);
}

/// Sorts pairs by their first component (`slice::sort_unstable_by_key`):
/// the result is a permutation of the input, ascending in the key.
#[verifier::external_body]
fn sort_by_key(v: &mut Vec<(i32, Move)>)
    ensures
        final(v)@.to_multiset() == old(v)@.to_multiset(),
        forall|i: int, j: int| 0 <= i <= j < final(v)@.len() ==> (#[trigger] final(v)@[i]).0 <= (#[trigger] final(v)@[j]).0,
{
    v.sort_unstable_by_key(|p| p.0)
}

/// The second components of pairs.
pub open spec fn seconds(s: Seq<(i32, Move)>) -> Seq<Move> {
    s.map_values(|p: (i32, Move)| p.1)
}

/// Permuting pairs permutes their second components.
pub proof fn lemma_seconds_permutation(a: Seq<(i32, Move)>, b: Seq<(i32, Move)>)
    requires
        a.to_multiset() == b.to_multiset(),
    ensures
        seconds(a).to_multiset() == seconds(b).to_multiset(),
    decreases a.len(),
{
    broadcast use vstd::multiset::group_multiset_axioms;
    broadcast use vstd::seq_lib::to_multiset_remove, vstd::seq_lib::to_multiset_insert, vstd::seq_lib::to_multiset_build, vstd::seq_lib::to_multiset_len, vstd::seq_lib::to_multiset_contains;

    if a.len() == 0 {
        assert(b.to_multiset().len() == 0);
        assert(b.len() == 0);
        assert(seconds(a) =~= seconds(b));
    } else {
        let x = a.last();
        let a2 = a.drop_last();
        assert(a == a2.push(x));
        assert(a.to_multiset().count(x) > 0);
        assert(b.contains(x));
        let j = choose|j: int| 0 <= j < b.len() && b[j] == x;
        let b2 = b.remove(j);
        assert(a2.to_multiset() =~= b2.to_multiset());
        lemma_seconds_permutation(a2, b2);
        assert(seconds(a) =~= seconds(a2).push(x.1));
        assert(seconds(b) =~= seconds(b2).insert(j, x.1));
    }
}

/// The legal moves in search order: a permutation of the legal moves,
/// ascending in their order key.
pub fn ordered_legal_moves(board: &GameBoard, tt_move: Option<Move>, killers: [Option<Move>; 2], history: &HistoryHeuristic, color: Color) -> (r: Vec<Move>)
    requires
        history.wf(),
    ensures
        r@.to_multiset() == spec_legal_moves(board@).to_multiset(),
        r@.len() == spec_legal_moves(board@).len(),
        forall|i: int| 0 <= i < r@.len() ==> generated_move(board@, #[trigger] r@[i]),
        forall|i: int, j: int| 0 <= i <= j < r@.len() ==> spec_order_key(board@, tt_move, killers, history@, color, #[trigger] r@[i])
            <= spec_order_key(board@, tt_move, killers, history@, color, #[trigger] r@[j]),
        forall|i: int, j: int| 0 <= i <= j < r@.len() && tt_move == Some(#[trigger] r@[j]) ==> tt_move == Some(#[trigger] r@[i]),
        forall|i: int, j: int| 0 <= i <= j < r@.len() && tt_move != Some(#[trigger] r@[j]) && lands_on_piece(board@, r@[j])
            ==> tt_move == Some(#[trigger] r@[i]) || lands_on_piece(board@, r@[i]),
        forall|i: int, j: int| 0 <= i <= j < r@.len() && tt_move != Some(#[trigger] r@[i]) && tt_move != Some(#[trigger] r@[j])
            && lands_on_piece(board@, r@[i]) && lands_on_piece(board@, r@[j])
            ==> spec_move_order_score(board@, r@[i]) >= spec_move_order_score(board@, r@[j]),
        forall|i: int, j: int| 0 <= i <= j < r@.len() && tt_move != Some(#[trigger] r@[j]) && !lands_on_piece(board@, r@[j])
            && killers@[0] == Some(r@[j]) ==> tt_move == Some(#[trigger] r@[i]) || lands_on_piece(board@, r@[i])
            || killers@[0] == Some(r@[i]),
        forall|i: int, j: int| 0 <= i <= j < r@.len() && tt_move != Some(#[trigger] r@[j]) && !lands_on_piece(board@, r@[j])
            && killers@[1] == Some(r@[j]) ==> tt_move == Some(#[trigger] r@[i]) || lands_on_piece(board@, r@[i])
            || killers@[0] == Some(r@[i]) || killers@[1] == Some(r@[i]),
        forall|i: int, j: int| 0 <= i <= j < r@.len() && quiet_rank(board@, tt_move, killers, #[trigger] r@[i])
            && quiet_rank(board@, tt_move, killers, #[trigger] r@[j])
            ==> history@[history_index(color, r@[i])] >= history@[history_index(color, r@[j])],
{
    let moves = board.legal_moves();
    let p = board.position();
    let mut keyed: Vec<(i32, Move)> = Vec::new();
    let mut i: usize = 0;
    while i < moves.len()
        invariant
            i <= moves@.len(),
            moves@ == spec_legal_moves(board@),
            *p == board@,
            history.wf(),
            forall|k: int| 0 <= k < moves@.len() ==> generated_move(board@, #[trigger] moves@[k]),
            keyed@.len() == i,
            seconds(keyed@) =~= moves@.subrange(0, i as int),
            forall|k: int| 0 <= k < i ==> (#[trigger] keyed@[k]).0 == spec_order_key(board@, tt_move, killers, history@, color, keyed@[k].1),
        decreases moves@.len() - i,
    {
        let m = moves[i];
        let key: i32 = if opt_move_is(tt_move, m) {
            -TT_BONUS
        } else if p.piece_on(m.to as u64).is_some() {
            -(CAPTURE_BASE + move_order_score(p, m))
        } else if opt_move_is(killers[0], m) {
            -KILLER_1_BONUS
        } else if opt_move_is(killers[1], m) {
            -KILLER_2_BONUS
        } else {
            -history.score(color, m)
        };
        keyed.push((key, m));
        i = i + 1;
        proof {
            assert(seconds(keyed@) =~= moves@.subrange(0, i as int));
        }
    }
    assert(moves@.subrange(0, moves@.len() as int) =~= moves@);
    let ghost before = keyed@;
    sort_by_key(&mut keyed);
    proof {
        lemma_seconds_permutation(keyed@, before);
    }
    let mut out: Vec<Move> = Vec::new();
    let mut k: usize = 0;
    while k < keyed.len()
        invariant
            k <= keyed@.len(),
            keyed@.to_multiset() == before.to_multiset(),
            forall|a: int, b: int| 0 <= a <= b < keyed@.len() ==> (#[trigger] keyed@[a]).0 <= (#[trigger] keyed@[b]).0,
            out@ =~= seconds(keyed@).subrange(0, k as int),
        decreases keyed@.len() - k,
    {
        out.push(keyed[k].1);
        k = k + 1;
        proof {
            assert(out@ =~= seconds(keyed@).subrange(0, k as int));
        }
    }
    proof {
        assert(out@ =~= seconds(keyed@));
        assert forall|x: int| 0 <= x < keyed@.len() implies (#[trigger] keyed@[x]).0 == spec_order_key(board@, tt_move, killers, history@, color, keyed@[x].1)
            && generated_move(board@, keyed@[x].1) by {
            assert(keyed@.to_multiset().count(keyed@[x]) > 0);
            assert(before.contains(keyed@[x]));
            let y = choose|y: int| 0 <= y < before.len() && before[y] == keyed@[x];
            assert(before[y].1 == moves@[y]);
        }
        assert(keyed@.len() == before.len()) by {
            vstd::seq_lib::to_multiset_len(keyed@);
            vstd::seq_lib::to_multiset_len(before);
        }
        assert forall|i: int, j: int| 0 <= i <= j < out@.len() implies {
            &&& (tt_move == Some(#[trigger] out@[j]) ==> tt_move == Some(#[trigger] out@[i]))
            &&& (tt_move != Some(out@[j]) && lands_on_piece(board@, out@[j]) ==> tt_move == Some(out@[i]) || lands_on_piece(board@, out@[i]))
            &&& (tt_move != Some(out@[i]) && tt_move != Some(out@[j]) && lands_on_piece(board@, out@[i]) && lands_on_piece(board@, out@[j])
                ==> spec_move_order_score(board@, out@[i]) >= spec_move_order_score(board@, out@[j]))
            &&& (tt_move != Some(out@[j]) && !lands_on_piece(board@, out@[j]) && killers@[0] == Some(out@[j])
                ==> tt_move == Some(out@[i]) || lands_on_piece(board@, out@[i]) || killers@[0] == Some(out@[i]))
            &&& (tt_move != Some(out@[j]) && !lands_on_piece(board@, out@[j]) && killers@[1] == Some(out@[j])
                ==> tt_move == Some(out@[i]) || lands_on_piece(board@, out@[i]) || killers@[0] == Some(out@[i])
                || killers@[1] == Some(out@[i]))
            &&& (quiet_rank(board@, tt_move, killers, out@[i]) && quiet_rank(board@, tt_move, killers, out@[j])
                ==> history@[history_index(color, out@[i])] >= history@[history_index(color, out@[j])])
        } by {
            assert(out@[i] == keyed@[i].1 && out@[j] == keyed@[j].1);
            law_order_key_ranks(board@, tt_move, killers, history@, color, out@[i], out@[j]);
        }
    }
    out
}

/// Sorts moves by capture score, highest first (as
/// `sort_unstable_by(|a, b| score(b).cmp(&score(a)))` orders them): the
/// result is a permutation of the input.
pub fn sort_by_capture_score(p: &Position, moves: Vec<Move>) -> (r: Vec<Move>)
    requires
        forall|i: int| 0 <= i < moves@.len() ==> move_on_board(#[trigger] moves@[i]),
    ensures
        r@.to_multiset() == moves@.to_multiset(),
        r@.len() == moves@.len(),
        forall|i: int| 0 <= i < r@.len() ==> moves@.contains(#[trigger] r@[i]),
        forall|i: int, j: int| 0 <= i <= j < r@.len() ==> spec_move_order_score(*p, #[trigger] r@[i])
            >= spec_move_order_score(*p, #[trigger] r@[j]),
{
    let mut keyed: Vec<(i32, Move)> = Vec::new();
    let mut i: usize = 0;
    while i < moves.len()
        invariant
            i <= moves@.len(),
            forall|k: int| 0 <= k < moves@.len() ==> move_on_board(#[trigger] moves@[k]),
            keyed@.len() == i,
            seconds(keyed@) =~= moves@.subrange(0, i as int),
            forall|k: int| 0 <= k < i ==> (#[trigger] keyed@[k]).0 == -spec_move_order_score(*p, keyed@[k].1),
        decreases moves@.len() - i,
    {
        let m = moves[i];
        let key: i32 = -move_order_score(p, m);
        keyed.push((key, m));
        i = i + 1;
        proof {
            assert(seconds(keyed@) =~= moves@.subrange(0, i as int));
        }
    }
    assert(moves@.subrange(0, moves@.len() as int) =~= moves@);
    let ghost before = keyed@;
    sort_by_key(&mut keyed);
    proof {
        lemma_seconds_permutation(keyed@, before);
    }
    let mut out: Vec<Move> = Vec::new();
    let mut k: usize = 0;
    while k < keyed.len()
        invariant
            k <= keyed@.len(),
            keyed@.to_multiset() == before.to_multiset(),
            forall|a: int, b: int| 0 <= a <= b < keyed@.len() ==> (#[trigger] keyed@[a]).0 <= (#[trigger] keyed@[b]).0,
            out@ =~= seconds(keyed@).subrange(0, k as int),
        decreases keyed@.len() - k,
    {
        out.push(keyed[k].1);
        k = k + 1;
        proof {
            assert(out@ =~= seconds(keyed@).subrange(0, k as int));
        }
    }
    proof {
        assert(out@ =~= seconds(keyed@));
        assert forall|x: int| 0 <= x < keyed@.len() implies (#[trigger] keyed@[x]).0 == -spec_move_order_score(*p, keyed@[x].1)
            && moves@.contains(keyed@[x].1) by {
            assert(keyed@.to_multiset().count(keyed@[x]) > 0);
            assert(before.contains(keyed@[x]));
            let y = choose|y: int| 0 <= y < before.len() && before[y] == keyed@[x];
            assert(before[y].1 == moves@[y]);
        }
        assert(keyed@.len() == before.len()) by {
            vstd::seq_lib::to_multiset_len(keyed@);
            vstd::seq_lib::to_multiset_len(before);
        }
    }
    out
}

} // verus!
