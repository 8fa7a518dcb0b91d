//! Move-ordering memory of the search: the history table and killer moves.
use vstd::prelude::*;
use crate::board::{Color, Move, move_on_board};

verus! {

pub const HISTORY_MAX: i32 = 16384;

/// Number of entries: two colours, 64 source and 64 destination squares.
pub const HISTORY_LEN: usize = 8192;

/// Division rounding toward zero, as Rust's `/` on integers does.
pub open spec fn trunc_div(a: int, b: int) -> int {
    if a >= 0 {
        a / b
    } else {
        -((-a) / b)
    }
}

/// One history update of an entry `e` by `delta`: the entry moves toward
/// `delta`, damped by how large it already is.
pub open spec fn spec_history_step(e: int, delta: int) -> int {
    e + delta - trunc_div(e * if delta >= 0 { delta } else { -delta }, HISTORY_MAX as int)
}

/// The table index of a colour and a move.
pub open spec fn history_index(color: Color, m: Move) -> int {
    (match color {
        Color::White => 0int,
        Color::Black => 1int,
    }) * 4096 + m.from as int * 64 + m.to as int
}

/// The bonus of a search depth: its square, at most `HISTORY_MAX`.
pub open spec fn spec_bonus(depth: u32) -> int {
    if depth * depth < HISTORY_MAX {
        depth * depth
    } else {
        HISTORY_MAX as int
    }
}

/// The table after updating the entries of `moves[..n]` in order: the best
/// move gains the bonus, every other tried move loses it.
pub open spec fn spec_updated(t: Seq<i32>, color: Color, best: Move, moves: Seq<Move>, bonus: int, n: int) -> Seq<i32>
    decreases n,
{
    if n <= 0 {
        t
    } else {
        let prev = spec_updated(t, color, best, moves, bonus, n - 1);
        let m = moves[n - 1];
        let i = history_index(color, m);
        let delta = if m == best { bonus } else { -bonus };
        prev.update(i, spec_history_step(prev[i] as int, delta) as i32)
    }
}

/// Entries within the history bounds.
pub open spec fn history_bounded(t: Seq<i32>) -> bool {
    forall|i: int| 0 <= i < t.len() ==> -HISTORY_MAX <= #[trigger] t[i] <= HISTORY_MAX
}

/// One update keeps an entry within the bounds.
pub proof fn lemma_step_bounded(e: int, delta: int)
    requires
        -HISTORY_MAX <= e <= HISTORY_MAX,
        -HISTORY_MAX <= delta <= HISTORY_MAX,
    ensures
        -HISTORY_MAX <= spec_history_step(e, delta) <= HISTORY_MAX,
{
    let m = HISTORY_MAX as int;
    let d = if delta >= 0 { delta } else { -delta };
    if e >= 0 {
        let q = (e * d) / m;
        assert(0 <= e * d <= m * m) by (nonlinear_arith)
            requires
                0 <= e <= m,
                0 <= d <= m,
        ;
        assert(q * m <= e * d < q * m + m) by (nonlinear_arith)
            requires
                q == (e * d) / m,
                m > 0,
                e * d >= 0,
        ;
        assert(-m <= e + delta - q <= m) by (nonlinear_arith)
            requires
                q * m <= e * d < q * m + m,
                0 <= e <= m,
                0 <= d <= m,
                d == delta || d == -delta,
                m > 0,
        ;
    } else {
        let q = ((-e) * d) / m;
        assert(0 <= (-e) * d <= m * m) by (nonlinear_arith)
            requires
                0 < -e <= m,
                0 <= d <= m,
        ;
        assert(q * m <= (-e) * d < q * m + m) by (nonlinear_arith)
            requires
                q == ((-e) * d) / m,
                m > 0,
                (-e) * d >= 0,
        ;
        assert(e * d == -((-e) * d)) by (nonlinear_arith);
        assert(-m <= e + delta + q <= m) by (nonlinear_arith)
            requires
                q * m <= (-e) * d < q * m + m,
                0 < -e <= m,
                0 <= d <= m,
                d == delta || d == -delta,
                m > 0,
        ;
    }
}

/// The history table: for each colour and move, a score in
/// `[-HISTORY_MAX, HISTORY_MAX]`.
pub struct HistoryHeuristic {
    table: Vec<i32>,
}

impl View for HistoryHeuristic {
    type V = Seq<i32>;

    closed spec fn view(&self) -> Seq<i32> {
        self.table@
    }
}

impl HistoryHeuristic {
    /// The table's shape and bounds.
    pub open spec fn wf(&self) -> bool {
        &&& self@.len() == HISTORY_LEN
        &&& history_bounded(self@)
    }

    /// A table of zeros.
    pub fn new() -> (r: HistoryHeuristic)
        ensures
            r.wf(),
            forall|i: int| 0 <= i < HISTORY_LEN ==> #[trigger] r@[i] == 0,
    {
        let mut table: Vec<i32> = Vec::new();
        while table.len() < HISTORY_LEN
            invariant
                table@.len() <= HISTORY_LEN,
                forall|i: int| 0 <= i < table@.len() ==> #[trigger] table@[i] == 0,
            decreases HISTORY_LEN - table@.len(),
        {
            table.push(0);
        }
        HistoryHeuristic { table }
    }

    /// The table index of a colour.
    fn color_index(color: Color) -> (r: usize)
        ensures
            r == (match color {
                Color::White => 0usize,
                Color::Black => 1usize,
            }),
    {
        match color {
            Color::White => 0,
            Color::Black => 1,
        }
    }

    /// The score of a move for a colour.
    pub fn score(&self, color: Color, m: Move) -> (r: i32)
        requires
            self.wf(),
            move_on_board(m),
        ensures
            r == self@[history_index(color, m)],
            -HISTORY_MAX <= r <= HISTORY_MAX,
    {
        let i = Self::color_index(color) * 4096 + (m.from as usize) * 64 + (m.to as usize);
        self.table[i]
    }

    /// Rewards the best move and penalises the other tried quiet moves, each
    /// by the square of the depth (at most `HISTORY_MAX`).
    pub fn update(&mut self, color: Color, best: Move, tried_quiets: &[Move], depth: u32)
        requires
            old(self).wf(),
            depth * depth <= i32::MAX,
            forall|i: int| 0 <= i < tried_quiets@.len() ==> move_on_board(#[trigger] tried_quiets@[i]),
        ensures
            final(self).wf(),
            final(self)@ == spec_updated(old(self)@, color, best, tried_quiets@, spec_bonus(depth), tried_quiets@.len() as int),
    {
        let sq: i32 = (depth * depth) as i32;
        let bonus: i32 = if sq < HISTORY_MAX { sq } else { HISTORY_MAX };
        let color_idx = Self::color_index(color);
        let ghost t0 = self@;
        let n = tried_quiets.len();
        let mut k: usize = 0;
        while k < n
            invariant
                n == tried_quiets@.len(),
                k <= n,
                color_idx == (match color {
                    Color::White => 0usize,
                    Color::Black => 1usize,
                }),
                bonus == spec_bonus(depth),
                0 <= bonus <= HISTORY_MAX,
                forall|i: int| 0 <= i < tried_quiets@.len() ==> move_on_board(#[trigger] tried_quiets@[i]),
                self@.len() == HISTORY_LEN,
                history_bounded(self@),
                self@ == spec_updated(t0, color, best, tried_quiets@, bonus as int, k as int),
            decreases n - k,
        {
            let m = tried_quiets[k];
            let from = m.from as usize;
            let to = m.to as usize;
            let delta: i32 = if m == best { bonus } else { -bonus };
            let i = color_idx * 4096 + from * 64 + to;
            let e = self.table[i];
            let ad: i32 = if delta >= 0 { delta } else { -delta };
            proof {
                lemma_step_bounded(e as int, delta as int);
                assert(-HISTORY_MAX * HISTORY_MAX <= e * ad <= HISTORY_MAX * HISTORY_MAX) by (nonlinear_arith)
                    requires
                        -HISTORY_MAX <= e <= HISTORY_MAX,
                        0 <= ad <= HISTORY_MAX,
                ;
            }
            let v: i32 = e + delta - (e * ad) / HISTORY_MAX;
            assert(v == spec_history_step(e as int, delta as int));
            self.table.set(i, v);
            k = k + 1;
        }
    }

    /// Sets every entry to zero.
    pub fn clear(&mut self)
        requires
            old(self).wf(),
        ensures
            final(self).wf(),
            forall|i: int| 0 <= i < HISTORY_LEN ==> #[trigger] final(self)@[i] == 0,
    {
        let n = self.table.len();
        let mut i: usize = 0;
        while i < n
            invariant
                n == self@.len(),
                n == HISTORY_LEN,
                i <= n,
                history_bounded(self@),
                forall|j: int| 0 <= j < i ==> #[trigger] self@[j] == 0,
            decreases n - i,
        {
            self.table.set(i, 0);
            i = i + 1;
        }
    }
}

/// Records a killer move: a new move goes first and the previous first moves
/// to second; a move already first leaves the pair unchanged.
pub fn record_killer(killers: &mut [Option<Move>; 2], m: Move)
    ensures
        old(killers)@[0] == Some(m) ==> final(killers)@ == old(killers)@,
        old(killers)@[0] != Some(m) ==> final(killers)@ == seq![Some(m), old(killers)@[0]],
{
    if !opt_move_is(killers[0], m) {
        killers[1] = killers[0];
        killers[0] = Some(m);
    }
    assert(killers@ =~= seq![killers@[0], killers@[1]]);
}

/// Whether an optional move is the given move.
pub fn opt_move_is(a: Option<Move>, m: Move) -> (r: bool)
    ensures
        r == (a == Some(m)),
{
    match a {
        Some(x) => x == m,
        None => false,
    }
}

} // verus!
