//! Time control: the search deadline, the `go` parameters and the time budget.
use vstd::prelude::*;
use std::time::Duration;
use std::time::Instant;
use crate::board::Color;
use crate::text::{parse_unsigned, spec_parse_unsigned, text_eq};

verus! {

#[verifier::external_type_specification]
#[verifier::external_body]
pub struct ExInstant(Instant);

/// `Instant::now`: the current time of the monotonic clock.
#[verifier::external_body]
fn instant_now() -> Instant {
    Instant::now()
}

/// `Instant::checked_add`: the instant `d` after `i`, or `None` where the
/// platform's clock cannot represent it.  Which of the two comes back
/// depends on `i`, a reading of the clock, so nothing is stated of it.
#[verifier::external_body]
fn instant_checked_add(i: Instant, d: Duration) -> Option<Instant> {
    i.checked_add(d)
}

/// `Duration::MAX`: the longest duration.
#[verifier::external_body]
fn duration_max() -> Duration {
    Duration::MAX
}

/// `Instant >= Instant`.
#[verifier::external_body]
fn instant_ge(a: Instant, b: Instant) -> bool {
    a >= b
}

/// `Instant::saturating_duration_since`: the time from `b` to `a`, zero when `a` is earlier.
#[verifier::external_body]
fn instant_saturating_since(a: Instant, b: Instant) -> Duration {
    a.saturating_duration_since(b)
}

/// `Duration::from_millis`.
#[verifier::external_body]
pub(crate) fn duration_from_millis(ms: u64) -> Duration {
    Duration::from_millis(ms)
}

/// `Duration < Duration`.
#[verifier::external_body]
pub(crate) fn duration_lt(a: Duration, b: Duration) -> bool {
    a < b
}

/// The instant at which a search has to stop.  `None` stands for a budget
/// that reaches beyond what the platform's clock can represent: such a
/// deadline never passes.
#[derive(Clone, Copy, Debug)]
pub struct SearchDeadline {
    deadline: Option<Instant>,
}

impl SearchDeadline {
    /// The deadline instant, or `None` when it lies beyond the clock's range.
    pub closed spec fn spec_instant(&self) -> Option<Instant> {
        self.deadline
    }

    /// A deadline `budget` from now.
    pub fn new(budget: Duration) -> SearchDeadline {
        let now = instant_now();
        SearchDeadline { deadline: instant_checked_add(now, budget) }
    }

    /// Whether the deadline has passed; one beyond the clock's range never does.
    pub fn expired(&self) -> (r: bool)
        ensures
            self.spec_instant().is_none() ==> !r,
    {
        match self.deadline {
            Some(d) => {
                let now = instant_now();
                instant_ge(now, d)
            },
            None => false,
        }
    }

    /// The time left until the deadline, zero once it has passed (the
    /// longest duration for a deadline beyond the clock's range).
    pub fn remaining(&self) -> Duration {
        match self.deadline {
            Some(d) => {
                let now = instant_now();
                instant_saturating_since(d, now)
            },
            None => duration_max(),
        }
    }

    /// The deadline instant.
    pub fn instant(&self) -> (r: Option<Instant>)
        ensures
            r == self.spec_instant(),
    {
        self.deadline
    }
}

pub const SAFETY_MARGIN_MS: u64 = 50;
pub const DEFAULT_MOVETIME_MS: u64 = 5000;

/// The parameters of a UCI `go` command.
#[derive(Debug, Clone, Copy, PartialEq, Eq, Structural)]
pub struct GoParams {
    pub depth: Option<u32>,
    pub movetime_ms: Option<u64>,
    pub wtime_ms: Option<u64>,
    pub btime_ms: Option<u64>,
    pub winc_ms: u64,
    pub binc_ms: u64,
    pub movestogo: Option<u64>,
}

/// No limits and no increments.
pub open spec fn empty_go_params() -> GoParams {
    GoParams {
        depth: None,
        movetime_ms: None,
        wtime_ms: None,
        btime_ms: None,
        winc_ms: 0,
        binc_ms: 0,
        movestogo: None,
    }
}

impl Default for GoParams {
    fn default() -> (r: GoParams)
        ensures
            r == empty_go_params(),
    {
        GoParams {
            depth: None,
            movetime_ms: None,
            wtime_ms: None,
            btime_ms: None,
            winc_ms: 0,
            binc_ms: 0,
            movestogo: None,
        }
    }
}

/// The value after a keyword, read as an unsigned number up to `max`.
pub open spec fn value_after(toks: Seq<&str>, i: int, max: int) -> Option<int> {
    if i + 1 < toks.len() {
        spec_parse_unsigned(toks[i + 1]@, max)
    } else {
        None
    }
}

/// An optional number as a `u32`.
pub open spec fn opt_u32(v: Option<int>) -> Option<u32> {
    match v {
        Some(x) => Some(x as u32),
        None => None,
    }
}

/// An optional number as a `u64`.
pub open spec fn opt_u64(v: Option<int>) -> Option<u64> {
    match v {
        Some(x) => Some(x as u64),
        None => None,
    }
}

/// The parameters read from `toks[i..]` onto `p`: each keyword (`depth`,
/// `movetime`, `wtime`, `btime`, `winc`, `binc`, `movestogo`) sets its field
/// from the next token (none when it is missing or not a number; the
/// increments then 0) and skips that token; other tokens are ignored.
pub open spec fn spec_go_params_from(toks: Seq<&str>, i: int, p: GoParams) -> GoParams
    decreases toks.len() + 2 - i,
{
    if i < 0 || i >= toks.len() {
        p
    } else {
        let k = toks[i]@;
        if k == "depth"@ {
            spec_go_params_from(toks, i + 2, GoParams { depth: opt_u32(value_after(toks, i, u32::MAX as int)), ..p })
        } else if k == "movetime"@ {
            spec_go_params_from(toks, i + 2, GoParams { movetime_ms: opt_u64(value_after(toks, i, u64::MAX as int)), ..p })
        } else if k == "wtime"@ {
            spec_go_params_from(toks, i + 2, GoParams { wtime_ms: opt_u64(value_after(toks, i, u64::MAX as int)), ..p })
        } else if k == "btime"@ {
            spec_go_params_from(toks, i + 2, GoParams { btime_ms: opt_u64(value_after(toks, i, u64::MAX as int)), ..p })
        } else if k == "winc"@ {
            spec_go_params_from(
                toks,
                i + 2,
                GoParams { winc_ms: match value_after(toks, i, u64::MAX as int) { Some(x) => #[verifier::truncate] (x as u64), None => 0 }, ..p },
            )
        } else if k == "binc"@ {
            spec_go_params_from(
                toks,
                i + 2,
                GoParams { binc_ms: match value_after(toks, i, u64::MAX as int) { Some(x) => #[verifier::truncate] (x as u64), None => 0 }, ..p },
            )
        } else if k == "movestogo"@ {
            spec_go_params_from(toks, i + 2, GoParams { movestogo: opt_u64(value_after(toks, i, u64::MAX as int)), ..p })
        } else {
            spec_go_params_from(toks, i + 1, p)
        }
    }
}

/// The parameters of a `go` command.
pub open spec fn spec_parse_go_params(toks: Seq<&str>) -> GoParams {
    spec_go_params_from(toks, 0, empty_go_params())
}

/// Reads the number after keyword `i`, up to `max`.
fn read_value(tokens: &[&str], i: usize, max: u64) -> (r: Option<u64>)
    requires
        i < tokens@.len(),
    ensures
        match value_after(tokens@, i as int, max as int) {
            Some(v) => r.is_some() && r.unwrap() as int == v,
            None => r.is_none(),
        },
{
    if tokens.len() - i > 1 {
        parse_unsigned(tokens[i + 1], max)
    } else {
        None
    }
}

/// Reads the parameters of a UCI `go` command from its tokens.
pub fn parse_go_params(tokens: &[&str]) -> (r: GoParams)
    ensures
        r == spec_parse_go_params(tokens@),
{
    let mut params = GoParams::default();
    let n = tokens.len();
    let mut i: usize = 0;
    while i < n
        invariant
            n == tokens@.len(),
            i <= n,
            spec_go_params_from(tokens@, i as int, params) == spec_parse_go_params(tokens@),
        decreases n - i,
    {
        let k = tokens[i];
        let ghost old_i = i as int;
        let ghost old_params = params;
        assert(k@ == tokens@[old_i]@);
        if text_eq(k, "depth") {
            let v = read_value(tokens, i, u32::MAX as u64);
            params.depth = match v {
                Some(x) => Some(x as u32),
                None => None,
            };
            assert(params == GoParams { depth: opt_u32(value_after(tokens@, old_i, u32::MAX as int)), ..old_params });
            i = if n - i > 1 { i + 2 } else { n };
            assert(spec_go_params_from(tokens@, i as int, params) == spec_go_params_from(tokens@, old_i + 2, params));
        } else if text_eq(k, "movetime") {
            params.movetime_ms = read_value(tokens, i, u64::MAX);
            i = if n - i > 1 { i + 2 } else { n };
        } else if text_eq(k, "wtime") {
            params.wtime_ms = read_value(tokens, i, u64::MAX);
            i = if n - i > 1 { i + 2 } else { n };
        } else if text_eq(k, "btime") {
            params.btime_ms = read_value(tokens, i, u64::MAX);
            i = if n - i > 1 { i + 2 } else { n };
        } else if text_eq(k, "winc") {
            params.winc_ms = match read_value(tokens, i, u64::MAX) {
                Some(x) => x,
                None => 0,
            };
            i = if n - i > 1 { i + 2 } else { n };
        } else if text_eq(k, "binc") {
            params.binc_ms = match read_value(tokens, i, u64::MAX) {
                Some(x) => x,
                None => 0,
            };
            i = if n - i > 1 { i + 2 } else { n };
        } else if text_eq(k, "movestogo") {
            params.movestogo = read_value(tokens, i, u64::MAX);
            i = if n - i > 1 { i + 2 } else { n };
        } else {
            i = i + 1;
        }
    }
    params
}

/// The number of moves to spread the remaining time over: the `movestogo`
/// given (at least 1), else 12, 20 or 30 by whether under 10 s, under 30 s,
/// or more is left.
pub open spec fn spec_moves_to_go(params: GoParams, time_left: u64) -> u64 {
    match params.movestogo {
        Some(m) => if m < 1 { 1 } else { m },
        None => if time_left < 10_000 {
            12
        } else if time_left < 30_000 {
            20
        } else {
            30
        },
    }
}

/// The number of moves to spread the remaining time over.
pub fn moves_to_go(params: &GoParams, time_left: u64) -> (r: u64)
    ensures
        r == spec_moves_to_go(*params, time_left),
        r >= 1,
{
    if let Some(moves) = params.movestogo {
        return if moves < 1 { 1 } else { moves };
    }
    if time_left < 10_000 {
        12
    } else if time_left < 30_000 {
        20
    } else {
        30
    }
}

/// How a time budget is settled: a fixed number of milliseconds, or a share
/// of the clock to be scaled by the game phase and the clocks' balance.
#[derive(Debug, Clone, Copy, PartialEq, Eq, Structural)]
pub enum BudgetPlan {
    Fixed(u64),
    Scaled { time_left: u64, opponent_time: u64, allocated: u64 },
}

/// The side's clock, the opponent's clock and the side's increment.
pub open spec fn clocks(params: GoParams, side: Color) -> (Option<u64>, Option<u64>, u64) {
    match side {
        Color::White => (params.wtime_ms, params.btime_ms, params.winc_ms),
        Color::Black => (params.btime_ms, params.wtime_ms, params.binc_ms),
    }
}

/// The share of the clock before scaling: the remaining time over the
/// moves to go, plus half the increment.
pub open spec fn spec_allocated(params: GoParams, time_left: u64, increment: u64) -> int {
    time_left / spec_moves_to_go(params, time_left) + increment / 2
}

/// Clocks whose share fits in 64 bits.
pub open spec fn budget_in_range(params: GoParams, side: Color) -> bool {
    match clocks(params, side).0 {
        Some(t) => spec_allocated(params, t, clocks(params, side).2) <= u64::MAX,
        None => true,
    }
}

/// The plan for a time budget: a fixed move time (less the 50 ms safety
/// margin, at least 1 ms); 5 s when the side's clock is not given; else the
/// allocated share of the side's clock, with the opponent's clock (the
/// side's own when not given).
pub open spec fn spec_plan_time_budget(params: GoParams, side: Color) -> BudgetPlan {
    match params.movetime_ms {
        Some(mt) => BudgetPlan::Fixed(if mt > SAFETY_MARGIN_MS + 1 { (mt - SAFETY_MARGIN_MS) as u64 } else { 1 }),
        None => match clocks(params, side).0 {
            None => BudgetPlan::Fixed(DEFAULT_MOVETIME_MS),
            Some(t) => BudgetPlan::Scaled {
                time_left: t,
                opponent_time: match clocks(params, side).1 {
                    Some(o) => o,
                    None => t,
                },
                allocated: spec_allocated(params, t, clocks(params, side).2) as u64,
            },
        },
    }
}

/// Plans the time budget of a move.
pub fn plan_time_budget(params: &GoParams, side: Color) -> (r: BudgetPlan)
    requires
        budget_in_range(*params, side),
    ensures
        r == spec_plan_time_budget(*params, side),
{
    if let Some(movetime) = params.movetime_ms {
        let b = movetime.saturating_sub(SAFETY_MARGIN_MS);
        return BudgetPlan::Fixed(if b > 1 { b } else { 1 });
    }
    let (time_left, opponent_time, increment) = match side {
        Color::White => (params.wtime_ms, params.btime_ms, params.winc_ms),
        Color::Black => (params.btime_ms, params.wtime_ms, params.binc_ms),
    };
    let time_left = match time_left {
        Some(t) => t,
        None => {
            return BudgetPlan::Fixed(DEFAULT_MOVETIME_MS);
        },
    };
    let opponent_time = match opponent_time {
        Some(o) => o,
        None => time_left,
    };
    let mtg = moves_to_go(params, time_left);
    let base = time_left / mtg;
    let allocated = base + increment / 2;
    BudgetPlan::Scaled { time_left, opponent_time, allocated }
}

/// The final budget: the scaled share, capped by the clock less the safety
/// margin and by the hard cap, and at least 1 ms.
pub open spec fn spec_finish_budget(time_left: u64, scaled: u64, hard_cap: u64) -> u64 {
    let safety = if time_left > SAFETY_MARGIN_MS { (time_left - SAFETY_MARGIN_MS) as u64 } else { 0u64 };
    let a = if scaled < safety { scaled } else { safety };
    let b = if a < hard_cap { a } else { hard_cap };
    if b < 1 { 1 } else { b }
}

/// Caps a scaled share to the clock and the hard cap.
pub fn finish_time_budget(time_left: u64, scaled: u64, hard_cap: u64) -> (r: u64)
    ensures
        r == spec_finish_budget(time_left, scaled, hard_cap),
        r >= 1,
        r <= scaled || r == 1,
        r <= hard_cap || r == 1,
        r + SAFETY_MARGIN_MS <= time_left || r == 1,
{
    let safety_cap = time_left.saturating_sub(SAFETY_MARGIN_MS);
    let a = if scaled < safety_cap { scaled } else { safety_cap };
    let b = if a < hard_cap { a } else { hard_cap };
    if b < 1 { 1 } else { b }
}

} // verus!
