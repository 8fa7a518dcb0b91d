//! Alpha-beta search over the board model.
use vstd::prelude::*;
use std::sync::Arc;
use crate::board::Move;
use crate::text::{decimal_text, spec_decimal};
use vstd::string::StringExecFns;
use crate::search::heuristics::trunc_div;
use crate::time::SearchDeadline;
use crate::search::heuristics::{record_killer, spec_bonus, spec_updated, HistoryHeuristic, HISTORY_LEN};
use crate::board::{move_on_board, Color};
use crate::search::transposition::{hash_mb_in_range, raw_slots, spec_slot_count, TranspositionTable, DEFAULT_HASH_MB};

pub mod heuristics;
pub mod history;
pub mod negamax;
pub mod quiescence;
pub mod root;
pub mod slot;
pub mod transposition;

pub use history::GameHistory;

verus! {

pub const MAX_DEPTH: u32 = 64;

/// Plies for which killer moves are kept.
pub const MAX_PLY: usize = 72;

/// The bound of the search window.
pub const INF: i32 = 1_073_741_823;

pub const MATE_SCORE: i32 = 67_000_000;

/// Scores at least this far from zero announce a mate.
pub const MATE_THRESHOLD: i32 = MATE_SCORE - 1000;

pub const ASPIRATION_WINDOW: i32 = 25;

/// Nodes between two looks at the clock.
pub const TIME_CHECK_INTERVAL: u32 = 2048;

/// Counters of one search iteration, the deadline, and whether time ran out.
pub struct SearchStats {
    pub nodes: u64,
    pub tt_hits: u64,
    pub tt_cutoffs: u64,
    pub deadline: Option<SearchDeadline>,
    pub stopped: bool,
    pub time_check_counter: u32,
}

impl SearchStats {
    /// The clock countdown stays between 1 and the interval.
    pub open spec fn wf(&self) -> bool {
        1 <= self.time_check_counter <= TIME_CHECK_INTERVAL
    }

    /// Nodes left before the next look at the clock.
    pub open spec fn countdown(&self) -> int {
        self.time_check_counter as int
    }

    /// Fresh counters for an iteration with an optional deadline.
    pub fn new(deadline: Option<SearchDeadline>) -> (r: SearchStats)
        ensures
            r.wf(),
            r.nodes == 0,
            r.tt_hits == 0,
            r.tt_cutoffs == 0,
            r.deadline == deadline,
            !r.stopped,
            r.countdown() == TIME_CHECK_INTERVAL,
    {
        SearchStats {
            nodes: 0,
            tt_hits: 0,
            tt_cutoffs: 0,
            deadline,
            stopped: false,
            time_check_counter: TIME_CHECK_INTERVAL,
        }
    }

    /// Counts down one node and, every `TIME_CHECK_INTERVAL` nodes, stops
    /// the search once the deadline has passed.  A stopped search stays
    /// stopped, and only a search with a deadline stops.
    pub fn check_time(&mut self)
        requires
            old(self).wf(),
        ensures
            final(self).wf(),
            final(self).nodes == old(self).nodes,
            final(self).tt_hits == old(self).tt_hits,
            final(self).tt_cutoffs == old(self).tt_cutoffs,
            final(self).deadline == old(self).deadline,
            old(self).stopped ==> final(self).stopped && final(self).countdown() == old(self).countdown(),
            final(self).stopped ==> old(self).stopped || old(self).deadline.is_some(),
            !old(self).stopped && old(self).countdown() > 1 ==> !final(self).stopped && final(self).countdown()
                == old(self).countdown() - 1,
            !old(self).stopped && old(self).countdown() == 1 ==> final(self).countdown() == TIME_CHECK_INTERVAL,
    {
        if self.countdown_step() {
            if let Some(deadline) = self.deadline {
                let expired = deadline.expired();
                self.record_poll(expired);
            }
        }
    }

    /// The counting part of `check_time`: counts down one node unless the
    /// search has stopped, and says whether the deadline is to be polled now
    /// (the countdown ran out, restarting at `TIME_CHECK_INTERVAL`, and there
    /// is a deadline).
    pub fn countdown_step(&mut self) -> (poll: bool)
        requires
            old(self).wf(),
        ensures
            final(self).wf(),
            final(self).nodes == old(self).nodes,
            final(self).tt_hits == old(self).tt_hits,
            final(self).tt_cutoffs == old(self).tt_cutoffs,
            final(self).deadline == old(self).deadline,
            final(self).stopped == old(self).stopped,
            old(self).stopped ==> !poll && final(self).countdown() == old(self).countdown(),
            !old(self).stopped && old(self).countdown() > 1 ==> !poll && final(self).countdown() == old(self).countdown() - 1,
            !old(self).stopped && old(self).countdown() == 1 ==> final(self).countdown() == TIME_CHECK_INTERVAL && poll
                == old(self).deadline.is_some(),
    {
        if self.stopped {
            return false;
        }
        self.time_check_counter = self.time_check_counter - 1;
        if self.time_check_counter != 0 {
            return false;
        }
        self.time_check_counter = TIME_CHECK_INTERVAL;
        self.deadline.is_some()
    }

    /// The deciding part of `check_time`, given whether the deadline has
    /// passed: the search stops once it has.
    pub fn record_poll(&mut self, expired: bool)
        ensures
            final(self).stopped == (old(self).stopped || expired),
            final(self).nodes == old(self).nodes,
            final(self).tt_hits == old(self).tt_hits,
            final(self).tt_cutoffs == old(self).tt_cutoffs,
            final(self).deadline == old(self).deadline,
            final(self).countdown() == old(self).countdown(),
    {
        if expired {
            self.stopped = true;
        }
    }

    /// Counts a visited node (wrapping, as release builds do).
    pub fn count_node(&mut self)
        ensures
            final(self).nodes == old(self).nodes.wrapping_add(1),
            final(self).tt_hits == old(self).tt_hits,
            final(self).tt_cutoffs == old(self).tt_cutoffs,
            final(self).deadline == old(self).deadline,
            final(self).stopped == old(self).stopped,
            final(self).countdown() == old(self).countdown(),
            old(self).wf() ==> final(self).wf(),
    {
        self.nodes = self.nodes.wrapping_add(1);
    }
}

/// The deepest search whose history bonus (the depth squared) fits in 32 bits.
pub const MAX_SEARCH_DEPTH: u32 = 46340;

/// The search state shared by the iterations of one thread: the transposition
/// table (shared with helper threads), the killer moves per ply and the
/// history table.
pub struct Searcher {
    tt: Arc<TranspositionTable>,
    hash_mb: usize,
    killers: Vec<[Option<Move>; 2]>,
    history_table: HistoryHeuristic,
}

/// A killer table of empty pairs.
fn empty_killers() -> (r: Vec<[Option<Move>; 2]>)
    ensures
        r@.len() == MAX_PLY,
        forall|i: int| 0 <= i < MAX_PLY ==> #[trigger] r@[i] == [None::<Move>, None::<Move>],
{
    let mut k: Vec<[Option<Move>; 2]> = Vec::new();
    while k.len() < MAX_PLY
        invariant
            k@.len() <= MAX_PLY,
            forall|i: int| 0 <= i < k@.len() ==> #[trigger] k@[i] == [None::<Move>, None::<Move>],
        decreases MAX_PLY - k@.len(),
    {
        k.push([None, None]);
    }
    k
}

impl Searcher {
    /// The table, killers and history have their shapes.
    pub closed spec fn wf(&self) -> bool {
        &&& self.tt.wf()
        &&& self.killers@.len() == MAX_PLY
        &&& self.history_table.wf()
    }

    /// The table size in megabytes.
    pub closed spec fn spec_hash_mb(&self) -> usize {
        self.hash_mb
    }

    /// The number of slots of the table.
    pub closed spec fn table_slots(&self) -> int {
        self.tt.slot_count()
    }

    /// A searcher with a fresh table of the default size.
    pub fn new() -> (r: Searcher)
        ensures
            r.wf(),
            r.spec_hash_mb() == DEFAULT_HASH_MB,
            spec_slot_count(DEFAULT_HASH_MB, r.table_slots()),
            r.heuristics_clear(),
    {
        Searcher {
            tt: Arc::new(TranspositionTable::new()),
            hash_mb: DEFAULT_HASH_MB,
            killers: empty_killers(),
            history_table: HistoryHeuristic::new(),
        }
    }

    /// A helper searcher that shares an existing table.
    pub fn spawn_worker(tt: Arc<TranspositionTable>) -> (r: Searcher)
        requires
            tt.wf(),
        ensures
            r.wf(),
            r.spec_hash_mb() == DEFAULT_HASH_MB,
            r.table_slots() == tt.slot_count(),
            r.heuristics_clear(),
    {
        Searcher { tt, hash_mb: DEFAULT_HASH_MB, killers: empty_killers(), history_table: HistoryHeuristic::new() }
    }

    /// The shared table.
    pub fn table(&self) -> (r: &Arc<TranspositionTable>)
        requires
            self.wf(),
        ensures
            r.wf(),
    {
        &self.tt
    }

    /// The table size in megabytes.
    pub fn hash_mb(&self) -> (r: usize)
        ensures
            r == self.spec_hash_mb(),
    {
        self.hash_mb
    }

    /// The history scores, indexed by colour and move.
    pub closed spec fn history_scores(&self) -> Seq<i32> {
        self.history_table@
    }

    /// No killer move is recorded and every history score is zero.
    pub open spec fn heuristics_clear(&self) -> bool {
        &&& forall|i: int| 0 <= i < self.killer_table().len() ==> #[trigger] self.killer_table()[i] == [None::<Move>, None::<Move>]
        &&& forall|j: int| 0 <= j < HISTORY_LEN ==> #[trigger] self.history_scores()[j] == 0
    }

    /// Forgets all killer moves and history scores.
    fn reset_heuristics(&mut self)
        requires
            old(self).wf(),
        ensures
            final(self).wf(),
            final(self).tt == old(self).tt,
            final(self).hash_mb == old(self).hash_mb,
            final(self).heuristics_clear(),
    {
        let n = self.killers.len();
        let mut i: usize = 0;
        while i < n
            invariant
                n == self.killers@.len(),
                n == MAX_PLY,
                i <= n,
                self.history_table.wf(),
                self.tt == old(self).tt,
                self.tt.wf(),
                self.hash_mb == old(self).hash_mb,
                forall|k: int| 0 <= k < i ==> #[trigger] self.killers@[k] == [None::<Move>, None::<Move>],
            decreases n - i,
        {
            self.killers.set(i, [None, None]);
            i = i + 1;
        }
        self.history_table.clear();
    }

    /// Resizes the table to `mb` megabytes (at least one); the killers and
    /// history are reset with it.  Returns whether the size changed; an
    /// unchanged size leaves everything as it is.
    pub fn set_hash_size_mb(&mut self, mb: usize) -> (changed: bool)
        requires
            old(self).wf(),
            hash_mb_in_range(mb),
            raw_slots(mb) <= usize::MAX,
        ensures
            final(self).wf(),
            changed == ((if mb < 1 { 1 } else { mb }) != old(self).spec_hash_mb()),
            final(self).spec_hash_mb() == (if mb < 1 { 1 } else { mb }),
            changed ==> final(self).heuristics_clear() && spec_slot_count(final(self).spec_hash_mb(), final(self).table_slots()),
            !changed ==> *final(self) == *old(self),
    {
        let mb = if mb < 1 { 1 } else { mb };
        if mb == self.hash_mb {
            return false;
        }
        self.tt = Arc::new(TranspositionTable::with_size_mb(mb));
        self.hash_mb = mb;
        self.reset_heuristics();
        true
    }

    /// Forgets all killer moves and history scores.
    pub fn reset_heuristics_pub(&mut self)
        requires
            old(self).wf(),
        ensures
            final(self).wf(),
            final(self).spec_hash_mb() == old(self).spec_hash_mb(),
            final(self).table_slots() == old(self).table_slots(),
            final(self).heuristics_clear(),
    {
        self.reset_heuristics();
    }

    /// Empties the table and forgets killers and history.
    pub fn clear_tt(&mut self)
        requires
            old(self).wf(),
        ensures
            final(self).wf(),
            final(self).spec_hash_mb() == old(self).spec_hash_mb(),
            final(self).table_slots() == old(self).table_slots(),
            final(self).heuristics_clear(),
    {
        self.tt.clear();
        self.reset_heuristics();
    }

    /// The history table.
    pub fn history_table(&self) -> (r: &HistoryHeuristic)
        requires
            self.wf(),
        ensures
            r.wf(),
    {
        &self.history_table
    }

    /// The killer moves recorded for each ply.
    pub closed spec fn killer_table(&self) -> Seq<[Option<Move>; 2]> {
        self.killers@
    }

    /// The killer moves of a ply (an empty pair beyond the table).
    pub fn killers_at(&self, ply: usize) -> (r: [Option<Move>; 2])
        ensures
            ply < self.killer_table().len() ==> r == self.killer_table()[ply as int],
            ply >= self.killer_table().len() ==> r == [None::<Move>, None::<Move>],
    {
        if ply < self.killers.len() {
            self.killers[ply]
        } else {
            [None, None]
        }
    }

    /// Records a killer move at a ply within the table (as `record_killer`
    /// does); other plies, the history and the table are untouched.
    pub fn record_killer_at(&mut self, ply: usize, m: Move)
        requires
            old(self).wf(),
        ensures
            final(self).wf(),
            final(self).spec_hash_mb() == old(self).spec_hash_mb(),
            final(self).table_slots() == old(self).table_slots(),
            final(self).history_scores() == old(self).history_scores(),
            final(self).killer_table().len() == old(self).killer_table().len(),
            forall|i: int| 0 <= i < old(self).killer_table().len() && i != ply ==> #[trigger] final(self).killer_table()[i]
                == old(self).killer_table()[i],
            ply < old(self).killer_table().len() ==> (if old(self).killer_table()[ply as int][0] == Some(m) {
                final(self).killer_table()[ply as int] == old(self).killer_table()[ply as int]
            } else {
                final(self).killer_table()[ply as int]@ == seq![Some(m), old(self).killer_table()[ply as int][0]]
            }),
    {
        if ply < self.killers.len() {
            let mut k = self.killers[ply];
            record_killer(&mut k, m);
            self.killers.set(ply, k);
        }
    }

    /// Updates the history table after a beta cutoff by a quiet move.
    pub fn update_history(&mut self, color: Color, best: Move, tried_quiets: &[Move], depth: u32)
        requires
            old(self).wf(),
            depth * depth <= i32::MAX,
            forall|i: int| 0 <= i < tried_quiets@.len() ==> move_on_board(#[trigger] tried_quiets@[i]),
        ensures
            final(self).wf(),
            final(self).spec_hash_mb() == old(self).spec_hash_mb(),
            final(self).table_slots() == old(self).table_slots(),
            final(self).killer_table() == old(self).killer_table(),
            final(self).history_scores() == spec_updated(old(self).history_scores(), color, best, tried_quiets@, spec_bonus(depth), tried_quiets@.len() as int),
    {
        self.history_table.update(color, best, tried_quiets, depth);
    }
}

/// What an iterative search found: the best move of the deepest completed
/// iteration, its score and depth, and the counters summed over iterations.
#[derive(Clone, Copy, Debug)]
pub struct SearchResult {
    pub best_move: Option<Move>,
    pub score: i32,
    pub depth_reached: u32,
    pub nodes: u64,
    pub tt_hits: u64,
    pub tt_cutoffs: u64,
}

impl SearchResult {
    /// Takes in a helper thread's result: its counters are added, and its
    /// move replaces the best move when it comes from a deeper iteration.
    pub fn absorb(&mut self, helper: &SearchResult)
        ensures
            final(self).nodes == old(self).nodes.wrapping_add(helper.nodes),
            final(self).tt_hits == old(self).tt_hits.wrapping_add(helper.tt_hits),
            final(self).tt_cutoffs == old(self).tt_cutoffs.wrapping_add(helper.tt_cutoffs),
            if helper.best_move.is_some() && helper.depth_reached > old(self).depth_reached {
                &&& final(self).best_move == helper.best_move
                &&& final(self).score == helper.score
                &&& final(self).depth_reached == helper.depth_reached
            } else {
                &&& final(self).best_move == old(self).best_move
                &&& final(self).score == old(self).score
                &&& final(self).depth_reached == old(self).depth_reached
            },
    {
        self.nodes = self.nodes.wrapping_add(helper.nodes);
        self.tt_hits = self.tt_hits.wrapping_add(helper.tt_hits);
        self.tt_cutoffs = self.tt_cutoffs.wrapping_add(helper.tt_cutoffs);
        if helper.best_move.is_some() && helper.depth_reached > self.depth_reached {
            self.best_move = helper.best_move;
            self.score = helper.score;
            self.depth_reached = helper.depth_reached;
        }
    }
}

/// The UCI text of a score: `mate N` (N moves, negative when being mated)
/// for scores within 1000 of the mate score, else `cp N` in centipawns.
pub open spec fn spec_uci_score_text(score: int) -> Seq<char> {
    let a = if score < 0 { -score } else { score };
    if a >= MATE_THRESHOLD {
        let moves_to_mate = trunc_div(MATE_SCORE - a + 1, 2);
        if score > 0 {
            "mate "@ + spec_decimal(moves_to_mate)
        } else {
            "mate -"@ + spec_decimal(moves_to_mate)
        }
    } else {
        "cp "@ + spec_decimal(score)
    }
}

/// Formats a score for a UCI `info` line.
pub fn format_uci_score(score: i32) -> (r: String)
    requires
        score > i32::MIN,
    ensures
        r@ == spec_uci_score_text(score as int),
{
    let a: i32 = if score < 0 { -score } else { score };
    if a >= MATE_THRESHOLD {
        let plies_to_mate = MATE_SCORE - a;
        let moves_to_mate = (plies_to_mate + 1) / 2;
        let digits = decimal_text(moves_to_mate as i64);
        let mut text = if score > 0 { "mate ".to_owned() } else { "mate -".to_owned() };
        text.append(digits.as_str());
        text
    } else {
        let digits = decimal_text(score as i64);
        let mut text = "cp ".to_owned();
        text.append(digits.as_str());
        text
    }
}

} // verus!
