//! The positions of the game so far, for repetition detection.
use vstd::prelude::*;
use std::collections::HashMap;

verus! {

broadcast use vstd::std_specs::hash::group_hash_axioms;

/// How often `h` occurs in `s`.
pub open spec fn occurrences(s: Seq<u64>, h: u64) -> nat
    decreases s.len(),
{
    if s.len() == 0 {
        0
    } else {
        occurrences(s.drop_last(), h) + if s.last() == h {
            1nat
        } else {
            0nat
        }
    }
}

/// A stack of position hashes with a count of each hash.
#[derive(Clone)]
pub struct GameHistory {
    stack: Vec<u64>,
    counts: HashMap<u64, u32>,
}

impl View for GameHistory {
    type V = Seq<u64>;

    closed spec fn view(&self) -> Seq<u64> {
        self.stack@
    }
}

impl GameHistory {
    /// The counts agree with the stack: each hash that occurs is counted by
    /// its number of occurrences, and no other hash is in the map.
    pub closed spec fn wf(&self) -> bool {
        &&& forall|h: u64| #[trigger]
            self.counts@.contains_key(h) <==> occurrences(self.stack@, h) > 0
        &&& forall|h: u64| #[trigger]
            self.counts@.contains_key(h) ==> self.counts@[h] as nat == occurrences(self.stack@, h)
    }

    /// An empty history.
    pub fn new() -> (r: GameHistory)
        ensures
            r.wf(),
            r@ == Seq::<u64>::empty(),
    {
        GameHistory { stack: Vec::new(), counts: HashMap::new() }
    }

    /// Records a position.
    pub fn push(&mut self, hash: u64)
        requires
            old(self).wf(),
            occurrences(old(self)@, hash) < u32::MAX,
        ensures
            final(self).wf(),
            final(self)@ == old(self)@.push(hash),
    {
        let ghost old_stack = self.stack@;
        self.stack.push(hash);
        proof {
            assert(self.stack@.drop_last() == old_stack);
        }
        let c: u32 = match self.counts.get(&hash) {
            Some(c) => *c,
            None => 0,
        };
        self.counts.insert(hash, c + 1);
        proof {
            assert forall|h: u64| #[trigger] self.counts@.contains_key(h) <==> occurrences(self.stack@, h) > 0 by {
                assert(self.stack@.drop_last() == old_stack);
            }
            assert forall|h: u64| #[trigger] self.counts@.contains_key(h) implies self.counts@[h] as nat
                == occurrences(self.stack@, h) by {
                assert(self.stack@.drop_last() == old_stack);
            }
        }
    }

    /// Forgets the most recent position, if any.
    pub fn pop(&mut self)
        requires
            old(self).wf(),
        ensures
            final(self).wf(),
            final(self)@ == if old(self)@.len() == 0 {
                old(self)@
            } else {
                old(self)@.drop_last()
            },
    {
        let ghost old_stack = self.stack@;
        if let Some(hash) = self.stack.pop() {
            proof {
                assert(old_stack.drop_last() == self.stack@);
                assert(occurrences(old_stack, hash) == occurrences(self.stack@, hash) + 1);
            }
            let c: u32 = match self.counts.get(&hash) {
                Some(c) => *c,
                None => 0,
            };
            if c > 1 {
                self.counts.insert(hash, c - 1);
            } else {
                self.counts.remove(&hash);
            }
            proof {
                assert forall|h: u64| #[trigger] self.counts@.contains_key(h) <==> occurrences(self.stack@, h) > 0 by {
                    assert(old_stack.drop_last() == self.stack@);
                }
                assert forall|h: u64| #[trigger] self.counts@.contains_key(h) implies self.counts@[h] as nat
                    == occurrences(self.stack@, h) by {
                    assert(old_stack.drop_last() == self.stack@);
                }
            }
        }
    }

    /// Forgets every position.
    pub fn clear(&mut self)
        ensures
            final(self).wf(),
            final(self)@ == Seq::<u64>::empty(),
    {
        self.stack.clear();
        self.counts.clear();
    }

    /// How often a position occurs in the history.
    pub fn count(&self, hash: u64) -> (r: u32)
        requires
            self.wf(),
        ensures
            r == occurrences(self@, hash),
    {
        match self.counts.get(&hash) {
            Some(c) => *c,
            None => 0,
        }
    }

    /// The number of positions recorded.
    pub fn len(&self) -> (r: usize)
        ensures
            r == self@.len(),
    {
        self.stack.len()
    }
}

/// Recording a position and then forgetting the most recent one leaves the
/// history as it was.
pub proof fn law_push_pop(s: Seq<u64>, h: u64)
    ensures
        s.push(h).drop_last() == s,
        occurrences(s.push(h), h) == occurrences(s, h) + 1,
{
    assert(s.push(h).drop_last() == s);
}

impl Default for GameHistory {
    /// An empty history, as `new` makes it.
    fn default() -> (r: GameHistory)
        ensures
            r.wf(),
            r@ == Seq::<u64>::empty(),
    {
        GameHistory::new()
    }
}

} // verus!
