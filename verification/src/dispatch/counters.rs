//! The per-tier request counters.

use vstd::prelude::*;

verus! {

/// The tier that answered a request.
#[derive(Debug, Clone, Copy, PartialEq, Eq, Structural)]
pub enum Tier {
    Static,
    Cached,
    Dynamic,
    NotFound,
}

/// A reading of the counters.
#[derive(Debug, Clone, Copy, PartialEq, Eq, Structural)]
pub struct CounterSnapshot {
    pub total: u64,
    pub static_hits: u64,
    pub cache_hits: u64,
    pub dynamic_hits: u64,
    pub not_found: u64,
}

/// One more than `n`, or `n` where it cannot grow.
pub open spec fn bump(n: u64) -> u64 {
    if n < u64::MAX {
        (n + 1) as u64
    } else {
        n
    }
}

/// The counters after one request answered by `tier`.
pub open spec fn counted(before: CounterSnapshot, tier: Tier) -> CounterSnapshot {
    CounterSnapshot {
        total: bump(before.total),
        static_hits: if tier == Tier::Static {
            bump(before.static_hits)
        } else {
            before.static_hits
        },
        cache_hits: if tier == Tier::Cached {
            bump(before.cache_hits)
        } else {
            before.cache_hits
        },
        dynamic_hits: if tier == Tier::Dynamic {
            bump(before.dynamic_hits)
        } else {
            before.dynamic_hits
        },
        not_found: if tier == Tier::NotFound {
            bump(before.not_found)
        } else {
            before.not_found
        },
    }
}

/// Until the total has reached its ceiling, it is the sum of the tiers.
pub open spec fn tiers_sum_to_total(c: CounterSnapshot) -> bool {
    c.total < u64::MAX ==> c.total == c.static_hits + c.cache_hits + c.dynamic_hits + c.not_found
}

/// No counter of `later` is below its value in `earlier`.
pub open spec fn not_below(earlier: CounterSnapshot, later: CounterSnapshot) -> bool {
    &&& earlier.total <= later.total
    &&& earlier.static_hits <= later.static_hits
    &&& earlier.cache_hits <= later.cache_hits
    &&& earlier.dynamic_hits <= later.dynamic_hits
    &&& earlier.not_found <= later.not_found
}

/// Counting a request keeps the tiers summing to the total and lowers no
/// counter.
pub proof fn lemma_counted(before: CounterSnapshot, tier: Tier)
    requires
        tiers_sum_to_total(before),
    ensures
        tiers_sum_to_total(counted(before, tier)),
        not_below(before, counted(before, tier)),
{
}

/// The counters of a dispatcher: the total and one per tier. They only
/// grow, and stop at the largest value they can hold.
pub struct Counters {
    state: CounterSnapshot,
}

impl View for Counters {
    type V = CounterSnapshot;

    closed spec fn view(&self) -> CounterSnapshot {
        self.state
    }
}

/// One more than `n`, or `n` where it cannot grow.
fn bumped(n: u64) -> (m: u64)
    ensures
        m == bump(n),
    no_unwind
{
    if n < u64::MAX {
        n + 1
    } else {
        n
    }
}

impl Counters {
    #[verifier::type_invariant]
    spec fn inv(&self) -> bool {
        tiers_sum_to_total(self.state)
    }

    /// Counters that all read zero.
    pub fn new() -> (c: Counters)
        ensures
            c@ == (CounterSnapshot {
                total: 0,
                static_hits: 0,
                cache_hits: 0,
                dynamic_hits: 0,
                not_found: 0,
            }),
    {
        Counters {
            state: CounterSnapshot {
                total: 0,
                static_hits: 0,
                cache_hits: 0,
                dynamic_hits: 0,
                not_found: 0,
            },
        }
    }

    /// Counts one request answered by `tier` and returns the new total.
    pub fn record(&mut self, tier: Tier) -> (id: u64)
        ensures
            final(self)@ == counted(old(self)@, tier),
            id == final(self)@.total,
            tiers_sum_to_total(final(self)@),
        no_unwind
    {
        proof {
            use_type_invariant(&*self);
            lemma_counted(self.state, tier);
        }
        let before = self.state;
        let after = CounterSnapshot {
            total: bumped(before.total),
            static_hits: match tier {
                Tier::Static => bumped(before.static_hits),
                _ => before.static_hits,
            },
            cache_hits: match tier {
                Tier::Cached => bumped(before.cache_hits),
                _ => before.cache_hits,
            },
            dynamic_hits: match tier {
                Tier::Dynamic => bumped(before.dynamic_hits),
                _ => before.dynamic_hits,
            },
            not_found: match tier {
                Tier::NotFound => bumped(before.not_found),
                _ => before.not_found,
            },
        };
        self.state = after;
        after.total
    }

    /// The current reading.
    pub fn snapshot(&self) -> (s: CounterSnapshot)
        ensures
            s == self@,
            tiers_sum_to_total(s),
    {
        proof {
            use_type_invariant(self);
        }
        self.state
    }
}

} // verus!
