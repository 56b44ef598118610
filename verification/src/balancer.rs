//! Choosing the event loop that takes a newly accepted connection.

use crate::options::LoadBalancing;
use std::sync::atomic::{AtomicUsize, Ordering};
use vstd::prelude::*;

verus! {

/// `r` is the first position of a smallest count.
pub open spec fn is_first_min(counts: Seq<usize>, r: int) -> bool {
    &&& 0 <= r < counts.len()
    &&& forall|j: int| 0 <= j < counts.len() ==> counts[r] <= counts[j]
    &&& forall|j: int| 0 <= j < r ==> counts[j] > counts[r]
}

/// A policy that picks one of several event loops, given the number of
/// connections each of them serves.
pub trait LoadBalancer {
    fn select(&self, conn_counts: &[usize]) -> (r: usize)
        ensures
            conn_counts@.len() == 0 ==> r == 0,
            conn_counts@.len() > 0 ==> r < conn_counts@.len(),
    ;
}

/// Hands the event loops out in turn.
pub struct RoundRobin {
    next: AtomicUsize,
}

impl RoundRobin {
    /// A policy whose first pick is the first event loop.
    pub fn new() -> Self {
        RoundRobin { next: AtomicUsize::new(0) }
    }

    /// The event loop that turn number `ticket` goes to among `workers` loops.
    pub fn pick(ticket: usize, workers: usize) -> (r: usize)
        ensures
            workers == 0 ==> r == 0,
            workers > 0 ==> r == ticket % workers,
    {
        if workers == 0 {
            0
        } else {
            ticket % workers
        }
    }
}

impl LoadBalancer for RoundRobin {
    /// Takes the next turn (turns are shared between threads) and maps it to one of the loops.
    fn select(&self, conn_counts: &[usize]) -> (r: usize) {
        let workers = conn_counts.len();
        if workers == 0 {
            return 0;
        }
        let ticket = self.next.fetch_add(1, Ordering::Relaxed);
        Self::pick(ticket, workers)
    }
}

/// Picks the event loop that serves the fewest connections (the first such one).
pub struct LeastConnections;

impl LeastConnections {
    /// The policy.
    pub fn new() -> Self {
        LeastConnections
    }
}

impl LoadBalancer for LeastConnections {
    fn select(&self, conn_counts: &[usize]) -> (r: usize)
        ensures
            conn_counts@.len() > 0 ==> is_first_min(conn_counts@, r as int),
    {
        least_loaded(conn_counts)
    }
}

/// The first position of a smallest count (0 when there are none).
pub fn least_loaded(counts: &[usize]) -> (r: usize)
    ensures
        counts@.len() == 0 ==> r == 0,
        counts@.len() > 0 ==> is_first_min(counts@, r as int),
{
    let n = counts.len();
    if n == 0 {
        return 0;
    }
    let mut best: usize = 0;
    let mut i: usize = 1;
    while i < n
        invariant
            n == counts@.len(),
            1 <= i <= n,
            best < i,
            forall|j: int| 0 <= j < i ==> counts@[best as int] <= counts@[j],
            forall|j: int| 0 <= j < best ==> counts@[j] > counts@[best as int],
        decreases n - i,
    {
        if counts[i] < counts[best] {
            best = i;
        }
        i = i + 1;
    }
    best
}

enum Policy {
    RoundRobin(RoundRobin),
    LeastConnections(LeastConnections),
}

/// The load-balancing policy of an engine.
pub struct Balancer {
    inner: Policy,
}

impl Balancer {
    /// The policy an option names.
    pub closed spec fn policy(&self) -> LoadBalancing {
        match self.inner {
            Policy::RoundRobin(_) => LoadBalancing::RoundRobin,
            Policy::LeastConnections(_) => LoadBalancing::LeastConnections,
        }
    }

    /// The balancer for `option`; balancing by source address is not available.
    pub fn new(option: LoadBalancing) -> (b: Self)
        requires
            option != LoadBalancing::SourceAddrHash,
        ensures
            b.policy() == option,
    {
        match option {
            LoadBalancing::RoundRobin => Balancer { inner: Policy::RoundRobin(RoundRobin::new()) },
            _ => Balancer { inner: Policy::LeastConnections(LeastConnections::new()) },
        }
    }

    /// The event loop, among those whose connection counts are given, that
    /// takes the next connection.
    pub fn select(&self, conn_counts: &[usize]) -> (r: usize)
        ensures
            conn_counts@.len() == 0 ==> r == 0,
            conn_counts@.len() > 0 ==> r < conn_counts@.len(),
            conn_counts@.len() > 0 && self.policy() == LoadBalancing::LeastConnections
                ==> is_first_min(conn_counts@, r as int),
    {
        match &self.inner {
            Policy::RoundRobin(p) => p.select(conn_counts),
            Policy::LeastConnections(p) => p.select(conn_counts),
        }
    }
}

/// Consecutive turns go to consecutive event loops, wrapping around.
pub proof fn law_round_robin_rotates(ticket: usize, workers: usize)
    requires
        workers > 0,
        ticket < usize::MAX,
    ensures
        (ticket + 1) % (workers as int) == ((ticket % workers) + 1) % (workers as int),
{
    vstd::arithmetic::div_mod::lemma_add_mod_noop(ticket as int, 1, workers as int);
    vstd::arithmetic::div_mod::lemma_add_mod_noop(ticket as int % workers as int, 1, workers as int);
    vstd::arithmetic::div_mod::lemma_mod_twice(ticket as int, workers as int);
}

/// The event loop that turn `ticket + j` goes to among `workers` loops.
pub open spec fn turn_target(ticket: int, j: int, workers: int) -> int {
    (ticket + j) % workers
}

/// Any `workers` consecutive turns reach every event loop.
pub proof fn law_round_robin_reaches_all(ticket: int, workers: int, w: int)
    requires
        ticket >= 0,
        workers > 0,
        0 <= w < workers,
    ensures
        exists|j: int| 0 <= j < workers && #[trigger] turn_target(ticket, j, workers) == w,
{
    vstd::arithmetic::div_mod::lemma_fundamental_div_mod(ticket, workers);
    vstd::arithmetic::div_mod::lemma_mod_bound(ticket, workers);
    let r = ticket % workers;
    let q = ticket / workers;
    let j = if w >= r { w - r } else { w + workers - r };
    let q2 = if w >= r { q } else { q + 1 };
    assert(ticket + j == workers * q2 + w) by (nonlinear_arith)
        requires
            ticket == workers * q + r,
            j == (if w >= r { w - r } else { w + workers - r }),
            q2 == (if w >= r { q } else { q + 1 }),
    ;
    vstd::arithmetic::div_mod::lemma_mod_multiples_vanish(q2, w, workers);
    vstd::arithmetic::div_mod::lemma_small_mod(w as nat, workers as nat);
    assert(turn_target(ticket, j, workers) == w);
}

} // verus!
