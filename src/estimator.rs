//! Conversion of accumulated execution ticks into a usage rate, by
//! differencing each process's counters against its previous sample.
use vstd::prelude::*;
use std::collections::HashMap;
use crate::record::RawSample;

verus! {

broadcast use vstd::std_specs::hash::group_hash_axioms;

/// Usage is expressed in hundredths of a percent of one core: 10000 is one
/// core fully busy.
pub const FULL_CORE: u64 = 10000;

/// Hundredths of a percent of one core that `delta_ticks` ticks of execution
/// make over `delta_ms` milliseconds at `tick_rate` ticks per second.
pub open spec fn rate(delta_ticks: nat, delta_ms: nat, tick_rate: nat) -> nat {
    (delta_ticks * 10_000_000 / (tick_rate * delta_ms)) as nat
}

/// The usage reported for a sample of `ticks` at `at`, given the previous
/// counters of the same pid (if any), clamped to `ceiling`.
///
/// A first sighting, a counter that went down and a clock that did not
/// advance all report 0.
pub open spec fn usage(prev: Option<(u64, u64)>, ticks: u64, at: u64, tick_rate: nat, ceiling: nat) -> nat {
    match prev {
        None => 0,
        Some((prev_ticks, prev_at)) => {
            if ticks < prev_ticks || at <= prev_at {
                0
            } else {
                let r = rate((ticks - prev_ticks) as nat, (at - prev_at) as nat, tick_rate);
                if r > ceiling { ceiling } else { r }
            }
        },
    }
}

/// Between two sightings with counters that did not go down and a clock
/// that advanced, usage is the rate of the tick and time differences alone,
/// clamped to the ceiling.
pub proof fn lemma_usage_of_advance(
    prev_ticks: u64,
    prev_at: u64,
    ticks: u64,
    at: u64,
    tick_rate: nat,
    ceiling: nat,
)
    requires
        ticks >= prev_ticks,
        at > prev_at,
    ensures
        usage(Some((prev_ticks, prev_at)), ticks, at, tick_rate, ceiling) == if rate(
            (ticks - prev_ticks) as nat,
            (at - prev_at) as nat,
            tick_rate,
        ) > ceiling {
            ceiling
        } else {
            rate((ticks - prev_ticks) as nat, (at - prev_at) as nat, tick_rate)
        },
        usage(Some((prev_ticks, prev_at)), ticks, at, tick_rate, ceiling) <= ceiling,
{
}

/// The first sighting of a pid reports no usage.
pub proof fn lemma_first_sighting(ticks: u64, at: u64, tick_rate: nat, ceiling: nat)
    ensures
        usage(None, ticks, at, tick_rate, ceiling) == 0,
{
}

/// A counter that went down is taken as a fresh sighting: no usage.
pub proof fn lemma_counter_reset(prev: (u64, u64), ticks: u64, at: u64, tick_rate: nat, ceiling: nat)
    requires
        ticks < prev.0,
    ensures
        usage(Some(prev), ticks, at, tick_rate, ceiling) == 0,
{
}

/// The previous counters of `pid` in a map of previous counters.
pub open spec fn previous_of(m: Map<u32, (u64, u64)>, pid: u32) -> Option<(u64, u64)> {
    if m.contains_key(pid) { Some(m[pid]) } else { None }
}

/// Keeps, for each process seen so far, its last counters and when they
/// were read.
pub struct UsageEstimator {
    previous: HashMap<u32, (u64, u64)>,
    tick_rate: u64,
    ceiling: u64,
}

impl View for UsageEstimator {
    type V = Map<u32, (u64, u64)>;

    /// Last known `(cpu_ticks, sampled_at)` of each pid seen so far.
    closed spec fn view(&self) -> Map<u32, (u64, u64)> {
        self.previous@
    }
}

impl UsageEstimator {
    /// Scheduler ticks per second.
    pub closed spec fn tick_rate(&self) -> nat {
        self.tick_rate as nat
    }

    /// Largest usage ever reported.
    pub closed spec fn ceiling(&self) -> nat {
        self.ceiling as nat
    }

    pub closed spec fn wf(&self) -> bool {
        self.tick_rate > 0
    }

    /// An estimator that has seen nothing, for a host with `tick_rate`
    /// scheduler ticks per second and `core_count` logical cores; usage is
    /// capped at every core fully busy.
    pub fn new(tick_rate: u64, core_count: u32) -> (r: UsageEstimator)
        requires
            tick_rate > 0,
        ensures
            r.wf(),
            r@ == Map::<u32, (u64, u64)>::empty(),
            r.tick_rate() == tick_rate,
            r.ceiling() == core_count * FULL_CORE,
    {
        UsageEstimator {
            previous: HashMap::new(),
            tick_rate,
            ceiling: core_count as u64 * FULL_CORE,
        }
    }

    /// Reports the usage of one sample and records the sample as the
    /// previous counters of its pid.
    pub fn update(&mut self, sample: &RawSample) -> (r: u64)
        requires
            old(self).wf(),
        ensures
            final(self).wf(),
            final(self).tick_rate() == old(self).tick_rate(),
            final(self).ceiling() == old(self).ceiling(),
            final(self)@ == old(self)@.insert(sample.pid, (sample.cpu_ticks, sample.sampled_at)),
            r == usage(
                previous_of(old(self)@, sample.pid),
                sample.cpu_ticks,
                sample.sampled_at,
                old(self).tick_rate(),
                old(self).ceiling(),
            ),
    {
        let mut r: u64 = 0;
        match self.previous.get(&sample.pid) {
            Some(prev) => {
                let (prev_ticks, prev_at) = *prev;
                if sample.cpu_ticks >= prev_ticks && sample.sampled_at > prev_at {
                    let dt = (sample.cpu_ticks - prev_ticks) as u128;
                    let dms = (sample.sampled_at - prev_at) as u128;
                    assert(dt * 10_000_000 <= u64::MAX as u128 * 10_000_000) by (nonlinear_arith)
                        requires dt <= u64::MAX;
                    assert((self.tick_rate as u128) * dms <= (u64::MAX as u128) * (u64::MAX as u128))
                        by (nonlinear_arith)
                        requires self.tick_rate <= u64::MAX, dms <= u64::MAX;
                    let den = (self.tick_rate as u128) * dms;
                    assert(den > 0) by (nonlinear_arith)
                        requires den == (self.tick_rate as u128) * dms, self.tick_rate > 0, dms > 0;
                    let q = dt * 10_000_000 / den;
                    r = if q > self.ceiling as u128 { self.ceiling } else { q as u64 };
                }
            },
            None => {},
        }
        self.previous.insert(sample.pid, (sample.cpu_ticks, sample.sampled_at));
        r
    }

    /// Forgets the previous counters of every pid that `pids` does not hold.
    pub fn keep_only(&mut self, pids: &Vec<u32>)
        requires
            old(self).wf(),
        ensures
            final(self).wf(),
            final(self).tick_rate() == old(self).tick_rate(),
            final(self).ceiling() == old(self).ceiling(),
            final(self)@ == old(self)@.restrict(Set::new(|p: u32| pids@.contains(p))),
    {
        let mut kept: HashMap<u32, (u64, u64)> = HashMap::new();
        let mut i: usize = 0;
        while i < pids.len()
            invariant
                i <= pids@.len(),
                forall|p: u32| #[trigger] kept@.contains_key(p) <==> (self@.contains_key(p)
                    && pids@.take(i as int).contains(p)),
                forall|p: u32| #[trigger] kept@.contains_key(p) ==> kept@[p] == self@[p],
            decreases pids.len() - i,
        {
            let pid = pids[i];
            let ghost before = pids@.take(i as int);
            assert(pids@.take(i + 1) =~= before.push(pid));
            assert forall|p: u32| #[trigger] before.push(pid).contains(p) <==> (before.contains(p) || p == pid) by {
                if before.contains(p) {
                    let k = choose|k: int| 0 <= k < before.len() && before[k] == p;
                    assert(before.push(pid)[k] == p);
                }
                if p == pid {
                    assert(before.push(pid)[before.len() as int] == p);
                }
            }
            match self.previous.get(&pid) {
                Some(v) => {
                    kept.insert(pid, *v);
                },
                None => {},
            }
            i = i + 1;
        }
        assert(pids@.take(i as int) =~= pids@);
        self.previous = kept;
        assert(self@ =~= old(self)@.restrict(Set::new(|p: u32| pids@.contains(p))));
    }
}

} // verus!
