//! Decisions of the host's probe loop: one round in flight at a time, the
//! engine clock frozen while a round runs, and a stuck round given up after a
//! while. The host performs the I/O and reports back.

use vstd::prelude::*;

use crate::sample::ProbeSample;

verus! {

/// A round still unanswered after this long is given up, milliseconds.
pub const STUCK_ROUND_MS: u64 = 2_000;

/// Whether a probe round is in flight, and since when.
#[derive(Debug, Clone, Copy, PartialEq, Eq, Structural)]
pub struct RoundTracker {
    /// A round was fired and has not answered.
    pub busy: bool,
    /// When the round in flight was fired.
    pub started_ms: u64,
}

impl RoundTracker {
    /// Nothing in flight.
    pub fn new() -> (t: RoundTracker)
        ensures
            t == (RoundTracker { busy: false, started_ms: 0 }),
    {
        RoundTracker { busy: false, started_ms: 0 }
    }

    /// A round answered.
    pub fn on_results(&mut self)
        ensures
            *final(self) == (RoundTracker { busy: false, ..*old(self) }),
    {
        self.busy = false;
    }

    /// Give up a round that has been in flight for more than [`STUCK_ROUND_MS`].
    pub fn expire(&mut self, now_ms: u64)
        ensures
            *final(self) == if old(self).busy && now_ms >= old(self).started_ms && now_ms
                - old(self).started_ms > STUCK_ROUND_MS {
                RoundTracker { busy: false, ..*old(self) }
            } else {
                *old(self)
            },
    {
        if self.busy && now_ms.saturating_sub(self.started_ms) > STUCK_ROUND_MS {
            self.busy = false;
        }
    }

    /// The engine clock may advance only while no round is in flight:
    /// otherwise the dead-man would fire during a probe's own timeout.
    pub fn clock_may_advance(&self) -> (b: bool)
        ensures
            b == !self.busy,
    {
        !self.busy
    }

    /// Fire a round now: not paused, nothing in flight, and the engine says a
    /// round is due.
    pub fn should_fire(&self, paused: bool, engine_due: bool) -> (b: bool)
        ensures
            b == (!paused && !self.busy && engine_due),
    {
        !paused && !self.busy && engine_due
    }

    /// A round was fired at `now_ms`.
    pub fn fired(&mut self, now_ms: u64)
        ensures
            *final(self) == (RoundTracker { busy: true, started_ms: now_ms }),
    {
        self.busy = true;
        self.started_ms = now_ms;
    }
}

/// Stamp every sample of a live round with the host clock at delivery: a fast
/// success must not look stale because a sibling probe was still timing out.
pub fn stamp_round(samples: &mut Vec<ProbeSample>, now_ms: u64)
    ensures
        final(samples)@.len() == old(samples)@.len(),
        forall|i: int|
            0 <= i < old(samples)@.len() ==> #[trigger] final(samples)@[i] == (ProbeSample {
                at_ms: now_ms,
                ..old(samples)@[i]
            }),
{
    let n = samples.len();
    for i in 0..n
        invariant
            n == samples@.len(),
            n == old(samples)@.len(),
            forall|k: int| 0 <= k < i ==> #[trigger] samples@[k] == (ProbeSample { at_ms: now_ms, ..old(samples)@[k] }),
            forall|k: int| i <= k < n ==> #[trigger] samples@[k] == old(samples)@[k],
    {
        let mut s = samples[i].duplicate();
        s.at_ms = now_ms;
        samples.set(i, s);
    }
}

} // verus!
