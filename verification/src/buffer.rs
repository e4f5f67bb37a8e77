//! Ring of timestamped samples. Pruning is explicit so tests can freeze time.

use std::collections::VecDeque;
use vstd::prelude::*;

use crate::sample::ProbeSample;

verus! {

/// `now - window`, saturating at zero: samples older than this are dropped
/// when the buffer is pruned to a retention of `window`.
pub open spec fn window_cutoff(now: u64, window: u64) -> u64 {
    if window <= now { (now - window) as u64 } else { 0 }
}

/// A sample lies in `(now - window, now]`: strictly after `now - window` and
/// not after `now`. When `window > now` every sample up to `now` qualifies.
pub open spec fn in_window(now: u64, window: u64, s: ProbeSample) -> bool {
    (now as int - window as int) < s.at_ms as int && s.at_ms <= now
}

/// The samples of `samples` inside the window, in buffer order.
pub open spec fn window_of(samples: Seq<ProbeSample>, now: u64, window: u64) -> Seq<ProbeSample> {
    samples.filter(|s: ProbeSample| in_window(now, window, s))
}

/// In-memory sample ring, in arrival order (oldest first while rounds arrive in
/// time order).
#[derive(Debug, Clone)]
pub struct SampleBuffer {
    samples: VecDeque<ProbeSample>,
}

impl View for SampleBuffer {
    type V = Seq<ProbeSample>;

    closed spec fn view(&self) -> Seq<ProbeSample> {
        self.samples@
    }
}

impl SampleBuffer {
    /// Empty buffer.
    pub fn new() -> (b: SampleBuffer)
        ensures
            b@ == Seq::<ProbeSample>::empty(),
    {
        SampleBuffer { samples: VecDeque::new() }
    }

    /// Append a sample. Does not prune; the engine prunes on clock advance.
    pub fn push(&mut self, sample: ProbeSample)
        ensures
            final(self)@ == old(self)@.push(sample),
    {
        self.samples.push_back(sample);
    }

    /// Number of retained samples.
    pub fn len(&self) -> (n: usize)
        ensures
            n == self@.len(),
    {
        self.samples.len()
    }

    /// The `i`-th retained sample, in arrival order.
    pub fn get(&self, i: usize) -> (s: &ProbeSample)
        requires
            i < self@.len(),
        ensures
            *s == self@[i as int],
    {
        &self.samples[i]
    }

    /// Drop samples strictly older than `now_ms - max_age_ms` (saturating).
    pub fn prune(&mut self, now_ms: u64, max_age_ms: u64)
        ensures
            final(self)@ == pruned(old(self)@, window_cutoff(now_ms, max_age_ms)),
    {
        let cutoff = now_ms.saturating_sub(max_age_ms);
        self.drop_older_than(cutoff);
    }

    /// Drop every sample with `at_ms < cutoff_ms`, keeping the others in order.
    pub fn drop_older_than(&mut self, cutoff_ms: u64)
        ensures
            final(self)@ == pruned(old(self)@, cutoff_ms),
    {
        let mut kept: VecDeque<ProbeSample> = VecDeque::new();
        let n = self.samples.len();
        let ghost pred = |s: ProbeSample| s.at_ms >= cutoff_ms;
        for i in 0..n
            invariant
                n == self.samples@.len(),
                pred == (|s: ProbeSample| s.at_ms >= cutoff_ms),
                kept@ == self.samples@.take(i as int).filter(pred),
        {
            proof {
                assert(self.samples@.take(i + 1) =~= self.samples@.take(i as int).push(self.samples@[i as int]));
                self.samples@.take(i as int).lemma_filter_push(self.samples@[i as int], pred);
            }
            let s = &self.samples[i];
            if s.at_ms >= cutoff_ms {
                kept.push_back(s.duplicate());
            }
        }
        proof {
            assert(self.samples@.take(n as int) =~= self.samples@);
        }
        self.samples = kept;
    }

    /// Samples in `(now - window, now]` (open on the left, inclusive on the
    /// right), in buffer order.
    pub fn in_window(&self, now_ms: u64, window_ms: u64) -> (w: Vec<ProbeSample>)
        ensures
            w@ == window_of(self@, now_ms, window_ms),
    {
        let whole = window_ms > now_ms;
        let start = if whole { 0 } else { now_ms - window_ms };
        let mut out: Vec<ProbeSample> = Vec::new();
        let n = self.samples.len();
        let ghost pred = |s: ProbeSample| in_window(now_ms, window_ms, s);
        for i in 0..n
            invariant
                n == self.samples@.len(),
                whole == (window_ms > now_ms),
                !whole ==> start == now_ms - window_ms,
                pred == (|s: ProbeSample| in_window(now_ms, window_ms, s)),
                out@ == self.samples@.take(i as int).filter(pred),
        {
            proof {
                assert(self.samples@.take(i + 1) =~= self.samples@.take(i as int).push(self.samples@[i as int]));
                self.samples@.take(i as int).lemma_filter_push(self.samples@[i as int], pred);
            }
            let s = &self.samples[i];
            let keep = (whole || s.at_ms > start) && s.at_ms <= now_ms;
            assert(keep == pred(self.samples@[i as int]));
            if keep {
                out.push(s.duplicate());
            }
        }
        proof {
            assert(self.samples@.take(n as int) =~= self.samples@);
        }
        out
    }
}

/// `s` without the samples older than `cutoff`, the others in order.
pub open spec fn pruned(s: Seq<ProbeSample>, cutoff: u64) -> Seq<ProbeSample> {
    s.filter(|x: ProbeSample| x.at_ms >= cutoff)
}

/// Pruning never changes what a window sees: when every sample that pruning may
/// drop is older than the window's own cutoff, the windowed samples before and
/// after pruning are the same.
pub proof fn law_pruning_keeps_window(s: Seq<ProbeSample>, cutoff: u64, now: u64, window: u64)
    requires
        cutoff <= window_cutoff(now, window),
    ensures
        window_of(pruned(s, cutoff), now, window) == window_of(s, now, window),
    decreases s.len(),
{
    let keep = |x: ProbeSample| x.at_ms >= cutoff;
    let w = |x: ProbeSample| in_window(now, window, x);
    if s.len() > 0 {
        let init = s.drop_last();
        let x = s.last();
        law_pruning_keeps_window(init, cutoff, now, window);
        assert(s =~= init.push(x));
        init.lemma_filter_push(x, keep);
        init.lemma_filter_push(x, w);
        init.filter(keep).lemma_filter_push(x, w);
        if w(x) {
            assert(keep(x));
        }
    }
}

/// Pruning keeps exactly the samples at or after the cutoff, and a window
/// holds exactly the samples strictly after `now - window` and not after
/// `now`.
pub proof fn law_membership_of_pruned_and_window(s: Seq<ProbeSample>, cutoff: u64, now: u64, window: u64, x: ProbeSample)
    ensures
        pruned(s, cutoff).contains(x) <==> (s.contains(x) && x.at_ms >= cutoff),
        window_of(s, now, window).contains(x) <==> (s.contains(x) && (now as int - window as int) < (x.at_ms as int)
            && x.at_ms <= now),
        pruned(s, cutoff).len() <= s.len(),
        window_of(s, now, window).len() <= s.len(),
{
    let keep = |y: ProbeSample| y.at_ms >= cutoff;
    let w = |y: ProbeSample| in_window(now, window, y);
    s.lemma_filter_len(keep);
    s.lemma_filter_len(w);
    if pruned(s, cutoff).contains(x) {
        s.lemma_filter_contains_rev(keep, x);
        let i = choose|i: int| 0 <= i < s.filter(keep).len() && s.filter(keep)[i] == x;
        s.lemma_filter_pred(keep, i);
    }
    if s.contains(x) && x.at_ms >= cutoff {
        let i = choose|i: int| 0 <= i < s.len() && s[i] == x;
        s.lemma_filter_contains(keep, i);
    }
    if window_of(s, now, window).contains(x) {
        s.lemma_filter_contains_rev(w, x);
        let i = choose|i: int| 0 <= i < s.filter(w).len() && s.filter(w)[i] == x;
        s.lemma_filter_pred(w, i);
    }
    if s.contains(x) && in_window(now, window, x) {
        let i = choose|i: int| 0 <= i < s.len() && s[i] == x;
        s.lemma_filter_contains(w, i);
    }
}

} // verus!
