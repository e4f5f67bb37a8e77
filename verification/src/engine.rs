//! Clock-driven core that glues buffer, window facts, recovery hysteresis and
//! scheduler.
//!
//! No I/O. Tests and the host inject [`ProbeSample`]s and advance time.

use vstd::prelude::*;

use crate::buffer::{law_pruning_keeps_window, pruned, window_cutoff, window_of, SampleBuffer};
use crate::config::EngineConfig;
use crate::display::DisplayState;
use crate::sample::{is_wan_success, spec_wan_success, ProbeSample};
use crate::scheduler::{sat_sub, Scheduler, SchedulerMode};
use crate::score::{assessed, evaluate, reach_timeout, reachable, WindowStats};

verus! {

/// Pure engine core. Drive it with [`Engine::ingest_round`] and [`Engine::advance_to`].
#[derive(Debug, Clone)]
pub struct Engine {
    cfg: EngineConfig,
    now_ms: u64,
    buffer: SampleBuffer,
    display: DisplayState,
    scheduler: Scheduler,
    paused: bool,
    stats: Option<WindowStats>,
}

/// How long samples are kept: the longer of the two windows.
pub open spec fn retention_ms(cfg: EngineConfig) -> u64 {
    if cfg.flap_window_ms >= cfg.quality_window_ms { cfg.flap_window_ms } else { cfg.quality_window_ms }
}

/// Latest completion instant of a round (0 for an empty round).
pub open spec fn latest_at(s: Seq<ProbeSample>) -> u64
    decreases s.len(),
{
    if s.len() == 0 {
        0
    } else if s.last().at_ms >= latest_at(s.drop_last()) {
        s.last().at_ms
    } else {
        latest_at(s.drop_last())
    }
}

/// Some WAN voter of the round succeeded.
pub open spec fn round_succeeded(s: Seq<ProbeSample>) -> bool {
    exists|k: int| 0 <= k < s.len() && spec_wan_success(#[trigger] s[k])
}

impl Engine {
    /// The engine is usable: its sample count stays within `u32` range (flap
    /// edges and window counts are reported as `u32`).
    pub closed spec fn wf(&self) -> bool {
        self.buffer@.len() <= u32::MAX
    }

    /// Live config.
    pub closed spec fn config_view(&self) -> EngineConfig {
        self.cfg
    }

    /// Engine clock.
    pub closed spec fn clock(&self) -> u64 {
        self.now_ms
    }

    /// Retained samples, in arrival order.
    pub closed spec fn samples(&self) -> Seq<ProbeSample> {
        self.buffer@
    }

    /// Recovery hysteresis of the paint.
    pub closed spec fn gate(&self) -> DisplayState {
        self.display
    }

    /// Probe cadence.
    pub closed spec fn cadence(&self) -> Scheduler {
        self.scheduler
    }

    /// Probing is paused.
    pub closed spec fn is_paused(&self) -> bool {
        self.paused
    }

    /// Facts of the latest scoring, if any has happened.
    pub closed spec fn last_stats(&self) -> Option<WindowStats> {
        self.stats
    }

    /// New engine at t=0, painted violet, scheduler bursting (cold start).
    pub fn new(cfg: EngineConfig) -> (e: Engine)
        ensures
            e.wf(),
            e.config_view() == cfg,
            e.clock() == 0,
            e.samples() == Seq::<ProbeSample>::empty(),
            e.gate() == DisplayState::reset(),
            e.cadence() == (Scheduler {
                mode: SchedulerMode::Uncertain,
                last_probe_ms: None,
                last_success_ms: None,
                clean_since_ms: None,
                started_ms: 0,
            }),
            !e.is_paused(),
            e.last_stats() is None,
    {
        Engine {
            scheduler: Scheduler::new(0),
            cfg,
            now_ms: 0,
            buffer: SampleBuffer::new(),
            display: DisplayState::new(),
            paused: false,
            stats: None,
        }
    }

    /// Live config.
    pub fn config(&self) -> (c: &EngineConfig)
        ensures
            *c == self.config_view(),
    {
        &self.cfg
    }

    /// Current engine clock, milliseconds.
    pub fn now_ms(&self) -> (t: u64)
        ensures
            t == self.clock(),
    {
        self.now_ms
    }

    /// Probe scheduler (spacing / in-flight).
    pub fn scheduler(&self) -> (s: &Scheduler)
        ensures
            *s == self.cadence(),
    {
        &self.scheduler
    }

    /// Recovery hysteresis of the paint.
    pub fn display(&self) -> (d: &DisplayState)
        ensures
            *d == self.gate(),
    {
        &self.display
    }

    /// Retained samples.
    pub fn buffer(&self) -> (b: &SampleBuffer)
        ensures
            b@ == self.samples(),
    {
        &self.buffer
    }

    /// Facts of the latest scoring (`None` before the first one).
    pub fn stats(&self) -> (s: &Option<WindowStats>)
        ensures
            *s == self.last_stats(),
    {
        &self.stats
    }

    /// Whether probing is paused.
    pub fn paused(&self) -> (p: bool)
        ensures
            p == self.is_paused(),
    {
        self.paused
    }

    /// Pause probing. The paint freezes on its last value in the host; truth
    /// still updates if samples are ingested.
    pub fn set_paused(&mut self, paused: bool)
        requires
            old(self).wf(),
        ensures
            final(self).wf(),
            final(self).is_paused() == paused,
            final(self).config_view() == old(self).config_view(),
            final(self).clock() == old(self).clock(),
            final(self).samples() == old(self).samples(),
            final(self).gate() == old(self).gate(),
            final(self).cadence() == old(self).cadence(),
            final(self).last_stats() == old(self).last_stats(),
    {
        self.paused = paused;
    }

    fn prune(&mut self)
        requires
            old(self).wf(),
        ensures
            final(self).wf(),
            final(self).samples() == pruned(
                old(self).samples(),
                window_cutoff(old(self).now_ms, retention_ms(old(self).cfg)),
            ),
            final(self).samples().len() <= old(self).samples().len(),
            *final(self) == (Engine { buffer: final(self).buffer, ..*old(self) }),
    {
        let max_age = if self.cfg.flap_window_ms >= self.cfg.quality_window_ms {
            self.cfg.flap_window_ms
        } else {
            self.cfg.quality_window_ms
        };
        self.buffer.prune(self.now_ms, max_age);
        proof {
            old(self).buffer@.lemma_filter_len(|x: ProbeSample| x.at_ms >= window_cutoff(old(self).now_ms, max_age));
        }
    }

    /// Advance the clock (never backwards), prune, rescore, and step the
    /// recovery gate. Use this for animation frames, not to timestamp a round.
    pub fn advance_to(&mut self, now_ms: u64)
        requires
            old(self).wf(),
        ensures
            final(self).wf(),
            final(self).clock() == if now_ms >= old(self).clock() { now_ms } else { old(self).clock() },
            final(self).samples() == pruned(
                old(self).samples(),
                window_cutoff(final(self).clock(), retention_ms(old(self).config_view())),
            ),
            final(self).last_stats() matches Some(r) && assessed(
                r,
                final(self).samples(),
                final(self).clock(),
                old(self).config_view(),
                old(self).cadence().mode,
            ) && final(self).gate() == old(self).gate().after_step(
                final(self).clock(),
                r.wan_reachable,
                old(self).config_view(),
            ),
            final(self).config_view() == old(self).config_view(),
            final(self).cadence() == old(self).cadence(),
            final(self).is_paused() == old(self).is_paused(),
    {
        let now_ms = if now_ms >= self.now_ms { now_ms } else { self.now_ms };
        self.now_ms = now_ms;
        self.prune();
        let q = evaluate(&self.buffer, now_ms, &self.cfg, self.scheduler.mode());
        self.display.step(now_ms, q.wan_reachable, &self.cfg);
        self.stats = Some(q);
    }

    /// Ingest a parallel probe round. The clock jumps to the latest sample time
    /// (pruning first) without treating the gap as display time; the scheduler
    /// only sees the round when not paused.
    pub fn ingest_round(&mut self, samples: Vec<ProbeSample>)
        requires
            old(self).wf(),
            old(self).samples().len() + samples@.len() <= u32::MAX,
        ensures
            final(self).wf(),
            final(self).config_view() == old(self).config_view(),
            final(self).is_paused() == old(self).is_paused(),
            samples@.len() == 0 ==> *final(self) == *old(self),
            samples@.len() > 0 ==> {
                let at = latest_at(samples@);
                let now = if at > old(self).clock() { at } else { old(self).clock() };
                let kept = if at > old(self).clock() {
                    pruned(old(self).samples(), window_cutoff(at, retention_ms(old(self).config_view())))
                } else {
                    old(self).samples()
                };
                let any = round_succeeded(samples@);
                let cfg = old(self).config_view();
                &&& final(self).clock() == now
                &&& final(self).samples() == kept + samples@
                &&& final(self).last_stats() matches Some(r) && assessed(
                    r,
                    final(self).samples(),
                    now,
                    cfg,
                    old(self).cadence().mode,
                ) && final(self).gate() == old(self).gate().after_round(now, any, cfg).after_step(
                    now,
                    r.wan_reachable,
                    cfg,
                )
                &&& final(self).cadence() == if old(self).is_paused() {
                    old(self).cadence()
                } else {
                    old(self).cadence().after_round(now, any, cfg)
                }
            },
    {
        let n = samples.len();
        if n == 0 {
            return;
        }
        let mut at: u64 = 0;
        let mut any = false;
        for i in 0..n
            invariant
                n == samples@.len(),
                at == latest_at(samples@.take(i as int)),
                any == round_succeeded(samples@.take(i as int)),
        {
            proof {
                assert(samples@.take(i + 1).drop_last() =~= samples@.take(i as int));
                assert(samples@.take(i + 1).last() == samples@[i as int]);
                if round_succeeded(samples@.take(i as int)) {
                    let k = choose|k: int| 0 <= k < i && spec_wan_success(#[trigger] samples@.take(i as int)[k]);
                    assert(samples@.take(i + 1)[k] == samples@.take(i as int)[k]);
                }
                if round_succeeded(samples@.take(i + 1)) && !spec_wan_success(samples@[i as int]) {
                    let k = choose|k: int| 0 <= k < i + 1 && spec_wan_success(#[trigger] samples@.take(i + 1)[k]);
                    assert(k != i);
                    assert(samples@.take(i as int)[k] == samples@.take(i + 1)[k]);
                }
                if spec_wan_success(samples@[i as int]) {
                    assert(samples@.take(i + 1)[i as int] == samples@[i as int]);
                }
            }
            if samples[i].at_ms >= at {
                at = samples[i].at_ms;
            }
            if is_wan_success(&samples[i]) {
                any = true;
            }
        }
        assert(samples@.take(n as int) =~= samples@);
        if at > self.now_ms {
            self.now_ms = at;
            self.prune();
        }
        let ghost kept = self.buffer@;
        for i in 0..n
            invariant
                n == samples@.len(),
                self.buffer@ == kept + samples@.take(i as int),
                kept.len() + samples@.len() <= u32::MAX,
                self.now_ms == if at > old(self).now_ms { at } else { old(self).now_ms },
                self.cfg == old(self).cfg,
                self.display == old(self).display,
                self.scheduler == old(self).scheduler,
                self.paused == old(self).paused,
        {
            self.buffer.push(samples[i].duplicate());
            assert(kept + samples@.take(i + 1) =~= (kept + samples@.take(i as int)).push(samples@[i as int]));
        }
        assert(samples@.take(n as int) =~= samples@);
        let now_ms = self.now_ms;
        let q = evaluate(&self.buffer, now_ms, &self.cfg, self.scheduler.mode());
        self.display.on_round(now_ms, any, &self.cfg);
        if !self.paused {
            self.scheduler.on_round(now_ms, any, &self.cfg);
        }
        self.display.step(now_ms, q.wan_reachable, &self.cfg);
        self.stats = Some(q);
    }

    /// OS path change: drop stale samples and burst immediately.
    pub fn path_changed(&mut self)
        requires
            old(self).wf(),
        ensures
            final(self).wf(),
            final(self).clock() == old(self).clock(),
            final(self).samples() == pruned(
                old(self).samples(),
                sat_sub(old(self).clock(), old(self).config_view().stale_ms),
            ),
            final(self).cadence() == old(self).cadence().after_interrupt(),
            final(self).last_stats() matches Some(r) && assessed(
                r,
                final(self).samples(),
                final(self).clock(),
                old(self).config_view(),
                final(self).cadence().mode,
            ) && final(self).gate() == old(self).gate().after_step(
                final(self).clock(),
                r.wan_reachable,
                old(self).config_view(),
            ),
            final(self).config_view() == old(self).config_view(),
            final(self).is_paused() == old(self).is_paused(),
    {
        let cutoff = self.now_ms.saturating_sub(self.cfg.stale_ms);
        self.buffer.drop_older_than(cutoff);
        proof {
            old(self).buffer@.lemma_filter_len(|x: ProbeSample| x.at_ms >= cutoff);
        }
        self.scheduler.interrupt(self.now_ms);
        let q = evaluate(&self.buffer, self.now_ms, &self.cfg, self.scheduler.mode());
        self.display.step(self.now_ms, q.wan_reachable, &self.cfg);
        self.stats = Some(q);
    }

    /// Sleep-wake: same as path change (stale samples lie).
    pub fn resume_from_sleep(&mut self)
        requires
            old(self).wf(),
        ensures
            final(self).wf(),
            final(self).clock() == old(self).clock(),
            final(self).samples() == pruned(
                old(self).samples(),
                sat_sub(old(self).clock(), old(self).config_view().stale_ms),
            ),
            final(self).cadence() == old(self).cadence().after_interrupt(),
            final(self).last_stats() matches Some(r) && assessed(
                r,
                final(self).samples(),
                final(self).clock(),
                old(self).config_view(),
                final(self).cadence().mode,
            ) && final(self).gate() == old(self).gate().after_step(
                final(self).clock(),
                r.wan_reachable,
                old(self).config_view(),
            ),
            final(self).config_view() == old(self).config_view(),
            final(self).is_paused() == old(self).is_paused(),
    {
        self.path_changed();
    }

    /// Record that the host launched a probe round now.
    pub fn mark_probed(&mut self)
        requires
            old(self).wf(),
        ensures
            final(self).wf(),
            final(self).cadence() == (Scheduler { last_probe_ms: Some(old(self).clock()), ..old(self).cadence() }),
            final(self).clock() == old(self).clock(),
            final(self).samples() == old(self).samples(),
            final(self).gate() == old(self).gate(),
            final(self).last_stats() == old(self).last_stats(),
            final(self).config_view() == old(self).config_view(),
            final(self).is_paused() == old(self).is_paused(),
    {
        let now = self.now_ms;
        self.scheduler.mark_probed(now);
    }

    /// Whether the host should fire a probe round at the current clock.
    pub fn should_probe(&self) -> (b: bool)
        ensures
            b == self.cadence().probe_due(self.clock(), self.config_view(), self.is_paused()),
    {
        self.scheduler.should_probe(self.now_ms, &self.cfg, self.paused)
    }

    /// The painted value follows the score (rather than violet): the latest
    /// facts say WAN is reachable and recovery released the paint.
    pub fn paints_score(&self) -> (b: bool)
        ensures
            b == (self.last_stats() matches Some(r) && r.wan_reachable && self.gate().declared_up),
    {
        match &self.stats {
            Some(r) => self.display.paints_score(r.wan_reachable),
            None => false,
        }
    }
}

/// A round in which no WAN voter succeeded leaves the paint violet, whatever
/// the window says.
pub proof fn law_failed_round_paints_violet(d: DisplayState, now_ms: u64, reachable: bool, cfg: EngineConfig)
    ensures
        !d.after_round(now_ms, false, cfg).after_step(now_ms, reachable, cfg).declared_up,
{
}

/// Pruning never hides a sample from either window: the engine keeps samples
/// for at least the flap window and at least the quality window, so both
/// windows of the retained samples are those of all samples.
pub proof fn law_retention_keeps_both_windows(s: Seq<ProbeSample>, now_ms: u64, cfg: EngineConfig)
    ensures
        retention_ms(cfg) >= cfg.flap_window_ms,
        retention_ms(cfg) >= cfg.quality_window_ms,
        window_of(pruned(s, window_cutoff(now_ms, retention_ms(cfg))), now_ms, cfg.flap_window_ms)
            == window_of(s, now_ms, cfg.flap_window_ms),
        window_of(pruned(s, window_cutoff(now_ms, retention_ms(cfg))), now_ms, cfg.quality_window_ms)
            == window_of(s, now_ms, cfg.quality_window_ms),
{
    let c = window_cutoff(now_ms, retention_ms(cfg));
    law_pruning_keeps_window(s, c, now_ms, cfg.flap_window_ms);
    law_pruning_keeps_window(s, c, now_ms, cfg.quality_window_ms);
}

/// Pruning never changes the score: when the mode's dead-man window is no
/// longer than the retention, the facts scored from the retained samples are
/// exactly those of all samples.
pub proof fn law_pruning_keeps_the_score(
    r: WindowStats,
    s: Seq<ProbeSample>,
    now_ms: u64,
    cfg: EngineConfig,
    mode: SchedulerMode,
)
    requires
        reach_timeout(mode, cfg) <= retention_ms(cfg),
    ensures
        assessed(r, pruned(s, window_cutoff(now_ms, retention_ms(cfg))), now_ms, cfg, mode)
            == assessed(r, s, now_ms, cfg, mode),
{
    let c = window_cutoff(now_ms, retention_ms(cfg));
    let keep = |x: ProbeSample| x.at_ms >= c;
    let p = pruned(s, c);
    let reach = reach_timeout(mode, cfg);
    law_retention_keeps_both_windows(s, now_ms, cfg);
    if reachable(p, now_ms, reach) {
        let k = choose|k: int|
            0 <= k < p.len() && p[k].at_ms <= now_ms && spec_wan_success(#[trigger] p[k]) && now_ms
                - p[k].at_ms <= reach;
        assert(p.contains(p[k]));
        s.lemma_filter_contains_rev(keep, p[k]);
        let j = choose|j: int| 0 <= j < s.len() && s[j] == p[k];
        assert(s[j] == p[k]);
    }
    if reachable(s, now_ms, reach) {
        let k = choose|k: int|
            0 <= k < s.len() && s[k].at_ms <= now_ms && spec_wan_success(#[trigger] s[k]) && now_ms
                - s[k].at_ms <= reach;
        assert(keep(s[k]));
        s.lemma_filter_contains(keep, k);
        let j = choose|j: int| 0 <= j < p.len() && p[j] == s[k];
        assert(p[j] == s[k]);
    }
    assert(reachable(p, now_ms, reach) == reachable(s, now_ms, reach));
}

/// A round's instant is its latest sample: no sample of the round is later,
/// and a non-empty round has a sample at that instant.
pub proof fn law_round_instant_is_latest(s: Seq<ProbeSample>)
    ensures
        forall|k: int| 0 <= k < s.len() ==> #[trigger] s[k].at_ms <= latest_at(s),
        s.len() > 0 ==> exists|k: int| 0 <= k < s.len() && #[trigger] s[k].at_ms == latest_at(s),
    decreases s.len(),
{
    if s.len() > 0 {
        law_round_instant_is_latest(s.drop_last());
        assert forall|k: int| 0 <= k < s.len() implies #[trigger] s[k].at_ms <= latest_at(s) by {
            if k < s.len() - 1 {
                assert(s[k] == s.drop_last()[k]);
            }
        }
        if s.last().at_ms >= latest_at(s.drop_last()) {
            assert(s[s.len() - 1].at_ms == latest_at(s));
        } else {
            let k = choose|k: int| 0 <= k < s.drop_last().len() && #[trigger] s.drop_last()[k].at_ms == latest_at(s.drop_last());
            assert(s[k] == s.drop_last()[k]);
        }
    }
}

} // verus!
