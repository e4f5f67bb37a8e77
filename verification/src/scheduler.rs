//! Frugal-with-burst cadence. A miss in stable is an *interrupt*, not "see you in 1.5 s".

use vstd::prelude::*;

use crate::config::EngineConfig;

verus! {

/// Probe-loop mode. Drives spacing and in-flight count, not the painted color.
#[derive(Debug, Clone, Copy, PartialEq, Eq, Hash, Structural)]
pub enum SchedulerMode {
    /// Path looks good; cheap interval.
    Stable,
    /// First miss, path change, or cold start: burst.
    Uncertain,
    /// Dead-man: no WAN success inside `dead_ms`.
    Down,
    /// WAN samples succeeding again; keep bursting until `burst_hold_ms` clean.
    Recovering,
}

/// Stateful probe cadence. The fields are the whole state; every method's
/// contract is stated over them.
#[derive(Debug, Clone)]
pub struct Scheduler {
    /// Current mode.
    pub mode: SchedulerMode,
    /// When the last round was launched, if any since the last interrupt.
    pub last_probe_ms: Option<u64>,
    /// When the last successful round completed.
    pub last_success_ms: Option<u64>,
    /// Start of the current run of successful rounds.
    pub clean_since_ms: Option<u64>,
    /// Construction time; the dead-man counts from here before any success.
    pub started_ms: u64,
}

/// `a - b`, saturating at zero.
pub open spec fn sat_sub(a: u64, b: u64) -> u64 {
    if b <= a { (a - b) as u64 } else { 0 }
}

/// Delay between rounds in a mode.
pub open spec fn spacing_for(mode: SchedulerMode, cfg: EngineConfig) -> u64 {
    match mode {
        SchedulerMode::Stable => cfg.stable_spacing_ms,
        SchedulerMode::Uncertain | SchedulerMode::Recovering => cfg.burst_spacing_ms,
        SchedulerMode::Down => cfg.down_spacing_ms,
    }
}

/// Parallel probes per round in a mode.
pub open spec fn in_flight_for(mode: SchedulerMode, cfg: EngineConfig) -> u8 {
    match mode {
        SchedulerMode::Stable => cfg.stable_in_flight,
        SchedulerMode::Uncertain | SchedulerMode::Recovering => cfg.burst_in_flight,
        SchedulerMode::Down => cfg.down_in_flight,
    }
}

impl Scheduler {
    /// A round may start now: not paused, and either nothing was launched since
    /// the last interrupt or the mode's spacing has elapsed.
    pub open spec fn probe_due(self, now_ms: u64, cfg: EngineConfig, paused: bool) -> bool {
        !paused && match self.last_probe_ms {
            None => true,
            Some(t) => sat_sub(now_ms, t) >= spacing_for(self.mode, cfg),
        }
    }

    /// The dead-man has fired at `now_ms`: `dead_ms` have passed since the last
    /// success, or since start when there was none.
    pub open spec fn dead_at(self, now_ms: u64, cfg: EngineConfig) -> bool {
        match self.last_success_ms {
            Some(t) => sat_sub(now_ms, t) >= cfg.dead_ms,
            None => sat_sub(now_ms, self.started_ms) >= cfg.dead_ms,
        }
    }

    /// State after a completed round.
    ///
    /// Success: remember it, start a clean run if none is open (a recovery from
    /// down always starts a new one), go `Down -> Recovering`, and leave a burst
    /// for `Stable` once the clean run has lasted `burst_hold_ms`.
    ///
    /// Failure: close the clean run; a miss in `Stable` bursts at once
    /// (`Uncertain`, spacing reset); the dead-man sends any mode to `Down`.
    pub open spec fn after_round(self, now_ms: u64, wan_success: bool, cfg: EngineConfig) -> Scheduler {
        if wan_success {
            let clean = match self.mode {
                SchedulerMode::Down => Some(now_ms),
                _ => match self.clean_since_ms {
                    Some(c) => Some(c),
                    None => Some(now_ms),
                },
            };
            let mode = match self.mode {
                SchedulerMode::Down => SchedulerMode::Recovering,
                SchedulerMode::Stable => SchedulerMode::Stable,
                m => if sat_sub(now_ms, clean->0) >= cfg.burst_hold_ms {
                    SchedulerMode::Stable
                } else {
                    m
                },
            };
            Scheduler { mode, last_success_ms: Some(now_ms), clean_since_ms: clean, ..self }
        } else {
            let was_stable = self.mode is Stable;
            let mode = if self.dead_at(now_ms, cfg) {
                SchedulerMode::Down
            } else if was_stable {
                SchedulerMode::Uncertain
            } else {
                self.mode
            };
            Scheduler {
                mode,
                clean_since_ms: None,
                last_probe_ms: if was_stable { None } else { self.last_probe_ms },
                ..self
            }
        }
    }

    /// State after a path change or sleep-wake: leave `Stable`/`Down` for a
    /// burst, forget the clean run and the last launch.
    pub open spec fn after_interrupt(self) -> Scheduler {
        Scheduler {
            mode: match self.mode {
                SchedulerMode::Stable | SchedulerMode::Down => SchedulerMode::Uncertain,
                m => m,
            },
            clean_since_ms: None,
            last_probe_ms: None,
            ..self
        }
    }

    /// Cold start in `Uncertain` so the first probes are a burst, not a 1.5 s wait.
    pub fn new(started_ms: u64) -> (s: Scheduler)
        ensures
            s == (Scheduler {
                mode: SchedulerMode::Uncertain,
                last_probe_ms: None,
                last_success_ms: None,
                clean_since_ms: None,
                started_ms,
            }),
    {
        Scheduler {
            mode: SchedulerMode::Uncertain,
            last_probe_ms: None,
            last_success_ms: None,
            clean_since_ms: None,
            started_ms,
        }
    }

    /// Current mode.
    pub fn mode(&self) -> (m: SchedulerMode)
        ensures
            m == self.mode,
    {
        self.mode
    }

    /// Delay until the next fire, milliseconds.
    pub fn spacing_ms(&self, cfg: &EngineConfig) -> (d: u64)
        ensures
            d == spacing_for(self.mode, *cfg),
    {
        match self.mode {
            SchedulerMode::Stable => cfg.stable_spacing_ms,
            SchedulerMode::Uncertain | SchedulerMode::Recovering => cfg.burst_spacing_ms,
            SchedulerMode::Down => cfg.down_spacing_ms,
        }
    }

    /// How many probes to launch in parallel this round.
    pub fn in_flight(&self, cfg: &EngineConfig) -> (n: u8)
        ensures
            n == in_flight_for(self.mode, *cfg),
    {
        match self.mode {
            SchedulerMode::Stable => cfg.stable_in_flight,
            SchedulerMode::Uncertain | SchedulerMode::Recovering => cfg.burst_in_flight,
            SchedulerMode::Down => cfg.down_in_flight,
        }
    }

    /// Whether a probe round should start *now*.
    pub fn should_probe(&self, now_ms: u64, cfg: &EngineConfig, paused: bool) -> (b: bool)
        ensures
            b == self.probe_due(now_ms, *cfg, paused),
    {
        if paused {
            return false;
        }
        match self.last_probe_ms {
            None => true,
            Some(t) => now_ms.saturating_sub(t) >= self.spacing_ms(cfg),
        }
    }

    /// Record that a round was launched at `now_ms`.
    pub fn mark_probed(&mut self, now_ms: u64)
        ensures
            *final(self) == (Scheduler { last_probe_ms: Some(now_ms), ..*old(self) }),
    {
        self.last_probe_ms = Some(now_ms);
    }

    /// Path change, sleep-wake, or equivalent: burst immediately.
    pub fn interrupt(&mut self, _now_ms: u64)
        ensures
            *final(self) == old(self).after_interrupt(),
    {
        if self.mode == SchedulerMode::Stable {
            self.mode = SchedulerMode::Uncertain;
        }
        if self.mode == SchedulerMode::Down {
            self.mode = SchedulerMode::Uncertain;
        }
        self.clean_since_ms = None;
        self.last_probe_ms = None;
    }

    /// Consume a completed round.
    pub fn on_round(&mut self, now_ms: u64, wan_success: bool, cfg: &EngineConfig)
        ensures
            *final(self) == old(self).after_round(now_ms, wan_success, *cfg),
    {
        if wan_success {
            self.last_success_ms = Some(now_ms);
            if self.clean_since_ms.is_none() {
                self.clean_since_ms = Some(now_ms);
            }
            match self.mode {
                SchedulerMode::Down => {
                    self.mode = SchedulerMode::Recovering;
                    self.clean_since_ms = Some(now_ms);
                },
                SchedulerMode::Uncertain | SchedulerMode::Recovering => {
                    if let Some(clean) = self.clean_since_ms {
                        if now_ms.saturating_sub(clean) >= cfg.burst_hold_ms {
                            self.mode = SchedulerMode::Stable;
                        }
                    }
                },
                SchedulerMode::Stable => {},
            }
            return;
        }
        self.clean_since_ms = None;
        if self.mode == SchedulerMode::Stable {
            self.mode = SchedulerMode::Uncertain;
            self.last_probe_ms = None;
        }
        let dead = match self.last_success_ms {
            Some(t) => now_ms.saturating_sub(t) >= cfg.dead_ms,
            None => now_ms.saturating_sub(self.started_ms) >= cfg.dead_ms,
        };
        if dead {
            self.mode = SchedulerMode::Down;
        }
    }
}

/// A miss in `Stable` is an interrupt: the next round is due at once (unless
/// paused) and the cadence leaves the frugal interval.
pub proof fn law_miss_in_stable_bursts(s: Scheduler, now_ms: u64, cfg: EngineConfig)
    requires
        s.mode is Stable,
    ensures
        !(s.after_round(now_ms, false, cfg).mode is Stable),
        s.after_round(now_ms, false, cfg).probe_due(now_ms, cfg, false),
{
}

/// Pausing blocks every probe, whatever the state and the clock.
pub proof fn law_pause_blocks_probes(s: Scheduler, now_ms: u64, cfg: EngineConfig)
    ensures
        !s.probe_due(now_ms, cfg, true),
{
}

/// A path change bursts immediately: the cadence is neither frugal nor down,
/// and a round is due at once unless paused.
pub proof fn law_interrupt_bursts(s: Scheduler, now_ms: u64, cfg: EngineConfig)
    ensures
        s.after_interrupt().mode is Uncertain || s.after_interrupt().mode is Recovering,
        s.after_interrupt().probe_due(now_ms, cfg, false),
{
}

/// Outage is urgent and recovery is conservative: a failed round never makes
/// the cadence frugal, a successful one never declares the path down, and only
/// a success leaves `Down` (for `Recovering`, not straight to `Stable`).
pub proof fn law_mode_transitions(s: Scheduler, now_ms: u64, ok: bool, cfg: EngineConfig)
    ensures
        !ok ==> !(s.after_round(now_ms, ok, cfg).mode is Stable),
        ok ==> !(s.after_round(now_ms, ok, cfg).mode is Down),
        s.mode is Down && !ok ==> s.after_round(now_ms, ok, cfg).mode is Down,
        s.mode is Down && ok ==> s.after_round(now_ms, ok, cfg).mode is Recovering,
{
}

/// `Stable` is only entered after a clean run of at least `burst_hold_ms`.
pub proof fn law_stable_needs_clean_hold(s: Scheduler, now_ms: u64, ok: bool, cfg: EngineConfig)
    requires
        !(s.mode is Stable),
        s.after_round(now_ms, ok, cfg).mode is Stable,
    ensures
        ok,
        s.after_round(now_ms, ok, cfg).clean_since_ms is Some,
        sat_sub(now_ms, s.after_round(now_ms, ok, cfg).clean_since_ms->0) >= cfg.burst_hold_ms,
{
}

/// The dead-man fires on a failed round exactly when `dead_ms` have passed
/// since the last success (or since start when there was none), or the path
/// was already down.
pub proof fn law_dead_man(s: Scheduler, now_ms: u64, cfg: EngineConfig)
    ensures
        s.after_round(now_ms, false, cfg).mode is Down <==> (s.mode is Down || s.dead_at(now_ms, cfg)),
        s.after_round(now_ms, false, cfg).mode is Down <==> (s.mode is Down || match s.last_success_ms {
            Some(t) => (if now_ms >= t { now_ms - t } else { 0 }) >= cfg.dead_ms,
            None => (if now_ms >= s.started_ms { now_ms - s.started_ms } else { 0 }) >= cfg.dead_ms,
        }),
{
}

/// A clean run of `burst_hold_ms` is enough: a successful round in `Uncertain`
/// or `Recovering` whose clean run (open, or starting now) has lasted
/// `burst_hold_ms` enters `Stable`; a success in `Down` always starts a fresh
/// run in `Recovering`; a success keeps `Stable`.
pub proof fn law_clean_hold_enters_stable(s: Scheduler, now_ms: u64, cfg: EngineConfig)
    ensures
        (s.mode is Uncertain || s.mode is Recovering) ==> {
            let start = match s.clean_since_ms {
                Some(c) => c,
                None => now_ms,
            };
            (s.after_round(now_ms, true, cfg).mode is Stable <==> (if now_ms >= start {
                now_ms - start
            } else {
                0
            }) >= cfg.burst_hold_ms)
        },
        s.mode is Down ==> s.after_round(now_ms, true, cfg).mode is Recovering
            && s.after_round(now_ms, true, cfg).clean_since_ms == Some(now_ms),
        s.mode is Stable ==> s.after_round(now_ms, true, cfg).mode is Stable,
        s.after_round(now_ms, true, cfg).last_success_ms == Some(now_ms),
{
}

/// A round is due, when not paused, as soon as the current mode's spacing has
/// passed since the last launch (or at once when nothing was launched since
/// the last interrupt).
pub proof fn law_probe_due_by_mode(s: Scheduler, now_ms: u64, cfg: EngineConfig)
    ensures
        s.probe_due(now_ms, cfg, false) <==> match s.last_probe_ms {
            None => true,
            Some(t) => (if now_ms >= t { now_ms - t } else { 0 }) >= match s.mode {
                SchedulerMode::Stable => cfg.stable_spacing_ms,
                SchedulerMode::Uncertain => cfg.burst_spacing_ms,
                SchedulerMode::Recovering => cfg.burst_spacing_ms,
                SchedulerMode::Down => cfg.down_spacing_ms,
            },
        },
{
}

/// A failed round closes the clean run: right after it no run is open, and a
/// success after it starts a new run at that success. So when a failure at
/// `t_fail` is followed by successes at `t1` and `t2`, `Stable` is reached at
/// `t2` only if `burst_hold_ms` have passed since `t1`, the first success
/// after the failure.
pub proof fn law_failed_round_closes_clean_run(
    s: Scheduler,
    t_fail: u64,
    t1: u64,
    t2: u64,
    cfg: EngineConfig,
)
    ensures
        s.after_round(t_fail, false, cfg).clean_since_ms is None,
        s.after_round(t_fail, false, cfg).after_round(t1, true, cfg).clean_since_ms == Some(t1),
        s.after_round(t_fail, false, cfg).after_round(t1, true, cfg).after_round(t2, true, cfg).mode is Stable
            ==> sat_sub(t2, t1) >= cfg.burst_hold_ms,
{
}

/// `Recovering` keeps bursting: it probes at `burst_spacing_ms` with
/// `burst_in_flight` probes, exactly as `Uncertain` does, so a round is due
/// once `burst_spacing_ms` have passed since the last launch.
pub proof fn law_recovering_bursts(s: Scheduler, now_ms: u64, cfg: EngineConfig)
    requires
        s.mode is Recovering,
    ensures
        s.probe_due(now_ms, cfg, false) <==> match s.last_probe_ms {
            None => true,
            Some(t) => sat_sub(now_ms, t) >= cfg.burst_spacing_ms,
        },
        s.probe_due(now_ms, cfg, false) == (Scheduler { mode: SchedulerMode::Uncertain, ..s }).probe_due(
            now_ms,
            cfg,
            false,
        ),
        spacing_for(s.mode, cfg) == cfg.burst_spacing_ms,
        in_flight_for(s.mode, cfg) == cfg.burst_in_flight,
{
}

/// Each mode's cadence comes from its own settings: frugal in `Stable`, burst
/// in `Uncertain` and `Recovering`, the down interval in `Down`.
pub proof fn law_cadence_of_modes(cfg: EngineConfig)
    ensures
        spacing_for(SchedulerMode::Stable, cfg) == cfg.stable_spacing_ms,
        spacing_for(SchedulerMode::Uncertain, cfg) == cfg.burst_spacing_ms,
        spacing_for(SchedulerMode::Recovering, cfg) == cfg.burst_spacing_ms,
        spacing_for(SchedulerMode::Down, cfg) == cfg.down_spacing_ms,
        in_flight_for(SchedulerMode::Stable, cfg) == cfg.stable_in_flight,
        in_flight_for(SchedulerMode::Uncertain, cfg) == cfg.burst_in_flight,
        in_flight_for(SchedulerMode::Recovering, cfg) == cfg.burst_in_flight,
        in_flight_for(SchedulerMode::Down, cfg) == cfg.down_in_flight,
{
}

} // verus!
