//! Display hysteresis: truth (the window facts) vs what we paint.
//!
//! Down is urgent (the painted target drops to zero on the next step). Up needs
//! K successful rounds and a hold.

use vstd::prelude::*;

use crate::config::EngineConfig;
use crate::scheduler::sat_sub;

verus! {

/// Recovery state of the paint. The painted value only follows the score once
/// `declared_up` holds; until then the target is zero (violet).
#[derive(Debug, Clone)]
pub struct DisplayState {
    /// Recovery hysteresis has released the paint from violet.
    pub declared_up: bool,
    /// Successful rounds in a row.
    pub consecutive_ok: u32,
    /// First success of the current recovery.
    pub recovery_started_ms: Option<u64>,
}

impl DisplayState {
    /// Released from violet if not already: enough successful rounds and the
    /// hold elapsed since the first of them.
    pub open spec fn promoted(self, now_ms: u64, cfg: EngineConfig) -> DisplayState {
        if !self.declared_up && self.recovery_started_ms is Some && self.consecutive_ok
            >= cfg.recovery_successes && sat_sub(now_ms, self.recovery_started_ms->0)
            >= cfg.recovery_hold_ms {
            DisplayState { declared_up: true, ..self }
        } else {
            self
        }
    }

    /// Back to violet: no release, no count, no recovery under way.
    pub open spec fn reset() -> DisplayState {
        DisplayState { declared_up: false, consecutive_ok: 0, recovery_started_ms: None }
    }

    /// State after a probe round: a failure resets; a success counts (saturating),
    /// opens a recovery if none is open, and may release the paint.
    pub open spec fn after_round(self, now_ms: u64, wan_success: bool, cfg: EngineConfig) -> DisplayState {
        if !wan_success {
            DisplayState::reset()
        } else {
            DisplayState {
                consecutive_ok: if self.consecutive_ok == u32::MAX {
                    u32::MAX
                } else {
                    (self.consecutive_ok + 1) as u32
                },
                recovery_started_ms: match self.recovery_started_ms {
                    Some(t) => Some(t),
                    None => Some(now_ms),
                },
                ..self
            }.promoted(now_ms, cfg)
        }
    }

    /// State after a display step: an unreachable WAN resets at once (dead-man);
    /// otherwise the paint may be released.
    pub open spec fn after_step(self, now_ms: u64, wan_reachable: bool, cfg: EngineConfig) -> DisplayState {
        if !wan_reachable {
            DisplayState::reset()
        } else {
            self.promoted(now_ms, cfg)
        }
    }

    /// Start painted at 0 (violet): never assume WAN on boot.
    pub fn new() -> (d: DisplayState)
        ensures
            d == DisplayState::reset(),
    {
        DisplayState { declared_up: false, consecutive_ok: 0, recovery_started_ms: None }
    }

    /// True once recovery hysteresis has released the paint from violet.
    pub fn declared_up(&self) -> (b: bool)
        ensures
            b == self.declared_up,
    {
        self.declared_up
    }

    /// Observe a probe *round* (parallel samples that share a timestamp).
    pub fn on_round(&mut self, now_ms: u64, wan_success: bool, cfg: &EngineConfig)
        ensures
            *final(self) == old(self).after_round(now_ms, wan_success, *cfg),
    {
        if !wan_success {
            self.consecutive_ok = 0;
            self.recovery_started_ms = None;
            self.declared_up = false;
            return;
        }
        self.consecutive_ok = self.consecutive_ok.saturating_add(1);
        if self.recovery_started_ms.is_none() {
            self.recovery_started_ms = Some(now_ms);
        }
        self.try_promote(now_ms, cfg);
    }

    fn try_promote(&mut self, now_ms: u64, cfg: &EngineConfig)
        ensures
            *final(self) == old(self).promoted(now_ms, *cfg),
    {
        if self.declared_up {
            return;
        }
        let started = match self.recovery_started_ms {
            Some(t) => t,
            None => {
                return;
            },
        };
        if self.consecutive_ok >= cfg.recovery_successes && now_ms.saturating_sub(started)
            >= cfg.recovery_hold_ms {
            self.declared_up = true;
        }
    }

    /// The recovery part of a display step: if WAN is dead, the paint returns
    /// to violet immediately (dead-man), even mid-ease; otherwise it may be
    /// released.
    pub fn step(&mut self, now_ms: u64, wan_reachable: bool, cfg: &EngineConfig)
        ensures
            *final(self) == old(self).after_step(now_ms, wan_reachable, *cfg),
    {
        if !wan_reachable {
            self.declared_up = false;
            self.consecutive_ok = 0;
            self.recovery_started_ms = None;
        } else {
            self.try_promote(now_ms, cfg);
        }
    }

    /// The painted value follows the score (rather than zero) iff WAN is
    /// reachable and the paint has been released.
    pub fn paints_score(&self, wan_reachable: bool) -> (b: bool)
        ensures
            b == (wan_reachable && self.declared_up),
    {
        wan_reachable && self.declared_up
    }
}

/// Outage is urgent: a failed round or an unreachable step sends the paint
/// back to violet at once.
pub proof fn law_outage_is_urgent(d: DisplayState, now_ms: u64, cfg: EngineConfig)
    ensures
        !d.after_round(now_ms, false, cfg).declared_up,
        !d.after_step(now_ms, false, cfg).declared_up,
{
}

/// Recovery is conservative: the paint only leaves violet when at least
/// `recovery_successes` rounds in a row succeeded and `recovery_hold_ms` have
/// passed since the first of them.
pub proof fn law_recovery_needs_successes_and_hold(
    d: DisplayState,
    now_ms: u64,
    ok: bool,
    reachable: bool,
    cfg: EngineConfig,
)
    requires
        !d.declared_up,
    ensures
        d.after_round(now_ms, ok, cfg).declared_up ==> {
            let e = d.after_round(now_ms, ok, cfg);
            &&& ok
            &&& e.consecutive_ok >= cfg.recovery_successes
            &&& e.recovery_started_ms is Some
            &&& sat_sub(now_ms, e.recovery_started_ms->0) >= cfg.recovery_hold_ms
        },
        d.after_step(now_ms, reachable, cfg).declared_up ==> {
            &&& reachable
            &&& d.consecutive_ok >= cfg.recovery_successes
            &&& d.recovery_started_ms is Some
            &&& sat_sub(now_ms, d.recovery_started_ms->0) >= cfg.recovery_hold_ms
        },
{
}

/// One success does not leave violet when more than one is required.
pub proof fn law_one_success_stays_violet(now_ms: u64, cfg: EngineConfig)
    requires
        cfg.recovery_successes > 1,
    ensures
        !DisplayState::reset().after_round(now_ms, true, cfg).declared_up,
{
}

/// An unreachable step starts recovery from scratch: afterwards the paint is
/// violet, no success is counted and no recovery is under way; the next
/// success opens a new recovery at its own time. So after an outage at `t0`
/// and successes at `t1 <= t2 <= t3`, the paint is released at `t3` only if
/// `recovery_hold_ms` have passed since `t1`.
pub proof fn law_outage_restarts_recovery(
    d: DisplayState,
    t0: u64,
    t1: u64,
    t2: u64,
    t3: u64,
    cfg: EngineConfig,
)
    requires
        t1 <= t2 <= t3,
    ensures
        !d.after_step(t0, false, cfg).declared_up,
        d.after_step(t0, false, cfg).consecutive_ok == 0,
        d.after_step(t0, false, cfg).recovery_started_ms is None,
        d.after_step(t0, false, cfg).after_round(t1, true, cfg).recovery_started_ms == Some(t1),
        d.after_step(t0, false, cfg).after_round(t1, true, cfg).consecutive_ok == 1,
        d.after_step(t0, false, cfg).after_round(t1, true, cfg).after_round(t2, true, cfg).after_round(
            t3,
            true,
            cfg,
        ).declared_up ==> t3 - t1 >= cfg.recovery_hold_ms,
{
}

/// Recovery releases the paint as soon as it may: a successful round that
/// brings the run to `recovery_successes` with `recovery_hold_ms` passed since
/// the first success of the run releases it, and so does a reachable step
/// once both conditions hold.
pub proof fn law_recovery_releases_when_due(d: DisplayState, now_ms: u64, cfg: EngineConfig)
    ensures
        ({
            let n = if d.consecutive_ok == u32::MAX { u32::MAX as int } else { d.consecutive_ok + 1 };
            let start = match d.recovery_started_ms {
                Some(t) => t,
                None => now_ms,
            };
            n >= cfg.recovery_successes && now_ms >= start + cfg.recovery_hold_ms
        }) ==> d.after_round(now_ms, true, cfg).declared_up,
        (d.recovery_started_ms matches Some(t) && d.consecutive_ok >= cfg.recovery_successes && now_ms >= t
            + cfg.recovery_hold_ms) ==> d.after_step(now_ms, true, cfg).declared_up,
        d.declared_up ==> d.after_round(now_ms, true, cfg).declared_up && d.after_step(now_ms, true, cfg).declared_up,
{
}

} // verus!
