//! Engine knobs. Units are milliseconds unless noted.

use vstd::prelude::*;

verus! {

/// Tunable engine parameters that drive the engine's decisions: windows,
/// dead-man, recovery hysteresis and probe cadence.
#[derive(Debug, Clone, PartialEq, Eq)]
pub struct EngineConfig {
    /// Dead-man: no WAN success for this long means the path is down,
    /// regardless of the last RTT.
    pub dead_ms: u64,
    /// On path-change / sleep-wake, drop samples older than this.
    pub stale_ms: u64,
    /// Window used for latency / loss / jitter / DNS ratios.
    pub quality_window_ms: u64,
    /// Window used to count reachability edges (flap).
    pub flap_window_ms: u64,
    /// More than this many up/down edges in `flap_window_ms` caps the score.
    pub flap_edge_threshold: u32,
    /// Consecutive successful *rounds* required before leaving violet.
    pub recovery_successes: u32,
    /// Minimum time after the first recovery success before leaving violet.
    pub recovery_hold_ms: u64,
    /// When true, the painted score snaps to its target (no interpolation).
    pub reduced_motion: bool,
    /// Probe spacing while `SchedulerMode::Stable` (frugal).
    pub stable_spacing_ms: u64,
    /// Probe spacing while uncertain / recovering (burst).
    pub burst_spacing_ms: u64,
    /// Probe spacing while down.
    pub down_spacing_ms: u64,
    /// Clean burst duration before returning to stable spacing.
    pub burst_hold_ms: u64,
    /// Parallel probes while bursting.
    pub burst_in_flight: u8,
    /// Parallel probes while stable (keep this 1 to stay near the data budget).
    pub stable_in_flight: u8,
    /// Parallel probes while down.
    pub down_in_flight: u8,
}

/// The shipped defaults.
pub open spec fn default_config() -> EngineConfig {
    EngineConfig {
        dead_ms: 800,
        stale_ms: 2_000,
        quality_window_ms: 12_000,
        flap_window_ms: 30_000,
        flap_edge_threshold: 4,
        recovery_successes: 3,
        recovery_hold_ms: 1_200,
        reduced_motion: false,
        stable_spacing_ms: 1_500,
        burst_spacing_ms: 320,
        down_spacing_ms: 500,
        burst_hold_ms: 8_000,
        burst_in_flight: 3,
        stable_in_flight: 1,
        down_in_flight: 2,
    }
}

impl Default for EngineConfig {
    fn default() -> (c: Self)
        ensures
            c == default_config(),
    {
        EngineConfig {
            dead_ms: 800,
            stale_ms: 2_000,
            quality_window_ms: 12_000,
            flap_window_ms: 30_000,
            flap_edge_threshold: 4,
            recovery_successes: 3,
            recovery_hold_ms: 1_200,
            reduced_motion: false,
            stable_spacing_ms: 1_500,
            burst_spacing_ms: 320,
            down_spacing_ms: 500,
            burst_hold_ms: 8_000,
            burst_in_flight: 3,
            stable_in_flight: 1,
            down_in_flight: 2,
        }
    }
}

/// Bytes per hour of the stable path: one ~400 B HTTP check per spacing
/// (at least 1 ms) times the stable in-flight count (at least 1).
pub open spec fn stable_bytes_per_hour(cfg: EngineConfig) -> int {
    let spacing: int = if cfg.stable_spacing_ms == 0 { 1 } else { cfg.stable_spacing_ms as int };
    let in_flight: int = if cfg.stable_in_flight == 0 { 1 } else { cfg.stable_in_flight as int };
    (3_600_000int / spacing) * 400 * in_flight
}

impl EngineConfig {
    /// Rough bytes/hour on the *stable* path: one ~400 B HTTP check per `stable_spacing_ms`
    /// times `stable_in_flight`. Default is about 960 KB/h. Burst is extra and short-lived.
    pub fn estimated_stable_bytes_per_hour(&self) -> (n: u64)
        ensures
            n == stable_bytes_per_hour(*self),
    {
        let spacing = if self.stable_spacing_ms == 0 { 1 } else { self.stable_spacing_ms };
        let rounds = 3_600_000 / spacing;
        let in_flight: u64 = if self.stable_in_flight == 0 { 1 } else { self.stable_in_flight as u64 };
        assert(rounds <= 3_600_000);
        assert(rounds * 400 <= 1_440_000_000) by (nonlinear_arith)
            requires rounds <= 3_600_000;
        assert(rounds * 400 * in_flight <= 1_440_000_000 * 255) by (nonlinear_arith)
            requires rounds * 400 <= 1_440_000_000, in_flight <= 255;
        rounds * 400 * in_flight
    }
}

/// The default stable path stays under two MiB per hour: the cadence is
/// frugal, not a speed test.
pub proof fn law_default_budget_is_frugal()
    ensures
        100_000 < stable_bytes_per_hour(default_config()) < 2 * 1024 * 1024,
{
    let cfg = default_config();
    assert(cfg.stable_spacing_ms == 1500 && cfg.stable_in_flight == 1);
    assert(3_600_000int / 1500 == 2400) by (nonlinear_arith);
    assert(stable_bytes_per_hour(cfg) == (3_600_000int / 1500) * 400 * 1);
    assert(stable_bytes_per_hour(default_config()) == 960_000);
}

} // verus!
