use netflash::config::EngineConfig;
use netflash::scheduler::{Scheduler, SchedulerMode};

#[test]
fn miss_in_stable_is_an_interrupt() {
    let cfg = EngineConfig::default();
    let mut s = Scheduler::new(0);
    s.mode = SchedulerMode::Stable;
    s.last_probe_ms = Some(0);
    s.last_success_ms = Some(0);
    s.clean_since_ms = Some(0);
    s.on_round(100, false, &cfg);
    assert_eq!(s.mode(), SchedulerMode::Uncertain);
    assert!(s.should_probe(100, &cfg, false));
    assert_eq!(s.spacing_ms(&cfg), cfg.burst_spacing_ms);
}

#[test]
fn pause_blocks_probes() {
    let cfg = EngineConfig::default();
    let s = Scheduler::new(0);
    assert!(!s.should_probe(0, &cfg, true));
}

#[test]
fn stable_budget_is_under_two_mib_per_hour() {
    let n = EngineConfig::default().estimated_stable_bytes_per_hour();
    assert!(n > 100_000, "budget should be non-trivial, got {n}");
    assert!(
        n < 2 * 1024 * 1024,
        "stable path must not look like a speedtest, got {n}"
    );
}

#[test]
fn budget_formula_exact() {
    let mut cfg = EngineConfig::default();
    assert_eq!(cfg.estimated_stable_bytes_per_hour(), 960_000);
    cfg.stable_spacing_ms = 0;
    cfg.stable_in_flight = 0;
    assert_eq!(cfg.estimated_stable_bytes_per_hour(), 3_600_000 * 400);
    cfg.stable_spacing_ms = 7;
    cfg.stable_in_flight = 2;
    assert_eq!(cfg.estimated_stable_bytes_per_hour(), (3_600_000 / 7) * 400 * 2);
}

#[test]
fn cold_start_bursts() {
    let cfg = EngineConfig::default();
    let s = Scheduler::new(5);
    assert_eq!(s.mode(), SchedulerMode::Uncertain);
    assert!(s.should_probe(5, &cfg, false));
    assert_eq!(s.spacing_ms(&cfg), 320);
    assert_eq!(s.in_flight(&cfg), 3);
}

#[test]
fn dead_man_sends_down_and_success_recovers() {
    let cfg = EngineConfig::default();
    let mut s = Scheduler::new(0);
    s.on_round(500, false, &cfg);
    assert_eq!(s.mode(), SchedulerMode::Uncertain);
    s.on_round(800, false, &cfg);
    assert_eq!(s.mode(), SchedulerMode::Down);
    assert_eq!(s.spacing_ms(&cfg), 500);
    assert_eq!(s.in_flight(&cfg), 2);
    s.on_round(900, false, &cfg);
    assert_eq!(s.mode(), SchedulerMode::Down);
    s.on_round(1000, true, &cfg);
    assert_eq!(s.mode(), SchedulerMode::Recovering);
    assert_eq!(s.clean_since_ms, Some(1000));
    s.on_round(8999, true, &cfg);
    assert_eq!(s.mode(), SchedulerMode::Recovering);
    s.on_round(9000, true, &cfg);
    assert_eq!(s.mode(), SchedulerMode::Stable);
    assert_eq!(s.spacing_ms(&cfg), 1500);
    assert_eq!(s.in_flight(&cfg), 1);
}

#[test]
fn spacing_gates_next_round() {
    let cfg = EngineConfig::default();
    let mut s = Scheduler::new(0);
    s.mark_probed(1000);
    assert!(!s.should_probe(1319, &cfg, false));
    assert!(s.should_probe(1320, &cfg, false));
    assert!(!s.should_probe(500, &cfg, false));
}

#[test]
fn interrupt_leaves_stable_and_down() {
    let mut s = Scheduler::new(0);
    s.mode = SchedulerMode::Down;
    s.last_probe_ms = Some(10);
    s.clean_since_ms = Some(3);
    s.interrupt(20);
    assert_eq!(s.mode(), SchedulerMode::Uncertain);
    assert_eq!(s.last_probe_ms, None);
    assert_eq!(s.clean_since_ms, None);
    s.mode = SchedulerMode::Recovering;
    s.interrupt(30);
    assert_eq!(s.mode(), SchedulerMode::Recovering);
}
