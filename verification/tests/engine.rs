use netflash::config::EngineConfig;
use netflash::engine::Engine;
use netflash::sample::ProbeSample;
use netflash::scheduler::SchedulerMode;
use netflash::score::Reason;

fn good_round(at_ms: u64, rtt_ms: u32) -> Vec<ProbeSample> {
    vec![
        ProbeSample::http_ok(at_ms, "http-a", rtt_ms),
        ProbeSample::http_ok(at_ms, "http-b", rtt_ms),
        ProbeSample::dns_ok(at_ms, "dns-a", rtt_ms / 2),
    ]
}

fn fail_round(at_ms: u64) -> Vec<ProbeSample> {
    vec![
        ProbeSample::http_timeout(at_ms, "http-a"),
        ProbeSample::http_timeout(at_ms, "http-b"),
        ProbeSample::dns_timeout(at_ms, "dns-a"),
    ]
}

fn engine() -> Engine {
    Engine::new(EngineConfig::default())
}

#[test]
fn miss_in_stable_bursts_immediately() {
    let mut eng = engine();
    // 10 s of clean successes: the scheduler goes Stable (burst_hold is 8 s).
    for t in (0..=10_000).step_by(300) {
        eng.ingest_round(good_round(t, 30));
        eng.mark_probed();
    }
    assert_eq!(eng.scheduler().mode(), SchedulerMode::Stable);
    assert!(!eng.should_probe());

    eng.ingest_round(fail_round(10_300));
    assert_eq!(eng.scheduler().mode(), SchedulerMode::Uncertain);
    assert!(
        eng.should_probe(),
        "a miss in stable is an interrupt, not a 1.5 s wait"
    );
}

#[test]
fn path_change_bursts_immediately() {
    let mut eng = engine();
    for t in (0..=10_000).step_by(300) {
        eng.ingest_round(good_round(t, 30));
        eng.mark_probed();
    }
    assert_eq!(eng.scheduler().mode(), SchedulerMode::Stable);
    eng.path_changed();
    assert_ne!(eng.scheduler().mode(), SchedulerMode::Stable);
    assert!(eng.should_probe());
}

#[test]
fn pause_blocks_engine_probes() {
    let mut eng = engine();
    assert!(eng.should_probe());
    eng.set_paused(true);
    assert!(!eng.should_probe());
    assert!(eng.paused());
}

#[test]
fn tunnel_goes_unreachable_despite_last_good_rtt() {
    let mut eng = engine();
    for t in [0_u64, 300, 600, 900] {
        eng.ingest_round(good_round(t, 25));
    }
    let up = eng.stats().clone().unwrap();
    assert!(up.wan_reachable);
    assert!(up.rtt_p50_ms.unwrap() <= 30);
    for t in (1000..=9000).step_by(300) {
        eng.ingest_round(fail_round(t));
    }
    eng.advance_to(9000);
    let down = eng.stats().clone().unwrap();
    assert!(!down.wan_reachable);
    assert_eq!(down.reasons, vec![Reason::DeadMan]);
    assert_eq!(down.rtt_p50_ms, None);
    assert!(!eng.paints_score());
}

#[test]
fn dead_man_ignores_stale_good_rtt_facts() {
    let mut eng = engine();
    eng.ingest_round(good_round(0, 25));
    assert_eq!(eng.stats().as_ref().unwrap().rtt_p50_ms, Some(25));
    eng.advance_to(800);
    assert!(eng.stats().as_ref().unwrap().wan_reachable);
    eng.advance_to(801);
    let s = eng.stats().as_ref().unwrap();
    assert!(!s.wan_reachable);
    assert_eq!(s.reasons, vec![Reason::DeadMan]);
}

#[test]
fn icmp_timeout_does_not_block_http_truth() {
    let mut eng = engine();
    eng.ingest_round(vec![
        ProbeSample::http_ok(0, "http-a", 40),
        ProbeSample::http_ok(0, "http-b", 42),
        ProbeSample::dns_ok(0, "dns-a", 15),
        ProbeSample::icmp_timeout(0, "icmp-a"),
    ]);
    let s = eng.stats().as_ref().unwrap();
    assert!(s.wan_reachable);
    assert_eq!(s.http_total, 2);
    assert_eq!(s.http_failed, 0);
    assert_eq!(s.rtt_count, 3);
}

#[test]
fn icmp_alone_never_votes() {
    let mut eng = engine();
    eng.ingest_round(vec![ProbeSample::icmp_ok(0, "icmp-a", 5)]);
    assert!(!eng.stats().as_ref().unwrap().wan_reachable);
}

#[test]
fn dns_failure_is_a_reason_not_an_outage() {
    let mut eng = engine();
    eng.ingest_round(vec![
        ProbeSample::http_ok(0, "http-a", 30),
        ProbeSample::http_ok(0, "http-b", 30),
        ProbeSample::dns_timeout(0, "dns-a"),
    ]);
    let s = eng.stats().as_ref().unwrap();
    assert!(s.wan_reachable);
    assert_eq!((s.dns_ok, s.dns_total), (0, 1));
    assert_eq!(s.reasons, vec![Reason::Dns]);
}

#[test]
fn captive_302_is_never_reachable() {
    let mut eng = engine();
    eng.ingest_round(vec![
        ProbeSample::http_captive(0, "http-a", 302),
        ProbeSample::http_captive(0, "http-b", 302),
    ]);
    let s = eng.stats().as_ref().unwrap();
    assert!(s.captive);
    assert!(!s.wan_reachable);
    assert_eq!(s.reasons, vec![Reason::Captive]);
    assert!(!eng.paints_score());
}

#[test]
fn one_live_target_is_reachable() {
    let mut eng = engine();
    eng.ingest_round(vec![
        ProbeSample::http_timeout(0, "http-a"),
        ProbeSample::http_ok(0, "http-b", 45),
        ProbeSample::dns_ok(0, "dns-a", 12),
    ]);
    let s = eng.stats().as_ref().unwrap();
    assert!(s.wan_reachable);
    assert_eq!((s.http_failed, s.http_total), (1, 2));
    // time-ordered RTTs 45 then 12: a 33 ms step is jitter
    assert_eq!(s.reasons, vec![Reason::Loss, Reason::Jitter]);
}

#[test]
fn one_success_after_tunnel_keeps_paint_violet() {
    let mut eng = engine();
    eng.ingest_round(good_round(0, 30));
    for t in (1000..=2500).step_by(300) {
        eng.ingest_round(fail_round(t));
    }
    assert!(!eng.stats().as_ref().unwrap().wan_reachable);
    eng.ingest_round(good_round(3000, 30));
    assert!(eng.stats().as_ref().unwrap().wan_reachable, "truth may already be up after one success");
    assert!(!eng.display().declared_up());
    assert!(!eng.paints_score(), "paint must stay violet until K successes + hold");
}

#[test]
fn recovery_requires_k_successes_and_hold_gate() {
    let mut cfg = EngineConfig::default();
    cfg.reduced_motion = true;
    let mut eng = Engine::new(cfg);
    eng.ingest_round(fail_round(0));
    eng.advance_to(800);
    assert!(!eng.paints_score());
    for t in [2000_u64, 2300, 2600] {
        eng.ingest_round(good_round(t, 30));
        assert!(!eng.paints_score(), "hold not elapsed yet");
    }
    eng.ingest_round(good_round(3200, 30));
    assert!(eng.stats().as_ref().unwrap().wan_reachable);
    assert!(eng.paints_score());
}

#[test]
fn stable_gap_is_not_a_false_outage() {
    let mut eng = engine();
    for t in (0..=10_000).step_by(300) {
        eng.ingest_round(good_round(t, 30));
        eng.mark_probed();
    }
    assert_eq!(eng.scheduler().mode(), SchedulerMode::Stable);
    assert!(eng.paints_score());
    eng.advance_to(10_000 + 800);
    assert!(eng.stats().as_ref().unwrap().wan_reachable, "stable must survive dead_ms without a new probe");
    assert!(eng.paints_score());
}

#[test]
fn flapping_is_a_reason() {
    let mut eng = engine();
    for i in 0..40 {
        let t = i * 400;
        if i % 2 == 0 {
            eng.ingest_round(good_round(t, 20));
        } else {
            eng.ingest_round(fail_round(t));
        }
    }
    eng.ingest_round(good_round(40 * 400, 20));
    let s = eng.stats().as_ref().unwrap();
    assert!(s.wan_reachable, "last round succeeded");
    assert!(s.flap_edges > 4, "expected many edges, got {}", s.flap_edges);
    assert!(s.flapping);
    assert_eq!(s.reasons[0], Reason::Flap);
}

#[test]
fn clock_never_goes_backwards_and_prunes() {
    let mut eng = engine();
    eng.ingest_round(good_round(100, 30));
    eng.advance_to(50);
    assert_eq!(eng.now_ms(), 100);
    eng.advance_to(100 + 30_001);
    assert_eq!(eng.now_ms(), 30_101);
    assert_eq!(eng.buffer().len(), 0);
}

#[test]
fn empty_round_changes_nothing() {
    let mut eng = engine();
    eng.ingest_round(Vec::new());
    assert_eq!(eng.now_ms(), 0);
    assert!(eng.stats().is_none());
}

#[test]
fn path_change_drops_stale_samples() {
    let mut eng = engine();
    eng.ingest_round(good_round(0, 30));
    eng.ingest_round(good_round(3000, 30));
    assert_eq!(eng.buffer().len(), 6);
    eng.path_changed();
    assert_eq!(eng.buffer().len(), 3);
    assert_eq!(eng.buffer().get(0).at_ms, 3000);
}

#[test]
fn path_change_drops_a_stale_sample_that_arrived_late() {
    let mut eng = engine();
    eng.ingest_round(good_round(3000, 30));
    // a round stamped before the clock lands behind the newer samples
    eng.ingest_round(vec![ProbeSample::http_ok(100, "http-a", 30)]);
    assert_eq!(eng.buffer().len(), 4);
    assert_eq!(eng.buffer().get(3).at_ms, 100);
    eng.path_changed();
    assert_eq!(eng.buffer().len(), 3);
    for i in 0..3 {
        assert_eq!(eng.buffer().get(i).at_ms, 3000);
    }
}
