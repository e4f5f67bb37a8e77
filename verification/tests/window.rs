use netflash::buffer::SampleBuffer;
use netflash::config::EngineConfig;
use netflash::order::{sort_u32, timeline_of};
use netflash::sample::{is_captive, is_wan_success, is_wan_voter, ProbeKind, ProbeOutcome, ProbeSample, TargetId};
use netflash::scheduler::SchedulerMode;
use netflash::score::{evaluate, flap_edges, last_wan_success_ms, percentile_ms, reachability_timeout_ms, Reason};

#[test]
fn sample_constructors_and_predicates() {
    let s = ProbeSample::http_ok(5, "http-a", 40);
    assert_eq!(s.target.as_str(), "http-a");
    assert_eq!(s.outcome.rtt_ms(), Some(40));
    assert!(is_wan_success(&s));
    assert!(!is_wan_success(&ProbeSample::icmp_ok(5, "icmp", 3)));
    assert!(!is_wan_voter(ProbeKind::Icmp));
    assert!(is_wan_voter(ProbeKind::Dns));
    assert!(is_captive(&ProbeSample::http_captive(1, "h", 302)));
    assert_eq!(ProbeSample::dns_fail(1, "d").outcome, ProbeOutcome::TransportFail);
    assert_eq!(ProbeSample::http_fail(1, "h").outcome.rtt_ms(), None);
    assert!(!ProbeOutcome::Timeout.is_success());
    assert_eq!(TargetId::new("x").as_str(), "x");
    assert_eq!(TargetId::from("http-a").as_str(), "http-a");
    assert_eq!(TargetId::new("http-a"), TargetId::from("http-a".to_string()));
    assert_eq!(TargetId::from("dns-a"), TargetId::from(String::from("dns-a")));
}

#[test]
fn buffer_prunes_and_windows() {
    let mut b = SampleBuffer::new();
    for t in [10_u64, 20, 5, 30] {
        b.push(ProbeSample::http_ok(t, "h", 1));
    }
    let w = b.in_window(25, 10);
    assert_eq!(w.iter().map(|s| s.at_ms).collect::<Vec<_>>(), vec![20]);
    // the window is open on the left: a sample exactly at now - window is out
    let edge = b.in_window(30, 10);
    assert_eq!(edge.iter().map(|s| s.at_ms).collect::<Vec<_>>(), vec![30]);
    // a window longer than the clock keeps everything up to now
    let all = b.in_window(20, 100);
    assert_eq!(all.iter().map(|s| s.at_ms).collect::<Vec<_>>(), vec![10, 20, 5]);
    b.drop_older_than(15);
    // every older sample goes, also one that arrived late
    assert_eq!(b.len(), 2);
    assert_eq!(b.get(0).at_ms, 20);
    assert_eq!(b.get(1).at_ms, 30);
    b.prune(30, 5);
    assert_eq!(b.len(), 1);
    assert_eq!(b.get(0).at_ms, 30);
    b.prune(100, 10);
    assert_eq!(b.len(), 0);
}

#[test]
fn pruning_to_a_wider_retention_keeps_the_window() {
    let mut b = SampleBuffer::new();
    for t in [10_u64, 40, 55, 70, 90] {
        b.push(ProbeSample::http_ok(t, "h", 1));
    }
    let before: Vec<u64> = b.in_window(100, 40).iter().map(|s| s.at_ms).collect();
    b.prune(100, 60);
    let after: Vec<u64> = b.in_window(100, 40).iter().map(|s| s.at_ms).collect();
    assert_eq!(before, vec![70, 90]);
    assert_eq!(after, before);
    assert_eq!(b.len(), 4);
}

#[test]
fn timeline_and_sort() {
    let ts = timeline_of(&vec![5, 1, 5, 3, 1]);
    assert_eq!(ts, vec![1, 3, 5]);
    assert_eq!(sort_u32(&vec![30, 10, 20, 10]), vec![10, 10, 20, 30]);
}

#[test]
fn nearest_rank_percentiles() {
    assert_eq!(percentile_ms(&vec![], 50), None);
    assert_eq!(percentile_ms(&vec![42], 95), Some(42));
    assert_eq!(percentile_ms(&vec![1, 2, 3, 4], 0), Some(1));
    assert_eq!(percentile_ms(&vec![1, 2, 3, 4], 100), Some(4));
    assert_eq!(percentile_ms(&vec![1, 2, 3, 4], 50), Some(3));
    let v: Vec<u32> = (0..11).collect();
    assert_eq!(percentile_ms(&v, 95), Some(10));
    // a percentage above 100 is clamped
    assert_eq!(percentile_ms(&vec![1, 2, 3, 4], 250), Some(4));
    assert_eq!(percentile_ms(&v, u64::MAX), Some(10));
}

#[test]
fn flap_edges_count_changes_per_instant() {
    let w = vec![
        ProbeSample::http_ok(0, "a", 1),
        ProbeSample::http_timeout(0, "b"),
        ProbeSample::http_timeout(10, "a"),
        ProbeSample::http_ok(20, "a", 1),
        ProbeSample::icmp_ok(30, "i", 1),
        ProbeSample::http_ok(40, "a", 1),
    ];
    // up(0)=yes, up(10)=no, up(20)=yes, up(30)=no, up(40)=yes
    assert_eq!(flap_edges(&w), 4);
    let shuffled = vec![w[5].clone(), w[2].clone(), w[0].clone(), w[4].clone(), w[3].clone()];
    assert_eq!(flap_edges(&shuffled), 4);
    assert_eq!(flap_edges(&Vec::new()), 0);
}

#[test]
fn last_success_and_reach() {
    let mut b = SampleBuffer::new();
    b.push(ProbeSample::http_ok(100, "a", 1));
    b.push(ProbeSample::icmp_ok(300, "i", 1));
    b.push(ProbeSample::dns_ok(200, "d", 1));
    b.push(ProbeSample::http_ok(900, "a", 1));
    assert_eq!(last_wan_success_ms(&b, 500), Some(200));
    assert_eq!(last_wan_success_ms(&b, 50), None);
    let cfg = EngineConfig::default();
    assert_eq!(reachability_timeout_ms(SchedulerMode::Stable, &cfg), 2300);
    assert_eq!(reachability_timeout_ms(SchedulerMode::Down, &cfg), 800);
}

#[test]
fn evaluate_reports_jitter_and_latency() {
    let mut b = SampleBuffer::new();
    b.push(ProbeSample::http_ok(200, "a", 150));
    b.push(ProbeSample::http_ok(0, "a", 100));
    b.push(ProbeSample::http_ok(100, "a", 40));
    let cfg = EngineConfig::default();
    let s = evaluate(&b, 200, &cfg, SchedulerMode::Uncertain);
    assert!(s.wan_reachable);
    // time order: 100, 40, 150 -> |40-100| + |150-40| = 170
    assert_eq!(s.jitter_sum_ms, 170);
    assert_eq!(s.rtt_count, 3);
    assert_eq!(s.rtt_p50_ms, Some(100));
    assert_eq!(s.rtt_p95_ms, Some(150));
    assert_eq!(s.reasons, vec![Reason::Latency, Reason::Jitter]);
}

#[test]
fn evaluate_captive_only_when_no_http_success() {
    let mut b = SampleBuffer::new();
    b.push(ProbeSample::http_captive(0, "a", 302));
    b.push(ProbeSample::http_ok(0, "b", 30));
    let cfg = EngineConfig::default();
    let s = evaluate(&b, 0, &cfg, SchedulerMode::Uncertain);
    assert!(!s.captive);
    assert!(s.wan_reachable);
    assert_eq!((s.http_failed, s.http_total), (1, 2));
    assert_eq!(s.reasons, vec![Reason::Loss]);
}
