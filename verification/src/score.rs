//! Scoring facts: a sample window + config + now -> [`WindowStats`].
//!
//! Dead-man is a *hard gate*. A 25 ms RTT from 2 s ago must not keep the path
//! up after `dead_ms` of silence.

use vstd::prelude::*;

use crate::buffer::{window_of, SampleBuffer};
use crate::config::EngineConfig;
use crate::order::{sort_u32, sorted_u32, timeline, timeline_of};
use crate::sample::{is_captive, is_wan_success, spec_captive, spec_wan_success, ProbeKind, ProbeOutcome, ProbeSample};
use crate::scheduler::{sat_sub, SchedulerMode};

verus! {

/// Named quality band. Labels only: pixels interpolate the raw score.
#[derive(Debug, Clone, Copy, PartialEq, Eq, Hash, Structural)]
pub enum Band {
    /// No WAN (violet).
    NoWan,
    /// Bad (red).
    Bad,
    /// Medium (orange).
    Medium,
    /// Ok (green).
    Okay,
    /// Ultra (blue).
    Ultra,
}

/// Tooltip label of a band.
pub open spec fn band_label(b: Band) -> Seq<char> {
    match b {
        Band::NoWan => "No connection"@,
        Band::Bad => "Bad"@,
        Band::Medium => "Medium"@,
        Band::Okay => "OK"@,
        Band::Ultra => "Ultra"@,
    }
}

impl Band {
    /// English tooltip label.
    pub fn label(self) -> (l: &'static str)
        ensures
            l@ == band_label(self),
    {
        match self {
            Band::NoWan => "No connection",
            Band::Bad => "Bad",
            Band::Medium => "Medium",
            Band::Okay => "OK",
            Band::Ultra => "Ultra",
        }
    }
}

/// Why the score is not ultra. Ordered roughly by user-priority.
#[derive(Debug, Clone, Copy, PartialEq, Eq, Hash, Structural)]
pub enum Reason {
    /// No WAN success inside `dead_ms`.
    DeadMan,
    /// Captive portal, not the public internet.
    Captive,
    /// Too many reachability edges: intermittent, not ultra.
    Flap,
    /// Packet/request loss in the quality window.
    Loss,
    /// High RTT.
    Latency,
    /// DNS failing while HTTP may still work.
    Dns,
    /// Unstable RTT.
    Jitter,
}

/// Number of elements of `q` that satisfy `p`.
pub open spec fn count(q: Seq<ProbeSample>, p: spec_fn(ProbeSample) -> bool) -> nat
    decreases q.len(),
{
    if q.len() == 0 {
        0
    } else {
        count(q.drop_last(), p) + if p(q.last()) { 1nat } else { 0nat }
    }
}

pub proof fn lemma_count_push(q: Seq<ProbeSample>, x: ProbeSample, p: spec_fn(ProbeSample) -> bool)
    ensures
        count(q.push(x), p) == count(q, p) + if p(x) { 1nat } else { 0nat },
{
    assert(q.push(x).drop_last() =~= q);
}

pub proof fn lemma_count_le_len(q: Seq<ProbeSample>, p: spec_fn(ProbeSample) -> bool)
    ensures
        count(q, p) <= q.len(),
    decreases q.len(),
{
    if q.len() > 0 {
        lemma_count_le_len(q.drop_last(), p);
    }
}

/// HTTP probes.
pub open spec fn is_http() -> spec_fn(ProbeSample) -> bool {
    |x: ProbeSample| x.kind is Http
}

/// HTTP probes that did not succeed (timeouts, failures, captive answers).
pub open spec fn is_http_failure() -> spec_fn(ProbeSample) -> bool {
    |x: ProbeSample| x.kind is Http && !(x.outcome is Success)
}

/// HTTP probes that succeeded.
pub open spec fn is_http_success() -> spec_fn(ProbeSample) -> bool {
    |x: ProbeSample| x.kind is Http && x.outcome is Success
}

/// DNS probes.
pub open spec fn is_dns() -> spec_fn(ProbeSample) -> bool {
    |x: ProbeSample| x.kind is Dns
}

/// DNS probes that succeeded.
pub open spec fn is_dns_success() -> spec_fn(ProbeSample) -> bool {
    |x: ProbeSample| x.kind is Dns && x.outcome is Success
}

/// Some sample of `q` is a captive-portal answer.
pub open spec fn has_captive(q: Seq<ProbeSample>) -> bool {
    exists|k: int| 0 <= k < q.len() && spec_captive(#[trigger] q[k])
}

/// The window only shows a captive portal: a captive answer and no HTTP success.
pub open spec fn captive_window(q: Seq<ProbeSample>) -> bool {
    has_captive(q) && count(q, is_http_success()) == 0
}

/// Some WAN voter succeeded at exactly instant `t`.
pub open spec fn up_at(q: Seq<ProbeSample>, t: u64) -> bool {
    exists|k: int| 0 <= k < q.len() && q[k].at_ms == t && spec_wan_success(#[trigger] q[k])
}

/// The probe instants of `q`, in sample order.
pub open spec fn times_of(q: Seq<ProbeSample>) -> Seq<u64> {
    q.map_values(|x: ProbeSample| x.at_ms)
}

/// Reachability changes along the instants `ts`: how many neighbours differ
/// in whether some WAN voter succeeded.
pub open spec fn edges_along(ts: Seq<u64>, q: Seq<ProbeSample>) -> nat
    decreases ts.len(),
{
    if ts.len() < 2 {
        0
    } else {
        edges_along(ts.drop_last(), q) + if up_at(q, ts.last()) != up_at(q, ts[ts.len() - 2]) {
            1nat
        } else {
            0nat
        }
    }
}

/// Up/down edges of a window: walk its distinct instants in time order and
/// count the changes of "some WAN voter succeeded at this instant".
pub open spec fn flap_edge_count(q: Seq<ProbeSample>) -> nat {
    edges_along(timeline(times_of(q)), q)
}

/// A WAN voter succeeded at or before `now`, no more than `reach_ms` ago.
pub open spec fn reachable(s: Seq<ProbeSample>, now: u64, reach_ms: u64) -> bool {
    exists|k: int|
        0 <= k < s.len() && s[k].at_ms <= now && spec_wan_success(#[trigger] s[k]) && now - s[k].at_ms
            <= reach_ms
}

/// Dead-man window of a mode. Stable adds the frugal interval so a gap
/// between two stable probes is not a false outage.
pub open spec fn reach_timeout(mode: SchedulerMode, cfg: EngineConfig) -> u64 {
    match mode {
        SchedulerMode::Stable => if cfg.stable_spacing_ms + cfg.dead_ms > u64::MAX {
            u64::MAX
        } else {
            (cfg.stable_spacing_ms + cfg.dead_ms) as u64
        },
        _ => cfg.dead_ms,
    }
}

/// Dead-man window. Burst/down must trip in `dead_ms`. Stable uses the
/// frugal interval plus `dead_ms` so a 1.5 s gap is not a false outage.
pub fn reachability_timeout_ms(mode: SchedulerMode, cfg: &EngineConfig) -> (t: u64)
    ensures
        t == reach_timeout(mode, *cfg),
{
    match mode {
        SchedulerMode::Stable => cfg.stable_spacing_ms.saturating_add(cfg.dead_ms),
        SchedulerMode::Uncertain | SchedulerMode::Down | SchedulerMode::Recovering => cfg.dead_ms,
    }
}

/// Latest instant `<= now_ms` at which a WAN voter succeeded.
pub fn last_wan_success_ms(buffer: &SampleBuffer, now_ms: u64) -> (r: Option<u64>)
    ensures
        r is None <==> !exists|k: int|
            0 <= k < buffer@.len() && buffer@[k].at_ms <= now_ms && spec_wan_success(
                #[trigger] buffer@[k],
            ),
        r matches Some(m) ==> exists|k: int|
            0 <= k < buffer@.len() && buffer@[k].at_ms == m && m <= now_ms && spec_wan_success(
                #[trigger] buffer@[k],
            ),
        r matches Some(m) ==> forall|k: int|
            0 <= k < buffer@.len() && buffer@[k].at_ms <= now_ms && spec_wan_success(
                #[trigger] buffer@[k],
            ) ==> buffer@[k].at_ms <= m,
{
    let n = buffer.len();
    let mut best: Option<u64> = None;
    for i in 0..n
        invariant
            n == buffer@.len(),
            best is None <==> !exists|k: int|
                0 <= k < i && buffer@[k].at_ms <= now_ms && spec_wan_success(#[trigger] buffer@[k]),
            best matches Some(m) ==> exists|k: int|
                0 <= k < i && buffer@[k].at_ms == m && m <= now_ms && spec_wan_success(
                    #[trigger] buffer@[k],
                ),
            best matches Some(m) ==> forall|k: int|
                0 <= k < i && buffer@[k].at_ms <= now_ms && spec_wan_success(#[trigger] buffer@[k])
                    ==> buffer@[k].at_ms <= m,
    {
        let s = buffer.get(i);
        if s.at_ms <= now_ms && is_wan_success(s) {
            match best {
                Some(m) => {
                    if s.at_ms > m {
                        best = Some(s.at_ms);
                    }
                },
                None => {
                    best = Some(s.at_ms);
                },
            }
        }
    }
    best
}

/// Whether some WAN voter of `q` succeeded at exactly `t`.
fn any_up_at(q: &Vec<ProbeSample>, t: u64) -> (b: bool)
    ensures
        b == up_at(q@, t),
{
    let n = q.len();
    for i in 0..n
        invariant
            n == q@.len(),
            forall|k: int| 0 <= k < i ==> !(q@[k].at_ms == t && spec_wan_success(#[trigger] q@[k])),
    {
        if q[i].at_ms == t && is_wan_success(&q[i]) {
            return true;
        }
    }
    false
}

/// The probe instants of `q`, in sample order.
fn sample_times(q: &Vec<ProbeSample>) -> (ts: Vec<u64>)
    ensures
        ts@ == times_of(q@),
{
    let mut out: Vec<u64> = Vec::new();
    let n = q.len();
    for i in 0..n
        invariant
            n == q@.len(),
            out@ == times_of(q@.take(i as int)),
    {
        out.push(q[i].at_ms);
        assert(times_of(q@.take(i + 1)) =~= times_of(q@.take(i as int)).push(q@[i as int].at_ms));
    }
    assert(q@.take(n as int) =~= q@);
    out
}

proof fn lemma_edges_bounded(ts: Seq<u64>, q: Seq<ProbeSample>)
    ensures
        edges_along(ts, q) <= ts.len(),
    decreases ts.len(),
{
    if ts.len() >= 2 {
        lemma_edges_bounded(ts.drop_last(), q);
    }
}

/// Reachability edges among the samples of a window (see [`flap_edge_count`]).
pub fn flap_edges(q: &Vec<ProbeSample>) -> (e: u32)
    requires
        q@.len() <= u32::MAX,
    ensures
        e == flap_edge_count(q@),
{
    let times = sample_times(q);
    let ts = timeline_of(&times);
    let n = ts.len();
    let mut prev: Option<bool> = None;
    let mut edges: u32 = 0;
    for k in 0..n
        invariant
            n == ts@.len(),
            n <= q@.len(),
            q@.len() <= u32::MAX,
            ts@ == timeline(times_of(q@)),
            edges == edges_along(ts@.take(k as int), q@),
            edges <= k,
            k == 0 ==> prev is None,
            k > 0 ==> prev == Some(up_at(q@, ts@[k - 1])),
    {
        let up = any_up_at(q, ts[k]);
        proof {
            let pre = ts@.take(k as int);
            let post = ts@.take(k + 1);
            assert(post.drop_last() =~= pre);
            if k > 0 {
                assert(post[post.len() - 2] == ts@[k - 1]);
            }
        }
        if let Some(p) = prev {
            if p != up {
                edges = edges + 1;
            }
        }
        prev = Some(up);
    }
    assert(ts@.take(n as int) =~= ts@);
    edges
}


/// RTT of a success (0 for any other outcome).
pub open spec fn rtt_of(x: ProbeSample) -> u32 {
    match x.outcome {
        ProbeOutcome::Success { rtt_ms } => rtt_ms,
        _ => 0,
    }
}

/// RTTs of the successful WAN voters of `q`, in sample order.
pub open spec fn success_rtts(q: Seq<ProbeSample>) -> Seq<u32>
    decreases q.len(),
{
    if q.len() == 0 {
        Seq::empty()
    } else if spec_wan_success(q.last()) {
        success_rtts(q.drop_last()).push(rtt_of(q.last()))
    } else {
        success_rtts(q.drop_last())
    }
}

/// RTTs of the successful WAN voters of `q` that completed at instant `t`, in
/// sample order.
pub open spec fn success_rtts_at(q: Seq<ProbeSample>, t: u64) -> Seq<u32>
    decreases q.len(),
{
    if q.len() == 0 {
        Seq::empty()
    } else if spec_wan_success(q.last()) && q.last().at_ms == t {
        success_rtts_at(q.drop_last(), t).push(rtt_of(q.last()))
    } else {
        success_rtts_at(q.drop_last(), t)
    }
}

/// The success RTTs grouped by the instants `ts`, in that order.
pub open spec fn rtts_along(ts: Seq<u64>, q: Seq<ProbeSample>) -> Seq<u32>
    decreases ts.len(),
{
    if ts.len() == 0 {
        Seq::empty()
    } else {
        rtts_along(ts.drop_last(), q) + success_rtts_at(q, ts.last())
    }
}

/// The success RTTs of `q` in time order; samples that share an instant keep
/// their arrival order (a stable sort by completion time).
pub open spec fn rtts_in_time_order(q: Seq<ProbeSample>) -> Seq<u32> {
    rtts_along(timeline(times_of(q)), q)
}

/// Sum of absolute differences between neighbouring RTTs.
pub open spec fn abs_diff_sum(r: Seq<u32>) -> nat
    decreases r.len(),
{
    if r.len() < 2 {
        0
    } else {
        abs_diff_sum(r.drop_last()) + if r.last() >= r[r.len() - 2] {
            (r.last() - r[r.len() - 2]) as nat
        } else {
            (r[r.len() - 2] - r.last()) as nat
        }
    }
}

/// Nearest-rank index of percentile `pct` (in percent) among `len` sorted
/// values: `round((len - 1) * pct / 100)`, halves rounding up.
pub open spec fn nearest_rank(len: nat, pct: nat) -> int {
    ((len - 1) * pct + 50) / 100
}

/// Nearest-rank percentile of sorted values; a `pct` above 100 counts as 100.
pub open spec fn percentile_spec(sorted: Seq<u32>, pct: nat) -> Option<u32> {
    if sorted.len() == 0 {
        None
    } else {
        Some(sorted[nearest_rank(sorted.len(), if pct > 100 { 100 } else { pct })])
    }
}

proof fn lemma_count_push_success(q: Seq<ProbeSample>, x: ProbeSample)
    ensures
        success_rtts(q.push(x)) == if spec_wan_success(x) {
            success_rtts(q).push(rtt_of(x))
        } else {
            success_rtts(q)
        },
        success_rtts(q).len() <= q.len(),
    decreases q.len(),
{
    assert(q.push(x).drop_last() =~= q);
    lemma_success_len(q);
}

proof fn lemma_success_len(q: Seq<ProbeSample>)
    ensures
        success_rtts(q).len() <= q.len(),
    decreases q.len(),
{
    if q.len() > 0 {
        lemma_success_len(q.drop_last());
    }
}

/// RTTs of the successful WAN voters, in window order.
fn collect_success_rtts(q: &Vec<ProbeSample>) -> (r: Vec<u32>)
    ensures
        r@ == success_rtts(q@),
        r@.len() <= q@.len(),
{
    let mut out: Vec<u32> = Vec::new();
    let n = q.len();
    for i in 0..n
        invariant
            n == q@.len(),
            out@ == success_rtts(q@.take(i as int)),
    {
        proof {
            assert(q@.take(i + 1) =~= q@.take(i as int).push(q@[i as int]));
            lemma_count_push_success(q@.take(i as int), q@[i as int]);
        }
        if is_wan_success(&q[i]) {
            match q[i].outcome {
                ProbeOutcome::Success { rtt_ms } => out.push(rtt_ms),
                _ => {},
            }
        }
    }
    assert(q@.take(n as int) =~= q@);
    proof {
        lemma_success_len(q@);
    }
    out
}

/// RTTs of the successful WAN voters at instant `t`, in window order.
fn collect_success_rtts_at(q: &Vec<ProbeSample>, t: u64) -> (r: Vec<u32>)
    ensures
        r@ == success_rtts_at(q@, t),
{
    let mut out: Vec<u32> = Vec::new();
    let n = q.len();
    for i in 0..n
        invariant
            n == q@.len(),
            out@ == success_rtts_at(q@.take(i as int), t),
    {
        proof {
            assert(q@.take(i + 1).drop_last() =~= q@.take(i as int));
        }
        if is_wan_success(&q[i]) && q[i].at_ms == t {
            match q[i].outcome {
                ProbeOutcome::Success { rtt_ms } => out.push(rtt_ms),
                _ => {},
            }
        }
    }
    assert(q@.take(n as int) =~= q@);
    out
}

/// The success RTTs in time order (see [`rtts_in_time_order`]).
fn collect_rtts_in_time_order(q: &Vec<ProbeSample>) -> (r: Vec<u32>)
    ensures
        r@ == rtts_in_time_order(q@),
{
    let times = sample_times(q);
    let ts = timeline_of(&times);
    let n = ts.len();
    let mut out: Vec<u32> = Vec::new();
    for k in 0..n
        invariant
            n == ts@.len(),
            ts@ == timeline(times_of(q@)),
            out@ == rtts_along(ts@.take(k as int), q@),
    {
        let mut group = collect_success_rtts_at(q, ts[k]);
        proof {
            assert(ts@.take(k + 1).drop_last() =~= ts@.take(k as int));
        }
        out.append(&mut group);
    }
    assert(ts@.take(n as int) =~= ts@);
    out
}

/// Sum of absolute successive RTT differences.
fn successive_diff_sum(r: &Vec<u32>) -> (sum: u128)
    ensures
        sum == abs_diff_sum(r@),
{
    let n = r.len();
    let mut sum: u128 = 0;
    if n < 2 {
        return 0;
    }
    for i in 1..n
        invariant
            n == r@.len(),
            n >= 2,
            sum == abs_diff_sum(r@.take(i as int)),
            sum <= i * 0x1_0000_0000,
    {
        proof {
            assert(r@.take(i + 1).drop_last() =~= r@.take(i as int));
        }
        let d: u32 = if r[i] >= r[i - 1] { r[i] - r[i - 1] } else { r[i - 1] - r[i] };
        assert(sum + d <= (i + 1) * 0x1_0000_0000) by (nonlinear_arith)
            requires sum <= i * 0x1_0000_0000, d < 0x1_0000_0000;
        assert(i * 0x1_0000_0000 < 0x1_0000_0000_0000_0000_0000_0000) by (nonlinear_arith)
            requires i < 0x1_0000_0000_0000_0000;
        sum = sum + d as u128;
    }
    assert(r@.take(n as int) =~= r@);
    sum
}

/// Nearest-rank percentile of RTTs sorted ascending; `pct` is in percent and
/// is clamped to 100.
pub fn percentile_ms(sorted: &Vec<u32>, pct: u64) -> (r: Option<u32>)
    ensures
        r == percentile_spec(sorted@, pct as nat),
{
    let n = sorted.len();
    if n == 0 {
        return None;
    }
    let p: u128 = if pct > 100 { 100 } else { pct as u128 };
    let m: u128 = (n - 1) as u128;
    assert(m * p <= m * 100) by (nonlinear_arith)
        requires p <= 100;
    assert(m * 100 <= 0xFFFF_FFFF_FFFF_FFFF * 100) by (nonlinear_arith)
        requires m <= 0xFFFF_FFFF_FFFF_FFFF;
    let idx: u128 = (m * p + 50) / 100;
    assert(idx <= m) by (nonlinear_arith)
        requires idx == (m * p + 50) / 100, m * p <= m * 100;
    Some(sorted[idx as usize])
}

/// Integer facts of the current window: what the engine decides from, and
/// what the host blends into a score. Pure data.
#[derive(Debug, Clone)]
pub struct WindowStats {
    /// True iff a WAN voter succeeded within the dead-man window (and the
    /// window is not captive).
    pub wan_reachable: bool,
    /// True iff the window only shows a captive portal (no HTTP success).
    pub captive: bool,
    /// p50 RTT of successful WAN voters, milliseconds (only when reachable).
    pub rtt_p50_ms: Option<u32>,
    /// p95 RTT of successful WAN voters, milliseconds (only when reachable).
    pub rtt_p95_ms: Option<u32>,
    /// HTTP samples in the quality window.
    pub http_total: usize,
    /// HTTP samples in the quality window that did not succeed.
    pub http_failed: usize,
    /// DNS samples in the quality window.
    pub dns_total: usize,
    /// DNS samples in the quality window that succeeded.
    pub dns_ok: usize,
    /// Successful WAN voters in the quality window (only when reachable).
    pub rtt_count: usize,
    /// Sum of absolute successive differences of the success RTTs in time
    /// order, milliseconds (only when reachable). Jitter is this sum over
    /// `rtt_count - 1`.
    pub jitter_sum_ms: u128,
    /// Reachability edges in the flap window.
    pub flap_edges: u32,
    /// The score is capped because the path flaps (only when reachable).
    pub flapping: bool,
    /// Active reasons, highest priority first.
    pub reasons: Vec<Reason>,
}

/// Reasons of a reachable window, highest priority first: flapping; HTTP loss
/// of at least 5 %; p50 of at least 80 ms; a failing DNS probe; mean
/// successive RTT difference of at least 30 ms.
pub open spec fn up_reasons(
    flapping: bool,
    http_total: nat,
    http_failed: nat,
    p50: Option<u32>,
    dns_total: nat,
    dns_ok: nat,
    rtt_count: nat,
    jitter_sum: nat,
) -> Seq<Reason> {
    let r1 = if flapping { seq![Reason::Flap] } else { Seq::empty() };
    let r2 = if http_total > 0 && 20 * http_failed >= http_total { r1.push(Reason::Loss) } else { r1 };
    let r3 = if p50 matches Some(ms) && ms >= 80 { r2.push(Reason::Latency) } else { r2 };
    let r4 = if dns_ok < dns_total { r3.push(Reason::Dns) } else { r3 };
    if rtt_count >= 2 && jitter_sum >= 30 * (rtt_count - 1) { r4.push(Reason::Jitter) } else { r4 }
}

struct Counts {
    http_total: usize,
    http_failed: usize,
    http_ok: usize,
    dns_total: usize,
    dns_ok: usize,
    captive_seen: bool,
}

fn count_window(q: &Vec<ProbeSample>) -> (c: Counts)
    ensures
        c.http_total == count(q@, is_http()),
        c.http_failed == count(q@, is_http_failure()),
        c.http_ok == count(q@, is_http_success()),
        c.dns_total == count(q@, is_dns()),
        c.dns_ok == count(q@, is_dns_success()),
        c.captive_seen == has_captive(q@),
{
    let n = q.len();
    let mut c = Counts { http_total: 0, http_failed: 0, http_ok: 0, dns_total: 0, dns_ok: 0, captive_seen: false };
    for i in 0..n
        invariant
            n == q@.len(),
            c.http_total == count(q@.take(i as int), is_http()),
            c.http_failed == count(q@.take(i as int), is_http_failure()),
            c.http_ok == count(q@.take(i as int), is_http_success()),
            c.dns_total == count(q@.take(i as int), is_dns()),
            c.dns_ok == count(q@.take(i as int), is_dns_success()),
            c.captive_seen == has_captive(q@.take(i as int)),
    {
        let x = &q[i];
        proof {
            let pre = q@.take(i as int);
            assert(q@.take(i + 1) =~= pre.push(*x));
            lemma_count_push(pre, *x, is_http());
            lemma_count_push(pre, *x, is_http_failure());
            lemma_count_push(pre, *x, is_http_success());
            lemma_count_push(pre, *x, is_dns());
            lemma_count_push(pre, *x, is_dns_success());
            lemma_count_le_len(pre, is_http());
            lemma_count_le_len(pre, is_http_failure());
            lemma_count_le_len(pre, is_http_success());
            lemma_count_le_len(pre, is_dns());
            lemma_count_le_len(pre, is_dns_success());
            if has_captive(pre) {
                let k = choose|k: int| 0 <= k < pre.len() && spec_captive(#[trigger] pre[k]);
                assert(q@.take(i + 1)[k] == pre[k]);
            }
            if has_captive(q@.take(i + 1)) && !spec_captive(*x) {
                let k = choose|k: int| 0 <= k < i + 1 && spec_captive(#[trigger] q@.take(i + 1)[k]);
                assert(k < i);
                assert(pre[k] == q@.take(i + 1)[k]);
            }
            if spec_captive(*x) {
                assert(q@.take(i + 1)[i as int] == *x);
            }
        }
        match x.kind {
            ProbeKind::Http => {
                c.http_total = c.http_total + 1;
                if x.outcome.is_success() {
                    c.http_ok = c.http_ok + 1;
                } else {
                    c.http_failed = c.http_failed + 1;
                }
            },
            ProbeKind::Dns => {
                c.dns_total = c.dns_total + 1;
                if x.outcome.is_success() {
                    c.dns_ok = c.dns_ok + 1;
                }
            },
            _ => {},
        }
        if is_captive(x) {
            c.captive_seen = true;
        }
    }
    assert(q@.take(n as int) =~= q@);
    c
}

/// `r` holds the facts of samples `s` at `now_ms` under `cfg`, with the
/// dead-man window of `mode`: counts of the quality window, flap edges of the
/// flap window, the captive and reachability verdicts, and, when reachable,
/// RTT percentiles, jitter and reasons.
pub open spec fn assessed(r: WindowStats, s: Seq<ProbeSample>, now_ms: u64, cfg: EngineConfig, mode: SchedulerMode) -> bool {
    let q = window_of(s, now_ms, cfg.quality_window_ms);
    let f = window_of(s, now_ms, cfg.flap_window_ms);
    &&& r.flap_edges == flap_edge_count(f)
    &&& r.http_total == count(q, is_http())
    &&& r.http_failed == count(q, is_http_failure())
    &&& r.dns_total == count(q, is_dns())
    &&& r.dns_ok == count(q, is_dns_success())
    &&& r.captive == captive_window(q)
    &&& r.wan_reachable == (!captive_window(q) && reachable(s, now_ms, reach_timeout(mode, cfg)))
    &&& r.captive ==> r.reasons@ == seq![Reason::Captive]
    &&& (!r.captive && !r.wan_reachable) ==> r.reasons@ == seq![Reason::DeadMan]
    &&& !r.wan_reachable ==> {
        &&& r.rtt_p50_ms is None
        &&& r.rtt_p95_ms is None
        &&& r.rtt_count == 0
        &&& r.jitter_sum_ms == 0
        &&& !r.flapping
    }
    &&& r.wan_reachable ==> {
        &&& r.rtt_p50_ms == percentile_spec(sorted_u32(success_rtts(q)), 50)
        &&& r.rtt_p95_ms == percentile_spec(sorted_u32(success_rtts(q)), 95)
        &&& r.rtt_count == rtts_in_time_order(q).len()
        &&& r.jitter_sum_ms == abs_diff_sum(rtts_in_time_order(q))
        &&& r.flapping == (r.flap_edges > cfg.flap_edge_threshold)
        &&& r.reasons@ == up_reasons(
            r.flapping,
            r.http_total as nat,
            r.http_failed as nat,
            r.rtt_p50_ms,
            r.dns_total as nat,
            r.dns_ok as nat,
            r.rtt_count as nat,
            r.jitter_sum_ms as nat,
        )
    }
}

/// Score facts of the buffer at `now_ms`. Pure.
///
/// A captive window is not reachable and reports only [`Reason::Captive`]; an
/// unreachable window reports only [`Reason::DeadMan`]; a reachable window
/// carries RTT percentiles, jitter and its reasons (see [`up_reasons`]).
pub fn evaluate(buffer: &SampleBuffer, now_ms: u64, cfg: &EngineConfig, mode: SchedulerMode) -> (r: WindowStats)
    requires
        buffer@.len() <= u32::MAX,
    ensures
        assessed(r, buffer@, now_ms, *cfg, mode),
{
    broadcast use vstd::seq_lib::group_filter_ensures;
    let last_ok = last_wan_success_ms(buffer, now_ms);
    let reach_ms = reachability_timeout_ms(mode, cfg);
    let wan_reachable = match last_ok {
        Some(t) => now_ms.saturating_sub(t) <= reach_ms,
        None => false,
    };
    proof {
        let s = buffer@;
        if let Some(m) = last_ok {
            if reachable(s, now_ms, reach_ms) {
                let k = choose|k: int|
                    0 <= k < s.len() && s[k].at_ms <= now_ms && spec_wan_success(#[trigger] s[k])
                        && now_ms - s[k].at_ms <= reach_ms;
                assert(s[k].at_ms <= m);
            }
            if wan_reachable {
                let k = choose|k: int|
                    0 <= k < s.len() && s[k].at_ms == m && m <= now_ms && spec_wan_success(#[trigger] s[k]);
                assert(now_ms - s[k].at_ms <= reach_ms);
            }
        }
        assert(wan_reachable == reachable(s, now_ms, reach_ms));
    }
    let window = buffer.in_window(now_ms, cfg.quality_window_ms);
    let flap_window = buffer.in_window(now_ms, cfg.flap_window_ms);
    let edges = flap_edges(&flap_window);
    let c = count_window(&window);
    let captive = c.captive_seen && c.http_ok == 0;

    if captive {
        let r = WindowStats {
            wan_reachable: false,
            captive: true,
            rtt_p50_ms: None,
            rtt_p95_ms: None,
            http_total: c.http_total,
            http_failed: c.http_failed,
            dns_total: c.dns_total,
            dns_ok: c.dns_ok,
            rtt_count: 0,
            jitter_sum_ms: 0,
            flap_edges: edges,
            flapping: false,
            reasons: vec![Reason::Captive],
        };
        assert(r.reasons@ =~= seq![Reason::Captive]);
        return r;
    }
    if !wan_reachable {
        let r = WindowStats {
            wan_reachable: false,
            captive: false,
            rtt_p50_ms: None,
            rtt_p95_ms: None,
            http_total: c.http_total,
            http_failed: c.http_failed,
            dns_total: c.dns_total,
            dns_ok: c.dns_ok,
            rtt_count: 0,
            jitter_sum_ms: 0,
            flap_edges: edges,
            flapping: false,
            reasons: vec![Reason::DeadMan],
        };
        assert(r.reasons@ =~= seq![Reason::DeadMan]);
        return r;
    }

    let rtts = collect_success_rtts(&window);
    let sorted = sort_u32(&rtts);
    let p50 = percentile_ms(&sorted, 50);
    let p95 = percentile_ms(&sorted, 95);
    let ordered = collect_rtts_in_time_order(&window);
    let jitter_sum = successive_diff_sum(&ordered);
    let rtt_count = ordered.len();
    let flapping = edges > cfg.flap_edge_threshold;

    let mut reasons: Vec<Reason> = Vec::new();
    if flapping {
        reasons.push(Reason::Flap);
    }
    if c.http_total > 0 && c.http_failed as u128 * 20 >= c.http_total as u128 {
        reasons.push(Reason::Loss);
    }
    if let Some(ms) = p50 {
        if ms >= 80 {
            reasons.push(Reason::Latency);
        }
    }
    if c.dns_ok < c.dns_total {
        reasons.push(Reason::Dns);
    }
    if rtt_count >= 2 && jitter_sum >= 30 * ((rtt_count - 1) as u128) {
        reasons.push(Reason::Jitter);
    }
    proof {
        assert(reasons@ =~= up_reasons(
            flapping,
            c.http_total as nat,
            c.http_failed as nat,
            p50,
            c.dns_total as nat,
            c.dns_ok as nat,
            rtt_count as nat,
            jitter_sum as nat,
        ));
    }
    WindowStats {
        wan_reachable: true,
        captive: false,
        rtt_p50_ms: p50,
        rtt_p95_ms: p95,
        http_total: c.http_total,
        http_failed: c.http_failed,
        dns_total: c.dns_total,
        dns_ok: c.dns_ok,
        rtt_count,
        jitter_sum_ms: jitter_sum,
        flap_edges: edges,
        flapping,
        reasons,
    }
}


/// ICMP is never a WAN voter: an ICMP sample, whatever its outcome, changes
/// neither reachability, nor which instants count as up, nor the success RTTs.
pub proof fn law_icmp_never_votes(s: Seq<ProbeSample>, x: ProbeSample, now_ms: u64, reach_ms: u64, t: u64)
    requires
        x.kind is Icmp,
    ensures
        reachable(s.push(x), now_ms, reach_ms) == reachable(s, now_ms, reach_ms),
        up_at(s.push(x), t) == up_at(s, t),
        success_rtts(s.push(x)) == success_rtts(s),
        success_rtts_at(s.push(x), t) == success_rtts_at(s, t),
{
    let s2 = s.push(x);
    assert(s2.drop_last() =~= s);
    if reachable(s2, now_ms, reach_ms) {
        let k = choose|k: int|
            0 <= k < s2.len() && s2[k].at_ms <= now_ms && spec_wan_success(#[trigger] s2[k])
                && now_ms - s2[k].at_ms <= reach_ms;
        assert(k < s.len());
        assert(s[k] == s2[k]);
    }
    if reachable(s, now_ms, reach_ms) {
        let k = choose|k: int|
            0 <= k < s.len() && s[k].at_ms <= now_ms && spec_wan_success(#[trigger] s[k])
                && now_ms - s[k].at_ms <= reach_ms;
        assert(s2[k] == s[k]);
    }
    if up_at(s2, t) {
        let k = choose|k: int| 0 <= k < s2.len() && s2[k].at_ms == t && spec_wan_success(#[trigger] s2[k]);
        assert(k < s.len());
        assert(s[k] == s2[k]);
    }
    if up_at(s, t) {
        let k = choose|k: int| 0 <= k < s.len() && s[k].at_ms == t && spec_wan_success(#[trigger] s[k]);
        assert(s2[k] == s[k]);
    }
}

/// Dead-man beats a stale good RTT: when every WAN success at or before `now`
/// is older than the dead-man window, the path is not reachable, however good
/// those RTTs were.
pub proof fn law_dead_man_beats_stale_rtt(s: Seq<ProbeSample>, now_ms: u64, reach_ms: u64)
    requires
        forall|k: int|
            0 <= k < s.len() && s[k].at_ms <= now_ms && spec_wan_success(#[trigger] s[k]) ==> now_ms
                - s[k].at_ms > reach_ms,
    ensures
        !reachable(s, now_ms, reach_ms),
{
}

/// A captive portal is never the internet: a captive window is not reachable,
/// has no RTTs and reports only the captive reason.
pub proof fn law_captive_is_never_up(
    r: WindowStats,
    s: Seq<ProbeSample>,
    now_ms: u64,
    cfg: EngineConfig,
    mode: SchedulerMode,
)
    requires
        assessed(r, s, now_ms, cfg, mode),
        r.captive,
    ensures
        !r.wan_reachable,
        r.rtt_p50_ms is None,
        r.reasons@ == seq![Reason::Captive],
{
}

/// One HTTP success in the quality window is enough for the window not to
/// count as captive.
pub proof fn law_http_success_is_not_captive(q: Seq<ProbeSample>, k: int)
    requires
        0 <= k < q.len(),
        q[k].kind is Http,
        q[k].outcome is Success,
    ensures
        !captive_window(q),
{
    lemma_count_positive(q, is_http_success(), k);
}

proof fn lemma_count_positive(q: Seq<ProbeSample>, p: spec_fn(ProbeSample) -> bool, k: int)
    requires
        0 <= k < q.len(),
        p(q[k]),
    ensures
        count(q, p) > 0,
    decreases q.len(),
{
    if k < q.len() - 1 {
        assert(q.drop_last()[k] == q[k]);
        lemma_count_positive(q.drop_last(), p, k);
    }
}

/// Outside `Stable` the dead-man trips after exactly `dead_ms`: a window scored
/// in any other mode is reachable iff it is not captive and some WAN voter
/// succeeded at most `dead_ms` before `now`. In `Stable` the frugal interval
/// is added (saturating), so a stable window is never stricter.
pub proof fn law_dead_man_window_by_mode(
    r: WindowStats,
    s: Seq<ProbeSample>,
    now_ms: u64,
    cfg: EngineConfig,
    mode: SchedulerMode,
)
    requires
        assessed(r, s, now_ms, cfg, mode),
    ensures
        !(mode is Stable) ==> reach_timeout(mode, cfg) == cfg.dead_ms,
        !(mode is Stable) ==> (r.wan_reachable <==> (!captive_window(window_of(s, now_ms, cfg.quality_window_ms))
            && exists|k: int|
            0 <= k < s.len() && s[k].at_ms <= now_ms && spec_wan_success(#[trigger] s[k]) && now_ms
                - s[k].at_ms <= cfg.dead_ms)),
        mode is Stable ==> reach_timeout(mode, cfg) == if cfg.stable_spacing_ms + cfg.dead_ms > u64::MAX {
            u64::MAX
        } else {
            (cfg.stable_spacing_ms + cfg.dead_ms) as u64
        },
        reach_timeout(mode, cfg) >= cfg.dead_ms,
        reach_timeout(mode, cfg) <= reach_timeout(SchedulerMode::Stable, cfg),
{
}

/// Priority of a reason in a reachable window's list.
pub open spec fn reason_rank(r: Reason) -> int {
    match r {
        Reason::DeadMan => 0,
        Reason::Captive => 0,
        Reason::Flap => 1,
        Reason::Loss => 2,
        Reason::Latency => 3,
        Reason::Dns => 4,
        Reason::Jitter => 5,
    }
}

/// The reasons of a reachable window, each exactly when its threshold is met:
/// flapping when the flap edges exceed `flap_edge_threshold`; loss when at
/// least 5 % of the HTTP probes failed; latency when p50 is at least 80 ms;
/// DNS when a DNS probe failed; jitter when the mean difference of successive
/// RTTs is at least 30 ms. They are listed once each, in that order, and
/// never say dead-man or captive.
pub proof fn law_reasons_of_a_reachable_window(
    r: WindowStats,
    s: Seq<ProbeSample>,
    now_ms: u64,
    cfg: EngineConfig,
    mode: SchedulerMode,
)
    requires
        assessed(r, s, now_ms, cfg, mode),
        r.wan_reachable,
    ensures
        r.flapping <==> r.flap_edges > cfg.flap_edge_threshold,
        r.reasons@.contains(Reason::Flap) <==> r.flap_edges > cfg.flap_edge_threshold,
        r.reasons@.contains(Reason::Loss) <==> (r.http_total > 0 && 20 * r.http_failed >= r.http_total),
        r.reasons@.contains(Reason::Latency) <==> (r.rtt_p50_ms matches Some(ms) && ms >= 80),
        r.reasons@.contains(Reason::Dns) <==> r.dns_ok < r.dns_total,
        r.reasons@.contains(Reason::Jitter) <==> (r.rtt_count >= 2 && r.jitter_sum_ms >= 30 * (r.rtt_count
            - 1)),
        !r.reasons@.contains(Reason::DeadMan),
        !r.reasons@.contains(Reason::Captive),
        forall|i: int, j: int|
            0 <= i < j < r.reasons@.len() ==> reason_rank(#[trigger] r.reasons@[i]) < reason_rank(
                #[trigger] r.reasons@[j],
            ),
{
    let rs = r.reasons@;
    let r1 = if r.flapping { seq![Reason::Flap] } else { Seq::<Reason>::empty() };
    let r2 = if r.http_total > 0 && 20 * r.http_failed >= r.http_total { r1.push(Reason::Loss) } else { r1 };
    let r3 = if r.rtt_p50_ms matches Some(ms) && ms >= 80 { r2.push(Reason::Latency) } else { r2 };
    let r4 = if r.dns_ok < r.dns_total { r3.push(Reason::Dns) } else { r3 };
    assert(forall|i: int| 0 <= i < r1.len() ==> reason_rank(#[trigger] r1[i]) == 1);
    assert(forall|i: int| 0 <= i < r2.len() ==> 1 <= reason_rank(#[trigger] r2[i]) <= 2);
    assert(forall|i: int| 0 <= i < r3.len() ==> 1 <= reason_rank(#[trigger] r3[i]) <= 3);
    assert(forall|i: int| 0 <= i < r4.len() ==> 1 <= reason_rank(#[trigger] r4[i]) <= 4);
    assert(forall|i: int| 0 <= i < rs.len() ==> 1 <= reason_rank(#[trigger] rs[i]) <= 5);
    assert(forall|i: int, j: int| 0 <= i < j < r2.len() ==> reason_rank(#[trigger] r2[i]) < reason_rank(#[trigger] r2[j]));
    assert(forall|i: int, j: int| 0 <= i < j < r3.len() ==> reason_rank(#[trigger] r3[i]) < reason_rank(#[trigger] r3[j]));
    assert(forall|i: int, j: int| 0 <= i < j < r4.len() ==> reason_rank(#[trigger] r4[i]) < reason_rank(#[trigger] r4[j]));
    assert forall|x: Reason| #[trigger] rs.contains(x) implies reason_rank(x) >= 1 by {
        let i = choose|i: int| 0 <= i < rs.len() && rs[i] == x;
    }
    assert(reason_rank(Reason::DeadMan) == 0);
    assert(reason_rank(Reason::Captive) == 0);
    if r.flapping {
        assert(rs[0] == Reason::Flap);
    }
    if r.http_total > 0 && 20 * r.http_failed >= r.http_total {
        assert(r2[r2.len() - 1] == Reason::Loss);
        assert(rs[r2.len() - 1] == Reason::Loss);
    }
    if r.rtt_p50_ms matches Some(ms) && ms >= 80 {
        assert(rs[r3.len() - 1] == Reason::Latency);
    }
    if r.dns_ok < r.dns_total {
        assert(rs[r4.len() - 1] == Reason::Dns);
    }
    if r.rtt_count >= 2 && r.jitter_sum_ms >= 30 * (r.rtt_count - 1) {
        assert(rs[r4.len() as int] == Reason::Jitter);
    }
    assert forall|x: Reason| #[trigger] rs.contains(x) implies (
        (x == Reason::Flap ==> r.flapping)
        && (x == Reason::Loss ==> (r.http_total > 0 && 20 * r.http_failed >= r.http_total))
        && (x == Reason::Latency ==> (r.rtt_p50_ms matches Some(ms) && ms >= 80))
        && (x == Reason::Dns ==> r.dns_ok < r.dns_total)
        && (x == Reason::Jitter ==> (r.rtt_count >= 2 && r.jitter_sum_ms >= 30 * (r.rtt_count - 1)))
    ) by {
        let i = choose|i: int| 0 <= i < rs.len() && rs[i] == x;
    }
}

} // verus!
