//! Probe samples are data. A timeout is a fact, not an exception.

use vstd::prelude::*;

verus! {

/// Stable id of a probe target (e.g. `"http-google-204"`).
#[derive(Debug, Clone, PartialEq, Eq, Hash)]
pub struct TargetId(pub String);

impl TargetId {
    /// Create a target id from a string.
    pub fn new(id: &str) -> (t: TargetId)
        ensures
            t.0@ == id@,
    {
        TargetId(id.to_owned())
    }

    /// Borrow the id.
    pub fn as_str(&self) -> (s: &str)
        ensures
            s@ == self.0@,
    {
        self.0.as_str()
    }
}

/// A target id that owns the given text.
impl From<String> for TargetId {
    fn from(value: String) -> (t: TargetId) {
        TargetId(value)
    }
}

impl vstd::std_specs::convert::FromSpecImpl<String> for TargetId {
    open spec fn obeys_from_spec() -> bool {
        true
    }

    open spec fn from_spec(v: String) -> TargetId {
        TargetId(v)
    }
}

/// A target id holding a copy of the given text (see `from` for what is stated).
impl<'a> From<&'a str> for TargetId {
    fn from(value: &'a str) -> (t: TargetId)
        ensures
            t.0@ == value@,
    {
        TargetId(value.to_owned())
    }
}

/// Specs know a `String` only by its characters, so the copy made from a
/// `&str` cannot be named as a spec value: `from` states the copy's text
/// instead (`t.0@ == value@`), and no `from_spec` equation is claimed.
impl<'a> vstd::std_specs::convert::FromSpecImpl<&'a str> for TargetId {
    open spec fn obeys_from_spec() -> bool {
        false
    }

    open spec fn from_spec(v: &'a str) -> TargetId {
        TargetId(choose|s: String| s@ == v@)
    }
}

/// How the probe was performed. ICMP never votes for WAN reachability.
#[derive(Debug, Clone, Copy, PartialEq, Eq, Hash, Structural)]
pub enum ProbeKind {
    /// Tiny HTTP(S) connectivity check (204 / short body).
    Http,
    /// Direct DNS lookup with its own timeout.
    Dns,
    /// Optional ICMP echo. Informational only, never a WAN voter.
    Icmp,
}

/// Outcome of a single probe attempt.
#[derive(Debug, Clone, Copy, PartialEq, Eq, Structural)]
pub enum ProbeOutcome {
    /// Reached the target. `rtt_ms` is milliseconds (TTFB or resolve time).
    Success {
        /// Round-trip / TTFB in milliseconds.
        rtt_ms: u32,
    },
    /// Hard timeout (no useful response inside the probe budget).
    Timeout,
    /// Transport/TLS/DNS-servfail style failure (not a captive portal).
    TransportFail,
    /// HTTP looks like a captive portal (redirect/HTML login), not WAN.
    Captive {
        /// HTTP status that triggered classification.
        http_status: u16,
    },
}

impl ProbeOutcome {
    /// True when the probe got a genuine success (not captive).
    pub fn is_success(self) -> (b: bool)
        ensures
            b == (self is Success),
    {
        matches!(self, ProbeOutcome::Success { .. })
    }

    /// RTT when successful.
    pub fn rtt_ms(self) -> (r: Option<u32>)
        ensures
            r == match self {
                ProbeOutcome::Success { rtt_ms } => Some(rtt_ms),
                _ => None::<u32>,
            },
    {
        match self {
            ProbeOutcome::Success { rtt_ms } => Some(rtt_ms),
            _ => None,
        }
    }
}

/// One finished probe, timestamped with the engine clock (`ms` from an arbitrary epoch).
#[derive(Debug, Clone, PartialEq, Eq)]
pub struct ProbeSample {
    /// Engine clock millisecond when the probe completed.
    pub at_ms: u64,
    /// Which target was probed.
    pub target: TargetId,
    /// Protocol used.
    pub kind: ProbeKind,
    /// What happened.
    pub outcome: ProbeOutcome,
}

/// The fields of a sample built by one of the named constructors.
pub open spec fn built(s: ProbeSample, at_ms: u64, target: &str, kind: ProbeKind, outcome: ProbeOutcome) -> bool {
    &&& s.at_ms == at_ms
    &&& s.target.0@ == target@
    &&& s.kind == kind
    &&& s.outcome == outcome
}

impl ProbeSample {
    fn make(at_ms: u64, target: &str, kind: ProbeKind, outcome: ProbeOutcome) -> (s: ProbeSample)
        ensures
            built(s, at_ms, target, kind, outcome),
    {
        ProbeSample { at_ms, target: TargetId::new(target), kind, outcome }
    }

    /// A field-by-field copy of this sample.
    pub fn duplicate(&self) -> (s: ProbeSample)
        ensures
            s == *self,
    {
        ProbeSample {
            at_ms: self.at_ms,
            target: TargetId(self.target.0.clone()),
            kind: self.kind,
            outcome: self.outcome,
        }
    }

    /// HTTP connectivity success.
    pub fn http_ok(at_ms: u64, target: &str, rtt_ms: u32) -> (s: ProbeSample)
        ensures
            built(s, at_ms, target, ProbeKind::Http, ProbeOutcome::Success { rtt_ms }),
    {
        Self::make(at_ms, target, ProbeKind::Http, ProbeOutcome::Success { rtt_ms })
    }

    /// HTTP timeout.
    pub fn http_timeout(at_ms: u64, target: &str) -> (s: ProbeSample)
        ensures
            built(s, at_ms, target, ProbeKind::Http, ProbeOutcome::Timeout),
    {
        Self::make(at_ms, target, ProbeKind::Http, ProbeOutcome::Timeout)
    }

    /// HTTP transport failure.
    pub fn http_fail(at_ms: u64, target: &str) -> (s: ProbeSample)
        ensures
            built(s, at_ms, target, ProbeKind::Http, ProbeOutcome::TransportFail),
    {
        Self::make(at_ms, target, ProbeKind::Http, ProbeOutcome::TransportFail)
    }

    /// Captive-portal HTTP response.
    pub fn http_captive(at_ms: u64, target: &str, http_status: u16) -> (s: ProbeSample)
        ensures
            built(s, at_ms, target, ProbeKind::Http, ProbeOutcome::Captive { http_status }),
    {
        Self::make(at_ms, target, ProbeKind::Http, ProbeOutcome::Captive { http_status })
    }

    /// DNS success.
    pub fn dns_ok(at_ms: u64, target: &str, rtt_ms: u32) -> (s: ProbeSample)
        ensures
            built(s, at_ms, target, ProbeKind::Dns, ProbeOutcome::Success { rtt_ms }),
    {
        Self::make(at_ms, target, ProbeKind::Dns, ProbeOutcome::Success { rtt_ms })
    }

    /// DNS timeout.
    pub fn dns_timeout(at_ms: u64, target: &str) -> (s: ProbeSample)
        ensures
            built(s, at_ms, target, ProbeKind::Dns, ProbeOutcome::Timeout),
    {
        Self::make(at_ms, target, ProbeKind::Dns, ProbeOutcome::Timeout)
    }

    /// DNS transport / empty-answer failure (not a timeout).
    pub fn dns_fail(at_ms: u64, target: &str) -> (s: ProbeSample)
        ensures
            built(s, at_ms, target, ProbeKind::Dns, ProbeOutcome::TransportFail),
    {
        Self::make(at_ms, target, ProbeKind::Dns, ProbeOutcome::TransportFail)
    }

    /// ICMP timeout (must not, by itself, paint the path dead).
    pub fn icmp_timeout(at_ms: u64, target: &str) -> (s: ProbeSample)
        ensures
            built(s, at_ms, target, ProbeKind::Icmp, ProbeOutcome::Timeout),
    {
        Self::make(at_ms, target, ProbeKind::Icmp, ProbeOutcome::Timeout)
    }

    /// ICMP success (still not a WAN voter).
    pub fn icmp_ok(at_ms: u64, target: &str, rtt_ms: u32) -> (s: ProbeSample)
        ensures
            built(s, at_ms, target, ProbeKind::Icmp, ProbeOutcome::Success { rtt_ms }),
    {
        Self::make(at_ms, target, ProbeKind::Icmp, ProbeOutcome::Success { rtt_ms })
    }
}

/// HTTP and DNS vote for WAN reachability; ICMP does not.
pub open spec fn spec_wan_voter(kind: ProbeKind) -> bool {
    kind is Http || kind is Dns
}

/// A sample is WAN evidence iff a voter succeeded.
pub open spec fn spec_wan_success(s: ProbeSample) -> bool {
    spec_wan_voter(s.kind) && s.outcome is Success
}

/// A sample is a captive-portal classification.
pub open spec fn spec_captive(s: ProbeSample) -> bool {
    s.outcome is Captive
}

/// HTTP and DNS may vote for WAN. ICMP must not.
pub fn is_wan_voter(kind: ProbeKind) -> (b: bool)
    ensures
        b == spec_wan_voter(kind),
{
    matches!(kind, ProbeKind::Http | ProbeKind::Dns)
}

/// True when this sample is evidence the public internet answered.
pub fn is_wan_success(sample: &ProbeSample) -> (b: bool)
    ensures
        b == spec_wan_success(*sample),
{
    is_wan_voter(sample.kind) && sample.outcome.is_success()
}

/// True when this sample is a captive-portal classification.
pub fn is_captive(sample: &ProbeSample) -> (b: bool)
    ensures
        b == spec_captive(*sample),
{
    matches!(sample.outcome, ProbeOutcome::Captive { .. })
}

} // verus!
