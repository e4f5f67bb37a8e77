//! Decisions of a live probe round: what to fire, how to read an HTTP answer,
//! a failed request or a DNS lookup, and when a round may stop.
//!
//! A round returns as soon as one WAN voter succeeds: waiting for a slow
//! sibling (600 ms timeout) would let the 800 ms dead-man fire while the
//! machine actually has internet.

use vstd::prelude::*;
use vstd::utf8::{decode_utf8, valid_utf8};

use crate::sample::{ProbeKind, ProbeOutcome};
use crate::text::{
    ascii_lowercase, chars_of, contains_seq, has_prefix, has_sub, lowercase_chars, starts_with,
    trim_start, trim_start_chars,
};

verus! {

/// Hard cap per probe, milliseconds.
pub const PROBE_TIMEOUT_MS: u64 = 600;

/// A failed request this close to the cap (or later) counts as a timeout.
pub const TIMEOUT_SLACK_MS: u64 = 20;

/// How much of an HTTP body is inspected for a login page.
pub const BODY_SNIFF_BYTES: usize = 2048;

/// One probe of a round.
#[derive(Debug, Clone, Copy, PartialEq, Eq)]
pub struct ProbeTarget {
    /// Stable target id.
    pub id: &'static str,
    /// URL (HTTP) or host name (DNS).
    pub address: &'static str,
    /// Protocol.
    pub kind: ProbeKind,
}

/// Id of the first HTTP target.
pub const HTTP_GSTATIC_ID: &'static str = "http-gstatic";
/// URL of the first HTTP target.
pub const HTTP_GSTATIC_URL: &'static str = "https://www.gstatic.com/generate_204";
/// Id of the second HTTP target.
pub const HTTP_CLOUDFLARE_ID: &'static str = "http-cloudflare";
/// URL of the second HTTP target.
pub const HTTP_CLOUDFLARE_URL: &'static str = "https://cp.cloudflare.com/generate_204";
/// Id of the DNS target.
pub const DNS_ONE_ID: &'static str = "dns-one";
/// Name resolved by the DNS target.
pub const DNS_ONE_NAME: &'static str = "one.one.one.one";

/// Number of probes fired for a requested in-flight count: at least one, at
/// most the three targets.
pub open spec fn planned_probes(count: u8) -> nat {
    if count <= 1 {
        1
    } else if count == 2 {
        2
    } else {
        3
    }
}

/// The probes of a round with `count` in flight: the first HTTP target alone,
/// both HTTP targets, or both plus DNS.
pub fn round_plan(count: u8) -> (plan: Vec<ProbeTarget>)
    ensures
        plan@.len() == planned_probes(count),
        plan@[0] == (ProbeTarget { id: HTTP_GSTATIC_ID, address: HTTP_GSTATIC_URL, kind: ProbeKind::Http }),
        plan@.len() >= 2 ==> plan@[1] == (ProbeTarget {
            id: HTTP_CLOUDFLARE_ID,
            address: HTTP_CLOUDFLARE_URL,
            kind: ProbeKind::Http,
        }),
        plan@.len() >= 3 ==> plan@[2] == (ProbeTarget { id: DNS_ONE_ID, address: DNS_ONE_NAME, kind: ProbeKind::Dns }),
{
    let mut plan: Vec<ProbeTarget> = Vec::new();
    plan.push(ProbeTarget { id: HTTP_GSTATIC_ID, address: HTTP_GSTATIC_URL, kind: ProbeKind::Http });
    if count >= 2 {
        plan.push(ProbeTarget { id: HTTP_CLOUDFLARE_ID, address: HTTP_CLOUDFLARE_URL, kind: ProbeKind::Http });
    }
    if count >= 3 {
        plan.push(ProbeTarget { id: DNS_ONE_ID, address: DNS_ONE_NAME, kind: ProbeKind::Dns });
    }
    plan
}

/// A round stops at the first WAN success, or once every probe has answered.
pub fn round_complete(last_was_wan_success: bool, answered: usize, fired: usize) -> (done: bool)
    ensures
        done == (last_was_wan_success || answered >= fired),
{
    last_was_wan_success || answered >= fired
}

/// Milliseconds as a `u32` RTT, saturating.
pub open spec fn rtt_from_ms(elapsed_ms: u128) -> u32 {
    if elapsed_ms > u32::MAX { u32::MAX } else { elapsed_ms as u32 }
}

fn rtt_ms_of(elapsed_ms: u128) -> (r: u32)
    ensures
        r == rtt_from_ms(elapsed_ms),
{
    if elapsed_ms > 0xFFFF_FFFF {
        0xFFFF_FFFF
    } else {
        elapsed_ms as u32
    }
}

/// A request that failed before any answer: a timeout if it took (nearly) the
/// whole budget, a transport failure otherwise.
pub fn failed_request_outcome(elapsed_ms: u128) -> (o: ProbeOutcome)
    ensures
        o == if elapsed_ms >= (PROBE_TIMEOUT_MS - TIMEOUT_SLACK_MS) as u128 {
            ProbeOutcome::Timeout
        } else {
            ProbeOutcome::TransportFail
        },
{
    if elapsed_ms >= (PROBE_TIMEOUT_MS - TIMEOUT_SLACK_MS) as u128 {
        ProbeOutcome::Timeout
    } else {
        ProbeOutcome::TransportFail
    }
}

/// A finished DNS lookup: a success (RTT saturating at `u32::MAX`) when it
/// returned an address, a failure otherwise.
pub fn dns_outcome(has_address: bool, elapsed_ms: u128) -> (o: ProbeOutcome)
    ensures
        o == if has_address {
            ProbeOutcome::Success { rtt_ms: rtt_from_ms(elapsed_ms) }
        } else {
            ProbeOutcome::TransportFail
        },
{
    if has_address {
        ProbeOutcome::Success { rtt_ms: rtt_ms_of(elapsed_ms) }
    } else {
        ProbeOutcome::TransportFail
    }
}

/// `std::str::from_utf8`: the text exactly when the bytes are well-formed UTF-8.
#[verifier::external_body]
fn utf8_text(bytes: &[u8]) -> (r: Option<&str>)
    ensures
        r is Some <==> valid_utf8(bytes@),
        r matches Some(s) ==> s@ == decode_utf8(bytes@),
{
    std::str::from_utf8(bytes).ok()
}

/// The start of a body as inspected for a login page: decoded as UTF-8 (empty
/// when it is not), leading whitespace removed, ASCII lowered.
pub open spec fn body_head(body: Seq<u8>) -> Seq<char> {
    ascii_lowercase(trim_start(if valid_utf8(body) { decode_utf8(body) } else { Seq::empty() }))
}

/// A 200 answer that is really a login page: an HTML content type, or a body
/// that starts like an HTML document.
pub open spec fn looks_like_login_page(content_type: Seq<char>, body: Seq<u8>) -> bool {
    ||| contains_seq(ascii_lowercase(content_type), "text/html"@)
    ||| starts_with(body_head(body), "<!doctype"@)
    ||| starts_with(body_head(body), "<html"@)
}

/// Reading of an HTTP answer: 204/205 is connectivity; a redirect is a captive
/// portal; a 200 is connectivity unless it looks like a login page; anything
/// else is a transport failure.
pub open spec fn http_classification(status: u16, content_type: Seq<char>, body: Seq<u8>, elapsed_ms: u128) -> ProbeOutcome {
    if status == 204 || status == 205 {
        ProbeOutcome::Success { rtt_ms: rtt_from_ms(elapsed_ms) }
    } else if status == 301 || status == 302 || status == 303 || status == 307 || status == 308 {
        ProbeOutcome::Captive { http_status: status }
    } else if status == 200 {
        if looks_like_login_page(content_type, body) {
            ProbeOutcome::Captive { http_status: 200 }
        } else {
            ProbeOutcome::Success { rtt_ms: rtt_from_ms(elapsed_ms) }
        }
    } else {
        ProbeOutcome::TransportFail
    }
}

/// Classify an HTTP answer (see [`http_classification`]).
pub fn classify_http(status: u16, content_type: &str, body: &[u8], elapsed_ms: u128) -> (o: ProbeOutcome)
    ensures
        o == http_classification(status, content_type@, body@, elapsed_ms),
{
    let rtt_ms = rtt_ms_of(elapsed_ms);
    if status == 204 || status == 205 {
        return ProbeOutcome::Success { rtt_ms };
    }
    if status == 301 || status == 302 || status == 303 || status == 307 || status == 308 {
        return ProbeOutcome::Captive { http_status: status };
    }
    if status != 200 {
        return ProbeOutcome::TransportFail;
    }
    let ct_chars = chars_of(content_type);
    let ct = lowercase_chars(&ct_chars);
    let html = chars_of("text/html");
    if has_sub(&ct, &html) {
        return ProbeOutcome::Captive { http_status: 200 };
    }
    let text: Vec<char> = match utf8_text(body) {
        Some(s) => chars_of(s),
        None => Vec::new(),
    };
    proof {
        if !valid_utf8(body@) {
            assert(text@ =~= Seq::<char>::empty());
        }
    }
    let trimmed = trim_start_chars(&text);
    let head = lowercase_chars(&trimmed);
    let doctype = chars_of("<!doctype");
    let html_tag = chars_of("<html");
    if has_prefix(&head, &doctype) || has_prefix(&head, &html_tag) {
        return ProbeOutcome::Captive { http_status: 200 };
    }
    ProbeOutcome::Success { rtt_ms }
}

} // verus!
