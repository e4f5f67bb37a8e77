use netflash::probe::{
    classify_http, dns_outcome, failed_request_outcome, round_complete, round_plan, DNS_ONE_NAME,
    HTTP_CLOUDFLARE_ID, HTTP_GSTATIC_ID, HTTP_GSTATIC_URL,
};
use netflash::sample::{ProbeKind, ProbeOutcome};

#[test]
fn http_status_classification() {
    assert_eq!(classify_http(204, "", b"", 70), ProbeOutcome::Success { rtt_ms: 70 });
    assert_eq!(classify_http(205, "", b"", 71), ProbeOutcome::Success { rtt_ms: 71 });
    for s in [301_u16, 302, 303, 307, 308] {
        assert_eq!(classify_http(s, "", b"", 5), ProbeOutcome::Captive { http_status: s });
    }
    assert_eq!(classify_http(500, "", b"", 5), ProbeOutcome::TransportFail);
    assert_eq!(classify_http(404, "text/html", b"<html>", 5), ProbeOutcome::TransportFail);
}

#[test]
fn http_200_login_page_is_captive() {
    assert_eq!(
        classify_http(200, "Text/HTML; charset=utf-8", b"", 5),
        ProbeOutcome::Captive { http_status: 200 }
    );
    assert_eq!(
        classify_http(200, "application/octet-stream", b" \n\t<!DOCTYPE html><p>login", 5),
        ProbeOutcome::Captive { http_status: 200 }
    );
    assert_eq!(
        classify_http(200, "", "\u{a0}<HtMl lang=en>".as_bytes(), 5),
        ProbeOutcome::Captive { http_status: 200 }
    );
    assert_eq!(classify_http(200, "text/plain", b"ok", 9), ProbeOutcome::Success { rtt_ms: 9 });
    // A body that is not UTF-8 reads as empty, so it cannot look like HTML.
    assert_eq!(
        classify_http(200, "", &[0xff, b'<', b'h', b't', b'm', b'l'], 9),
        ProbeOutcome::Success { rtt_ms: 9 }
    );
}

#[test]
fn rtt_saturates() {
    assert_eq!(
        classify_http(204, "", b"", u128::from(u32::MAX) + 5),
        ProbeOutcome::Success { rtt_ms: u32::MAX }
    );
    assert_eq!(dns_outcome(true, 1 << 40), ProbeOutcome::Success { rtt_ms: u32::MAX });
    assert_eq!(dns_outcome(true, 12), ProbeOutcome::Success { rtt_ms: 12 });
    assert_eq!(dns_outcome(false, 12), ProbeOutcome::TransportFail);
}

#[test]
fn late_failures_are_timeouts() {
    assert_eq!(failed_request_outcome(579), ProbeOutcome::TransportFail);
    assert_eq!(failed_request_outcome(580), ProbeOutcome::Timeout);
    assert_eq!(failed_request_outcome(10), ProbeOutcome::TransportFail);
}

#[test]
fn round_plans() {
    let one = round_plan(0);
    assert_eq!(one.len(), 1);
    assert_eq!(one[0].id, HTTP_GSTATIC_ID);
    assert_eq!(one[0].address, HTTP_GSTATIC_URL);
    assert_eq!(round_plan(1).len(), 1);
    let two = round_plan(2);
    assert_eq!(two.len(), 2);
    assert_eq!(two[1].id, HTTP_CLOUDFLARE_ID);
    let many = round_plan(9);
    assert_eq!(many.len(), 3);
    assert_eq!(many[2].kind, ProbeKind::Dns);
    assert_eq!(many[2].address, DNS_ONE_NAME);
}

#[test]
fn round_stops_on_first_success_or_all_answers() {
    assert!(round_complete(true, 1, 3));
    assert!(!round_complete(false, 1, 3));
    assert!(round_complete(false, 3, 3));
}
