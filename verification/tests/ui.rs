use netflash::color::{band_stop_colors, stop_color, Srgb8};
use netflash::config::EngineConfig;
use netflash::display::DisplayState;
use netflash::host::{stamp_round, RoundTracker};
use netflash::sample::ProbeSample;
use netflash::skin::{paused_color, Skin, DEFAULT_SIZE};

#[test]
fn hex_is_upper_case_rrggbb() {
    assert_eq!(Srgb8::new(0x7C, 0x3A, 0xED).to_hex(), "#7C3AED");
    assert_eq!(Srgb8::new(0, 15, 255).to_hex(), "#000FFF");
}

#[test]
fn stops_violet_to_blue() {
    let stops = band_stop_colors();
    assert_eq!(stops[0], Srgb8::new(0x7C, 0x3A, 0xED));
    assert_eq!(stops[4], Srgb8::new(0x3B, 0x82, 0xF6));
    assert_eq!(stop_color(1), Srgb8::new(0xEF, 0x44, 0x44));
    assert_eq!(stop_color(5), stops[4]);
    assert_eq!(stop_color(usize::MAX), stops[4]);
}

#[test]
fn skin_keys_round_trip() {
    for skin in Skin::all() {
        assert_eq!(Skin::from_key(skin.key()), Some(skin));
    }
    assert_eq!(Skin::from_key("Dot"), None);
    assert_eq!(Skin::from_key(""), None);
    assert_eq!(Skin::Kawaii.menu_label(), "Kawaii");
    assert_eq!(Skin::Bars.key(), "bars");
    assert_eq!(Skin::all()[0], Skin::Dot);
    assert_eq!(DEFAULT_SIZE, 44);
    assert_eq!(paused_color(), Srgb8::new(0x86, 0x86, 0x8F));
}

#[test]
fn one_success_does_not_release_paint() {
    let cfg = EngineConfig::default();
    let mut d = DisplayState::new();
    d.on_round(0, true, &cfg);
    d.step(0, true, &cfg);
    assert!(!d.declared_up());
    assert!(!d.paints_score(true));
}

#[test]
fn recovery_hold_and_count_release_paint() {
    let mut cfg = EngineConfig::default();
    cfg.recovery_successes = 1;
    cfg.recovery_hold_ms = 0;
    let mut d = DisplayState::new();
    d.on_round(0, true, &cfg);
    assert!(d.declared_up());
    assert!(d.paints_score(true));
    assert!(!d.paints_score(false));
    d.step(10, false, &cfg);
    assert!(!d.declared_up());
    assert_eq!(d.consecutive_ok, 0);
}

#[test]
fn failed_round_resets_recovery() {
    let cfg = EngineConfig::default();
    let mut d = DisplayState::new();
    d.on_round(0, true, &cfg);
    d.on_round(300, true, &cfg);
    assert_eq!(d.consecutive_ok, 2);
    assert_eq!(d.recovery_started_ms, Some(0));
    d.on_round(600, false, &cfg);
    assert_eq!(d.consecutive_ok, 0);
    assert_eq!(d.recovery_started_ms, None);
}

#[test]
fn round_tracker_freezes_clock_and_expires() {
    let mut r = RoundTracker::new();
    assert!(r.clock_may_advance());
    assert!(r.should_fire(false, true));
    assert!(!r.should_fire(true, true));
    assert!(!r.should_fire(false, false));
    r.fired(1000);
    assert!(!r.clock_may_advance());
    assert!(!r.should_fire(false, true));
    r.expire(3000);
    assert!(!r.clock_may_advance());
    r.expire(3001);
    assert!(r.clock_may_advance());
    r.fired(5000);
    r.on_results();
    assert!(r.clock_may_advance());
}

#[test]
fn stamping_sets_every_time() {
    let mut v = vec![ProbeSample::http_ok(1, "a", 5), ProbeSample::dns_timeout(2, "b")];
    stamp_round(&mut v, 77);
    assert!(v.iter().all(|s| s.at_ms == 77));
    assert_eq!(v[1].target.as_str(), "b");
}
