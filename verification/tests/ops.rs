use orderflow::ops::df_available_bytes;
use orderflow::domain::{Mode, OpsConfig, Venue};
use orderflow::ops::{
    funding_black_at, kb_to_bytes, rotated_path, CrashFuse, CrashState, DiskWatermark,
    DiskWatermarkStatus, LogRotator, MissedBarDetector, OpsCheck, ReconnectPolicy, REGION, WIRED,
};

fn cfg() -> OpsConfig {
    OpsConfig { crash_window_s: 120, crash_burst: 5, clear_crash_on_start: false, ..OpsConfig::default() }
}

#[test]
fn unknown_does_not_trip() {
    let w = DiskWatermark::new(&OpsConfig::default());
    assert_eq!(w.check_injected(None), DiskWatermarkStatus::Unknown);
}

#[test]
fn below_trips() {
    let w = DiskWatermark { min_free: 1_000_000 };
    assert_eq!(w.check_injected(Some(10)), DiskWatermarkStatus::Below);
    assert_eq!(w.check_injected(Some(2_000_000)), DiskWatermarkStatus::Enough);
}

#[test]
fn utc_zero_is_black() {
    let hours = [0u32, 8, 16];
    assert!(funding_black_at(0, &hours, 15));
    assert!(!funding_black_at(20 * 60 * 1000, &hours, 15));
}

#[test]
fn gap_is_miss() {
    let mut d = MissedBarDetector::default();
    assert!(d.on_closed(Venue::Okx, "SOL", 1_000_000).is_none());
    let miss = d.on_closed(Venue::Okx, "SOL", 1_000_000 + 120_000).unwrap();
    assert_eq!(miss.expected_open_ms, 1_000_000 + 60_000);
    assert_eq!(miss.symbol, "SOL");
}

#[test]
fn doubles_then_caps() {
    let mut p = ReconnectPolicy::default();
    assert_eq!(p.next_delay_ms(), 500);
    assert_eq!(p.next_delay_ms(), 1000);
    for _ in 0..20 {
        let d = p.next_delay_ms();
        assert!(d <= 30_000);
    }
    assert_eq!(p.current_ms, 30_000);
}

#[test]
fn reset_returns_to_initial() {
    let mut p = ReconnectPolicy::default();
    p.next_delay_ms();
    p.next_delay_ms();
    p.reset();
    assert_eq!(p.current_ms, 500);
    let mut huge = ReconnectPolicy { initial_ms: 1, max_ms: u64::MAX, current_ms: u64::MAX - 1 };
    assert_eq!(huge.next_delay_ms(), u64::MAX - 1);
    assert_eq!(huge.current_ms, u64::MAX);
}

#[test]
fn missed_bar_is_per_venue_and_symbol_case_insensitive() {
    let mut d = MissedBarDetector::default();
    assert!(d.on_closed(Venue::Okx, "sol", 0).is_none());
    assert!(d.on_closed(Venue::Binance, "SOL", 600_000).is_none());
    assert!(d.on_closed(Venue::Okx, "SOL", 60_000).is_none());
    let m = d.on_closed(Venue::Okx, "Sol", 60_000).unwrap();
    assert_eq!(m.venue, Venue::Okx);
    assert_eq!(m.expected_open_ms, 120_000);
    assert_eq!(m.observed_open_ms, 60_000);
    assert!(d.on_closed(Venue::Binance, "sol", 660_000).is_none());
}

#[test]
fn five_in_window_trips() {
    let mut fuse = CrashFuse::new(&cfg());
    for i in 0..4 {
        assert!(!fuse.record_crash(1_000 + i * 1_000));
    }
    assert!(fuse.record_crash(6_000));
    assert!(fuse.tripped());
    assert_eq!(fuse.state().tripped_at_ms, Some(6_000));
    let again = CrashFuse::from_state(&cfg(), fuse.state().clone());
    assert!(again.tripped());
}

#[test]
fn start_does_not_auto_clear() {
    let mut fuse = CrashFuse::new(&cfg());
    for i in 0..5 {
        fuse.record_crash(i as i64 * 1000);
    }
    let mut again = CrashFuse::from_state(&cfg(), fuse.state().clone());
    assert!(!again.maybe_clear_on_start(&cfg()));
    assert!(again.tripped());
    let clearing = OpsConfig { clear_crash_on_start: true, ..cfg() };
    assert!(again.maybe_clear_on_start(&clearing));
    assert!(!again.tripped());
}

#[test]
fn old_crashes_leave_the_window() {
    let mut fuse = CrashFuse::new(&cfg());
    for i in 0..4 {
        fuse.record_crash(i * 1_000);
    }
    assert!(!fuse.record_crash(200_000));
    assert_eq!(fuse.state().timestamps_ms, vec![200_000]);
    fuse.clear();
    assert_eq!(fuse.state(), &CrashState::default());
}

#[test]
fn rotation_plan() {
    let r = LogRotator::new("/tmp/app.log", &OpsConfig { log_max_bytes: 20, log_keep: 3, ..OpsConfig::default() });
    assert!(!r.needs_rotation(19));
    assert!(r.needs_rotation(20));
    assert_eq!(r.keep_files(), 3);
    assert_eq!(r.shift_order(), vec![2, 1]);
    assert_eq!(r.path(), "/tmp/app.log");
    assert_eq!(rotated_path("/tmp/app.log", 1), "/tmp/app.log.1");
    let z = LogRotator::new("x", &OpsConfig { log_keep: 0, ..OpsConfig::default() });
    assert_eq!(z.keep_files(), 1);
    assert!(z.shift_order().is_empty());
}

#[test]
fn health_report_never_allows_live() {
    let fuse = CrashFuse::new(&cfg());
    let r = OpsCheck::report(Mode::Shadow, false, false, Some(&fuse), DiskWatermarkStatus::Below, &[0, 8, 16], 15, 0);
    assert_eq!(r.region, REGION);
    assert_eq!(r.mode, "shadow");
    assert_eq!(r.disk, "below");
    assert!(r.funding_black_now);
    assert!(!r.crash_tripped);
    assert!(!r.live_allowed);
    assert!(!r.copied_price_onto_okx);
    assert!(WIRED);
    assert_eq!(DiskWatermarkStatus::Enough.as_str(), "ok");
    assert_eq!(kb_to_bytes(2), 2048);
    assert_eq!(kb_to_bytes(u64::MAX), u64::MAX);
}

#[test]
fn df_output_fourth_field_of_second_line() {
    let out = "Filesystem 1024-blocks Used Available Capacity Mounted on\n/dev/sda1 100 40 60 40% /\n";
    assert_eq!(df_available_bytes(out), Some(60 * 1024));
    assert_eq!(df_available_bytes("header\r\n  a\tb  c   +7 x\r\n"), Some(7 * 1024));
    assert_eq!(df_available_bytes("only one line\n"), None);
    assert_eq!(df_available_bytes("h\na b c\n"), None);
    assert_eq!(df_available_bytes("h\na b c d\n"), None);
    assert_eq!(df_available_bytes("h\na b c 18446744073709551615\n"), Some(u64::MAX));
}
