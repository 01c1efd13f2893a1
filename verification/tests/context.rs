use orderflow::context::context_params_check;
use orderflow::context::{liquidation_regime, regime_blocks_entries, regime_words};
use orderflow::context::{
    funding_black_window, hour_open_ms, join, LeaveTracker, RangeTracker, ResonanceBook,
    VenueDir, FORBIDDEN, STACK_WINDOWS, WIRED,
};
use orderflow::domain::{ResonanceMode, Venue};

fn dir(venue: Venue, open_ms: i64, sign: i8) -> VenueDir {
    VenueDir { venue, open_ms, delta_sign: sign, stack_sign: 0, healthy: true }
}

#[test]
fn funding_black_window_is_clock_not_killzone() {
    assert!(funding_black_window(0, &[0, 8, 16], 15));
    assert!(!funding_black_window(20 * 60_000, &[0, 8, 16], 15));
    let eight = 8 * 3600 * 1000;
    assert!(funding_black_window(eight, &[0, 8, 16], 15));
}

#[test]
fn funding_window_wraps_around_midnight() {
    let day = 86_400_000i64;
    assert!(funding_black_window(day - 10 * 60_000, &[0, 8, 16], 15));
    assert!(!funding_black_window(day - 16 * 60_000, &[0, 8, 16], 15));
    assert!(!funding_black_window(0, &[], 15));
}

#[test]
fn wired_and_no_forbidden_schools() {
    assert!(WIRED);
    for w in FORBIDDEN {
        assert!(!w.contains("footprint"));
    }
    assert_eq!(STACK_WINDOWS, [5, 15, 60, 240, 1440]);
}

#[test]
fn hour_open_floors() {
    assert_eq!(hour_open_ms(3_600_000 + 5), 3_600_000);
    assert_eq!(hour_open_ms(-1), -3_600_000);
}

#[test]
fn resonance_missing_peer_is_not_stale_bar() {
    let s = join(60_000, ResonanceMode::Off, 1, Some(dir(Venue::Okx, 60_000, 1)), None, Some(dir(Venue::Bybit, 0, 1)));
    assert_eq!(s.binance, "not_evaluated");
    assert_eq!(s.bybit, "not_evaluated");
    assert_eq!(s.bybit_delta_sign, None);
    assert_eq!(s.peers_same_as_okx, 0);
}

#[test]
fn resonance_off_records_but_does_not_drive_entry() {
    let s = join(
        0,
        ResonanceMode::Off,
        1,
        Some(dir(Venue::Okx, 0, 1)),
        Some(dir(Venue::Binance, 0, 1)),
        Some(dir(Venue::Bybit, 0, 1)),
    );
    assert!(s.would_confirm_k);
    assert!(s.would_confirm_all);
    assert_eq!(s.peers_same_as_okx, 2);
    assert!(!s.used_for_entry);
    assert!(!s.copied_price_onto_okx);
    let k = join(
        0,
        ResonanceMode::KOfN,
        1,
        Some(dir(Venue::Okx, 0, 1)),
        Some(dir(Venue::Binance, 0, -1)),
        Some(dir(Venue::Bybit, 0, 1)),
    );
    assert!(k.used_for_entry);
    assert!(!k.would_confirm_all);
}

#[test]
fn resonance_book_last_insert_wins() {
    let mut b = ResonanceBook::new();
    b.insert(dir(Venue::Okx, 60_000, 1));
    b.insert(dir(Venue::Okx, 60_000, -1));
    b.insert(dir(Venue::Binance, 60_000, -1));
    b.insert(dir(Venue::Okx, 0, 1));
    assert_eq!(b.get(Venue::Okx, 60_000).unwrap().delta_sign, -1);
    assert!(b.get(Venue::Bybit, 60_000).is_none());
    assert_eq!(b.okx_minutes(), vec![0, 60_000]);
    let s = b.snapshot(60_000, ResonanceMode::Off, 1);
    assert_eq!(s.okx_delta_sign, Some(-1));
    assert_eq!(s.peers_same_as_okx, 1);
}

#[test]
fn accept_after_leave_and_outside_pocs() {
    let mut t = LeaveTracker::new();
    t.step(false, false, 1, 3);
    assert!(t.leave_armed);
    t.step(false, false, 1, 3);
    t.step(false, false, 1, 3);
    assert!(t.stack_accepted);
    assert!(!t.fake_leave);
}

#[test]
fn fake_leave_when_price_returns_before_accept() {
    let mut t = LeaveTracker::new();
    t.step(false, false, 1, 3);
    t.step(true, true, 1, 3);
    assert!(t.fake_leave);
    assert!(!t.stack_accepted);
    assert!(!t.leave_armed);
}

#[test]
fn range_break_that_returns_is_failed() {
    let mut r = RangeTracker::new();
    assert!(r.step(true, true, 3));
    assert!(!r.step(true, false, 3));
    assert_eq!(r.break_attempts, 1);
    assert!(r.step(true, true, 3));
    assert_eq!(r.failed_breaks, 1);
    assert!(!r.step(false, true, 3));
    assert_eq!(r.bars_in_range, 0);
}

#[test]
fn liquidation_regime_words() {
    assert_eq!(liquidation_regime(true, false, true, true), "not_evaluated");
    assert_eq!(liquidation_regime(true, true, true, false), "true");
    assert_eq!(liquidation_regime(false, false, false, true), "true");
    assert_eq!(liquidation_regime(false, false, false, false), "false");
    assert!(regime_blocks_entries(true, false));
    assert!(regime_blocks_entries(false, true));
    assert!(!regime_blocks_entries(false, false));
}

#[test]
fn context_params_are_checked_in_order() {
    assert_eq!(context_params_check(5, 3, "sample_p95"), Ok(()));
    assert_eq!(context_params_check(0, 0, "x").unwrap_err(), "swing_n must be > 0");
    assert_eq!(context_params_check(5, 0, "x").unwrap_err(), "accept_bars must be > 0");
    assert_eq!(
        context_params_check(5, 3, "usdt_1e6").unwrap_err(),
        "liq_1m_notional_rule must be sample_p95 (never a frozen USDT constant)"
    );
}

#[test]
fn missing_liq_stream_is_not_evaluated() {
    // No liquidation stream and no OI change at the top of the hour.
    let snap = regime_words(true, false, false, false, funding_black_window(0, &[0, 8, 16], 15));
    assert_eq!(snap.liquidation_regime, "not_evaluated");
    assert!(snap.liq_stream_missing);
    assert_eq!(snap.funding_crowding, "not_evaluated");
    assert_eq!(snap.basis_stress, "not_evaluated");
    assert!(!regime_blocks_entries(false, false));
}

#[test]
fn oi_drop_marks_liquidation_veto() {
    // OI 100 → 97.5 is a -2.5% hourly change, past the -2% veto.
    assert_eq!(liquidation_regime(false, true, true, false), "true");
    assert!(regime_blocks_entries(true, false));
}

#[test]
fn regime_words_veto_on_oi_drop_in_funding_window() {
    let w = regime_words(false, true, true, false, true);
    assert_eq!(w.liquidation_regime, "true");
    assert!(w.new_entries_blocked);
    assert!(w.funding_black_window);
    assert!(!w.liq_stream_missing);
    assert_eq!(w.oi_divergence, "not_evaluated");
    let calm = regime_words(false, true, false, false, false);
    assert_eq!(calm.liquidation_regime, "false");
    assert!(!calm.new_entries_blocked);
}
