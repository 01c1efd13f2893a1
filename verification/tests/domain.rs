use orderflow::domain::{
    bar_open_ms, boot_decision, default_config_dir, live_allowed, live_open_allowed,
    ArmedRatePolicy, CalibrationGate, CalibrationStatus, ExecConfig, FrozenSnapshot, GateConfig,
    LiveDenied, Mode, OpsConfig, QualityVector, ResonanceMode, SymbolGate, Venue,
    BAR_INTERVAL_MS, FORBIDDEN_SCHOOLS, SCHOOL,
};

fn observation_symbol() -> SymbolGate {
    SymbolGate {
        calibration_complete: false,
        out_of_sample_validated: false,
        live_enabled: false,
        armed_rate_policy: ArmedRatePolicy::Parallel,
    }
}

/// Live switches as the shipped parameters set them: a frozen observation draft.
fn repo_gate() -> GateConfig {
    GateConfig {
        calibration: CalibrationGate {
            status: CalibrationStatus::ObservationDraft,
            live_authorized: false,
            out_of_sample_validated: false,
            calibration_complete: false,
            observation_frozen: true,
        },
        sol: observation_symbol(),
        sui: observation_symbol(),
        execution_venue: Venue::Okx,
        resonance: ResonanceMode::Off,
        live_send: false,
    }
}

#[test]
fn live_allowed_is_always_false_in_stage_0() {
    assert!(!live_allowed());
}

#[test]
fn venue_gap_flags_are_independent() {
    let mut q = QualityVector::default();
    q.mark_gap(Venue::Binance);
    assert!(q.gap(Venue::Binance));
    assert!(!q.gap(Venue::Okx));
    assert!(!q.gap(Venue::Bybit));
    q.mark_gap(Venue::Bybit);
    assert!(q.gap(Venue::Bybit));
    assert!(!q.gap(Venue::Okx));
}

#[test]
fn venue_parse_roundtrip() {
    assert_eq!(Venue::parse("OKX").unwrap(), Venue::Okx);
    assert_eq!(Venue::parse("binance").unwrap().as_str(), "binance");
    assert_eq!(Venue::parse("bybit").unwrap(), Venue::Bybit);
    assert!(Venue::parse("deribit").is_err());
}

#[test]
fn frozen_snapshot_is_dummy() {
    let s = FrozenSnapshot::dummy();
    assert!(!s.wired);
    assert_eq!(s.schema_version, 0);
}

#[test]
fn shadow_boots_and_live_gate_stays_closed() {
    let cfg = repo_gate();
    let d = boot_decision(Mode::Shadow, &cfg);
    assert!(d.ok);
    assert_eq!(d.live_gate, "closed");
    assert!(d.reason.is_none());
    assert!(!d.calibration_complete);
    assert!(d.message.contains("live 閘門關閉"));
}

#[test]
fn sim_boots_same_gate() {
    let cfg = repo_gate();
    assert!(boot_decision(Mode::Sim, &cfg).ok);
}

#[test]
fn live_refused_because_params_not_calibrated() {
    let cfg = repo_gate();
    let d = boot_decision(Mode::Live, &cfg);
    assert!(!d.ok);
    assert_eq!(d.reason, Some(LiveDenied::ParamsNotCalibrated));
    assert_eq!(d.message, LiveDenied::ParamsNotCalibrated.message_zh());
    assert!(d.message.contains("參數未校準"));
    let d2 = boot_decision(Mode::LiveSmall, &cfg);
    assert_eq!(d2.reason, Some(LiveDenied::ParamsNotCalibrated));
}

#[test]
fn even_flipped_flags_cannot_skip_exec() {
    let mut cfg = repo_gate();
    cfg.calibration.status = CalibrationStatus::OutOfSampleValidated;
    cfg.calibration.out_of_sample_validated = true;
    cfg.calibration.calibration_complete = true;
    cfg.calibration.live_authorized = true;
    cfg.sol.live_enabled = true;
    cfg.sol.calibration_complete = true;
    cfg.sol.out_of_sample_validated = true;
    cfg.sol.armed_rate_policy = ArmedRatePolicy::Dale300;
    let err = live_open_allowed(Mode::Live, &cfg).unwrap_err();
    assert_eq!(err, LiveDenied::ExecNotWired);
}

#[test]
fn live_gate_locks_hold_in_order() {
    let mut cfg = repo_gate();
    cfg.calibration.status = CalibrationStatus::OutOfSampleValidated;
    cfg.calibration.out_of_sample_validated = true;
    cfg.calibration.calibration_complete = true;
    cfg.sol.calibration_complete = true;
    cfg.sol.out_of_sample_validated = true;
    assert_eq!(live_open_allowed(Mode::Live, &cfg), Err(LiveDenied::LiveFlagOff));
    cfg.calibration.live_authorized = true;
    cfg.sol.live_enabled = true;
    assert_eq!(live_open_allowed(Mode::LiveSmall, &cfg), Err(LiveDenied::ArmedRateStillParallel));
    assert_eq!(live_open_allowed(Mode::Shadow, &cfg), Ok(()));
    assert_eq!(live_open_allowed(Mode::Sim, &cfg), Ok(()));
}

#[test]
fn boot_refusal_carries_lock_message() {
    let d = boot_decision(Mode::Live, &repo_gate());
    assert_eq!(d.event, "live_denied");
    assert_eq!(d.school, "footprint");
    assert_eq!(d.execution_venue, Venue::Okx);
    assert_eq!(d.resonance, ResonanceMode::Off);
    let ok = boot_decision(Mode::Shadow, &repo_gate());
    assert_eq!(ok.event, "boot");
    assert_eq!(ok.mode, Mode::Shadow);
}

#[test]
fn mode_parse_normalizes_and_reports() {
    assert_eq!(Mode::parse("  SHADOW ").unwrap(), Mode::Shadow);
    assert_eq!(Mode::parse("Live_Small").unwrap(), Mode::LiveSmall);
    assert_eq!(Mode::parse("sim").unwrap().as_str(), "sim");
    let e = Mode::parse(" Paper ").unwrap_err();
    assert_eq!(e, "unknown mode \"paper\"; expected shadow|sim|live_small|live");
    assert!(Mode::Live.is_live());
    assert!(Mode::LiveSmall.is_live());
    assert!(!Mode::Shadow.is_live());
    assert!(!Mode::Sim.is_live());
}

#[test]
fn venue_parse_error_names_the_word() {
    let e = Venue::parse("Deribit").unwrap_err();
    assert_eq!(e, "unknown venue \"deribit\"; expected okx|binance|bybit");
    for v in [Venue::Okx, Venue::Binance, Venue::Bybit] {
        assert_eq!(Venue::parse(v.as_str()).unwrap(), v);
    }
}

#[test]
fn bar_open_is_floor_of_minute() {
    assert_eq!(bar_open_ms(61_000), 60_000);
    assert_eq!(bar_open_ms(59_999), 0);
    assert_eq!(bar_open_ms(-1), -60_000);
    assert_eq!(BAR_INTERVAL_MS, 60_000);
}

#[test]
fn book_flags_are_per_venue() {
    let mut q = QualityVector::default();
    q.set_book_ok(Venue::Okx, true);
    assert!(q.book_ok(Venue::Okx));
    assert!(!q.book_ok(Venue::Binance));
    q.set_book_ok(Venue::Okx, false);
    assert!(!q.book_ok(Venue::Okx));
    assert!(!q.gap(Venue::Okx));
}

#[test]
fn defaults_match_documented_values() {
    let e = ExecConfig::default();
    assert_eq!(e.td_mode, "cross");
    assert_eq!(e.pos_mode, "net_mode");
    assert!(!e.live_send);
    assert_eq!(e.entry_ttl_ms, 15_000);
    let o = OpsConfig::default();
    assert_eq!(o.crash_burst, 5);
    assert_eq!(o.crash_window_s, 120);
    assert!(!o.clear_crash_on_start);
    assert_eq!(o.log_keep, 7);
    assert_eq!(default_config_dir(), "params");
    assert_eq!(SCHOOL, "footprint");
    assert!(FORBIDDEN_SCHOOLS.contains(&"vwap"));
}

#[test]
fn denied_names_and_messages() {
    assert_eq!(LiveDenied::ExecNotWired.as_str(), "exec_not_wired");
    assert_eq!(LiveDenied::ParamsNotCalibrated.as_str(), "params_not_calibrated");
    assert!(!LiveDenied::LiveFlagOff.message_zh().is_empty());
}

#[test]
fn live_allowed_is_false() {
    assert!(!orderflow::domain::live_allowed());
    assert_eq!(orderflow::domain::VERSION, "0.0.0");
    assert!(!orderflow::domain::FrozenSnapshot::dummy().wired);
}
