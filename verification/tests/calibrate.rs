use orderflow::calibrate::{closed_bar_flags_of_line, stack3, tally_journal, ShadowTally};
use orderflow::calibrate::{
    fill_report, promote_fill, FillStep, SlotStatus, COMPLETE, FILL_ORDER, WIRED,
};
use orderflow::domain::{
    ArmedRatePolicy, CalibrationGate, CalibrationStatus, GateConfig, LiveDenied, Mode,
    ResonanceMode, SymbolGate, Venue,
};

fn observation_symbol() -> SymbolGate {
    SymbolGate {
        calibration_complete: false,
        out_of_sample_validated: false,
        live_enabled: false,
        armed_rate_policy: ArmedRatePolicy::Parallel,
    }
}

fn repo_gate() -> GateConfig {
    GateConfig {
        calibration: CalibrationGate {
            status: CalibrationStatus::ObservationDraft,
            live_authorized: false,
            out_of_sample_validated: false,
            calibration_complete: false,
            observation_frozen: true,
        },
        sol: observation_symbol(),
        sui: observation_symbol(),
        execution_venue: Venue::Okx,
        resonance: ResonanceMode::Off,
        live_send: false,
    }
}

#[test]
fn repo_params_keep_300_and_400_open() {
    let r = fill_report(&repo_gate(), false, false);
    assert!(r.wired);
    assert!(!r.complete);
    assert!(r.observation_frozen);
    assert!(!r.calibration_complete);
    assert!(!r.out_of_sample_validated);
    assert!(!r.live_allowed);
    assert!(!r.promote_allowed);
    assert!(r.chosen_armed_rate.is_none());
    assert_eq!(r.next_step, "record_vs_armed");
    assert!(r.errors.is_empty());
    assert_eq!(r.fill_order[0], "sol_bucket");
    assert_eq!(r.fill_order[3], "sui_table");
    assert_eq!(r.slots.len(), 10);
    assert_eq!(r.slots[2].status, SlotStatus::StillOpen);
    assert_eq!(r.event, "calibrate_check");
}

#[test]
fn copying_sui_bucket_is_an_error() {
    let r = fill_report(&repo_gate(), true, false);
    assert!(r.errors.contains(&"sui_copied_sol_bucket"));
}

#[test]
fn averaging_armed_rate_is_an_error() {
    let r = fill_report(&repo_gate(), false, true);
    assert!(r.errors.contains(&"averaged_armed_rate"));
}

#[test]
fn chosen_rate_moves_next_step_to_oos() {
    let mut g = repo_gate();
    g.sol.armed_rate_policy = ArmedRatePolicy::Valtos400;
    g.calibration.calibration_complete = true;
    let r = fill_report(&g, false, false);
    assert_eq!(r.chosen_armed_rate, Some("valtos_400"));
    assert_eq!(r.next_step, "out_of_sample");
    assert_eq!(r.slots[2].status, SlotStatus::Observation);
    assert_eq!(r.errors, vec!["complete_flag_on_observation_draft"]);
}

#[test]
fn frozen_observation_cannot_promote() {
    let cfg = repo_gate();
    assert!(cfg.calibration.observation_frozen);
    assert_eq!(promote_fill(Mode::Live, &cfg).unwrap_err(), LiveDenied::ParamsNotCalibrated);
    assert_eq!(promote_fill(Mode::Shadow, &cfg).unwrap_err(), LiveDenied::ParamsNotCalibrated);
}

#[test]
fn even_unfrozen_parallel_cannot_promote() {
    let mut cfg = repo_gate();
    cfg.calibration.observation_frozen = false;
    assert_eq!(promote_fill(Mode::Live, &cfg).unwrap_err(), LiveDenied::ArmedRateStillParallel);
    cfg.sol.armed_rate_policy = ArmedRatePolicy::Dale300;
    cfg.sui.armed_rate_policy = ArmedRatePolicy::Dale300;
    assert_eq!(promote_fill(Mode::Live, &cfg).unwrap_err(), LiveDenied::ParamsNotCalibrated);
    assert_eq!(promote_fill(Mode::Shadow, &cfg).unwrap_err(), LiveDenied::ExecNotWired);
}

#[test]
fn fill_order_is_fixed() {
    assert!(WIRED);
    assert!(!COMPLETE);
    assert_eq!(FILL_ORDER[0], FillStep::SolBucket);
    assert_eq!(FILL_ORDER[4].as_str(), "out_of_sample");
}

fn flags(session: &str) -> orderflow::calibrate::ClosedBarFlags {
    orderflow::calibrate::ClosedBarFlags {
        session: session.to_string(),
        unfinished_is_entry: false,
        dale_aligned: true,
        valtos_aligned: false,
        record_aligned: true,
        dale_stack3: false,
        valtos_stack3: true,
        record_stack3: false,
        unfinished: true,
        chaos: false,
    }
}

#[test]
fn shadow_tally_sums_rows() {
    let mut t = ShadowTally::new();
    t.add(&flags("ny")).unwrap();
    t.add(&flags("asia")).unwrap();
    t.add(&flags("ny")).unwrap();
    let mut bad = flags("london");
    bad.unfinished_is_entry = true;
    assert_eq!(t.add(&bad).unwrap_err(), "unfinished_is_entry must stay false");
    let tot = t.totals();
    assert_eq!(tot.bars, 3);
    assert_eq!(tot.dale_aligned, 3);
    assert_eq!(tot.valtos_aligned, 0);
    assert_eq!(tot.valtos_stack3, 3);
    assert_eq!(tot.unfinished, 3);
    let names: Vec<&str> = t.rows().iter().map(|(n, _)| n.as_str()).collect();
    assert_eq!(names, vec!["asia", "ny"]);
    assert_eq!(t.rows()[1].1.bars, 2);
    assert!(stack3(3, 0));
    assert!(!stack3(2, 2));
    assert!(!stack3(1 << 32, 0));
}

#[test]
fn shadow_tally_rows_sorted_and_bounded() {
    let mut t = ShadowTally::new();
    for s in ["us", "asia", "thin", "eu", "asia"] {
        t.add(&flags(s)).unwrap();
    }
    let names: Vec<&str> = t.rows().iter().map(|(n, _)| n.as_str()).collect();
    assert_eq!(names, vec!["asia", "eu", "thin", "us"]);
    for (_, c) in t.rows() {
        for x in [c.dale_aligned, c.valtos_aligned, c.record_aligned, c.dale_stack3, c.valtos_stack3, c.record_stack3, c.unfinished, c.chaos] {
            assert!(x <= c.bars);
        }
    }
    assert_eq!(t.rows().iter().map(|(_, c)| c.bars).sum::<u64>(), t.totals().bars);
}

fn journal(lines: &[&str]) -> Vec<String> {
    lines.iter().map(|l| l.to_string()).collect()
}

#[test]
fn closed_line_reads_wrapped_and_bare_footprints() {
    let wrapped = r#"{"event":"footprint_closed","footprint":{"session":"asia","dale":{"aligned":true,"buy_stack":3},"valtos":{"sell_stack":2},"unfinished_low":true}}"#;
    let f = closed_bar_flags_of_line(wrapped).unwrap().unwrap();
    assert_eq!(f.session, "asia");
    assert!(f.dale_aligned && f.dale_stack3);
    assert!(!f.valtos_aligned && !f.valtos_stack3);
    assert!(!f.record_aligned && !f.record_stack3);
    assert!(f.unfinished && !f.chaos && !f.unfinished_is_entry);

    let bare = r#"  {"event":"footprint_closed","chaos":true,"record":{"sell_stack":7}}  "#;
    let f = closed_bar_flags_of_line(bare).unwrap().unwrap();
    assert_eq!(f.session, "unknown");
    assert!(f.chaos && f.record_stack3 && !f.unfinished);
}

#[test]
fn other_lines_carry_no_footprint() {
    assert!(closed_bar_flags_of_line("   ").unwrap().is_none());
    assert!(closed_bar_flags_of_line(r#"{"event":"regime"}"#).unwrap().is_none());
    assert!(closed_bar_flags_of_line(r#"{"footprint":{"session":"x"}}"#).unwrap().is_none());
    assert!(closed_bar_flags_of_line("{not json").is_err());
}

#[test]
fn journal_tally_counts_sessions_in_name_order() {
    let lines = journal(&[
        r#"{"event":"footprint_closed","footprint":{"session":"ny","dale":{"aligned":true}}}"#,
        "",
        r#"{"event":"regime","session":"ny"}"#,
        r#"{"event":"footprint_closed","footprint":{"session":"asia","valtos":{"buy_stack":4},"unfinished_high":true}}"#,
        r#"{"event":"footprint_closed","session":"ny","chaos":true}"#,
    ]);
    let t = tally_journal("j.jsonl", &lines).unwrap();
    let tot = t.totals();
    assert_eq!(tot.bars, 3);
    assert_eq!(tot.dale_aligned, 1);
    assert_eq!(tot.valtos_stack3, 1);
    assert_eq!(tot.unfinished, 1);
    assert_eq!(tot.chaos, 1);
    assert_eq!(tot.record_aligned, 0);
    let rows = t.rows();
    assert_eq!(rows.len(), 2);
    assert_eq!(rows[0].0, "asia");
    assert_eq!(rows[0].1.bars, 1);
    assert_eq!(rows[0].1.valtos_stack3, 1);
    assert_eq!(rows[1].0, "ny");
    assert_eq!(rows[1].1.bars, 2);
    assert_eq!(rows[1].1.dale_aligned, 1);
    assert_eq!(rows[1].1.chaos, 1);
}

#[test]
fn journal_tally_of_nothing_is_empty() {
    let t = tally_journal("j.jsonl", &journal(&["", "  "])).unwrap();
    assert_eq!(t.totals().bars, 0);
    assert!(t.rows().is_empty());
}

#[test]
fn journal_refuses_bad_json_with_its_line() {
    let lines = journal(&[r#"{"event":"regime"}"#, "{oops"]);
    let e = tally_journal("p", &lines).unwrap_err();
    assert!(e.starts_with("p:2: "), "{e}");
}

#[test]
fn journal_refuses_unfinished_entry() {
    let lines = journal(&[
        r#"{"event":"footprint_closed","footprint":{"session":"ny"}}"#,
        r#"{"event":"footprint_closed","footprint":{"unfinished_is_entry":true}}"#,
    ]);
    assert_eq!(
        tally_journal("p", &lines).unwrap_err(),
        "unfinished_is_entry must stay false"
    );
    // Not a closed footprint: the flag is not read.
    let lines = journal(&[r#"{"event":"regime","unfinished_is_entry":true}"#]);
    assert_eq!(tally_journal("p", &lines).unwrap().totals().bars, 0);
}
