use orderflow::exec::kill_action_of_word;
use orderflow::exec::{row_route, RowRoute};
use orderflow::exec::{classify_frame, read_private_frame, side_of_text, FrameKind};
use orderflow::domain::{
    ArmedRatePolicy, CalibrationGate, CalibrationStatus, GateConfig, LiveDenied, Mode,
    ResonanceMode, SymbolGate, Venue,
};
use orderflow::exec::{
    account_mode_mismatch, auto_kill, cl_ord_id, classify_reject, dispatch_live, flatten_gate,
    inst_id_for, is_sui, is_terminal, kill_clears_working, live_send_allowed, open_gate,
    open_precheck, parse_ack_text, parse_state, submit_live_open, submit_route, symbol_from_inst,
    valid_cl_ord_id, AccountSnap, Degrade, IntentKind, KillAction, KillState, OpenCheck,
    OpenDenied, OpenPrecheck, OrderState, RejectClass, RestPriority, RestQueue, Side,
    SubmitRoute, Universe, LIVE_SEND_WIRED, LIVE_WIRED, PRIVATE_WIRED, SIM_WIRED, WIRED,
};

fn observation_symbol() -> SymbolGate {
    SymbolGate {
        calibration_complete: false,
        out_of_sample_validated: false,
        live_enabled: false,
        armed_rate_policy: ArmedRatePolicy::Parallel,
    }
}

fn repo_gate() -> GateConfig {
    GateConfig {
        calibration: CalibrationGate {
            status: CalibrationStatus::ObservationDraft,
            live_authorized: false,
            out_of_sample_validated: false,
            calibration_complete: false,
            observation_frozen: true,
        },
        sol: observation_symbol(),
        sui: observation_symbol(),
        execution_venue: Venue::Okx,
        resonance: ResonanceMode::Off,
        live_send: false,
    }
}

fn calm() -> OpenCheck {
    OpenCheck {
        kill: KillAction::Off,
        degrade: Degrade::Normal,
        low_weight: false,
        universe: Universe::Core,
        daily_loss_tripped: false,
        liq_buffer_breached: false,
        day_trades: 0,
        max_day_trades: 10,
    }
}

#[test]
fn rest_priority_is_risk_first() {
    let mut q = RestQueue::default();
    q.push(RestPriority::Query, "q");
    q.push(RestPriority::Open, "o");
    q.push(RestPriority::Risk, "r");
    q.push(RestPriority::Flatten, "f");
    q.push(RestPriority::Cancel, "c");
    assert_eq!(q.pop().unwrap().name, "r");
    assert_eq!(q.pop().unwrap().name, "c");
    assert_eq!(q.pop().unwrap().name, "f");
    assert_eq!(q.pop().unwrap().name, "o");
    assert_eq!(q.pop().unwrap().name, "q");
}

#[test]
fn ack_precision_and_ok() {
    let ok = parse_ack_text(r#"{"op":"order","id":"req1","code":"0","data":[{"clOrdId":"ofsolA00000001","ordId":"9","sCode":"0","sMsg":""}]}"#).unwrap();
    assert!(ok.ok);
    assert_eq!(ok.class, RejectClass::Accepted);
    let bad = parse_ack_text(r#"{"op":"order","id":"req1","code":"1","data":[{"clOrdId":"ofsolA00000001","sCode":"51000","sMsg":"Tick size precision error"}]}"#).unwrap();
    assert!(!bad.ok);
    assert_eq!(bad.class, RejectClass::Precision);
}

#[test]
fn ack_fields_are_read_from_the_first_row() {
    let a = parse_ack_text(r#"{"op":"cancel-order","code":"0","data":[{"clOrdId":"abc","ordId":"77","sCode":"51119","sMsg":"spread too wide"}]}"#).unwrap();
    assert_eq!(a.op, "cancel-order");
    assert!(!a.ok);
    assert_eq!(a.cl_ord_id.as_deref(), Some("abc"));
    assert_eq!(a.ord_id.as_deref(), Some("77"));
    assert_eq!(a.code, "51119");
    assert_eq!(a.msg, "spread too wide");
    assert_eq!(a.class, RejectClass::Spread);
    let top = parse_ack_text(r#"{"op":"order","code":"50011","data":[]}"#).unwrap();
    assert_eq!(top.code, "50011");
    assert_eq!(top.class, RejectClass::RateLimit);
    assert!(top.cl_ord_id.is_none());
}

#[test]
fn non_ack_frames_give_no_ack() {
    assert!(parse_ack_text("not json").is_none());
    assert!(parse_ack_text(r#"{"event":"login","op":"order"}"#).is_none());
    assert!(parse_ack_text(r#"{"venue":"binance","op":"order","code":"0"}"#).is_none());
    assert!(parse_ack_text(r#"{"stream":"bybit.private","op":"order"}"#).is_none());
    assert!(parse_ack_text(r#"{"arg":{"channel":"orders"},"data":[]}"#).is_none());
    assert!(parse_ack_text(r#"{"venue":"okx","op":"order","code":"0"}"#).unwrap().ok);
}

#[test]
fn classify_reject_keyword_order() {
    assert_eq!(classify_reject("0", "anything"), RejectClass::Accepted);
    assert_eq!(classify_reject("", "x"), RejectClass::Accepted);
    assert_eq!(classify_reject("51000", ""), RejectClass::Precision);
    assert_eq!(classify_reject("1", "Bad TICK"), RejectClass::Precision);
    assert_eq!(classify_reject("51119", ""), RejectClass::Spread);
    assert_eq!(classify_reject("2", "insufficient Margin"), RejectClass::Position);
    assert_eq!(classify_reject("50011", ""), RejectClass::RateLimit);
    assert_eq!(classify_reject("3", "rate limited"), RejectClass::RateLimit);
    assert_eq!(classify_reject("4", "risk control"), RejectClass::Risk);
    assert_eq!(classify_reject("5", "nope"), RejectClass::Other);
}

#[test]
fn cl_ord_id_is_okx_safe() {
    let id = cl_ord_id("SOL", "A", 12);
    assert!(id.len() <= 32);
    assert!(id.chars().all(|c| c.is_ascii_alphanumeric()));
    assert!(id.starts_with("ofsol"));
    let sui = cl_ord_id("SUI", "C", 3);
    assert!(sui.starts_with("ofsui"));
    assert_ne!(id, sui);
}

#[test]
fn cl_ord_id_exact_text() {
    assert_eq!(cl_ord_id("sol", "A", 12), "ofsolA00000012");
    assert_eq!(cl_ord_id("Sui", "-", 7), "ofsuiX00000007");
    assert_eq!(cl_ord_id("BTC", "", 123_456_789), "ofsolX123456789");
    let max = cl_ord_id("SOL", "z", u64::MAX);
    assert_eq!(max, "ofsolz18446744073709551615");
    assert!(valid_cl_ord_id(&max));
}

#[test]
fn valid_cl_ord_id_limits() {
    assert!(valid_cl_ord_id("abc123"));
    assert!(!valid_cl_ord_id("of-dup"));
    assert!(!valid_cl_ord_id(&"a".repeat(33)));
    assert!(valid_cl_ord_id(&"a".repeat(32)));
}

#[test]
fn symbol_and_instrument() {
    assert_eq!(symbol_from_inst("SUI-USDT-SWAP"), "SUI");
    assert_eq!(symbol_from_inst("SOL-USDT-SWAP"), "SOL");
    assert_eq!(symbol_from_inst("sui-usdt"), "SOL");
    assert!(is_sui("sUi"));
    assert!(!is_sui("SUIX"));
    assert_eq!(inst_id_for("SUI", "SOL-USDT-SWAP", "SUI-USDT-SWAP"), "SUI-USDT-SWAP");
    assert_eq!(inst_id_for("ETH", "SOL-USDT-SWAP", "SUI-USDT-SWAP"), "SOL-USDT-SWAP");
}

#[test]
fn order_states() {
    assert_eq!(parse_state("live"), OrderState::Live);
    assert_eq!(parse_state("partially_filled"), OrderState::PartiallyFilled);
    assert_eq!(parse_state("cancelled"), OrderState::Canceled);
    assert_eq!(parse_state("canceled"), OrderState::Canceled);
    assert_eq!(parse_state("mmp_canceled"), OrderState::Rejected);
    assert!(is_terminal(OrderState::Filled));
    assert!(!is_terminal(OrderState::PartiallyFilled));
}

#[test]
fn submit_live_open_never_succeeds_on_repo_params() {
    let cfg = repo_gate();
    assert_eq!(submit_live_open(Mode::Live, &cfg).unwrap_err(), LiveDenied::ParamsNotCalibrated);
    assert_eq!(submit_live_open(Mode::Shadow, &cfg).unwrap_err(), LiveDenied::ExecNotWired);
    assert!(!WIRED);
    assert!(!LIVE_WIRED);
    assert!(SIM_WIRED);
    assert!(PRIVATE_WIRED);
    assert!(!LIVE_SEND_WIRED);
    assert!(!cfg.live_send);
}

#[test]
fn dispatch_live_never_sends_even_if_flags_flip() {
    let mut cfg = repo_gate();
    cfg.calibration.status = CalibrationStatus::OutOfSampleValidated;
    cfg.calibration.out_of_sample_validated = true;
    cfg.calibration.calibration_complete = true;
    cfg.calibration.live_authorized = true;
    cfg.live_send = true;
    cfg.sol.live_enabled = true;
    cfg.sol.calibration_complete = true;
    cfg.sol.out_of_sample_validated = true;
    cfg.sol.armed_rate_policy = ArmedRatePolicy::Dale300;
    let payload: serde_json::Value = serde_json::from_str(r#"{"op":"order"}"#).unwrap();
    assert_eq!(dispatch_live(Mode::Live, &cfg, &payload).unwrap_err(), LiveDenied::ExecNotWired);
    assert_eq!(live_send_allowed(Mode::Live, &cfg).unwrap_err(), LiveDenied::ExecNotWired);
}

#[test]
fn copied_price_is_rejected() {
    let r = submit_route(true, Venue::Okx, false, Mode::Sim, IntentKind::SimOpen, &repo_gate());
    assert_eq!(r, SubmitRoute::CopiedPrice);
}

#[test]
fn routes_follow_mode_and_kind() {
    let g = repo_gate();
    assert_eq!(
        submit_route(false, Venue::Binance, false, Mode::Sim, IntentKind::SimOpen, &g),
        SubmitRoute::NotOkx
    );
    assert_eq!(
        submit_route(false, Venue::Okx, true, Mode::Sim, IntentKind::SimOpen, &g),
        SubmitRoute::LiveRefused(LiveDenied::ExecNotWired)
    );
    assert_eq!(
        submit_route(false, Venue::Okx, false, Mode::Live, IntentKind::Flatten, &g),
        SubmitRoute::LiveRefused(LiveDenied::ParamsNotCalibrated)
    );
    assert_eq!(
        submit_route(false, Venue::Okx, false, Mode::Shadow, IntentKind::ShadowSignal, &g),
        SubmitRoute::ShadowOnly
    );
    assert_eq!(
        submit_route(false, Venue::Okx, false, Mode::Shadow, IntentKind::SimOpen, &g),
        SubmitRoute::NotSim
    );
    assert_eq!(
        submit_route(false, Venue::Okx, false, Mode::Sim, IntentKind::SimOpen, &g),
        SubmitRoute::Open
    );
    assert_eq!(
        submit_route(false, Venue::Okx, false, Mode::Sim, IntentKind::Cancel, &g),
        SubmitRoute::Cancel
    );
}

#[test]
fn kill_switch_blocks_opens() {
    let mut c = calm();
    c.kill = KillAction::Halt;
    assert_eq!(open_gate(&c), Err(OpenDenied::KillHalt));
    c.kill = KillAction::CancelAll;
    assert_eq!(open_gate(&c), Err(OpenDenied::KillReduceOnly));
    assert_eq!(OpenDenied::KillHalt.as_str(), "kill_halt");
}

#[test]
fn daily_loss_blocks_new_opens() {
    let mut c = calm();
    c.daily_loss_tripped = true;
    assert_eq!(open_gate(&c).unwrap_err().as_str(), "daily_loss");
}

#[test]
fn liq_buffer_blocks_new_opens() {
    let mut c = calm();
    c.liq_buffer_breached = true;
    assert_eq!(open_gate(&c).unwrap_err().as_str(), "liq_buffer");
    c.day_trades = 10;
    assert_eq!(open_gate(&c).unwrap_err().as_str(), "liq_buffer");
    c.liq_buffer_breached = false;
    assert_eq!(open_gate(&c).unwrap_err().as_str(), "max_day_trades");
}

#[test]
fn degrade_stops_opens_but_flatten_still_runs() {
    let mut c = calm();
    c.degrade = Degrade::StopOpens;
    assert_eq!(open_gate(&c).unwrap_err().as_str(), "degrade_stop_opens");
    assert!(flatten_gate(c.kill).is_ok());
    assert!(flatten_gate(KillAction::ReduceOnly).is_ok());
    assert_eq!(flatten_gate(KillAction::Halt), Err(OpenDenied::KillHalt));
}

#[test]
fn research_shed_before_core() {
    let mut c = calm();
    c.degrade = Degrade::StopResearch;
    c.universe = Universe::Research;
    assert_eq!(open_gate(&c).unwrap_err().as_str(), "degrade_research");
    c.universe = Universe::Core;
    assert_eq!(open_gate(&c), Ok(()));
    c.degrade = Degrade::StopLowWeight;
    c.low_weight = true;
    assert_eq!(open_gate(&c).unwrap_err().as_str(), "degrade_low_weight");
    assert_eq!(Degrade::RiskOnly.level(), 4);
    assert_eq!(Universe::default(), Universe::Core);
}

#[test]
fn account_mode_mismatch_blocks_opens() {
    let snap = AccountSnap { pos_mode: "long_short_mode".into(), td_mode: None };
    assert!(account_mode_mismatch(&snap, "net_mode"));
    let empty = AccountSnap { pos_mode: String::new(), td_mode: None };
    assert!(!account_mode_mismatch(&empty, "net_mode"));
    assert_eq!(
        open_precheck(true, &calm(), true, true),
        Err(OpenPrecheck::AccountModeMismatch)
    );
    assert_eq!(open_precheck(false, &calm(), false, true), Err(OpenPrecheck::NoLimit));
    assert_eq!(open_precheck(false, &calm(), true, false), Err(OpenPrecheck::NoInvalidation));
    assert_eq!(open_precheck(false, &calm(), true, true), Ok(()));
}

#[test]
fn automatic_kill_never_overwrites_an_active_one() {
    assert_eq!(auto_kill(KillAction::Off, true, true), Some((KillAction::ReduceOnly, "daily_loss")));
    assert_eq!(auto_kill(KillAction::Off, false, true), Some((KillAction::FlattenAll, "liq_buffer")));
    assert_eq!(auto_kill(KillAction::Off, false, false), None);
    assert_eq!(auto_kill(KillAction::Halt, true, true), None);
    assert!(kill_clears_working(KillAction::FlattenAll));
    assert!(!kill_clears_working(KillAction::ReduceOnly));
    let k = KillState::default();
    assert_eq!(k.action, KillAction::Off);
    assert!(k.reason.is_empty());
}

#[test]
fn sides_and_queue_fifo() {
    assert_eq!(Side::Buy.opposite(), Side::Sell);
    assert_eq!(Side::Sell.as_str(), "sell");
    let mut q = RestQueue::new();
    assert!(q.is_empty());
    assert!(q.pop().is_none());
    q.push(RestPriority::Open, "first");
    q.push(RestPriority::Open, "second");
    q.push(RestPriority::Query, "q");
    assert_eq!(q.len(), 3);
    assert_eq!(q.pop().unwrap().name, "first");
    assert_eq!(q.pop().unwrap().name, "second");
    assert_eq!(RestPriority::Cancel.rank(), 1);
}

#[test]
fn private_frames_are_read_then_classified() {
    let f = read_private_frame(
        r#"{"op":"order","code":"0","data":[{"clOrdId":"a1","ordId":"9","sCode":"51008","sMsg":"x"}]}"#,
    );
    assert!(f.valid);
    assert_eq!(f.op.as_deref(), Some("order"));
    assert_eq!(f.row_cl_ord_id.as_deref(), Some("a1"));
    assert_eq!(f.row_s_code.as_deref(), Some("51008"));
    assert_eq!(classify_frame(&f), FrameKind::Ack);
    assert_eq!(classify_frame(&read_private_frame("not json")), FrameKind::Invalid);
    assert_eq!(
        classify_frame(&read_private_frame(r#"{"venue":" Binance ","data":[]}"#)),
        FrameKind::Refused
    );
    assert_eq!(
        classify_frame(&read_private_frame(r#"{"stream":"bybit.order"}"#)),
        FrameKind::Refused
    );
    assert_eq!(
        classify_frame(&read_private_frame(r#"{"event":"login","code":"0"}"#)),
        FrameKind::Control
    );
    assert_eq!(
        classify_frame(&read_private_frame(r#"{"arg":{"channel":"orders"},"data":[]}"#)),
        FrameKind::Data
    );
}

#[test]
fn side_text_defaults_to_buy() {
    assert_eq!(side_of_text(Some("SELL")), Side::Sell);
    assert_eq!(side_of_text(Some("sell")), Side::Sell);
    assert_eq!(side_of_text(Some("buy")), Side::Buy);
    assert_eq!(side_of_text(Some(" sell")), Side::Buy);
    assert_eq!(side_of_text(None), Side::Buy);
}

#[test]
fn private_rows_route_by_channel() {
    assert_eq!(row_route("orders", false, false), RowRoute::Order);
    assert_eq!(row_route("fills", false, false), RowRoute::Fill);
    assert_eq!(row_route("positions", true, true), RowRoute::Position);
    assert_eq!(row_route("balance_and_position", false, false), RowRoute::Account);
    assert_eq!(row_route("", true, true), RowRoute::Fill);
    assert_eq!(row_route("tickers", true, false), RowRoute::Skip);
}

#[test]
fn binance_private_is_refused() {
    let f = read_private_frame(r#"{"venue":"binance","stream":"binance.user","data":[]}"#);
    assert_eq!(classify_frame(&f), FrameKind::Refused);
}

#[test]
fn fixture_kill_words() {
    assert_eq!(kill_action_of_word("halt"), KillAction::Halt);
    assert_eq!(kill_action_of_word("flatten_all"), KillAction::FlattenAll);
    assert_eq!(kill_action_of_word("reduce_only"), KillAction::ReduceOnly);
    assert_eq!(kill_action_of_word("cancel_all"), KillAction::CancelAll);
    assert_eq!(kill_action_of_word("HALT"), KillAction::Off);
    assert_eq!(kill_action_of_word(""), KillAction::Off);
}
