use orderflow::ingest::binance::{parse_is_buyer_maker, MakerFlag};
use orderflow::ingest::{is_control_frame, FrameKeys};
use orderflow::domain::{QualityVector, TakerSide, Venue, VenueRole};
use orderflow::ingest::binance::taker_from_is_buyer_maker;
use orderflow::ingest::bybit::{parse_taker_side, TAKER_GOLDEN_PRESENT, TAKER_GOLDEN_REQUIRED};
use orderflow::ingest::okx::{parse_side, OkxTradeRow};
use orderflow::ingest::{
    binance, bybit, bybit_public_trade_topic, binance_agg_trade_stream, event_ts_to_ms_i64,
    expected_taker_sides, looks_like_json, okx, BoundedInbox, ParseError, ThreeLanes,
    WIRED, WIRED_BINANCE, WIRED_BYBIT, WIRED_OKX,
};

#[test]
fn golden_required_flag_stays_on() {
    assert!(TAKER_GOLDEN_REQUIRED);
    assert!(TAKER_GOLDEN_PRESENT);
    assert!(bybit::WIRED);
}

#[test]
fn three_venues_wired_resonance_not_execution() {
    assert!(WIRED);
    assert!(WIRED_OKX && WIRED_BINANCE && WIRED_BYBIT);
    assert!(okx::WIRED && binance::WIRED && bybit::WIRED);
    assert_eq!(okx::ROLE, VenueRole::Execution);
    assert_eq!(binance::ROLE, VenueRole::Resonance);
    assert_eq!(bybit::ROLE, VenueRole::Resonance);
    assert!(bybit::TAKER_GOLDEN_REQUIRED);
    assert!(bybit::TAKER_GOLDEN_PRESENT);
}

#[test]
fn adapters_only_emit_taker_buy_or_sell() {
    let sides = expected_taker_sides();
    assert_eq!(sides, [TakerSide::Buy, TakerSide::Sell]);
}

#[test]
fn okx_side_buy_is_taker_buy() {
    assert_eq!(parse_side("buy").unwrap(), TakerSide::Buy);
    assert_eq!(parse_side("sell").unwrap(), TakerSide::Sell);
    assert!(parse_side("xyz").is_err());
}

#[test]
fn golden_s_is_taker_side_not_maker() {
    assert_eq!(parse_taker_side("Buy").unwrap(), TakerSide::Buy);
    assert_eq!(parse_taker_side("Sell").unwrap(), TakerSide::Sell);
    assert_eq!(parse_taker_side("buy").unwrap(), TakerSide::Buy);
    assert!(parse_taker_side("maker").is_err());
}

#[test]
fn taker_side_is_trimmed_and_case_blind() {
    assert_eq!(parse_taker_side(" SELL ").unwrap(), TakerSide::Sell);
    match parse_taker_side(" Hold ") {
        Err(ParseError::BadSide(w)) => assert_eq!(w, "hold"),
        other => panic!("{other:?}"),
    }
}

#[test]
fn golden_m_true_is_taker_sell() {
    assert_eq!(taker_from_is_buyer_maker(true), TakerSide::Sell);
    assert_eq!(taker_from_is_buyer_maker(false), TakerSide::Buy);
}

#[test]
fn timestamp_units_by_magnitude_not_venue_name() {
    assert_eq!(event_ts_to_ms_i64(1_672_304_486_865), 1_672_304_486_865);
    assert_eq!(event_ts_to_ms_i64(1_672_304_486_865_000), 1_672_304_486_865);
    assert_eq!(event_ts_to_ms_i64(1_672_304_486), 1_672_304_486_000);
    assert_eq!(event_ts_to_ms_i64(-1_672_304_486_865_999), -1_672_304_486_865);
    assert_eq!(event_ts_to_ms_i64(0), 0);
}

#[test]
fn subscribe_topics_are_venue_native() {
    assert_eq!(binance_agg_trade_stream("SOLUSDT"), "solusdt@aggTrade");
    assert_eq!(bybit_public_trade_topic("SOLUSDT"), "publicTrade.SOLUSDT");
}

#[test]
fn json_lines_start_with_brace_or_bracket() {
    assert!(looks_like_json("  {\"a\":1}"));
    assert!(looks_like_json("[1]"));
    assert!(!looks_like_json("agg_trade_id,price"));
    assert!(!looks_like_json("   "));
}

#[test]
fn okx_row_holds_text_fields() {
    let row = OkxTradeRow {
        inst_id: "SOL-USDT-SWAP".into(),
        trade_id: "1".into(),
        px: "100.33".into(),
        sz: "35".into(),
        side: "buy".into(),
        ts: "1788328169431".into(),
    };
    assert_eq!(parse_side(&row.side).unwrap(), TakerSide::Buy);
}

#[test]
fn full_binance_queue_does_not_block_okx() {
    let mut lanes: ThreeLanes<u32> = ThreeLanes {
        okx: BoundedInbox::new(Venue::Okx, 8),
        binance: BoundedInbox::new(Venue::Binance, 2),
        bybit: BoundedInbox::new(Venue::Bybit, 2),
    };
    for i in 0..10 {
        let _ = lanes.try_push(Venue::Binance, i);
    }
    assert!(lanes.binance.is_gap());
    assert_eq!(lanes.binance.dropped(), 8);
    assert_eq!(lanes.binance.len(), 2);
    for i in 0..5 {
        assert!(lanes.try_push(Venue::Okx, i), "OKX must still accept while Binance is overflowing");
    }
    assert!(!lanes.okx.is_gap());
    assert_eq!(lanes.okx.dropped(), 0);
    assert_eq!(lanes.okx.len(), 5);
    let mut q = QualityVector::default();
    lanes.apply_gaps(&mut q);
    assert!(q.binance_gap);
    assert!(!q.okx_gap);
    assert!(!q.bybit_gap);
}

#[test]
fn bybit_overflow_does_not_mark_okx_gap() {
    let mut lanes: ThreeLanes<u32> = ThreeLanes::with_cap(1);
    assert!(lanes.try_push(Venue::Bybit, 1));
    assert!(!lanes.try_push(Venue::Bybit, 2));
    assert!(lanes.try_push(Venue::Okx, 1));
    let mut q = QualityVector::default();
    lanes.apply_gaps(&mut q);
    assert!(q.bybit_gap);
    assert!(!q.okx_gap);
    assert!(!q.binance_gap);
}

#[test]
fn inbox_is_fifo_and_drains_in_order() {
    let mut b: BoundedInbox<&str> = BoundedInbox::new(Venue::Okx, 4);
    assert!(b.is_empty());
    b.try_push("a");
    b.try_push("b");
    b.try_push("c");
    assert_eq!(b.pop(), Some("a"));
    assert_eq!(b.drain(5), vec!["b", "c"]);
    assert!(b.pop().is_none());
    b.try_push("d");
    b.try_push("e");
    b.try_push("f");
    assert_eq!(b.drain(2), vec!["d", "e"]);
    assert_eq!(b.len(), 1);
    assert_eq!(b.cap(), 4);
    assert_eq!(b.venue(), Venue::Okx);
    assert!(!b.is_gap());
}

#[test]
fn gap_stays_after_overflow() {
    let mut b: BoundedInbox<u8> = BoundedInbox::new(Venue::Binance, 1);
    assert!(b.try_push(1));
    assert!(!b.try_push(2));
    assert_eq!(b.pop(), Some(1));
    assert!(b.try_push(3));
    assert!(b.is_gap());
    assert_eq!(b.dropped(), 1);
    let lanes: ThreeLanes<u8> = ThreeLanes::with_cap(3);
    assert_eq!(lanes.inbox(Venue::Bybit).venue(), Venue::Bybit);
}

fn keys_of(has_result: bool, has_id: bool, has_success: bool, op: Option<&str>) -> FrameKeys {
    FrameKeys {
        has_result,
        has_id,
        has_data: false,
        has_e: false,
        has_success,
        has_event: false,
        op: op.map(String::from),
        event: None,
    }
}

#[test]
fn golden_m_false_is_taker_buy() {
    // `"m": false` on an aggTrade line.
    let m = parse_is_buyer_maker(&MakerFlag::Bool(false)).unwrap();
    assert_eq!(taker_from_is_buyer_maker(m), TakerSide::Buy);
}

#[test]
fn binance_subscribe_ack_is_empty() {
    // {"result":null,"id":1}
    assert!(is_control_frame(Venue::Binance, &keys_of(true, true, false, None)));
}

#[test]
fn golden_s_sell_is_taker_sell() {
    // {"T":1672304486865,"s":"SOLUSDT","S":"Sell",...}
    assert_eq!(parse_taker_side("Sell").unwrap(), TakerSide::Sell);
    assert_eq!(event_ts_to_ms_i64(1_672_304_486_865), 1_672_304_486_865);
}

#[test]
fn bybit_subscribe_ack_is_empty() {
    // {"success":true,"ret_msg":"","op":"subscribe","conn_id":"x"}
    assert!(is_control_frame(Venue::Bybit, &keys_of(false, false, true, Some("subscribe"))));
}

#[test]
fn ingest_binance_overflow_leaves_okx_lane_open() {
    let mut lanes: ThreeLanes<(Venue, i64, TakerSide)> = ThreeLanes::with_cap(1);
    assert!(lanes.try_push(Venue::Binance, (Venue::Binance, 1000, TakerSide::Buy)));
    assert!(!lanes.try_push(Venue::Binance, (Venue::Binance, 1001, TakerSide::Sell)));
    assert!(lanes.try_push(Venue::Okx, (Venue::Okx, 1000, TakerSide::Buy)));
    assert!(lanes.binance.is_gap());
    assert!(!lanes.okx.is_gap());
    let t = lanes.okx.pop().unwrap();
    assert_eq!(t.2, TakerSide::Buy);
    assert_eq!(t.0, Venue::Okx);
}
