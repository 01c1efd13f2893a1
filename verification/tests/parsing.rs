use orderflow::text::{parse_u64, split_ws};
use orderflow::domain::{TakerSide, Venue};
use orderflow::ingest::binance::{aggtrade_csv_line, parse_is_buyer_maker, MakerFlag};
use orderflow::ingest::bybit::public_csv_line;
use orderflow::ingest::{
    dedup_by_id, is_control_frame, sort_dedup_order, stable_order, FrameKeys, ParseError,
};
use orderflow::lex::str_lt;
use orderflow::text::{digits_u64, parse_i64, split_char};

fn keys(op: Option<&str>, event: Option<&str>) -> FrameKeys {
    FrameKeys {
        has_result: false,
        has_id: false,
        has_data: false,
        has_e: false,
        has_success: false,
        has_event: event.is_some(),
        op: op.map(String::from),
        event: event.map(String::from),
    }
}

#[test]
fn code_point_order_matches_std() {
    let words = ["", "a", "ab", "b", "B", "ä", "10", "9", "abc", "abd"];
    for x in words {
        for y in words {
            assert_eq!(str_lt(x, y), x < y, "{x:?} < {y:?}");
        }
    }
}

#[test]
fn signed_decimals() {
    assert_eq!(parse_i64("1718000000000"), Some(1_718_000_000_000));
    assert_eq!(parse_i64("-42"), Some(-42));
    assert_eq!(parse_i64("+7"), Some(7));
    assert_eq!(parse_i64("-9223372036854775808"), Some(i64::MIN));
    assert_eq!(parse_i64("9223372036854775807"), Some(i64::MAX));
    assert_eq!(parse_i64("9223372036854775808"), None);
    assert_eq!(parse_i64(""), None);
    assert_eq!(parse_i64("-"), None);
    assert_eq!(parse_i64("1.5"), None);
    assert_eq!(digits_u64("x123", 1), Some(123));
}

#[test]
fn split_keeps_empty_fields() {
    assert_eq!(split_char("a,,b,", ','), vec!["a", "", "b", ""]);
    assert_eq!(split_char("", ','), vec![""]);
    assert_eq!(split_char("abc", ','), vec!["abc"]);
}

#[test]
fn binance_csv_rows() {
    let row = aggtrade_csv_line(" 26129,150.25,0.5,1,2,1718000000123,true ", 3)
        .unwrap()
        .unwrap();
    assert_eq!(row.trade_id, "26129");
    assert_eq!(row.price, "150.25");
    assert_eq!(row.quantity, "0.5");
    assert_eq!(row.transact_time_ms, 1_718_000_000_123);
    assert!(row.is_buyer_maker);
    let row0 = aggtrade_csv_line("7,1,1,1,1,5,0", 0).unwrap().unwrap();
    assert!(!row0.is_buyer_maker);
    assert!(aggtrade_csv_line("agg_trade_id,price,quantity", 0).unwrap().is_none());
    assert!(aggtrade_csv_line("   ", 9).unwrap().is_none());
    assert_eq!(
        aggtrade_csv_line("1,2,3", 4).unwrap_err(),
        "line 4: expected 7 CSV columns, got 3"
    );
    assert_eq!(
        aggtrade_csv_line("1,2,3,4,5,6,maybe", 2).unwrap_err(),
        "line 2: bad is_buyer_maker \"maybe\""
    );
    assert_eq!(
        aggtrade_csv_line("1,2,3,4,5,x,true", 12).unwrap_err(),
        "line 12: bad transact_time"
    );
}

#[test]
fn bybit_csv_rows() {
    let row = public_csv_line("1718000000.123,SOLUSDT,Buy,2,150.1,PlusTick, abc ,x", 1)
        .unwrap()
        .unwrap();
    assert_eq!(row.timestamp, "1718000000.123");
    assert_eq!(row.side, "Buy");
    assert_eq!(row.size, "2");
    assert_eq!(row.price, "150.1");
    assert_eq!(row.trade_id.as_deref(), Some("abc"));
    let short = public_csv_line("1,SOLUSDT,Sell,2,150.1", 1).unwrap().unwrap();
    assert_eq!(short.trade_id, None);
    assert!(public_csv_line("timestamp,symbol,side", 0).unwrap().is_none());
    assert_eq!(
        public_csv_line("1,SOLUSDT,Sell", 5).unwrap_err(),
        "line 5: expected ≥5 CSV columns, got 3"
    );
}

#[test]
fn buyer_maker_flag_forms() {
    assert!(parse_is_buyer_maker(&MakerFlag::Bool(true)).unwrap());
    assert!(!parse_is_buyer_maker(&MakerFlag::Number(Some(0))).unwrap());
    assert!(parse_is_buyer_maker(&MakerFlag::Number(Some(-3))).unwrap());
    assert!(!parse_is_buyer_maker(&MakerFlag::Number(None)).unwrap());
    assert!(parse_is_buyer_maker(&MakerFlag::Text(" YES ".to_string())).unwrap());
    assert!(!parse_is_buyer_maker(&MakerFlag::Text("0".to_string())).unwrap());
    match parse_is_buyer_maker(&MakerFlag::Text(" Hmm".to_string())) {
        Err(ParseError::BadSide(w)) => assert_eq!(w, "isBuyerMaker=hmm"),
        other => panic!("unexpected {other:?}"),
    }
    assert!(matches!(
        parse_is_buyer_maker(&MakerFlag::Other),
        Err(ParseError::MissingField("m"))
    ));
    let side = |b: bool| if b { TakerSide::Sell } else { TakerSide::Buy };
    assert_eq!(side(parse_is_buyer_maker(&MakerFlag::Bool(false)).unwrap()), TakerSide::Buy);
}

#[test]
fn control_frames_per_venue() {
    let mut ack = keys(None, None);
    ack.has_result = true;
    ack.has_id = true;
    assert!(is_control_frame(Venue::Binance, &ack));
    ack.has_data = true;
    assert!(!is_control_frame(Venue::Binance, &ack));
    assert!(is_control_frame(Venue::Bybit, &keys(Some("pong"), None)));
    assert!(!is_control_frame(Venue::Bybit, &keys(Some("trade"), None)));
    assert!(is_control_frame(Venue::Okx, &keys(None, Some("login"))));
    let mut okx_data = keys(None, Some("update"));
    okx_data.has_data = true;
    assert!(!is_control_frame(Venue::Okx, &okx_data));
    assert!(is_control_frame(Venue::Okx, &keys(None, Some("notice"))));
}

#[test]
fn dump_order_sorts_then_dedups() {
    let k = vec![
        (300, Some("c".to_string())),
        (100, Some("b".to_string())),
        (100, None),
        (100, Some("a".to_string())),
        (200, Some("b".to_string())),
        (100, None),
    ];
    let o = stable_order(&k);
    assert_eq!(o, vec![2, 5, 3, 1, 4, 0]);
    assert_eq!(dedup_by_id(&k, &o), vec![2, 5, 3, 1, 0]);
    assert_eq!(sort_dedup_order(&k), vec![2, 5, 3, 1, 0]);
    assert!(sort_dedup_order(&[]).is_empty());
}

#[test]
fn whitespace_words_and_unsigned_decimals() {
    for s in ["", "  ", "a", " a  b\tc\n", "x\u{3000}y", "  lead", "trail  "] {
        let want: Vec<&str> = s.split_whitespace().collect();
        assert_eq!(split_ws(s), want);
    }
    assert_eq!(parse_u64("42"), Some(42));
    assert_eq!(parse_u64("+42"), Some(42));
    assert_eq!(parse_u64("18446744073709551615"), Some(u64::MAX));
    assert_eq!(parse_u64("18446744073709551616"), None);
    assert_eq!(parse_u64("-1"), None);
    assert_eq!(parse_u64(""), None);
}
