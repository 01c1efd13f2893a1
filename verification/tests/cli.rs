use orderflow::text::parse_usize;
use orderflow::cli::merge_order;
use orderflow::cli::{
    book_role, collect_replay_jobs, parse_args, symbol_table, SymbolTable,
};
use orderflow::domain::{Mode, Venue, VenueRole};

fn argv(xs: &[&str]) -> Vec<String> {
    xs.iter().map(|s| s.to_string()).collect()
}

#[test]
fn defaults_without_flags() {
    let a = parse_args(&argv(&[])).unwrap();
    assert_eq!(a.mode, None);
    assert_eq!(a.config_dir, "params");
    assert!(!a.once);
    assert_eq!(a.venue, Venue::Okx);
    assert_eq!(a.symbol, "SOL");
    assert_eq!(a.max_trades, 0);
    assert!(collect_replay_jobs(&a).is_empty());
}

#[test]
fn flags_take_their_values() {
    let a = parse_args(&argv(&[
        "--mode", "Sim", "--once", "--venue", "bybit", "--replay", "t.csv", "--replay-okx",
        "o.jsonl", "--symbol", "SUI", "--max-trades", "+250", "--journal", "j.jsonl",
        "--kill-switch", "k.json",
    ]))
    .unwrap();
    assert_eq!(a.mode, Some(Mode::Sim));
    assert!(a.once);
    assert_eq!(a.venue, Venue::Bybit);
    assert_eq!(a.symbol, "SUI");
    assert_eq!(a.max_trades, 250);
    assert_eq!(a.journal.as_deref(), Some("j.jsonl"));
    assert_eq!(a.kill_switch.as_deref(), Some("k.json"));
    let jobs = collect_replay_jobs(&a);
    assert_eq!(jobs, vec![(Venue::Bybit, "t.csv".to_string()), (Venue::Okx, "o.jsonl".to_string())]);
}

#[test]
fn argument_errors() {
    assert_eq!(parse_args(&argv(&["--mode"])).unwrap_err(), "--mode needs a value");
    assert_eq!(parse_args(&argv(&["--replay"])).unwrap_err(), "--replay needs a path");
    assert_eq!(parse_args(&argv(&["--bogus"])).unwrap_err(), "unknown arg --bogus");
    assert_eq!(parse_args(&argv(&["--max-trades", "-1"])).unwrap_err(), "bad --max-trades");
    assert_eq!(parse_args(&argv(&["-h", "--mode"])).unwrap_err(), "help");
    assert_eq!(
        parse_args(&argv(&["--mode", "paper"])).unwrap_err(),
        "unknown mode \"paper\"; expected shadow|sim|live_small|live"
    );
    assert_eq!(
        parse_args(&argv(&["--venue", "kraken"])).unwrap_err(),
        "unknown venue \"kraken\"; expected okx|binance|bybit"
    );
}

#[test]
fn usize_text_as_std_reads_it() {
    assert_eq!(parse_usize("0"), Some(0));
    assert_eq!(parse_usize("+7"), Some(7));
    assert_eq!(parse_usize("007"), Some(7));
    assert_eq!(parse_usize(""), None);
    assert_eq!(parse_usize("+"), None);
    assert_eq!(parse_usize(" 1"), None);
    assert_eq!(parse_usize("1_000"), None);
    assert_eq!(parse_usize(&usize::MAX.to_string()), Some(usize::MAX));
    assert_eq!(parse_usize("99999999999999999999999"), None);
    for s in ["12", "+3", "x", "-2", "18446744073709551616"] {
        assert_eq!(parse_usize(s), s.parse::<usize>().ok());
    }
}

#[test]
fn symbol_tables() {
    assert_eq!(symbol_table("sol").unwrap(), SymbolTable::Sol);
    assert_eq!(symbol_table("SUI").unwrap(), SymbolTable::Sui);
    assert_eq!(symbol_table("eth").unwrap_err(), "unknown symbol ETH; expected SOL|SUI");
    assert_eq!(book_role(Venue::Okx), VenueRole::Execution);
    assert_eq!(book_role(Venue::Bybit), VenueRole::Resonance);
}

#[test]
fn trades_replay_before_book_frames_at_equal_time() {
    // trades at 10, 20, 20; book frames at 5, 20
    assert_eq!(merge_order(&[10, 20, 20], &[5, 20]), vec![3, 0, 1, 2, 4]);
    assert_eq!(merge_order(&[], &[2, 1]), vec![1, 0]);
    assert!(merge_order(&[], &[]).is_empty());
}
