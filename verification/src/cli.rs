//! The daemon's command line: flags, their values, and what the replay run
//! is asked to do. Paths stay text here; the caller opens them.

use vstd::prelude::*;
use crate::domain::{mode_parse_spec, venue_parse_spec, Mode, Venue, VenueRole};
use crate::ingest::{key_view, keys_view, stable_order, stable_sorted};
use crate::text::{concat_str, parse_usize, str_eq, to_ascii_uppercase, upper_seq, usize_of_dec};

verus! {

/// The daemon's flags.
#[derive(Debug, Clone, Copy, PartialEq, Eq, Structural)]
pub enum ArgFlag {
    Mode,
    ConfigDir,
    Once,
    Replay,
    Venue,
    ReplayOkx,
    ReplayBinance,
    ReplayBybit,
    Journal,
    Symbol,
    MaxTrades,
    BookReplay,
    RegimeReplay,
    SimFixture,
    KillSwitch,
    PrivateReplay,
    Help,
}

pub open spec fn flag_of(s: Seq<char>) -> Option<ArgFlag> {
    if s == "--mode"@ {
        Some(ArgFlag::Mode)
    } else if s == "--config-dir"@ {
        Some(ArgFlag::ConfigDir)
    } else if s == "--once"@ {
        Some(ArgFlag::Once)
    } else if s == "--replay"@ {
        Some(ArgFlag::Replay)
    } else if s == "--venue"@ {
        Some(ArgFlag::Venue)
    } else if s == "--replay-okx"@ {
        Some(ArgFlag::ReplayOkx)
    } else if s == "--replay-binance"@ {
        Some(ArgFlag::ReplayBinance)
    } else if s == "--replay-bybit"@ {
        Some(ArgFlag::ReplayBybit)
    } else if s == "--journal"@ {
        Some(ArgFlag::Journal)
    } else if s == "--symbol"@ {
        Some(ArgFlag::Symbol)
    } else if s == "--max-trades"@ {
        Some(ArgFlag::MaxTrades)
    } else if s == "--book-replay"@ {
        Some(ArgFlag::BookReplay)
    } else if s == "--regime-replay"@ {
        Some(ArgFlag::RegimeReplay)
    } else if s == "--sim-fixture"@ {
        Some(ArgFlag::SimFixture)
    } else if s == "--kill-switch"@ {
        Some(ArgFlag::KillSwitch)
    } else if s == "--private-replay"@ {
        Some(ArgFlag::PrivateReplay)
    } else if s == "-h"@ || s == "--help"@ {
        Some(ArgFlag::Help)
    } else {
        None
    }
}

fn flag_from(s: &str) -> (r: Option<ArgFlag>)
    ensures
        r == flag_of(s@),
{
    if str_eq(s, "--mode") {
        Some(ArgFlag::Mode)
    } else if str_eq(s, "--config-dir") {
        Some(ArgFlag::ConfigDir)
    } else if str_eq(s, "--once") {
        Some(ArgFlag::Once)
    } else if str_eq(s, "--replay") {
        Some(ArgFlag::Replay)
    } else if str_eq(s, "--venue") {
        Some(ArgFlag::Venue)
    } else if str_eq(s, "--replay-okx") {
        Some(ArgFlag::ReplayOkx)
    } else if str_eq(s, "--replay-binance") {
        Some(ArgFlag::ReplayBinance)
    } else if str_eq(s, "--replay-bybit") {
        Some(ArgFlag::ReplayBybit)
    } else if str_eq(s, "--journal") {
        Some(ArgFlag::Journal)
    } else if str_eq(s, "--symbol") {
        Some(ArgFlag::Symbol)
    } else if str_eq(s, "--max-trades") {
        Some(ArgFlag::MaxTrades)
    } else if str_eq(s, "--book-replay") {
        Some(ArgFlag::BookReplay)
    } else if str_eq(s, "--regime-replay") {
        Some(ArgFlag::RegimeReplay)
    } else if str_eq(s, "--sim-fixture") {
        Some(ArgFlag::SimFixture)
    } else if str_eq(s, "--kill-switch") {
        Some(ArgFlag::KillSwitch)
    } else if str_eq(s, "--private-replay") {
        Some(ArgFlag::PrivateReplay)
    } else if str_eq(s, "-h") || str_eq(s, "--help") {
        Some(ArgFlag::Help)
    } else {
        None
    }
}

/// The message when a flag's value is missing.
pub open spec fn missing_value_msg(f: ArgFlag) -> Seq<char> {
    match f {
        ArgFlag::Mode => "--mode needs a value"@,
        ArgFlag::ConfigDir => "--config-dir needs a value"@,
        ArgFlag::Replay => "--replay needs a path"@,
        ArgFlag::Venue => "--venue needs a value"@,
        ArgFlag::ReplayOkx => "--replay-okx needs a path"@,
        ArgFlag::ReplayBinance => "--replay-binance needs a path"@,
        ArgFlag::ReplayBybit => "--replay-bybit needs a path"@,
        ArgFlag::Journal => "--journal needs a path"@,
        ArgFlag::Symbol => "--symbol needs a value"@,
        ArgFlag::MaxTrades => "--max-trades needs a value"@,
        ArgFlag::BookReplay => "--book-replay needs a path"@,
        ArgFlag::RegimeReplay => "--regime-replay needs a path"@,
        ArgFlag::SimFixture => "--sim-fixture needs a path"@,
        ArgFlag::KillSwitch => "--kill-switch needs a path"@,
        ArgFlag::PrivateReplay => "--private-replay needs a path"@,
        ArgFlag::Once | ArgFlag::Help => Seq::empty(),
    }
}

fn missing_value(f: ArgFlag) -> (r: String)
    ensures
        r@ == missing_value_msg(f),
{
    let s = match f {
        ArgFlag::Mode => "--mode needs a value",
        ArgFlag::ConfigDir => "--config-dir needs a value",
        ArgFlag::Replay => "--replay needs a path",
        ArgFlag::Venue => "--venue needs a value",
        ArgFlag::ReplayOkx => "--replay-okx needs a path",
        ArgFlag::ReplayBinance => "--replay-binance needs a path",
        ArgFlag::ReplayBybit => "--replay-bybit needs a path",
        ArgFlag::Journal => "--journal needs a path",
        ArgFlag::Symbol => "--symbol needs a value",
        ArgFlag::MaxTrades => "--max-trades needs a value",
        ArgFlag::BookReplay => "--book-replay needs a path",
        ArgFlag::RegimeReplay => "--regime-replay needs a path",
        ArgFlag::SimFixture => "--sim-fixture needs a path",
        ArgFlag::KillSwitch => "--kill-switch needs a path",
        ArgFlag::PrivateReplay => "--private-replay needs a path",
        ArgFlag::Once | ArgFlag::Help => "",
    };
    proof {
        reveal_strlit("");
    }
    s.to_string()
}

/// What the daemon was asked to do. Paths are kept as given.
#[derive(Debug, Clone)]
pub struct Args {
    pub mode: Option<Mode>,
    pub config_dir: String,
    pub once: bool,
    pub replay: Option<String>,
    pub venue: Venue,
    pub replay_okx: Option<String>,
    pub replay_binance: Option<String>,
    pub replay_bybit: Option<String>,
    pub journal: Option<String>,
    pub symbol: String,
    /// Cap trades for smoke (0 = all).
    pub max_trades: usize,
    pub book_replay: Option<String>,
    pub regime_replay: Option<String>,
    pub sim_fixture: Option<String>,
    pub kill_switch: Option<String>,
    pub private_replay: Option<String>,
}

pub struct ArgsView {
    pub mode: Option<Mode>,
    pub config_dir: Seq<char>,
    pub once: bool,
    pub replay: Option<Seq<char>>,
    pub venue: Venue,
    pub replay_okx: Option<Seq<char>>,
    pub replay_binance: Option<Seq<char>>,
    pub replay_bybit: Option<Seq<char>>,
    pub journal: Option<Seq<char>>,
    pub symbol: Seq<char>,
    pub max_trades: usize,
    pub book_replay: Option<Seq<char>>,
    pub regime_replay: Option<Seq<char>>,
    pub sim_fixture: Option<Seq<char>>,
    pub kill_switch: Option<Seq<char>>,
    pub private_replay: Option<Seq<char>>,
}

pub open spec fn ov(o: Option<String>) -> Option<Seq<char>> {
    match o {
        Some(s) => Some(s@),
        None => None,
    }
}

pub open spec fn args_view(a: Args) -> ArgsView {
    ArgsView {
        mode: a.mode,
        config_dir: a.config_dir@,
        once: a.once,
        replay: ov(a.replay),
        venue: a.venue,
        replay_okx: ov(a.replay_okx),
        replay_binance: ov(a.replay_binance),
        replay_bybit: ov(a.replay_bybit),
        journal: ov(a.journal),
        symbol: a.symbol@,
        max_trades: a.max_trades,
        book_replay: ov(a.book_replay),
        regime_replay: ov(a.regime_replay),
        sim_fixture: ov(a.sim_fixture),
        kill_switch: ov(a.kill_switch),
        private_replay: ov(a.private_replay),
    }
}

/// Before any flag: default mode from the configuration, `params`, OKX, SOL, no cap.
pub open spec fn initial_args() -> ArgsView {
    ArgsView {
        mode: None,
        config_dir: "params"@,
        once: false,
        replay: None,
        venue: Venue::Okx,
        replay_okx: None,
        replay_binance: None,
        replay_bybit: None,
        journal: None,
        symbol: "SOL"@,
        max_trades: 0,
        book_replay: None,
        regime_replay: None,
        sim_fixture: None,
        kill_switch: None,
        private_replay: None,
    }
}

/// `a` after a flag that takes the value `v`.
pub open spec fn with_value(a: ArgsView, f: ArgFlag, v: Seq<char>) -> Result<ArgsView, Seq<char>> {
    match f {
        ArgFlag::Mode => match mode_parse_spec(v) {
            Ok(m) => Ok(ArgsView { mode: Some(m), ..a }),
            Err(e) => Err(e),
        },
        ArgFlag::ConfigDir => Ok(ArgsView { config_dir: v, ..a }),
        ArgFlag::Replay => Ok(ArgsView { replay: Some(v), ..a }),
        ArgFlag::Venue => match venue_parse_spec(v) {
            Ok(x) => Ok(ArgsView { venue: x, ..a }),
            Err(e) => Err(e),
        },
        ArgFlag::ReplayOkx => Ok(ArgsView { replay_okx: Some(v), ..a }),
        ArgFlag::ReplayBinance => Ok(ArgsView { replay_binance: Some(v), ..a }),
        ArgFlag::ReplayBybit => Ok(ArgsView { replay_bybit: Some(v), ..a }),
        ArgFlag::Journal => Ok(ArgsView { journal: Some(v), ..a }),
        ArgFlag::Symbol => Ok(ArgsView { symbol: v, ..a }),
        ArgFlag::MaxTrades => match usize_of_dec(v) {
            Some(n) => Ok(ArgsView { max_trades: n, ..a }),
            None => Err("bad --max-trades"@),
        },
        ArgFlag::BookReplay => Ok(ArgsView { book_replay: Some(v), ..a }),
        ArgFlag::RegimeReplay => Ok(ArgsView { regime_replay: Some(v), ..a }),
        ArgFlag::SimFixture => Ok(ArgsView { sim_fixture: Some(v), ..a }),
        ArgFlag::KillSwitch => Ok(ArgsView { kill_switch: Some(v), ..a }),
        ArgFlag::PrivateReplay => Ok(ArgsView { private_replay: Some(v), ..a }),
        ArgFlag::Once | ArgFlag::Help => Ok(a),
    }
}

/// Reads the arguments from position `i` on: flags in order, each value flag
/// taking the next argument; the first problem ends the reading.
pub open spec fn parse_from(argv: Seq<Seq<char>>, i: int, a: ArgsView) -> Result<ArgsView, Seq<char>>
    decreases argv.len() - i,
{
    if i < 0 || i >= argv.len() {
        Ok(a)
    } else {
        match flag_of(argv[i]) {
            None => Err("unknown arg "@ + argv[i]),
            Some(ArgFlag::Help) => Err("help"@),
            Some(ArgFlag::Once) => parse_from(argv, i + 1, ArgsView { once: true, ..a }),
            Some(f) => if i + 1 >= argv.len() {
                Err(missing_value_msg(f))
            } else {
                match with_value(a, f, argv[i + 1]) {
                    Ok(b) => parse_from(argv, i + 2, b),
                    Err(e) => Err(e),
                }
            },
        }
    }
}

pub open spec fn argv_view(argv: Seq<String>) -> Seq<Seq<char>> {
    argv.map_values(|s: String| s@)
}

fn set_value(a: &mut Args, f: ArgFlag, v: &str) -> (r: Result<(), String>)
    ensures
        match r {
            Ok(()) => with_value(args_view(*old(a)), f, v@) == Ok::<ArgsView, Seq<char>>(
                args_view(*final(a)),
            ),
            Err(e) => with_value(args_view(*old(a)), f, v@) == Err::<ArgsView, Seq<char>>(e@),
        },
{
    match f {
        ArgFlag::Mode => match Mode::parse(v) {
            Ok(m) => {
                a.mode = Some(m);
            },
            Err(e) => {
                return Err(e);
            },
        },
        ArgFlag::ConfigDir => {
            a.config_dir = v.to_string();
        },
        ArgFlag::Replay => {
            a.replay = Some(v.to_string());
        },
        ArgFlag::Venue => match Venue::parse(v) {
            Ok(x) => {
                a.venue = x;
            },
            Err(e) => {
                return Err(e);
            },
        },
        ArgFlag::ReplayOkx => {
            a.replay_okx = Some(v.to_string());
        },
        ArgFlag::ReplayBinance => {
            a.replay_binance = Some(v.to_string());
        },
        ArgFlag::ReplayBybit => {
            a.replay_bybit = Some(v.to_string());
        },
        ArgFlag::Journal => {
            a.journal = Some(v.to_string());
        },
        ArgFlag::Symbol => {
            a.symbol = v.to_string();
        },
        ArgFlag::MaxTrades => match parse_usize(v) {
            Some(n) => {
                a.max_trades = n;
            },
            None => {
                return Err(String::from_str("bad --max-trades"));
            },
        },
        ArgFlag::BookReplay => {
            a.book_replay = Some(v.to_string());
        },
        ArgFlag::RegimeReplay => {
            a.regime_replay = Some(v.to_string());
        },
        ArgFlag::SimFixture => {
            a.sim_fixture = Some(v.to_string());
        },
        ArgFlag::KillSwitch => {
            a.kill_switch = Some(v.to_string());
        },
        ArgFlag::PrivateReplay => {
            a.private_replay = Some(v.to_string());
        },
        ArgFlag::Once | ArgFlag::Help => {},
    }
    Ok(())
}

/// Parses the daemon's arguments (without the program name). `-h`/`--help`
/// comes back as the error `help`, for the caller to print the usage.
pub fn parse_args(argv: &[String]) -> (r: Result<Args, String>)
    ensures
        match r {
            Ok(a) => parse_from(argv_view(argv@), 0, initial_args()) == Ok::<ArgsView, Seq<char>>(
                args_view(a),
            ),
            Err(e) => parse_from(argv_view(argv@), 0, initial_args()) == Err::<ArgsView, Seq<char>>(
                e@,
            ),
        },
{
    let ghost av = argv_view(argv@);
    let mut a = Args {
        mode: None,
        config_dir: crate::domain::default_config_dir(),
        once: false,
        replay: None,
        venue: Venue::Okx,
        replay_okx: None,
        replay_binance: None,
        replay_bybit: None,
        journal: None,
        symbol: String::from_str("SOL"),
        max_trades: 0,
        book_replay: None,
        regime_replay: None,
        sim_fixture: None,
        kill_switch: None,
        private_replay: None,
    };
    assert(args_view(a) == initial_args());
    let n = argv.len();
    let mut i: usize = 0;
    while i < n
        invariant
            n == argv@.len(),
            av == argv_view(argv@),
            i <= n,
            parse_from(av, i as int, args_view(a)) == parse_from(av, 0, initial_args()),
        decreases n - i,
    {
        let s = argv[i].as_str();
        assert(av[i as int] == s@);
        let f = match flag_from(s) {
            Some(f) => f,
            None => {
                return Err(concat_str(String::from_str("unknown arg "), s));
            },
        };
        match f {
            ArgFlag::Help => {
                return Err(String::from_str("help"));
            },
            ArgFlag::Once => {
                a.once = true;
                i += 1;
            },
            _ => {
                if i + 1 >= n {
                    return Err(missing_value(f));
                }
                let v = argv[i + 1].as_str();
                assert(av[i + 1] == v@);
                match set_value(&mut a, f, v) {
                    Ok(()) => {},
                    Err(e) => {
                        return Err(e);
                    },
                }
                i += 2;
            },
        }
    }
    Ok(a)
}

/// The trade dumps to replay, with their venues: `--replay` under `--venue`
/// first, then the OKX, Binance and Bybit dumps.
pub fn collect_replay_jobs(args: &Args) -> (r: Vec<(Venue, String)>)
    ensures
        ({
            let a = args_view(*args);
            let s0: Seq<(Venue, Seq<char>)> = match a.replay {
                Some(p) => seq![(a.venue, p)],
                None => seq![],
            };
            let s1: Seq<(Venue, Seq<char>)> = match a.replay_okx {
                Some(p) => seq![(Venue::Okx, p)],
                None => seq![],
            };
            let s2: Seq<(Venue, Seq<char>)> = match a.replay_binance {
                Some(p) => seq![(Venue::Binance, p)],
                None => seq![],
            };
            let s3: Seq<(Venue, Seq<char>)> = match a.replay_bybit {
                Some(p) => seq![(Venue::Bybit, p)],
                None => seq![],
            };
            r@.map_values(|j: (Venue, String)| (j.0, j.1@)) == s0 + s1 + s2 + s3
        }),
{
    let mut jobs: Vec<(Venue, String)> = Vec::new();
    if let Some(p) = &args.replay {
        jobs.push((args.venue, p.clone()));
    }
    if let Some(p) = &args.replay_okx {
        jobs.push((Venue::Okx, p.clone()));
    }
    if let Some(p) = &args.replay_binance {
        jobs.push((Venue::Binance, p.clone()));
    }
    if let Some(p) = &args.replay_bybit {
        jobs.push((Venue::Bybit, p.clone()));
    }
    let ghost a = args_view(*args);
    assert(jobs@.map_values(|j: (Venue, String)| (j.0, j.1@)) =~= (match a.replay {
        Some(p) => seq![(a.venue, p)],
        None => Seq::<(Venue, Seq<char>)>::empty(),
    }) + (match a.replay_okx {
        Some(p) => seq![(Venue::Okx, p)],
        None => Seq::<(Venue, Seq<char>)>::empty(),
    }) + (match a.replay_binance {
        Some(p) => seq![(Venue::Binance, p)],
        None => Seq::<(Venue, Seq<char>)>::empty(),
    }) + (match a.replay_bybit {
        Some(p) => seq![(Venue::Bybit, p)],
        None => Seq::<(Venue, Seq<char>)>::empty(),
    }));
    jobs
}

/// The parameter table a symbol selects.
#[derive(Debug, Clone, Copy, PartialEq, Eq, Structural)]
pub enum SymbolTable {
    Sol,
    Sui,
}

/// SOL or SUI, ASCII case ignored; anything else is refused by name.
pub open spec fn symbol_table_spec(symbol: Seq<char>) -> Result<SymbolTable, Seq<char>> {
    let u = upper_seq(symbol);
    if u == "SOL"@ {
        Ok(SymbolTable::Sol)
    } else if u == "SUI"@ {
        Ok(SymbolTable::Sui)
    } else {
        Err("unknown symbol "@ + u + "; expected SOL|SUI"@)
    }
}

pub fn symbol_table(symbol: &str) -> (r: Result<SymbolTable, String>)
    ensures
        match r {
            Ok(t) => symbol_table_spec(symbol@) == Ok::<SymbolTable, Seq<char>>(t),
            Err(e) => symbol_table_spec(symbol@) == Err::<SymbolTable, Seq<char>>(e@),
        },
{
    let u = to_ascii_uppercase(symbol);
    if str_eq(u.as_str(), "SOL") {
        Ok(SymbolTable::Sol)
    } else if str_eq(u.as_str(), "SUI") {
        Ok(SymbolTable::Sui)
    } else {
        let m = concat_str(String::from_str("unknown symbol "), u.as_str());
        Err(concat_str(m, "; expected SOL|SUI"))
    }
}

/// OKX books are the execution venue's; the peers' are resonance only.
pub fn book_role(venue: Venue) -> (r: VenueRole)
    ensures
        r == (if venue == Venue::Okx { VenueRole::Execution } else { VenueRole::Resonance }),
{
    match venue {
        Venue::Okx => VenueRole::Execution,
        Venue::Binance | Venue::Bybit => VenueRole::Resonance,
    }
}

} // verus!

verus! {

/// Replay events keyed for merging: trades (no tag) sort before book frames
/// (tagged) at the same event time; each kind keeps its input order.
pub open spec fn merged_keys(trade_ts: Seq<i64>, book_ts: Seq<i64>) -> Seq<(i64, Option<Seq<char>>)> {
    trade_ts.map_values(|t: i64| (t, None::<Seq<char>>)) + book_ts.map_values(
        |t: i64| (t, Some(Seq::<char>::empty())),
    )
}

/// The replay order of trades and book frames by event time. An index below
/// `trade_ts.len()` is that trade; the others are book frames, offset by the
/// number of trades.
pub fn merge_order(trade_ts: &[i64], book_ts: &[i64]) -> (r: Vec<usize>)
    requires
        trade_ts@.len() + book_ts@.len() <= usize::MAX,
    ensures
        stable_sorted(merged_keys(trade_ts@, book_ts@), r@, (trade_ts@.len() + book_ts@.len()) as int),
{
    let mut keys: Vec<(i64, Option<String>)> = Vec::new();
    let mut i: usize = 0;
    while i < trade_ts.len()
        invariant
            i <= trade_ts@.len(),
            keys@.len() == i,
            keys_view(keys@) == trade_ts@.subrange(0, i as int).map_values(|t: i64| (t, None::<Seq<char>>)),
        decreases trade_ts.len() - i,
    {
        let ghost before = keys@;
        keys.push((trade_ts[i], None));
        proof {
            let want = trade_ts@.subrange(0, i + 1).map_values(|t: i64| (t, None::<Seq<char>>));
            assert forall|k: int| 0 <= k < keys@.len() implies #[trigger] keys_view(keys@)[k] == want[k] by {
                if k < i {
                    assert(keys@[k] == before[k]);
                    assert(keys_view(before)[k] == key_view(before[k]));
                }
            }
            assert(keys_view(keys@) =~= want);
        }
        i += 1;
    }
    assert(trade_ts@.subrange(0, trade_ts@.len() as int) =~= trade_ts@);
    let mut j: usize = 0;
    while j < book_ts.len()
        invariant
            j <= book_ts@.len(),
            trade_ts@.len() + book_ts@.len() <= usize::MAX,
            keys@.len() == trade_ts@.len() + j,
            keys_view(keys@) == trade_ts@.map_values(|t: i64| (t, None::<Seq<char>>)) + book_ts@.subrange(
                0,
                j as int,
            ).map_values(|t: i64| (t, Some(Seq::<char>::empty()))),
        decreases book_ts.len() - j,
    {
        let ghost before = keys@;
        keys.push((book_ts[j], Some(String::new())));
        proof {
            let want = trade_ts@.map_values(|t: i64| (t, None::<Seq<char>>)) + book_ts@.subrange(
                0,
                j + 1,
            ).map_values(|t: i64| (t, Some(Seq::<char>::empty())));
            assert forall|k: int| 0 <= k < keys@.len() implies #[trigger] keys_view(keys@)[k] == want[k] by {
                if k < before.len() {
                    assert(keys@[k] == before[k]);
                    assert(keys_view(before)[k] == key_view(before[k]));
                }
            }
            assert(keys_view(keys@) =~= want);
        }
        j += 1;
    }
    assert(book_ts@.subrange(0, book_ts@.len() as int) =~= book_ts@);
    assert(keys_view(keys@) =~= merged_keys(trade_ts@, book_ts@));
    stable_order(keys.as_slice())
}

} // verus!
