//! Shared vocabulary of the footprint school: modes, venues, bar states, the
//! per-venue quality vector, configuration defaults and the live gate.
//!
//! Live / live_small may never open an order: the live lock refuses every live mode,
//! and a shadow or sim mode is the only one that boots with `ok`.

use vstd::prelude::*;
use crate::text::{
    concat_str, debug_quote, debug_str, lower_seq, str_eq, to_ascii_lowercase, trim, trim_seq,
};

verus! {

/// Release of the schemas and the daemon.
pub const VERSION: &'static str = "0.0.0";

pub const SCHOOL: &'static str = "footprint";

/// Schools this library never implements.
pub const FORBIDDEN_SCHOOLS: [&'static str; 7] = [
    "market_profile",
    "tpo",
    "vwap",
    "avwap",
    "naked_poc",
    "smc",
    "ict",
];

/// 1-minute bar on exchange event time `[t, t+60)`.
pub const BAR_INTERVAL_MS: i64 = 60_000;

#[derive(Debug, Clone, Copy, PartialEq, Eq, Structural)]
pub enum Mode {
    Shadow,
    Sim,
    LiveSmall,
    Live,
}

pub open spec fn mode_name(m: Mode) -> Seq<char> {
    match m {
        Mode::Shadow => "shadow"@,
        Mode::Sim => "sim"@,
        Mode::LiveSmall => "live_small"@,
        Mode::Live => "live"@,
    }
}

/// The mode that a normalized (trimmed, lower-cased) name denotes.
pub open spec fn mode_of_name(s: Seq<char>) -> Option<Mode> {
    if s == "shadow"@ {
        Some(Mode::Shadow)
    } else if s == "sim"@ {
        Some(Mode::Sim)
    } else if s == "live_small"@ {
        Some(Mode::LiveSmall)
    } else if s == "live"@ {
        Some(Mode::Live)
    } else {
        None
    }
}

pub open spec fn is_live_mode(m: Mode) -> bool {
    m == Mode::Live || m == Mode::LiveSmall
}

/// What `Mode::parse` gives for a text: the mode, or the error message.
pub open spec fn mode_parse_spec(s: Seq<char>) -> Result<Mode, Seq<char>> {
    let key = lower_seq(trim_seq(s));
    match mode_of_name(key) {
        Some(m) => Ok(m),
        None => Err("unknown mode "@ + debug_str(key) + "; expected shadow|sim|live_small|live"@),
    }
}

impl Mode {
    /// Case-insensitive, surrounding whitespace ignored.
    pub fn parse(s: &str) -> (r: Result<Mode, String>)
        ensures
            match r {
                Ok(m) => mode_parse_spec(s@) == Ok::<Mode, Seq<char>>(m),
                Err(e) => mode_parse_spec(s@) == Err::<Mode, Seq<char>>(e@),
            },
            ({
                let key = lower_seq(trim_seq(s@));
                match r {
                    Ok(m) => mode_of_name(key) == Some(m),
                    Err(e) => mode_of_name(key) is None && e@ == "unknown mode "@ + debug_str(key)
                        + "; expected shadow|sim|live_small|live"@,
                }
            }),
    {
        let t = trim(s);
        let key = to_ascii_lowercase(t);
        let k = key.as_str();
        if str_eq(k, "shadow") {
            Ok(Mode::Shadow)
        } else if str_eq(k, "sim") {
            Ok(Mode::Sim)
        } else if str_eq(k, "live_small") {
            Ok(Mode::LiveSmall)
        } else if str_eq(k, "live") {
            Ok(Mode::Live)
        } else {
            let msg = concat_str(String::from_str("unknown mode "), debug_quote(k).as_str());
            Err(concat_str(msg, "; expected shadow|sim|live_small|live"))
        }
    }

    pub fn as_str(self) -> (r: &'static str)
        ensures
            r@ == mode_name(self),
    {
        match self {
            Mode::Shadow => "shadow",
            Mode::Sim => "sim",
            Mode::LiveSmall => "live_small",
            Mode::Live => "live",
        }
    }

    pub fn is_live(self) -> (r: bool)
        ensures
            r == is_live_mode(self),
    {
        match self {
            Mode::Live | Mode::LiveSmall => true,
            _ => false,
        }
    }
}

#[derive(Debug, Clone, Copy, PartialEq, Eq, Hash, Structural)]
pub enum Venue {
    Okx,
    Binance,
    Bybit,
}

pub open spec fn venue_name(v: Venue) -> Seq<char> {
    match v {
        Venue::Okx => "okx"@,
        Venue::Binance => "binance"@,
        Venue::Bybit => "bybit"@,
    }
}

pub open spec fn venue_of_name(s: Seq<char>) -> Option<Venue> {
    if s == "okx"@ {
        Some(Venue::Okx)
    } else if s == "binance"@ {
        Some(Venue::Binance)
    } else if s == "bybit"@ {
        Some(Venue::Bybit)
    } else {
        None
    }
}

/// What `Venue::parse` gives for a text: the venue, or the error message.
pub open spec fn venue_parse_spec(s: Seq<char>) -> Result<Venue, Seq<char>> {
    let key = lower_seq(trim_seq(s));
    match venue_of_name(key) {
        Some(v) => Ok(v),
        None => Err("unknown venue "@ + debug_str(key) + "; expected okx|binance|bybit"@),
    }
}

impl Venue {
    /// Case-insensitive, surrounding whitespace ignored.
    pub fn parse(s: &str) -> (r: Result<Venue, String>)
        ensures
            match r {
                Ok(v) => venue_parse_spec(s@) == Ok::<Venue, Seq<char>>(v),
                Err(e) => venue_parse_spec(s@) == Err::<Venue, Seq<char>>(e@),
            },
            ({
                let key = lower_seq(trim_seq(s@));
                match r {
                    Ok(v) => venue_of_name(key) == Some(v),
                    Err(e) => venue_of_name(key) is None && e@ == "unknown venue "@ + debug_str(
                        key,
                    ) + "; expected okx|binance|bybit"@,
                }
            }),
    {
        let t = trim(s);
        let key = to_ascii_lowercase(t);
        let k = key.as_str();
        if str_eq(k, "okx") {
            Ok(Venue::Okx)
        } else if str_eq(k, "binance") {
            Ok(Venue::Binance)
        } else if str_eq(k, "bybit") {
            Ok(Venue::Bybit)
        } else {
            let msg = concat_str(String::from_str("unknown venue "), debug_quote(k).as_str());
            Err(concat_str(msg, "; expected okx|binance|bybit"))
        }
    }

    pub fn as_str(self) -> (r: &'static str)
        ensures
            r@ == venue_name(self),
    {
        match self {
            Venue::Okx => "okx",
            Venue::Binance => "binance",
            Venue::Bybit => "bybit",
        }
    }
}

#[derive(Debug, Clone, Copy, PartialEq, Eq, Structural)]
pub enum VenueRole {
    Execution,
    Resonance,
}

#[derive(Debug, Clone, Copy, PartialEq, Eq, Structural)]
pub enum TakerSide {
    Buy,
    Sell,
}

#[derive(Debug, Clone, Copy, PartialEq, Eq, Structural)]
pub enum BarState {
    Forming,
    Closed,
}

#[derive(Debug, Clone, Copy, PartialEq, Eq, Structural)]
pub enum CalibrationStatus {
    /// 21-day observation draft. Not out-of-sample. Not live.
    ObservationDraft,
    OutOfSampleValidated,
}

#[derive(Debug, Clone, Copy, PartialEq, Eq, Structural)]
pub enum ResonanceMode {
    Off,
    KOfN,
    All,
}

#[derive(Debug, Clone, Copy, PartialEq, Eq, Structural)]
pub enum ArmedRatePolicy {
    /// Dale 300% and Valtos 400% both computed. Do not average to 350%.
    Parallel,
    Dale300,
    Valtos400,
}

#[derive(Debug, Clone, Copy, PartialEq, Eq, Structural)]
pub enum ImbalanceStyle {
    Diagonal,
}

#[derive(Debug, Clone, Copy, PartialEq, Eq, Structural)]
pub enum ValueAreaScope {
    Bar,
}

#[derive(Debug, Clone, Copy, PartialEq, Eq, Structural)]
pub enum ScriptFStatus {
    NotEvaluated,
    Enabled,
    Disabled,
}

#[derive(Debug, Clone, Copy, PartialEq, Eq, Structural)]
pub enum LiveDenied {
    ParamsNotCalibrated,
    LiveFlagOff,
    ArmedRateStillParallel,
    ExecNotWired,
}

pub open spec fn denied_name(d: LiveDenied) -> Seq<char> {
    match d {
        LiveDenied::ParamsNotCalibrated => "params_not_calibrated"@,
        LiveDenied::LiveFlagOff => "live_flag_off"@,
        LiveDenied::ArmedRateStillParallel => "armed_rate_still_parallel"@,
        LiveDenied::ExecNotWired => "exec_not_wired"@,
    }
}

pub open spec fn denied_message(d: LiveDenied) -> Seq<char> {
    match d {
        LiveDenied::ParamsNotCalibrated => "參數未校準：21 日觀察稿不是樣本外驗證，禁止 live"@,
        LiveDenied::LiveFlagOff => "live 旗標關閉，禁止開倉"@,
        LiveDenied::ArmedRateStillParallel => "武裝比率仍是 300∥400 並列，尚未選定，禁止 live"@,
        LiveDenied::ExecNotWired => "執行路徑未接線，即使旗標翻開也下不了單"@,
    }
}

impl LiveDenied {
    pub fn as_str(&self) -> (r: &'static str)
        ensures
            r@ == denied_name(*self),
    {
        match self {
            LiveDenied::ParamsNotCalibrated => "params_not_calibrated",
            LiveDenied::LiveFlagOff => "live_flag_off",
            LiveDenied::ArmedRateStillParallel => "armed_rate_still_parallel",
            LiveDenied::ExecNotWired => "exec_not_wired",
        }
    }

    pub fn message_zh(&self) -> (r: &'static str)
        ensures
            r@ == denied_message(*self),
    {
        match self {
            LiveDenied::ParamsNotCalibrated => "參數未校準：21 日觀察稿不是樣本外驗證，禁止 live",
            LiveDenied::LiveFlagOff => "live 旗標關閉，禁止開倉",
            LiveDenied::ArmedRateStillParallel => "武裝比率仍是 300∥400 並列，尚未選定，禁止 live",
            LiveDenied::ExecNotWired => "執行路徑未接線，即使旗標翻開也下不了單",
        }
    }
}

} // verus!

verus! {

/// Open of the 1m bar `[t - t mod 60_000, … + 60_000)` that holds `t`.
pub open spec fn bar_open_spec(t: int) -> int {
    t - t % (BAR_INTERVAL_MS as int)
}

/// Floor exchange event time to the 1m bar open `[t, t+60_000)`.
pub fn bar_open_ms(event_ts_ms: i64) -> (r: i64)
    requires
        bar_open_spec(event_ts_ms as int) >= i64::MIN,
    ensures
        r == bar_open_spec(event_ts_ms as int),
        r <= event_ts_ms < r + BAR_INTERVAL_MS,
        (r as int) % (BAR_INTERVAL_MS as int) == 0,
{
    let rem = event_ts_ms.checked_rem_euclid(BAR_INTERVAL_MS).unwrap();
    event_ts_ms - rem
}

/// Per-venue quality. Do not sum venue volumes.
#[derive(Debug, Clone, Copy, PartialEq, Eq, Structural)]
pub struct QualityVector {
    pub late_trade: u32,
    pub out_of_order: u32,
    pub reconnect: u32,
    pub gap_minutes: u32,
    pub trades_seen: u64,
    pub bars_closed: u64,
    pub okx_gap: bool,
    pub binance_gap: bool,
    pub bybit_gap: bool,
    pub okx_book_ok: bool,
    pub binance_book_ok: bool,
    pub bybit_book_ok: bool,
    pub liq_stream_missing: bool,
    /// Private WS seen and healthy. Shadow/sim do not require this to boot.
    pub private_ok: bool,
}

pub open spec fn gap_of(q: QualityVector, v: Venue) -> bool {
    match v {
        Venue::Okx => q.okx_gap,
        Venue::Binance => q.binance_gap,
        Venue::Bybit => q.bybit_gap,
    }
}

pub open spec fn book_ok_of(q: QualityVector, v: Venue) -> bool {
    match v {
        Venue::Okx => q.okx_book_ok,
        Venue::Binance => q.binance_book_ok,
        Venue::Bybit => q.bybit_book_ok,
    }
}

/// `q` with the gap flag of `v` raised and every other field kept.
pub open spec fn with_gap(q: QualityVector, v: Venue) -> QualityVector {
    match v {
        Venue::Okx => QualityVector { okx_gap: true, ..q },
        Venue::Binance => QualityVector { binance_gap: true, ..q },
        Venue::Bybit => QualityVector { bybit_gap: true, ..q },
    }
}

/// `q` with the book flag of `v` set to `ok` and every other field kept.
pub open spec fn with_book_ok(q: QualityVector, v: Venue, ok: bool) -> QualityVector {
    match v {
        Venue::Okx => QualityVector { okx_book_ok: ok, ..q },
        Venue::Binance => QualityVector { binance_book_ok: ok, ..q },
        Venue::Bybit => QualityVector { bybit_book_ok: ok, ..q },
    }
}

pub open spec fn quality_zero() -> QualityVector {
    QualityVector {
        late_trade: 0,
        out_of_order: 0,
        reconnect: 0,
        gap_minutes: 0,
        trades_seen: 0,
        bars_closed: 0,
        okx_gap: false,
        binance_gap: false,
        bybit_gap: false,
        okx_book_ok: false,
        binance_book_ok: false,
        bybit_book_ok: false,
        liq_stream_missing: false,
        private_ok: false,
    }
}

impl Default for QualityVector {
    fn default() -> (r: Self)
        ensures
            r == quality_zero(),
    {
        QualityVector {
            late_trade: 0,
            out_of_order: 0,
            reconnect: 0,
            gap_minutes: 0,
            trades_seen: 0,
            bars_closed: 0,
            okx_gap: false,
            binance_gap: false,
            bybit_gap: false,
            okx_book_ok: false,
            binance_book_ok: false,
            bybit_book_ok: false,
            liq_stream_missing: false,
            private_ok: false,
        }
    }
}

impl QualityVector {
    /// Queue overflow / stall on one venue. Never used to block the other two.
    pub fn mark_gap(&mut self, venue: Venue)
        ensures
            *final(self) == with_gap(*old(self), venue),
    {
        match venue {
            Venue::Okx => self.okx_gap = true,
            Venue::Binance => self.binance_gap = true,
            Venue::Bybit => self.bybit_gap = true,
        }
    }

    pub fn gap(&self, venue: Venue) -> (r: bool)
        ensures
            r == gap_of(*self, venue),
    {
        match venue {
            Venue::Okx => self.okx_gap,
            Venue::Binance => self.binance_gap,
            Venue::Bybit => self.bybit_gap,
        }
    }

    pub fn set_book_ok(&mut self, venue: Venue, ok: bool)
        ensures
            *final(self) == with_book_ok(*old(self), venue, ok),
    {
        match venue {
            Venue::Okx => self.okx_book_ok = ok,
            Venue::Binance => self.binance_book_ok = ok,
            Venue::Bybit => self.bybit_book_ok = ok,
        }
    }

    pub fn book_ok(&self, venue: Venue) -> (r: bool)
        ensures
            r == book_ok_of(*self, venue),
    {
        match venue {
            Venue::Okx => self.okx_book_ok,
            Venue::Binance => self.binance_book_ok,
            Venue::Bybit => self.bybit_book_ok,
        }
    }
}

/// Marking one venue's gap raises that venue's flag and leaves the other
/// venues' gap and book flags as they were.
pub proof fn lemma_gap_flags_independent(q: QualityVector, v: Venue, u: Venue)
    ensures
        gap_of(with_gap(q, v), v),
        u != v ==> gap_of(with_gap(q, v), u) == gap_of(q, u),
        book_ok_of(with_gap(q, v), u) == book_ok_of(q, u),
{
}

/// Setting one venue's book flag leaves the other venues' book and gap flags.
pub proof fn lemma_book_flags_independent(q: QualityVector, v: Venue, ok: bool, u: Venue)
    ensures
        book_ok_of(with_book_ok(q, v, ok), v) == ok,
        u != v ==> book_ok_of(with_book_ok(q, v, ok), u) == book_ok_of(q, u),
        gap_of(with_book_ok(q, v, ok), u) == gap_of(q, u),
{
}

/// Dummy frozen 1m snapshot. Real snapshots land when the footprint engine is wired.
#[derive(Debug, Clone, Copy, PartialEq, Eq, Structural)]
pub struct FrozenSnapshot {
    pub schema_version: u32,
    pub wired: bool,
}

impl FrozenSnapshot {
    pub fn dummy() -> (r: Self)
        ensures
            r.schema_version == 0,
            !r.wired,
    {
        FrozenSnapshot { schema_version: 0, wired: false }
    }
}

} // verus!

verus! {

pub fn default_resonance_k() -> (r: u32)
    ensures
        r == 1,
{
    1
}

pub fn default_accept_bars() -> (r: u32)
    ensures
        r == 3,
{
    3
}

pub fn default_max_day_trades() -> (r: u32)
    ensures
        r == 20,
{
    20
}

pub fn default_reconcile_every_s() -> (r: u32)
    ensures
        r == 30,
{
    30
}

pub fn default_td_mode() -> (r: String)
    ensures
        r@ == "cross"@,
{
    String::from_str("cross")
}

pub fn default_pos_mode() -> (r: String)
    ensures
        r@ == "net_mode"@,
{
    String::from_str("net_mode")
}

pub fn default_entry_ttl_ms() -> (r: u64)
    ensures
        r == 15_000,
{
    15_000
}

pub fn default_max_amend() -> (r: u32)
    ensures
        r == 2,
{
    2
}

pub fn default_max_slippage_ticks() -> (r: u32)
    ensures
        r == 4,
{
    4
}

pub fn default_crash_window_s() -> (r: u32)
    ensures
        r == 120,
{
    120
}

pub fn default_crash_burst() -> (r: u32)
    ensures
        r == 5,
{
    5
}

pub fn default_log_max_bytes() -> (r: u64)
    ensures
        r == 104_857_600,
{
    104_857_600
}

pub fn default_log_keep() -> (r: u32)
    ensures
        r == 7,
{
    7
}

pub fn default_disk_min_free() -> (r: u64)
    ensures
        r == 1_073_741_824,
{
    1_073_741_824
}

pub fn default_hot_journal_days() -> (r: u32)
    ensures
        r == 3,
{
    3
}

#[derive(Debug, Clone)]
pub struct ExecConfig {
    /// OKX margin mode. Observation placeholder.
    pub td_mode: String,
    /// Expected OKX posMode. Mismatch blocks new opens.
    pub pos_mode: String,
    /// Third lock: even if calibration + live flags flip, this stays false in repo.
    pub live_send: bool,
    pub entry_ttl_ms: u64,
    pub max_amend: u32,
    pub max_slippage_ticks: u32,
}

impl Default for ExecConfig {
    fn default() -> (r: Self)
        ensures
            r.td_mode@ == "cross"@,
            r.pos_mode@ == "net_mode"@,
            !r.live_send,
            r.entry_ttl_ms == 15_000,
            r.max_amend == 2,
            r.max_slippage_ticks == 4,
    {
        ExecConfig {
            td_mode: default_td_mode(),
            pos_mode: default_pos_mode(),
            live_send: false,
            entry_ttl_ms: default_entry_ttl_ms(),
            max_amend: default_max_amend(),
            max_slippage_ticks: default_max_slippage_ticks(),
        }
    }
}

#[derive(Debug, Clone, Copy, PartialEq, Eq, Structural)]
pub struct OpsConfig {
    pub crash_window_s: u32,
    pub crash_burst: u32,
    pub clear_crash_on_start: bool,
    pub log_max_bytes: u64,
    pub log_keep: u32,
    pub disk_min_free_bytes: u64,
    pub hot_journal_days: u32,
}

impl Default for OpsConfig {
    fn default() -> (r: Self)
        ensures
            r == (OpsConfig {
                crash_window_s: 120,
                crash_burst: 5,
                clear_crash_on_start: false,
                log_max_bytes: 104_857_600,
                log_keep: 7,
                disk_min_free_bytes: 1_073_741_824,
                hot_journal_days: 3,
            }),
    {
        OpsConfig {
            crash_window_s: default_crash_window_s(),
            crash_burst: default_crash_burst(),
            clear_crash_on_start: false,
            log_max_bytes: default_log_max_bytes(),
            log_keep: default_log_keep(),
            disk_min_free_bytes: default_disk_min_free(),
            hot_journal_days: default_hot_journal_days(),
        }
    }
}

#[derive(Debug, Clone, Copy, PartialEq, Eq, Structural)]
pub struct CalibrationGate {
    pub status: CalibrationStatus,
    pub live_authorized: bool,
    pub out_of_sample_validated: bool,
    pub calibration_complete: bool,
    /// The 21-day observation draft is frozen. Frozen is not validated.
    pub observation_frozen: bool,
}

#[derive(Debug, Clone, PartialEq, Eq)]
pub struct VenueEndpoint {
    pub role: VenueRole,
    pub public_ws: String,
    pub rest: String,
    pub private_ws: Option<String>,
}

#[derive(Debug, Clone, PartialEq, Eq)]
pub struct VenuesConfig {
    pub okx: VenueEndpoint,
    pub binance: VenueEndpoint,
    pub bybit: VenueEndpoint,
}

/// The live-related switches of one symbol's parameter table.
#[derive(Debug, Clone, Copy, PartialEq, Eq, Structural)]
pub struct SymbolGate {
    pub calibration_complete: bool,
    pub out_of_sample_validated: bool,
    pub live_enabled: bool,
    pub armed_rate_policy: ArmedRatePolicy,
}

/// What the live gate, the boot decision and promotion read of the loaded
/// configuration.
#[derive(Debug, Clone, Copy, PartialEq, Eq, Structural)]
pub struct GateConfig {
    pub calibration: CalibrationGate,
    pub sol: SymbolGate,
    pub sui: SymbolGate,
    pub execution_venue: Venue,
    pub resonance: ResonanceMode,
    pub live_send: bool,
}

/// The live lock's answer before the execution path: which lock holds first.
pub open spec fn live_gate_spec(mode: Mode, cfg: GateConfig) -> Result<(), LiveDenied> {
    let g = cfg.calibration;
    if !is_live_mode(mode) {
        Ok(())
    } else if !g.calibration_complete || g.status != CalibrationStatus::OutOfSampleValidated
        || !g.out_of_sample_validated || !cfg.sol.calibration_complete
        || !cfg.sol.out_of_sample_validated {
        Err(LiveDenied::ParamsNotCalibrated)
    } else if !g.live_authorized || !cfg.sol.live_enabled {
        Err(LiveDenied::LiveFlagOff)
    } else if cfg.sol.armed_rate_policy == ArmedRatePolicy::Parallel {
        Err(LiveDenied::ArmedRateStillParallel)
    } else {
        Err(LiveDenied::ExecNotWired)
    }
}

/// Hard gate: live / live_small may never open. Shadow and sim pass.
pub fn live_open_allowed(mode: Mode, cfg: &GateConfig) -> (r: Result<(), LiveDenied>)
    ensures
        r == live_gate_spec(mode, *cfg),
        r is Ok <==> !is_live_mode(mode),
{
    if !mode.is_live() {
        return Ok(());
    }
    let g = &cfg.calibration;
    if !g.calibration_complete || g.status != CalibrationStatus::OutOfSampleValidated
        || !g.out_of_sample_validated || !cfg.sol.calibration_complete
        || !cfg.sol.out_of_sample_validated {
        return Err(LiveDenied::ParamsNotCalibrated);
    }
    if !g.live_authorized || !cfg.sol.live_enabled {
        return Err(LiveDenied::LiveFlagOff);
    }
    if cfg.sol.armed_rate_policy == ArmedRatePolicy::Parallel {
        return Err(LiveDenied::ArmedRateStillParallel);
    }
    Err(LiveDenied::ExecNotWired)
}

/// The configuration directory when none is given.
pub fn default_config_dir() -> (r: String)
    ensures
        r@ == "params"@,
{
    String::from_str("params")
}

/// Stage 0: always false. Observation draft cannot authorize live.
pub fn live_allowed() -> (r: bool)
    ensures
        !r,
{
    false
}

#[derive(Debug, Clone, Copy, PartialEq, Eq)]
pub struct BootDecision {
    pub ok: bool,
    pub mode: Mode,
    pub event: &'static str,
    pub live_gate: &'static str,
    pub reason: Option<LiveDenied>,
    pub message: &'static str,
    pub school: &'static str,
    pub execution_venue: Venue,
    pub resonance: ResonanceMode,
    pub calibration_status: CalibrationStatus,
    pub calibration_complete: bool,
}

pub open spec fn boot_message_ok() -> Seq<char> {
    "shadow/sim 已啟動；live 閘門關閉（觀察稿未樣本外驗證）"@
}

/// Shadow / sim boot with `ok`; every live mode is refused with the first lock
/// that holds, and the refusal carries that lock's message.
pub fn boot_decision(mode: Mode, cfg: &GateConfig) -> (d: BootDecision)
    ensures
        d.ok == !is_live_mode(mode),
        d.mode == mode,
        d.live_gate@ == "closed"@,
        d.school@ == "footprint"@,
        d.execution_venue == cfg.execution_venue,
        d.resonance == cfg.resonance,
        d.calibration_status == cfg.calibration.status,
        d.calibration_complete == cfg.calibration.calibration_complete,
        d.ok ==> d.reason is None && d.event@ == "boot"@ && d.message@ == boot_message_ok(),
        !d.ok ==> d.event@ == "live_denied"@ && d.reason == Some(live_gate_spec(mode, *cfg)->Err_0)
            && d.message@ == denied_message(live_gate_spec(mode, *cfg)->Err_0),
{
    match live_open_allowed(mode, cfg) {
        Ok(()) => BootDecision {
            ok: true,
            mode,
            event: "boot",
            live_gate: "closed",
            reason: None,
            message: "shadow/sim 已啟動；live 閘門關閉（觀察稿未樣本外驗證）",
            school: SCHOOL,
            execution_venue: cfg.execution_venue,
            resonance: cfg.resonance,
            calibration_status: cfg.calibration.status,
            calibration_complete: cfg.calibration.calibration_complete,
        },
        Err(reason) => BootDecision {
            ok: false,
            mode,
            event: "live_denied",
            live_gate: "closed",
            reason: Some(reason),
            message: reason.message_zh(),
            school: SCHOOL,
            execution_venue: cfg.execution_venue,
            resonance: cfg.resonance,
            calibration_status: cfg.calibration.status,
            calibration_complete: cfg.calibration.calibration_complete,
        },
    }
}

} // verus!

verus! {

/// Parsing the name that `as_str` gives back yields the same mode.
pub proof fn lemma_mode_name_roundtrip(m: Mode)
    ensures
        mode_of_name(lower_seq(trim_seq(mode_name(m)))) == Some(m),
{
    reveal_strlit("shadow");
    reveal_strlit("sim");
    reveal_strlit("live_small");
    reveal_strlit("live");
    crate::text::lemma_plain_key(mode_name(m));
}

/// Parsing the name that `as_str` gives back yields the same venue.
pub proof fn lemma_venue_name_roundtrip(v: Venue)
    ensures
        venue_of_name(lower_seq(trim_seq(venue_name(v)))) == Some(v),
{
    reveal_strlit("okx");
    reveal_strlit("binance");
    reveal_strlit("bybit");
    crate::text::lemma_plain_key(venue_name(v));
}

} // verus!
