//! Operations: the crash fuse, the disk watermark, reconnect backoff, missed
//! closed bars, log rotation decisions and the health report. No secrets, no
//! HTTP; the files these read and write are handled by the caller.

use vstd::prelude::*;
use crate::context::{funding_black_spec, funding_black_window};
use crate::domain::{is_live_mode, mode_name, Mode, OpsConfig, Venue};
use crate::text::{
    concat_str, dec_seq, parse_u64, split_char, split_on, split_ws, str_eq, to_ascii_uppercase,
    u64_decimal, u64_of_dec, upper_seq, words,
};

verus! {

pub const WIRED: bool = true;

/// Conceptual Tokyo region. Not a live AWS call.
pub const REGION: &'static str = "ap-northeast-1";

/// Funding black window is clock, not a kill-zone.
pub fn funding_black_at(open_ms: i64, hours: &[u32], black_min: u32) -> (r: bool)
    ensures
        r == funding_black_spec(open_ms as int, hours@, black_min as int),
{
    funding_black_window(open_ms, hours, black_min)
}

} // verus!

verus! {

#[derive(Debug, Clone, PartialEq, Eq)]
pub struct CrashState {
    pub timestamps_ms: Vec<i64>,
    pub tripped: bool,
    pub tripped_at_ms: Option<i64>,
}

impl Default for CrashState {
    fn default() -> (r: Self)
        ensures
            r.timestamps_ms@ == Seq::<i64>::empty(),
            !r.tripped,
            r.tripped_at_ms is None,
    {
        CrashState { timestamps_ms: Vec::new(), tripped: false, tripped_at_ms: None }
    }
}

/// The crashes of `s` that lie within `window_ms` before `now`, in order.
pub open spec fn recent(s: Seq<i64>, now: int, window_ms: int) -> Seq<i64>
    decreases s.len(),
{
    if s.len() == 0 {
        s
    } else {
        let r = recent(s.drop_last(), now, window_ms);
        if now - s.last() <= window_ms {
            r.push(s.last())
        } else {
            r
        }
    }
}

/// Crash circuit breaker: `burst` crashes within the window stop the process.
/// Only a manual clear (or the start-up option) resets it.
pub struct CrashFuse {
    window_s: u32,
    burst: u32,
    state: CrashState,
}

impl CrashFuse {
    pub closed spec fn window_ms(&self) -> int {
        self.window_s * 1000
    }

    /// The window of every fuse is a non-negative span: a crash counts while
    /// it lies at most that many milliseconds before the new one.
    pub proof fn lemma_window_nonneg(&self)
        ensures
            0 <= self.window_ms() <= u32::MAX * 1000,
    {
    }

    pub closed spec fn burst(&self) -> u32 {
        self.burst
    }

    pub closed spec fn st(&self) -> CrashState {
        self.state
    }

    /// A fuse with the configured window and burst and the given saved state.
    pub fn from_state(cfg: &OpsConfig, state: CrashState) -> (r: Self)
        ensures
            r.window_ms() == cfg.crash_window_s * 1000,
            r.window_ms() >= 0,
            r.burst() == cfg.crash_burst,
            r.st() == state,
    {
        CrashFuse { window_s: cfg.crash_window_s, burst: cfg.crash_burst, state }
    }

    pub fn new(cfg: &OpsConfig) -> (r: Self)
        ensures
            r.window_ms() == cfg.crash_window_s * 1000,
            r.window_ms() >= 0,
            r.burst() == cfg.crash_burst,
            r.st().timestamps_ms@ == Seq::<i64>::empty(),
            !r.st().tripped,
            r.st().tripped_at_ms is None,
    {
        CrashFuse::from_state(cfg, CrashState::default())
    }

    pub fn tripped(&self) -> (r: bool)
        ensures
            r == self.st().tripped,
    {
        self.state.tripped
    }

    /// Records one crash at `now_ms`. A tripped fuse stays as it is. Otherwise
    /// the crash joins the list, crashes older than the window leave it, and
    /// the fuse trips when `burst` or more remain. Returns whether it is tripped.
    pub fn record_crash(&mut self, now_ms: i64) -> (r: bool)
        requires
            forall|i: int|
                0 <= i < old(self).st().timestamps_ms@.len() ==> i64::MIN <= now_ms - #[trigger] old(
                    self,
                ).st().timestamps_ms@[i] <= i64::MAX,
        ensures
            final(self).window_ms() == old(self).window_ms(),
            final(self).burst() == old(self).burst(),
            r == final(self).st().tripped,
            old(self).st().tripped ==> final(self).st() == old(self).st(),
            !old(self).st().tripped ==> ({
                let kept = recent(old(self).st().timestamps_ms@, now_ms as int, old(self).window_ms()).push(
                    now_ms,
                );
                &&& final(self).st().timestamps_ms@ == kept
                &&& final(self).st().tripped == ((kept.len() as u32) >= old(self).burst())
                &&& final(self).st().tripped_at_ms == (if final(self).st().tripped {
                    Some(now_ms)
                } else {
                    old(self).st().tripped_at_ms
                })
            }),
    {
        if self.state.tripped {
            return true;
        }
        let window_ms: i64 = (self.window_s as i64) * 1000;
        let ghost old_ts = self.state.timestamps_ms@;
        let n = self.state.timestamps_ms.len();
        let mut kept: Vec<i64> = Vec::new();
        let mut i: usize = 0;
        while i < n
            invariant
                n == old_ts.len(),
                old_ts == self.state.timestamps_ms@,
                window_ms == self.window_s * 1000,
                i <= n,
                kept@ == recent(old_ts.subrange(0, i as int), now_ms as int, window_ms as int),
                forall|j: int|
                    0 <= j < old_ts.len() ==> i64::MIN <= now_ms - #[trigger] old_ts[j] <= i64::MAX,
            decreases n - i,
        {
            let t = self.state.timestamps_ms[i];
            assert(old_ts.subrange(0, i + 1).drop_last() =~= old_ts.subrange(0, i as int));
            if now_ms - t <= window_ms {
                kept.push(t);
            }
            i += 1;
        }
        assert(old_ts.subrange(0, n as int) =~= old_ts);
        kept.push(now_ms);
        let len = kept.len() as u32;
        self.state.timestamps_ms = kept;
        if len >= self.burst {
            self.state.tripped = true;
            self.state.tripped_at_ms = Some(now_ms);
        }
        self.state.tripped
    }

    /// Manual clear only.
    pub fn clear(&mut self)
        ensures
            final(self).window_ms() == old(self).window_ms(),
            final(self).burst() == old(self).burst(),
            final(self).st().timestamps_ms@ == Seq::<i64>::empty(),
            !final(self).st().tripped,
            final(self).st().tripped_at_ms is None,
    {
        self.state = CrashState::default();
    }

    /// Never auto-clears on start unless the configuration asks for it.
    /// Returns whether it cleared.
    pub fn maybe_clear_on_start(&mut self, cfg: &OpsConfig) -> (r: bool)
        ensures
            r == cfg.clear_crash_on_start,
            final(self).window_ms() == old(self).window_ms(),
            final(self).burst() == old(self).burst(),
            !r ==> final(self).st() == old(self).st(),
            r ==> final(self).st().timestamps_ms@ == Seq::<i64>::empty() && !final(self).st().tripped
                && final(self).st().tripped_at_ms is None,
    {
        if cfg.clear_crash_on_start {
            self.clear();
            return true;
        }
        false
    }

    pub fn state(&self) -> (r: &CrashState)
        ensures
            *r == self.st(),
    {
        &self.state
    }
}

} // verus!

verus! {

#[derive(Debug, Clone, Copy, PartialEq, Eq, Structural)]
pub enum DiskWatermarkStatus {
    /// At least the configured free bytes.
    Enough,
    Below,
    /// Free space could not be read; this never trips.
    Unknown,
}

pub open spec fn disk_label(s: DiskWatermarkStatus) -> Seq<char> {
    match s {
        DiskWatermarkStatus::Enough => "ok"@,
        DiskWatermarkStatus::Below => "below"@,
        DiskWatermarkStatus::Unknown => "unknown"@,
    }
}

impl DiskWatermarkStatus {
    pub fn as_str(self) -> (r: &'static str)
        ensures
            r@ == disk_label(self),
    {
        match self {
            DiskWatermarkStatus::Enough => "ok",
            DiskWatermarkStatus::Below => "below",
            DiskWatermarkStatus::Unknown => "unknown",
        }
    }
}

pub struct DiskWatermark {
    pub min_free: u64,
}

impl DiskWatermark {
    pub fn new(cfg: &OpsConfig) -> (r: Self)
        ensures
            r.min_free == cfg.disk_min_free_bytes,
    {
        DiskWatermark { min_free: cfg.disk_min_free_bytes }
    }

    /// Free bytes as measured (or injected in tests); unknown space does not trip.
    pub fn check_injected(&self, free_bytes: Option<u64>) -> (r: DiskWatermarkStatus)
        ensures
            r == (match free_bytes {
                None => DiskWatermarkStatus::Unknown,
                Some(n) => if n < self.min_free {
                    DiskWatermarkStatus::Below
                } else {
                    DiskWatermarkStatus::Enough
                },
            }),
    {
        match free_bytes {
            None => DiskWatermarkStatus::Unknown,
            Some(n) => {
                if n < self.min_free {
                    DiskWatermarkStatus::Below
                } else {
                    DiskWatermarkStatus::Enough
                }
            },
        }
    }
}

/// Kilobytes as `df -Pk` reports them, in bytes (saturating).
pub fn kb_to_bytes(kb: u64) -> (r: u64)
    ensures
        r == (if kb * 1024 > u64::MAX { u64::MAX as int } else { kb * 1024 }),
{
    if kb > u64::MAX / 1024 {
        u64::MAX
    } else {
        kb * 1024
    }
}

/// The free space that `df -Pk` reports: the fourth field of its second
/// line, in kilobytes, as bytes (saturating).
pub open spec fn df_available_spec(text: Seq<char>) -> Option<int> {
    let lines = split_on(text, '\n');
    if lines.len() < 2 {
        None
    } else {
        let fields = words(lines[1]);
        if fields.len() < 4 {
            None
        } else {
            match u64_of_dec(fields[3]) {
                Some(kb) => Some(if kb * 1024 > u64::MAX { u64::MAX as int } else { kb * 1024 }),
                None => None,
            }
        }
    }
}

/// Reads the output of `df -Pk`.
pub fn df_available_bytes(text: &str) -> (r: Option<u64>)
    ensures
        match r {
            Some(b) => df_available_spec(text@) == Some(b as int),
            None => df_available_spec(text@) is None,
        },
{
    let lines = split_char(text, '\n');
    let ghost lv = lines@.map_values(|x: String| x@);
    assert(lv.len() == lines@.len());
    if lines.len() < 2 {
        return None;
    }
    assert(lv[1] == lines@[1]@);
    let fields = split_ws(lines[1].as_str());
    let ghost fv = fields@.map_values(|x: String| x@);
    assert(fv.len() == fields@.len());
    if fields.len() < 4 {
        return None;
    }
    assert(fv[3] == fields@[3]@);
    match parse_u64(fields[3].as_str()) {
        Some(kb) => Some(kb_to_bytes(kb)),
        None => None,
    }
}

} // verus!

verus! {

/// Bounded reconnect backoff. Never tight-loop the public WS.
#[derive(Debug, Clone, Copy, PartialEq, Eq, Structural)]
pub struct ReconnectPolicy {
    pub initial_ms: u64,
    pub max_ms: u64,
    pub current_ms: u64,
}

impl Default for ReconnectPolicy {
    fn default() -> (r: Self)
        ensures
            r == (ReconnectPolicy { initial_ms: 500, max_ms: 30_000, current_ms: 500 }),
    {
        ReconnectPolicy { initial_ms: 500, max_ms: 30_000, current_ms: 500 }
    }
}

/// The delay after `c`: doubled (saturating) and capped.
pub open spec fn next_backoff(c: u64, max: u64) -> u64 {
    let d: int = if c * 2 > u64::MAX { u64::MAX as int } else { c * 2 };
    if d < max { d as u64 } else { max }
}

impl ReconnectPolicy {
    /// The current delay; the next one doubles, up to the cap.
    pub fn next_delay_ms(&mut self) -> (r: u64)
        ensures
            r == old(self).current_ms,
            final(self).current_ms == next_backoff(old(self).current_ms, old(self).max_ms),
            final(self).initial_ms == old(self).initial_ms,
            final(self).max_ms == old(self).max_ms,
    {
        let d = self.current_ms;
        let doubled = if self.current_ms > u64::MAX / 2 {
            u64::MAX
        } else {
            self.current_ms * 2
        };
        self.current_ms = if doubled < self.max_ms {
            doubled
        } else {
            self.max_ms
        };
        d
    }

    pub fn reset(&mut self)
        ensures
            *final(self) == (ReconnectPolicy { current_ms: old(self).initial_ms, ..*old(self) }),
    {
        self.current_ms = self.initial_ms;
    }
}

/// After any step the delay is at most the cap; from a delay within the cap
/// the next one is never shorter.
pub proof fn lemma_backoff_bounded(c: u64, max: u64)
    ensures
        next_backoff(c, max) <= max,
        c <= max ==> c <= next_backoff(c, max),
{
}

/// From the default policy the cap is reached and then held.
pub proof fn lemma_backoff_reaches_cap(c: u64, max: u64)
    requires
        max <= c * 2,
    ensures
        next_backoff(c, max) == max,
{
}

} // verus!

verus! {

#[derive(Debug, Clone, PartialEq, Eq)]
pub struct MissedBarEvent {
    pub venue: Venue,
    pub symbol: String,
    pub expected_open_ms: i64,
    pub observed_open_ms: i64,
}

struct LastClosed {
    venue: Venue,
    symbol: String,
    open_ms: i64,
}

spec fn last_key(e: LastClosed) -> (Venue, Seq<char>) {
    (e.venue, e.symbol@)
}

spec fn last_keys_unique(s: Seq<LastClosed>) -> bool {
    forall|i: int, j: int|
        0 <= i < s.len() && 0 <= j < s.len() && i != j ==> last_key(#[trigger] s[i]) != last_key(
            #[trigger] s[j],
        )
}

spec fn last_has_key(s: Seq<LastClosed>, k: (Venue, Seq<char>)) -> bool {
    exists|i: int| 0 <= i < s.len() && last_key(#[trigger] s[i]) == k
}

spec fn last_map(s: Seq<LastClosed>) -> Map<(Venue, Seq<char>), i64> {
    Map::new(
        |k: (Venue, Seq<char>)| last_has_key(s, k),
        |k: (Venue, Seq<char>)| s[choose|i: int| 0 <= i < s.len() && last_key(#[trigger] s[i]) == k].open_ms,
    )
}

proof fn lemma_last_map_at(s: Seq<LastClosed>, i: int)
    requires
        last_keys_unique(s),
        0 <= i < s.len(),
    ensures
        last_map(s).contains_key(last_key(s[i])),
        last_map(s)[last_key(s[i])] == s[i].open_ms,
{
    let k = last_key(s[i]);
    assert(last_has_key(s, k));
    let j = choose|j: int| 0 <= j < s.len() && last_key(#[trigger] s[j]) == k;
    assert(j == i);
}

/// Detects a missed closed 1m per venue and symbol (symbols compared in
/// upper case): a closed bar that does not follow the previous one by
/// exactly 60 s, after the first, is a miss.
pub struct MissedBarDetector {
    last: Vec<LastClosed>,
}

impl View for MissedBarDetector {
    type V = Map<(Venue, Seq<char>), i64>;

    closed spec fn view(&self) -> Map<(Venue, Seq<char>), i64> {
        last_map(self.last@)
    }
}

impl Default for MissedBarDetector {
    fn default() -> (r: Self)
        ensures
            r.wf(),
            r@ == Map::<(Venue, Seq<char>), i64>::empty(),
    {
        let r = MissedBarDetector { last: Vec::new() };
        assert(r@ =~= Map::<(Venue, Seq<char>), i64>::empty());
        r
    }
}

/// The miss a closed bar at `open_ms` reports against the previous closed open.
pub open spec fn miss_of(prev: Option<i64>, open_ms: int) -> bool {
    match prev {
        Some(p) => open_ms - p != 60_000,
        None => false,
    }
}

impl MissedBarDetector {
    pub closed spec fn wf(&self) -> bool {
        last_keys_unique(self.last@)
    }

    fn find(&self, venue: Venue, symbol: &str) -> (r: Option<usize>)
        requires
            self.wf(),
        ensures
            r matches Some(i) ==> i < self.last@.len() && last_key(self.last@[i as int]) == (
                venue,
                symbol@,
            ),
            r is None ==> !last_has_key(self.last@, (venue, symbol@)),
    {
        let mut i: usize = 0;
        while i < self.last.len()
            invariant
                i <= self.last@.len(),
                forall|j: int| 0 <= j < i ==> last_key(#[trigger] self.last@[j]) != (venue, symbol@),
            decreases self.last.len() - i,
        {
            if self.last[i].venue == venue && str_eq(self.last[i].symbol.as_str(), symbol) {
                return Some(i);
            }
            i += 1;
        }
        None
    }

    /// Call on each closed 1m.
    pub fn on_closed(&mut self, venue: Venue, symbol: &str, open_ms: i64) -> (r: Option<MissedBarEvent>)
        requires
            old(self).wf(),
            old(self)@.contains_key((venue, upper_seq(symbol@))) ==> ({
                let p = old(self)@[(venue, upper_seq(symbol@))];
                &&& i64::MIN <= open_ms - p <= i64::MAX
                &&& p + 60_000 <= i64::MAX
            }),
        ensures
            final(self).wf(),
            final(self)@ == old(self)@.insert((venue, upper_seq(symbol@)), open_ms),
            ({
                let key = (venue, upper_seq(symbol@));
                let prev = if old(self)@.contains_key(key) { Some(old(self)@[key]) } else { None };
                match r {
                    Some(e) => miss_of(prev, open_ms as int) && e.venue == venue && e.symbol@ == key.1
                        && e.expected_open_ms == prev->Some_0 + 60_000 && e.observed_open_ms == open_ms,
                    None => !miss_of(prev, open_ms as int),
                }
            }),
    {
        let key = to_ascii_uppercase(symbol);
        let ghost k = (venue, upper_seq(symbol@));
        let ghost old_items = self.last@;
        match self.find(venue, key.as_str()) {
            Some(i) => {
                proof {
                    lemma_last_map_at(old_items, i as int);
                }
                let prev = self.last[i].open_ms;
                let miss = if open_ms - prev != 60_000 {
                    Some(
                        MissedBarEvent {
                            venue,
                            symbol: key.clone(),
                            expected_open_ms: prev + 60_000,
                            observed_open_ms: open_ms,
                        },
                    )
                } else {
                    None
                };
                let e = LastClosed { venue, symbol: key, open_ms };
                self.last.set(i, e);
                proof {
                    let s = self.last@;
                    assert(last_keys_unique(s));
                    assert forall|kk: (Venue, Seq<char>)|
                        #![trigger last_map(s).contains_key(kk)]
                        last_map(s).contains_key(kk) == last_map(old_items).insert(k, open_ms).contains_key(kk) by {
                        if last_has_key(old_items, kk) {
                            let j = choose|j: int| 0 <= j < old_items.len() && last_key(#[trigger] old_items[j]) == kk;
                            assert(last_key(s[j]) == kk);
                        }
                        if last_has_key(s, kk) {
                            let j = choose|j: int| 0 <= j < s.len() && last_key(#[trigger] s[j]) == kk;
                            assert(last_key(old_items[j]) == kk);
                        }
                    }
                    assert forall|kk: (Venue, Seq<char>)| #[trigger] last_map(s).contains_key(kk) implies last_map(s)[kk]
                        == last_map(old_items).insert(k, open_ms)[kk] by {
                        let j = choose|j: int| 0 <= j < s.len() && last_key(#[trigger] s[j]) == kk;
                        lemma_last_map_at(s, j);
                        if j != i {
                            lemma_last_map_at(old_items, j);
                        }
                    }
                    assert(last_map(s) =~= last_map(old_items).insert(k, open_ms));
                }
                miss
            },
            None => {
                let e = LastClosed { venue, symbol: key, open_ms };
                self.last.push(e);
                proof {
                    let s = self.last@;
                    assert(last_keys_unique(s));
                    assert forall|kk: (Venue, Seq<char>)|
                        #![trigger last_map(s).contains_key(kk)]
                        last_map(s).contains_key(kk) == last_map(old_items).insert(k, open_ms).contains_key(kk) by {
                        if last_has_key(old_items, kk) {
                            let j = choose|j: int| 0 <= j < old_items.len() && last_key(#[trigger] old_items[j]) == kk;
                            assert(last_key(s[j]) == kk);
                        }
                        if kk == k {
                            assert(last_key(s[old_items.len() as int]) == kk);
                        }
                        if last_has_key(s, kk) && kk != k {
                            let j = choose|j: int| 0 <= j < s.len() && last_key(#[trigger] s[j]) == kk;
                            assert(last_key(old_items[j]) == kk);
                        }
                    }
                    assert forall|kk: (Venue, Seq<char>)| #[trigger] last_map(s).contains_key(kk) implies last_map(s)[kk]
                        == last_map(old_items).insert(k, open_ms)[kk] by {
                        let j = choose|j: int| 0 <= j < s.len() && last_key(#[trigger] s[j]) == kk;
                        lemma_last_map_at(s, j);
                        if j < old_items.len() {
                            lemma_last_map_at(old_items, j);
                        }
                    }
                    assert(last_map(s) =~= last_map(old_items).insert(k, open_ms));
                }
                None
            },
        }
    }
}

} // verus!

verus! {

/// Size-based log rotation: at or over `max_bytes` the log moves to `.1`,
/// older rotations shift up by one, and at most `keep` (at least one) are kept.
pub struct LogRotator {
    path: String,
    max_bytes: u64,
    keep: u32,
}

/// `path.n`.
pub open spec fn rotated_name(path: Seq<char>, n: u32) -> Seq<char> {
    path + "."@ + dec_seq(n as nat)
}

pub fn rotated_path(path: &str, n: u32) -> (r: String)
    ensures
        r@ == rotated_name(path@, n),
{
    let base = concat_str(path.to_string(), ".");
    let d = u64_decimal(n as u64);
    concat_str(base, d.as_str())
}

impl LogRotator {
    pub fn new(path: &str, cfg: &OpsConfig) -> (r: Self)
        ensures
            r.path_spec() == path@,
            r.max_bytes_spec() == cfg.log_max_bytes,
            r.keep_spec() == cfg.log_keep,
    {
        LogRotator { path: path.to_string(), max_bytes: cfg.log_max_bytes, keep: cfg.log_keep }
    }

    pub closed spec fn path_spec(&self) -> Seq<char> {
        self.path@
    }

    pub closed spec fn max_bytes_spec(&self) -> u64 {
        self.max_bytes
    }

    pub closed spec fn keep_spec(&self) -> u32 {
        self.keep
    }

    pub fn path(&self) -> (r: &str)
        ensures
            r@ == self.path_spec(),
    {
        self.path.as_str()
    }

    /// A log of `len` bytes is rotated before the next append.
    pub fn needs_rotation(&self, len: u64) -> (r: bool)
        ensures
            r == (len >= self.max_bytes_spec()),
    {
        len >= self.max_bytes
    }

    /// How many rotated files are kept: `keep`, at least one.
    pub fn keep_files(&self) -> (r: u32)
        ensures
            r == (if self.keep_spec() < 1 { 1 } else { self.keep_spec() }),
    {
        if self.keep < 1 {
            1
        } else {
            self.keep
        }
    }

    /// The renames of one rotation, in the order they run: the oldest kept
    /// file is removed first, then `.i` moves to `.i+1` for `i` from
    /// `keep - 1` down to 1, then the log itself moves to `.1`.
    pub fn shift_order(&self) -> (r: Vec<u32>)
        ensures
            ({
                let k = if self.keep_spec() < 1 { 1 } else { self.keep_spec() as int };
                &&& r@.len() == k - 1
                &&& forall|j: int| 0 <= j < r@.len() ==> #[trigger] r@[j] == k - 1 - j
            }),
    {
        let k = self.keep_files();
        let mut out: Vec<u32> = Vec::new();
        let mut i: u32 = k - 1;
        while i >= 1
            invariant
                1 <= k,
                i <= k - 1,
                out@.len() == k - 1 - i,
                forall|j: int| 0 <= j < out@.len() ==> #[trigger] out@[j] == k - 1 - j,
            decreases i,
        {
            out.push(i);
            i -= 1;
        }
        out
    }
}

#[derive(Debug, Clone)]
pub struct HealthReport {
    pub region: String,
    pub mode: String,
    pub calibration_complete: bool,
    pub live_send: bool,
    pub crash_tripped: bool,
    pub disk: String,
    pub funding_black_now: bool,
    pub live_allowed: bool,
    pub copied_price_onto_okx: bool,
}

pub struct OpsCheck;

impl OpsCheck {
    /// The ops health snapshot. Live is never allowed and no peer price is
    /// ever copied onto OKX.
    pub fn report(
        mode: Mode,
        calibration_complete: bool,
        live_send: bool,
        fuse: Option<&CrashFuse>,
        disk: DiskWatermarkStatus,
        funding_hours_utc: &[u32],
        funding_black_minutes: u32,
        now_ms: i64,
    ) -> (r: HealthReport)
        ensures
            r.region@ == "ap-northeast-1"@,
            r.mode@ == mode_name(mode),
            r.calibration_complete == calibration_complete,
            r.live_send == live_send,
            r.crash_tripped == (match fuse {
                Some(f) => f.st().tripped,
                None => false,
            }),
            r.disk@ == disk_label(disk),
            r.funding_black_now == funding_black_spec(now_ms as int, funding_hours_utc@, funding_black_minutes as int),
            !r.live_allowed,
            !r.copied_price_onto_okx,
    {
        let crash_tripped = match fuse {
            Some(f) => f.tripped(),
            None => false,
        };
        HealthReport {
            region: REGION.to_string(),
            mode: mode.as_str().to_string(),
            calibration_complete,
            live_send,
            crash_tripped,
            disk: disk.as_str().to_string(),
            funding_black_now: funding_black_at(now_ms, funding_hours_utc, funding_black_minutes),
            live_allowed: crate::domain::live_allowed(),
            copied_price_onto_okx: false,
        }
    }
}

} // verus!
