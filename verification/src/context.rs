//! Context decisions on closed 1m bars: the funding clock, the three-venue
//! direction join, and the leave/accept and range/break counters.
//!
//! Resonance is recorded while mode stays `off` and never writes a
//! Binance/Bybit price onto an OKX order.

use vstd::prelude::*;
use crate::domain::{ResonanceMode, Venue};
use crate::text::str_eq;

verus! {

pub const WIRED: bool = true;

/// Features the context never computes.
pub const FORBIDDEN: [&'static str; 5] = ["vwap", "avwap", "tpo", "market_profile", "naked_poc"];

pub const STACK_WINDOWS: [u32; 5] = [5, 15, 60, 240, 1440];

/// Open of the hour that holds `t`.
pub open spec fn hour_open_spec(t: int) -> int {
    t - t % 3_600_000
}

pub fn hour_open_ms(ts_ms: i64) -> (r: i64)
    requires
        hour_open_spec(ts_ms as int) >= i64::MIN,
    ensures
        r == hour_open_spec(ts_ms as int),
{
    ts_ms - ts_ms.checked_rem_euclid(3_600_000).unwrap()
}

pub fn bar_open_ms_local(ts_ms: i64) -> (r: i64)
    requires
        ts_ms - ts_ms % 60_000 >= i64::MIN,
    ensures
        r == ts_ms - ts_ms % 60_000,
{
    ts_ms - ts_ms.checked_rem_euclid(60_000).unwrap()
}

/// Minute of the UTC day that holds `t`.
pub open spec fn minute_of_day(t: int) -> int {
    (t / 60_000) % 1440
}

/// Distance in minutes, around the clock, between a minute of the day and
/// the full hour `h`.
pub open spec fn clock_distance(minute: int, h: int) -> int {
    let d = if minute >= h * 60 {
        minute - h * 60
    } else {
        h * 60 - minute
    };
    if d > 720 {
        1440 - d
    } else {
        d
    }
}

pub open spec fn funding_black_spec(open_ms: int, hours: Seq<u32>, black_min: int) -> bool {
    exists|i: int|
        0 <= i < hours.len() && #[trigger] clock_distance(minute_of_day(open_ms), hours[i] as int)
            <= black_min
}

/// UTC 00/08/16 ± N minutes. Clock, not a kill-zone.
pub fn funding_black_window(open_ms: i64, hours: &[u32], black_min: u32) -> (r: bool)
    ensures
        r == funding_black_spec(open_ms as int, hours@, black_min as int),
{
    let minute = open_ms.checked_div_euclid(60_000).unwrap().checked_rem_euclid(1440).unwrap();
    let black = black_min as i64;
    let mut i: usize = 0;
    while i < hours.len()
        invariant
            i <= hours@.len(),
            minute == minute_of_day(open_ms as int),
            black == black_min,
            forall|j: int|
                0 <= j < i ==> #[trigger] clock_distance(minute_of_day(open_ms as int), hours@[j] as int)
                    > black_min,
        decreases hours.len() - i,
    {
        let center = (hours[i] as i64) * 60;
        let mut d = if minute >= center {
            minute - center
        } else {
            center - minute
        };
        if d > 12 * 60 {
            d = 24 * 60 - d;
        }
        if d <= black {
            assert(clock_distance(minute_of_day(open_ms as int), hours@[i as int] as int) <= black_min);
            return true;
        }
        i += 1;
    }
    false
}

/// Funding windows are symmetric: being `n` minutes before a funding hour
/// blacks out exactly when being `n` minutes after it does.
pub proof fn lemma_funding_window_symmetric(h: int, n: int, black_min: int)
    requires
        0 <= h < 24,
        0 <= n <= 720,
    ensures
        clock_distance((h * 60 + n) % 1440, h) <= black_min <==> clock_distance(
            (h * 60 - n + 1440) % 1440,
            h,
        ) <= black_min,
{
    let a = (h * 60 + n) % 1440;
    let b = (h * 60 - n + 1440) % 1440;
    if h * 60 + n < 1440 {
        assert(a == h * 60 + n);
    } else {
        assert(a == h * 60 + n - 1440);
    }
    if h * 60 - n + 1440 < 1440 {
        assert(b == h * 60 - n + 1440);
    } else if h * 60 - n + 1440 < 2880 {
        assert(b == h * 60 - n);
    }
}

/// One venue's direction for one closed minute.
#[derive(Debug, Clone, Copy, PartialEq, Eq, Structural)]
pub struct VenueDir {
    pub venue: Venue,
    pub open_ms: i64,
    pub delta_sign: i8,
    pub stack_sign: i8,
    pub healthy: bool,
}

#[derive(Debug, Clone, Copy, PartialEq, Eq)]
pub struct ResonanceSnap {
    pub open_ms: i64,
    pub mode: ResonanceMode,
    pub k: u32,
    pub okx_delta_sign: Option<i8>,
    pub binance_delta_sign: Option<i8>,
    pub bybit_delta_sign: Option<i8>,
    pub binance: &'static str,
    pub bybit: &'static str,
    pub peers_same_as_okx: u32,
    pub would_confirm_k: bool,
    pub would_confirm_all: bool,
    /// False while mode is `off`. Resonance never writes an OKX limit.
    pub used_for_entry: bool,
    pub copied_price_onto_okx: bool,
}

/// A venue's sign for minute `t`, if it is healthy and of that minute.
pub open spec fn sign_for(d: Option<VenueDir>, t: i64) -> Option<i8> {
    match d {
        Some(x) => if x.healthy && x.open_ms == t {
            Some(x.delta_sign)
        } else {
            None
        },
        None => None,
    }
}

/// Peers agreeing with a nonzero OKX sign.
pub open spec fn peers_same(okx: Option<i8>, bn: Option<i8>, by: Option<i8>) -> int {
    match okx {
        Some(s) => if s != 0 {
            (if bn == Some(s) {
                1int
            } else {
                0
            }) + (if by == Some(s) {
                1int
            } else {
                0
            })
        } else {
            0
        },
        None => 0,
    }
}

pub open spec fn okx_nonzero(okx: Option<i8>) -> bool {
    okx matches Some(s) && s != 0
}

pub open spec fn peer_status(s: Option<i8>) -> Seq<char> {
    if s is Some {
        "evaluated"@
    } else {
        "not_evaluated"@
    }
}

fn peer(d: Option<VenueDir>, open_ms: i64) -> (r: (&'static str, Option<i8>))
    ensures
        r.1 == sign_for(d, open_ms),
        r.0@ == peer_status(r.1),
{
    match d {
        Some(x) => {
            if x.healthy && x.open_ms == open_ms {
                ("evaluated", Some(x.delta_sign))
            } else {
                ("not_evaluated", None)
            }
        },
        None => ("not_evaluated", None),
    }
}

/// `r` is the snapshot of minute `open_ms` joined from the three venues.
pub open spec fn join_holds(
    r: ResonanceSnap,
    open_ms: i64,
    mode: ResonanceMode,
    k: u32,
    okx: Option<VenueDir>,
    binance: Option<VenueDir>,
    bybit: Option<VenueDir>,
) -> bool {
    let o = sign_for(okx, open_ms);
    let bn = sign_for(binance, open_ms);
    let by = sign_for(bybit, open_ms);
    let same = peers_same(o, bn, by);
    let wk = okx_nonzero(o) && same >= k;
    let wa = okx_nonzero(o) && bn is Some && by is Some && bn == o && by == o;
    &&& r.open_ms == open_ms
    &&& r.mode == mode
    &&& r.k == k
    &&& r.okx_delta_sign == o
    &&& r.binance_delta_sign == bn
    &&& r.bybit_delta_sign == by
    &&& r.binance@ == peer_status(bn)
    &&& r.bybit@ == peer_status(by)
    &&& r.peers_same_as_okx == same
    &&& r.would_confirm_k == wk
    &&& r.would_confirm_all == wa
    &&& r.used_for_entry == match mode {
        ResonanceMode::Off => false,
        ResonanceMode::KOfN => wk,
        ResonanceMode::All => wa,
    }
    &&& !r.copied_price_onto_okx
}

/// Join three venues' directions for minute `open_ms`. Peers that are stale
/// (another minute) or unhealthy are `not_evaluated`; `used_for_entry` follows
/// the mode and is false while it is `off`; no price is ever copied onto OKX.
pub fn join(
    open_ms: i64,
    mode: ResonanceMode,
    k: u32,
    okx: Option<VenueDir>,
    binance: Option<VenueDir>,
    bybit: Option<VenueDir>,
) -> (r: ResonanceSnap)
    ensures
        join_holds(r, open_ms, mode, k, okx, binance, bybit),
{
    let (binance_st, binance_sign) = peer(binance, open_ms);
    let (bybit_st, bybit_sign) = peer(bybit, open_ms);
    let okx_sign = match okx {
        Some(x) => if x.healthy && x.open_ms == open_ms {
            Some(x.delta_sign)
        } else {
            None
        },
        None => None,
    };
    let mut same: u32 = 0;
    if let Some(s) = okx_sign {
        if s != 0 {
            if binance_sign == Some(s) {
                same += 1;
            }
            if bybit_sign == Some(s) {
                same += 1;
            }
        }
    }
    let okx_nz = match okx_sign {
        Some(s) => s != 0,
        None => false,
    };
    let would_k = okx_nz && same >= k;
    let would_all = okx_nz && binance_sign.is_some() && bybit_sign.is_some() && binance_sign
        == okx_sign && bybit_sign == okx_sign;
    let used = match mode {
        ResonanceMode::Off => false,
        ResonanceMode::KOfN => would_k,
        ResonanceMode::All => would_all,
    };
    ResonanceSnap {
        open_ms,
        mode,
        k,
        okx_delta_sign: okx_sign,
        binance_delta_sign: binance_sign,
        bybit_delta_sign: bybit_sign,
        binance: binance_st,
        bybit: bybit_st,
        peers_same_as_okx: same,
        would_confirm_k: would_k,
        would_confirm_all: would_all,
        used_for_entry: used,
        copied_price_onto_okx: false,
    }
}

/// With every peer agreeing, `all` implies the `k`-of-2 vote for any `k ≤ 2`.
pub proof fn lemma_all_implies_k(o: Option<i8>, bn: Option<i8>, by: Option<i8>, k: u32)
    requires
        k <= 2,
        okx_nonzero(o) && bn is Some && by is Some && bn == o && by == o,
    ensures
        peers_same(o, bn, by) >= k,
{
}

} // verus!

verus! {

pub open spec fn dir_key(d: VenueDir) -> (Venue, i64) {
    (d.venue, d.open_ms)
}

/// Directions by (venue, minute). The last insert for a key wins.
pub struct ResonanceBook {
    items: Vec<VenueDir>,
}

pub open spec fn keys_unique(s: Seq<VenueDir>) -> bool {
    forall|i: int, j: int|
        0 <= i < s.len() && 0 <= j < s.len() && i != j ==> dir_key(#[trigger] s[i]) != dir_key(
            #[trigger] s[j],
        )
}

pub open spec fn has_key(s: Seq<VenueDir>, k: (Venue, i64)) -> bool {
    exists|i: int| 0 <= i < s.len() && dir_key(#[trigger] s[i]) == k
}

pub open spec fn map_of(s: Seq<VenueDir>) -> Map<(Venue, i64), VenueDir> {
    Map::new(
        |k: (Venue, i64)| has_key(s, k),
        |k: (Venue, i64)| s[choose|i: int| 0 <= i < s.len() && dir_key(#[trigger] s[i]) == k],
    )
}

impl View for ResonanceBook {
    type V = Map<(Venue, i64), VenueDir>;

    closed spec fn view(&self) -> Map<(Venue, i64), VenueDir> {
        map_of(self.items@)
    }
}

proof fn lemma_map_at(s: Seq<VenueDir>, i: int)
    requires
        keys_unique(s),
        0 <= i < s.len(),
    ensures
        map_of(s).contains_key(dir_key(s[i])),
        map_of(s)[dir_key(s[i])] == s[i],
{
    let k = dir_key(s[i]);
    assert(has_key(s, k));
    let j = choose|j: int| 0 <= j < s.len() && dir_key(#[trigger] s[j]) == k;
    assert(j == i);
}

impl ResonanceBook {
    pub closed spec fn wf(&self) -> bool {
        keys_unique(self.items@)
    }

    pub fn new() -> (r: Self)
        ensures
            r.wf(),
            r@ == Map::<(Venue, i64), VenueDir>::empty(),
    {
        let r = ResonanceBook { items: Vec::new() };
        assert(r@ =~= Map::<(Venue, i64), VenueDir>::empty());
        r
    }

    fn find(&self, venue: Venue, open_ms: i64) -> (r: Option<usize>)
        requires
            self.wf(),
        ensures
            r matches Some(i) ==> i < self.items@.len() && dir_key(self.items@[i as int]) == (
                venue,
                open_ms,
            ),
            r is None ==> !has_key(self.items@, (venue, open_ms)),
    {
        let mut i: usize = 0;
        while i < self.items.len()
            invariant
                i <= self.items@.len(),
                forall|j: int| 0 <= j < i ==> dir_key(#[trigger] self.items@[j]) != (venue, open_ms),
            decreases self.items.len() - i,
        {
            if self.items[i].venue == venue && self.items[i].open_ms == open_ms {
                return Some(i);
            }
            i += 1;
        }
        None
    }

    pub fn insert(&mut self, d: VenueDir)
        requires
            old(self).wf(),
        ensures
            final(self).wf(),
            final(self)@ == old(self)@.insert(dir_key(d), d),
    {
        let ghost old_items = self.items@;
        match self.find(d.venue, d.open_ms) {
            Some(i) => {
                self.items.set(i, d);
                proof {
                    let s = self.items@;
                    assert(keys_unique(s));
                    assert forall|k: (Venue, i64)|
                        #![trigger map_of(s).contains_key(k)]
                        map_of(s).contains_key(k) == map_of(old_items).insert(dir_key(d), d).contains_key(k) by {
                        if has_key(old_items, k) {
                            let j = choose|j: int| 0 <= j < old_items.len() && dir_key(#[trigger] old_items[j]) == k;
                            assert(dir_key(s[j]) == k);
                        }
                        if has_key(s, k) {
                            let j = choose|j: int| 0 <= j < s.len() && dir_key(#[trigger] s[j]) == k;
                            assert(dir_key(old_items[j]) == k);
                        }
                    }
                    assert forall|k: (Venue, i64)| #[trigger] map_of(s).contains_key(k) implies map_of(s)[k]
                        == map_of(old_items).insert(dir_key(d), d)[k] by {
                        let j = choose|j: int| 0 <= j < s.len() && dir_key(#[trigger] s[j]) == k;
                        lemma_map_at(s, j);
                        if j != i {
                            lemma_map_at(old_items, j);
                        }
                    }
                    assert(map_of(s) =~= map_of(old_items).insert(dir_key(d), d));
                }
            },
            None => {
                self.items.push(d);
                proof {
                    let s = self.items@;
                    assert(keys_unique(s));
                    assert forall|k: (Venue, i64)|
                        #![trigger map_of(s).contains_key(k)]
                        map_of(s).contains_key(k) == map_of(old_items).insert(dir_key(d), d).contains_key(k) by {
                        if has_key(old_items, k) {
                            let j = choose|j: int| 0 <= j < old_items.len() && dir_key(#[trigger] old_items[j]) == k;
                            assert(dir_key(s[j]) == k);
                        }
                        if k == dir_key(d) {
                            assert(dir_key(s[old_items.len() as int]) == k);
                        }
                        if has_key(s, k) && k != dir_key(d) {
                            let j = choose|j: int| 0 <= j < s.len() && dir_key(#[trigger] s[j]) == k;
                            assert(dir_key(old_items[j]) == k);
                        }
                    }
                    assert forall|k: (Venue, i64)| #[trigger] map_of(s).contains_key(k) implies map_of(s)[k]
                        == map_of(old_items).insert(dir_key(d), d)[k] by {
                        let j = choose|j: int| 0 <= j < s.len() && dir_key(#[trigger] s[j]) == k;
                        lemma_map_at(s, j);
                        if j < old_items.len() {
                            lemma_map_at(old_items, j);
                        }
                    }
                    assert(map_of(s) =~= map_of(old_items).insert(dir_key(d), d));
                }
            },
        }
    }

    pub fn get(&self, venue: Venue, open_ms: i64) -> (r: Option<&VenueDir>)
        requires
            self.wf(),
        ensures
            r matches Some(d) ==> self@.contains_key((venue, open_ms)) && *d == self@[(
                venue,
                open_ms,
            )],
            r is None ==> !self@.contains_key((venue, open_ms)),
    {
        match self.find(venue, open_ms) {
            Some(i) => {
                proof {
                    lemma_map_at(self.items@, i as int);
                }
                Some(&self.items[i])
            },
            None => None,
        }
    }

    fn get_copy(&self, venue: Venue, open_ms: i64) -> (r: Option<VenueDir>)
        requires
            self.wf(),
        ensures
            r == (if self@.contains_key((venue, open_ms)) {
                Some(self@[(venue, open_ms)])
            } else {
                None
            }),
    {
        match self.get(venue, open_ms) {
            Some(d) => Some(*d),
            None => None,
        }
    }

    pub fn snapshot(&self, open_ms: i64, mode: ResonanceMode, k: u32) -> (r: ResonanceSnap)
        requires
            self.wf(),
        ensures
            join_holds(
                r,
                open_ms,
                mode,
                k,
                self.lookup(Venue::Okx, open_ms),
                self.lookup(Venue::Binance, open_ms),
                self.lookup(Venue::Bybit, open_ms),
            ),
    {
        let o = self.get_copy(Venue::Okx, open_ms);
        let b = self.get_copy(Venue::Binance, open_ms);
        let y = self.get_copy(Venue::Bybit, open_ms);
        join(open_ms, mode, k, o, b, y)
    }

    pub open spec fn lookup(&self, venue: Venue, open_ms: i64) -> Option<VenueDir> {
        if self@.contains_key((venue, open_ms)) {
            Some(self@[(venue, open_ms)])
        } else {
            None
        }
    }
}


} // verus!

verus! {

pub open spec fn strictly_sorted(s: Seq<i64>) -> bool {
    forall|i: int, j: int| 0 <= i < j < s.len() ==> s[i] < s[j]
}

/// `x` put into its place in the strictly sorted `v`, which does not hold it.
fn insert_sorted(v: &mut Vec<i64>, x: i64)
    requires
        strictly_sorted(old(v)@),
        !old(v)@.contains(x),
    ensures
        strictly_sorted(final(v)@),
        forall|t: i64| final(v)@.contains(t) <==> (old(v)@.contains(t) || t == x),
{
    let mut p: usize = 0;
    while p < v.len() && v[p] < x
        invariant
            p <= v@.len(),
            forall|j: int| 0 <= j < p ==> v@[j] < x,
        decreases v.len() - p,
    {
        p += 1;
    }
    let ghost old_v = v@;
    v.insert(p, x);
    proof {
        assert forall|i: int, j: int| 0 <= i < j < v@.len() implies v@[i] < v@[j] by {
            if p < old_v.len() {
                assert(old_v[p as int] > x) by {
                    assert(old_v[p as int] != x);
                }
            }
        }
        assert forall|t: i64| v@.contains(t) <==> (old_v.contains(t) || t == x) by {
            if v@.contains(t) {
                let i = choose|i: int| 0 <= i < v@.len() && v@[i] == t;
                if i < p {
                    assert(old_v[i] == t);
                } else if i > p {
                    assert(old_v[i - 1] == t);
                }
            }
            if old_v.contains(t) {
                let i = choose|i: int| 0 <= i < old_v.len() && old_v[i] == t;
                if i < p {
                    assert(v@[i] == t);
                } else {
                    assert(v@[i + 1] == t);
                }
            }
            if t == x {
                assert(v@[p as int] == x);
            }
        }
    }
}

impl ResonanceBook {
    /// OKX minutes on record, ascending.
    pub fn okx_minutes(&self) -> (r: Vec<i64>)
        requires
            self.wf(),
        ensures
            strictly_sorted(r@),
            forall|t: i64| r@.contains(t) <==> self@.contains_key((Venue::Okx, t)),
    {
        let mut out: Vec<i64> = Vec::new();
        let mut i: usize = 0;
        while i < self.items.len()
            invariant
                i <= self.items@.len(),
                keys_unique(self.items@),
                strictly_sorted(out@),
                forall|t: i64|
                    out@.contains(t) <==> exists|j: int|
                        0 <= j < i && #[trigger] dir_key(self.items@[j]) == (Venue::Okx, t),
            decreases self.items.len() - i,
        {
            let d = self.items[i];
            if d.venue == Venue::Okx {
                proof {
                    if out@.contains(d.open_ms) {
                        let j = choose|j: int|
                            0 <= j < i && #[trigger] dir_key(self.items@[j]) == (Venue::Okx, d.open_ms);
                        assert(dir_key(self.items@[i as int]) == (Venue::Okx, d.open_ms));
                    }
                }
                insert_sorted(&mut out, d.open_ms);
            }
            proof {
                assert forall|t: i64|
                    out@.contains(t) <==> exists|j: int|
                        0 <= j < i + 1 && #[trigger] dir_key(self.items@[j]) == (Venue::Okx, t) by {
                    if exists|j: int| 0 <= j < i + 1 && #[trigger] dir_key(self.items@[j]) == (Venue::Okx, t) {
                        let j = choose|j: int|
                            0 <= j < i + 1 && #[trigger] dir_key(self.items@[j]) == (Venue::Okx, t);
                        if j < i {
                            assert(exists|j2: int|
                                0 <= j2 < i && #[trigger] dir_key(self.items@[j2]) == (Venue::Okx, t));
                        }
                    }
                }
            }
            i += 1;
        }
        proof {
            assert forall|t: i64| out@.contains(t) <==> self@.contains_key((Venue::Okx, t)) by {
                if self@.contains_key((Venue::Okx, t)) {
                    assert(has_key(self.items@, (Venue::Okx, t)));
                }
            }
        }
        out
    }
}

} // verus!

verus! {

/// Leave / accept counting around the stacked zone of the last aligned stack.
#[derive(Debug, Clone, Copy, PartialEq, Eq, Structural)]
pub struct LeaveTracker {
    pub outside_count: u32,
    pub leave_armed: bool,
    pub outside_pocs: u32,
    pub stack_accepted: bool,
    pub fake_leave: bool,
}

pub open spec fn sat_inc(x: u32) -> u32 {
    if x == u32::MAX {
        u32::MAX
    } else {
        (x + 1) as u32
    }
}

/// One closed bar against the zone: `inside` is the close in the zone,
/// `poc_inside` the bar's POC in the zone.
pub open spec fn leave_step(
    s: LeaveTracker,
    inside: bool,
    poc_inside: bool,
    leave_bars: u32,
    accept_bars: u32,
) -> LeaveTracker {
    if inside {
        let returned_early = s.leave_armed && s.outside_pocs < accept_bars;
        LeaveTracker {
            outside_count: 0,
            leave_armed: false,
            outside_pocs: 0,
            stack_accepted: if returned_early {
                false
            } else {
                s.stack_accepted
            },
            fake_leave: if returned_early {
                true
            } else {
                s.fake_leave
            },
        }
    } else {
        let count = sat_inc(s.outside_count);
        let armed = s.leave_armed || count >= leave_bars;
        let pocs = if armed && !poc_inside {
            sat_inc(s.outside_pocs)
        } else {
            s.outside_pocs
        };
        let accept = armed && pocs >= accept_bars;
        LeaveTracker {
            outside_count: count,
            leave_armed: armed,
            outside_pocs: pocs,
            stack_accepted: if accept {
                true
            } else {
                s.stack_accepted
            },
            fake_leave: if accept {
                false
            } else {
                s.fake_leave
            },
        }
    }
}

impl LeaveTracker {
    pub fn new() -> (r: Self)
        ensures
            r == (LeaveTracker {
                outside_count: 0,
                leave_armed: false,
                outside_pocs: 0,
                stack_accepted: false,
                fake_leave: false,
            }),
    {
        LeaveTracker {
            outside_count: 0,
            leave_armed: false,
            outside_pocs: 0,
            stack_accepted: false,
            fake_leave: false,
        }
    }

    pub fn step(&mut self, inside: bool, poc_inside: bool, leave_bars: u32, accept_bars: u32)
        ensures
            *final(self) == leave_step(*old(self), inside, poc_inside, leave_bars, accept_bars),
    {
        if inside {
            if self.leave_armed && self.outside_pocs < accept_bars {
                self.fake_leave = true;
                self.stack_accepted = false;
            }
            self.outside_count = 0;
            self.leave_armed = false;
            self.outside_pocs = 0;
            return ;
        }
        self.outside_count = self.outside_count.saturating_add(1);
        if self.outside_count >= leave_bars {
            self.leave_armed = true;
        }
        if self.leave_armed {
            if !poc_inside {
                self.outside_pocs = self.outside_pocs.saturating_add(1);
            }
            if self.outside_pocs >= accept_bars {
                self.stack_accepted = true;
                self.fake_leave = false;
            }
        }
    }
}

/// A stack is never accepted and a fake leave at the same time.
pub proof fn lemma_accept_excludes_fake(
    s: LeaveTracker,
    inside: bool,
    poc_inside: bool,
    leave_bars: u32,
    accept_bars: u32,
)
    requires
        !(s.stack_accepted && s.fake_leave),
    ensures
        ({
            let n = leave_step(s, inside, poc_inside, leave_bars, accept_bars);
            !(n.stack_accepted && n.fake_leave)
        }),
{
}

/// Returning inside the zone before `accept_bars` outside POCs makes the
/// leave fake and withdraws acceptance.
pub proof fn lemma_early_return_is_fake(
    s: LeaveTracker,
    poc_inside: bool,
    leave_bars: u32,
    accept_bars: u32,
)
    requires
        s.leave_armed,
        s.outside_pocs < accept_bars,
    ensures
        leave_step(s, true, poc_inside, leave_bars, accept_bars).fake_leave,
        !leave_step(s, true, poc_inside, leave_bars, accept_bars).stack_accepted,
{
}

/// A close outside the zone whose POC lies inside it never counts as an
/// outside POC, whatever the state: acceptance needs POCs outside the zone.
pub proof fn lemma_inside_poc_not_counted(s: LeaveTracker, leave_bars: u32, accept_bars: u32)
    ensures
        leave_step(s, false, true, leave_bars, accept_bars).outside_pocs == s.outside_pocs,
        leave_step(s, false, true, leave_bars, accept_bars).stack_accepted ==> s.stack_accepted
            || s.outside_pocs >= accept_bars,
{
}

/// The outside-POC count: a close back inside the zone clears it; otherwise it
/// grows by at most one per bar, and it grows exactly on an armed close whose
/// POC is outside the zone (short of the counter's maximum).
pub proof fn lemma_outside_pocs_growth(
    s: LeaveTracker,
    inside: bool,
    poc_inside: bool,
    leave_bars: u32,
    accept_bars: u32,
)
    ensures
        ({
            let n = leave_step(s, inside, poc_inside, leave_bars, accept_bars);
            &&& inside ==> n.outside_pocs == 0 && !n.leave_armed && n.outside_count == 0
            &&& !inside ==> s.outside_pocs <= n.outside_pocs <= s.outside_pocs + 1
            &&& n.outside_pocs > s.outside_pocs ==> !inside && !poc_inside && n.leave_armed
            &&& (!inside && !poc_inside && n.leave_armed && s.outside_pocs < u32::MAX) ==> n.outside_pocs
                == s.outside_pocs + 1
        }),
{
}

/// A stack becomes accepted only on an armed close outside the zone once the
/// outside-POC count has reached `accept_bars`; an accepted stack is not a fake leave.
pub proof fn lemma_acceptance_needs_outside_pocs(
    s: LeaveTracker,
    inside: bool,
    poc_inside: bool,
    leave_bars: u32,
    accept_bars: u32,
)
    ensures
        ({
            let n = leave_step(s, inside, poc_inside, leave_bars, accept_bars);
            &&& (n.stack_accepted && !s.stack_accepted) ==> !inside && n.leave_armed && n.outside_pocs
                >= accept_bars && !n.fake_leave
            &&& (!inside && n.leave_armed && n.outside_pocs >= accept_bars) ==> n.stack_accepted
        }),
{
}

/// Returning inside the zone changes neither verdict unless a leave was armed
/// and fewer than `accept_bars` outside POCs were seen.
pub proof fn lemma_return_keeps_verdict(
    s: LeaveTracker,
    poc_inside: bool,
    leave_bars: u32,
    accept_bars: u32,
)
    requires
        !s.leave_armed || s.outside_pocs >= accept_bars,
    ensures
        leave_step(s, true, poc_inside, leave_bars, accept_bars).fake_leave == s.fake_leave,
        leave_step(s, true, poc_inside, leave_bars, accept_bars).stack_accepted == s.stack_accepted,
{
}

/// Closes outside the zone are counted one by one; the leave arms once that
/// count reaches `leave_bars` and stays armed until a close back inside.
pub proof fn lemma_leave_arming(
    s: LeaveTracker,
    poc_inside: bool,
    leave_bars: u32,
    accept_bars: u32,
)
    ensures
        ({
            let n = leave_step(s, false, poc_inside, leave_bars, accept_bars);
            &&& s.outside_count < u32::MAX ==> n.outside_count == s.outside_count + 1
            &&& n.outside_count >= s.outside_count
            &&& n.outside_count >= leave_bars ==> n.leave_armed
            &&& s.leave_armed ==> n.leave_armed
            &&& (n.leave_armed && !s.leave_armed) ==> n.outside_count >= leave_bars
        }),
{
}

/// Range / break-attempt counting against the swing range.
#[derive(Debug, Clone, Copy, PartialEq, Eq, Structural)]
pub struct RangeTracker {
    pub bars_in_range: u32,
    pub break_attempts: u32,
    pub failed_breaks: u32,
    /// Bars left for a pending break to come back and count as failed.
    pub pending_break: Option<u32>,
}

pub open spec fn range_step(s: RangeTracker, has_range: bool, inside: bool, trap_bars: u32) -> RangeTracker {
    if !has_range {
        RangeTracker { bars_in_range: 0, ..s }
    } else if inside {
        RangeTracker {
            bars_in_range: sat_inc(s.bars_in_range),
            failed_breaks: if s.pending_break is Some {
                sat_inc(s.failed_breaks)
            } else {
                s.failed_breaks
            },
            pending_break: None,
            ..s
        }
    } else if s.pending_break is Some {
        let left = s.pending_break->Some_0;
        RangeTracker {
            bars_in_range: 0,
            pending_break: if left == 0 {
                None
            } else {
                Some((left - 1) as u32)
            },
            ..s
        }
    } else {
        RangeTracker {
            bars_in_range: 0,
            break_attempts: sat_inc(s.break_attempts),
            pending_break: Some(trap_bars),
            ..s
        }
    }
}

/// Every failed break was first an attempt.
pub open spec fn range_wf(s: RangeTracker) -> bool {
    &&& s.failed_breaks <= s.break_attempts
    &&& (s.pending_break is Some && s.break_attempts < u32::MAX) ==> s.failed_breaks
        < s.break_attempts
}

impl RangeTracker {
    pub fn new() -> (r: Self)
        ensures
            r == (RangeTracker {
                bars_in_range: 0,
                break_attempts: 0,
                failed_breaks: 0,
                pending_break: None,
            }),
            range_wf(r),
    {
        RangeTracker { bars_in_range: 0, break_attempts: 0, failed_breaks: 0, pending_break: None }
    }

    /// One closed bar. Returns true when the bar's volume adds to the range
    /// volume; otherwise the range volume restarts from zero.
    pub fn step(&mut self, has_range: bool, inside: bool, trap_bars: u32) -> (add_volume: bool)
        requires
            range_wf(*old(self)),
        ensures
            *final(self) == range_step(*old(self), has_range, inside, trap_bars),
            range_wf(*final(self)),
            add_volume == (has_range && inside),
    {
        if !has_range {
            self.bars_in_range = 0;
            return false;
        }
        if inside {
            self.bars_in_range = self.bars_in_range.saturating_add(1);
            if self.pending_break.is_some() {
                self.failed_breaks = self.failed_breaks.saturating_add(1);
                self.pending_break = None;
            }
            return true;
        }
        match self.pending_break {
            Some(left) => {
                self.bars_in_range = 0;
                if left == 0 {
                    self.pending_break = None;
                } else {
                    self.pending_break = Some(left - 1);
                }
            },
            None => {
                self.bars_in_range = 0;
                self.break_attempts = self.break_attempts.saturating_add(1);
                self.pending_break = Some(trap_bars);
            },
        }
        false
    }
}

/// While a break is pending, a close outside the range adds neither an
/// attempt nor a failure: it only counts the pending break's bars down, and
/// the break expires after its last bar.
pub proof fn lemma_pending_break_counts_down(s: RangeTracker, trap_bars: u32)
    requires
        s.pending_break is Some,
    ensures
        ({
            let n = range_step(s, true, false, trap_bars);
            let left = s.pending_break->Some_0;
            &&& n.break_attempts == s.break_attempts
            &&& n.failed_breaks == s.failed_breaks
            &&& n.bars_in_range == 0
            &&& left == 0 ==> n.pending_break is None
            &&& left > 0 ==> n.pending_break == Some((left - 1) as u32)
        }),
{
}

/// Attempts count breaks, not outside bars: each bar adds at most one attempt,
/// and only a close outside the range with no break pending adds one (opening
/// a break of `trap_bars` bars). Failures grow at most by one, only when a close
/// comes back inside while a break is pending. Without a range nothing is
/// counted.
pub proof fn lemma_break_counts(s: RangeTracker, has_range: bool, inside: bool, trap_bars: u32)
    ensures
        ({
            let n = range_step(s, has_range, inside, trap_bars);
            &&& s.break_attempts <= n.break_attempts <= s.break_attempts + 1
            &&& n.break_attempts > s.break_attempts ==> has_range && !inside && s.pending_break is None
                && n.pending_break == Some(trap_bars)
            &&& (has_range && !inside && s.pending_break is None) ==> n.pending_break == Some(trap_bars)
            &&& (has_range && !inside && s.pending_break is None && s.break_attempts < u32::MAX)
                ==> n.break_attempts == s.break_attempts + 1
            &&& s.failed_breaks <= n.failed_breaks <= s.failed_breaks + 1
            &&& n.failed_breaks > s.failed_breaks ==> has_range && inside && s.pending_break is Some
            &&& (has_range && inside && s.pending_break is Some && s.failed_breaks < u32::MAX)
                ==> n.failed_breaks == s.failed_breaks + 1
            &&& (has_range && inside) ==> n.pending_break is None
            &&& (has_range && inside && s.bars_in_range < u32::MAX) ==> n.bars_in_range == s.bars_in_range + 1
            &&& !(has_range && inside) ==> n.bars_in_range == 0
            &&& !has_range ==> n.break_attempts == s.break_attempts && n.failed_breaks == s.failed_breaks
                && n.pending_break == s.pending_break && n.bars_in_range == 0
        }),
{
}

/// Failed breaks never outnumber break attempts, whatever the bars.
pub proof fn lemma_failed_breaks_bounded(s: RangeTracker, has_range: bool, inside: bool, trap_bars: u32)
    requires
        range_wf(s),
    ensures
        range_wf(range_step(s, has_range, inside, trap_bars)),
        range_step(s, has_range, inside, trap_bars).failed_breaks <= range_step(
            s,
            has_range,
            inside,
            trap_bars,
        ).break_attempts,
{
}

} // verus!

verus! {

/// The liquidation regime of a minute: not evaluated without a liquidation
/// stream and without an OI change; true when the OI drop or the
/// liquidation notional hits; false otherwise.
pub open spec fn liquidation_regime_spec(liq_stream_missing: bool, oi_chg_known: bool, oi_hit: bool, liq_hit: bool) -> Seq<char> {
    if liq_stream_missing && !oi_chg_known {
        "not_evaluated"@
    } else if oi_hit || liq_hit {
        "true"@
    } else {
        "false"@
    }
}

pub fn liquidation_regime(liq_stream_missing: bool, oi_chg_known: bool, oi_hit: bool, liq_hit: bool) -> (r: &'static str)
    ensures
        r@ == liquidation_regime_spec(liq_stream_missing, oi_chg_known, oi_hit, liq_hit),
{
    if liq_stream_missing && !oi_chg_known {
        "not_evaluated"
    } else if oi_hit || liq_hit {
        "true"
    } else if !liq_stream_missing || oi_chg_known {
        "false"
    } else {
        "not_evaluated"
    }
}

/// Regime filters only veto: new entries are blocked by a liquidation regime
/// or a funding black window, and nothing here ever allows one.
pub fn regime_blocks_entries(liquidation_true: bool, funding_black: bool) -> (r: bool)
    ensures
        r == (liquidation_true || funding_black),
{
    liquidation_true || funding_black
}

} // verus!

verus! {

/// Why a symbol table cannot drive the context: no swing length, no accept
/// count, or a liquidation threshold that is not the sample p95.
pub open spec fn context_params_spec(swing_n: u32, accept_bars: u32, liq_rule: Seq<char>) -> Result<(), Seq<char>> {
    if swing_n == 0 {
        Err("swing_n must be > 0"@)
    } else if accept_bars == 0 {
        Err("accept_bars must be > 0"@)
    } else if liq_rule != "sample_p95"@ {
        Err("liq_1m_notional_rule must be sample_p95 (never a frozen USDT constant)"@)
    } else {
        Ok(())
    }
}

pub fn context_params_check(swing_n: u32, accept_bars: u32, liq_rule: &str) -> (r: Result<(), String>)
    ensures
        match r {
            Ok(()) => context_params_spec(swing_n, accept_bars, liq_rule@) == Ok::<(), Seq<char>>(()),
            Err(e) => context_params_spec(swing_n, accept_bars, liq_rule@) == Err::<(), Seq<char>>(e@),
        },
{
    if swing_n == 0 {
        return Err(String::from_str("swing_n must be > 0"));
    }
    if accept_bars == 0 {
        return Err(String::from_str("accept_bars must be > 0"));
    }
    if !str_eq(liq_rule, "sample_p95") {
        return Err(String::from_str("liq_1m_notional_rule must be sample_p95 (never a frozen USDT constant)"));
    }
    Ok(())
}

} // verus!

verus! {

/// The words of a minute's regime snapshot. Only the liquidation regime and
/// the funding window are evaluated; the other filters are `not_evaluated`.
#[derive(Debug, Clone, Copy)]
pub struct RegimeWords {
    pub liquidation_regime: &'static str,
    pub funding_crowding: &'static str,
    pub funding_black_window: bool,
    pub basis_stress: &'static str,
    pub oi_divergence: &'static str,
    pub fee_regime: &'static str,
    pub latency_regime: &'static str,
    pub news_or_halt_regime: &'static str,
    pub liq_stream_missing: bool,
    /// Veto only. Never an entry.
    pub new_entries_blocked: bool,
}

pub fn regime_words(liq_stream_missing: bool, oi_chg_known: bool, oi_hit: bool, liq_hit: bool, funding_black: bool) -> (r: RegimeWords)
    ensures
        r.liquidation_regime@ == liquidation_regime_spec(liq_stream_missing, oi_chg_known, oi_hit, liq_hit),
        r.funding_crowding@ == "not_evaluated"@,
        r.funding_black_window == funding_black,
        r.basis_stress@ == "not_evaluated"@,
        r.oi_divergence@ == "not_evaluated"@,
        r.fee_regime@ == "not_evaluated"@,
        r.latency_regime@ == "not_evaluated"@,
        r.news_or_halt_regime@ == "not_evaluated"@,
        r.liq_stream_missing == liq_stream_missing,
        r.new_entries_blocked == (liquidation_regime_spec(liq_stream_missing, oi_chg_known, oi_hit, liq_hit)
            == "true"@ || funding_black),
{
    let regime = liquidation_regime(liq_stream_missing, oi_chg_known, oi_hit, liq_hit);
    let liq_true = str_eq(regime, "true");
    RegimeWords {
        liquidation_regime: regime,
        funding_crowding: "not_evaluated",
        funding_black_window: funding_black,
        basis_stress: "not_evaluated",
        oi_divergence: "not_evaluated",
        fee_regime: "not_evaluated",
        latency_regime: "not_evaluated",
        news_or_halt_regime: "not_evaluated",
        liq_stream_missing,
        new_entries_blocked: regime_blocks_entries(liq_true, funding_black),
    }
}

} // verus!
