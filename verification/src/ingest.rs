//! Public trade intake: taker-side mapping of the three venues, timestamp
//! units, subscribe topics, and the bounded per-venue inboxes. An overflow
//! marks that venue `gap` and drops the item; other venues keep running.

pub mod okx;
pub mod binance;
pub mod bybit;

use std::collections::VecDeque;
use vstd::prelude::*;
use crate::domain::{gap_of, with_gap, QualityVector, TakerSide, Venue};
use crate::lex::{lemma_lt_asymmetric, lemma_lt_irreflexive, lemma_lt_total, lemma_lt_transitive, seq_lt, str_lt};
use crate::text::{
    concat_str, lower_seq, str_eq, to_ascii_lowercase, trim, trim_seq,
};

verus! {

pub const WIRED_OKX: bool = true;

pub const WIRED_BINANCE: bool = true;

pub const WIRED_BYBIT: bool = true;

/// Parsers and bounded lanes for all three venues. Live trading is still gated.
pub const WIRED: bool = true;

/// Default live-WS capacity. Replay uses a larger cap so dumps are not truncated.
pub const DEFAULT_CAP: usize = 8192;

/// The only two sides an adapter emits.
pub fn expected_taker_sides() -> (r: [TakerSide; 2])
    ensures
        r@ == seq![TakerSide::Buy, TakerSide::Sell],
{
    let r = [TakerSide::Buy, TakerSide::Sell];
    assert(r@ =~= seq![TakerSide::Buy, TakerSide::Sell]);
    r
}

#[verifier::external_type_specification]
#[verifier::external_body]
pub struct ExJsonError(serde_json::Error);

#[derive(Debug)]
pub enum ParseError {
    Json(serde_json::Error),
    BadSide(String),
    BadNumber(&'static str),
    MissingField(&'static str),
    Empty,
}

/// The taker side a normalized (trimmed, lower-cased) side word names.
pub open spec fn taker_side_of_word(s: Seq<char>) -> Option<TakerSide> {
    if s == "buy"@ {
        Some(TakerSide::Buy)
    } else if s == "sell"@ {
        Some(TakerSide::Sell)
    } else {
        None
    }
}

/// `buy` / `sell`, ASCII case and surrounding whitespace ignored; anything else
/// is refused with the normalized word.
pub open spec fn side_word_result(side: Seq<char>, r: Result<TakerSide, ParseError>) -> bool {
    let key = lower_seq(trim_seq(side));
    match r {
        Ok(t) => taker_side_of_word(key) == Some(t),
        Err(ParseError::BadSide(w)) => taker_side_of_word(key) is None && w@ == key,
        Err(_) => false,
    }
}

pub(crate) fn parse_side_word(side: &str) -> (r: Result<TakerSide, ParseError>)
    ensures
        side_word_result(side@, r),
{
    let key = to_ascii_lowercase(trim(side));
    if str_eq(key.as_str(), "buy") {
        Ok(TakerSide::Buy)
    } else if str_eq(key.as_str(), "sell") {
        Ok(TakerSide::Sell)
    } else {
        Err(ParseError::BadSide(key))
    }
}

/// Seconds vs milliseconds vs microseconds, decided by magnitude, never by
/// venue name: under 1e11 seconds, under 1e14 milliseconds, else microseconds.
pub open spec fn ts_to_ms_spec(raw: int) -> int {
    let a = if raw < 0 { -raw } else { raw };
    if a < 100_000_000_000 {
        raw * 1000
    } else if a < 100_000_000_000_000 {
        raw
    } else {
        raw / 1000
    }
}

/// Integer timestamps to milliseconds. Microseconds are truncated toward zero.
pub fn event_ts_to_ms_i64(raw: i64) -> (r: i64)
    requires
        raw > i64::MIN,
    ensures
        r == (if raw < 0 && -raw >= 100_000_000_000_000 {
            -((-raw) / 1000)
        } else {
            ts_to_ms_spec(raw as int)
        }),
{
    let abs: i64 = if raw < 0 {
        -raw
    } else {
        raw
    };
    if abs < 100_000_000_000 {
        raw * 1000
    } else if abs < 100_000_000_000_000 {
        raw
    } else {
        raw / 1000
    }
}

/// A line that starts, after whitespace, with `{` or `[`.
pub fn looks_like_json(line: &str) -> (r: bool)
    ensures
        r == (trim_seq(line@).len() > 0 && (trim_seq(line@)[0] == '{' || trim_seq(line@)[0] == '[')),
{
    let t = trim(line);
    if t.unicode_len() == 0 {
        return false;
    }
    let c = t.get_char(0);
    c == '{' || c == '['
}

/// Binance combined-stream name: `{symbol lower-cased}@aggTrade`.
pub fn binance_agg_trade_stream(market_symbol: &str) -> (r: String)
    ensures
        r@ == lower_seq(market_symbol@) + "@aggTrade"@,
{
    concat_str(to_ascii_lowercase(market_symbol), "@aggTrade")
}

/// Bybit topic: `publicTrade.{symbol}`.
pub fn bybit_public_trade_topic(market_symbol: &str) -> (r: String)
    ensures
        r@ == "publicTrade."@ + market_symbol@,
{
    concat_str(String::from_str("publicTrade."), market_symbol)
}

} // verus!

verus! {

/// What an inbox holds: its venue, its capacity, the queued items oldest
/// first, the count of dropped items (wrapping) and the sticky gap flag.
pub struct InboxView<T> {
    pub venue: Venue,
    pub cap: nat,
    pub items: Seq<T>,
    pub dropped: u64,
    pub gap: bool,
}

/// A bounded first-in first-out inbox of one venue. A push on a full inbox
/// never waits: it drops the item and marks the venue `gap`.
pub struct BoundedInbox<T> {
    venue: Venue,
    cap: usize,
    q: VecDeque<T>,
    dropped: u64,
    gap: bool,
}

impl<T> View for BoundedInbox<T> {
    type V = InboxView<T>;

    closed spec fn view(&self) -> InboxView<T> {
        InboxView {
            venue: self.venue,
            cap: self.cap as nat,
            items: self.q@,
            dropped: self.dropped,
            gap: self.gap,
        }
    }
}

impl<T> BoundedInbox<T> {
    #[verifier::type_invariant]
    closed spec fn inv(&self) -> bool {
        0 < self.cap && self.q@.len() <= self.cap
    }

    pub fn new(venue: Venue, cap: usize) -> (r: Self)
        requires
            cap > 0,
        ensures
            r@.venue == venue,
            r@.cap == cap,
            r@.items == Seq::<T>::empty(),
            r@.dropped == 0,
            !r@.gap,
    {
        BoundedInbox { venue, cap, q: VecDeque::new(), dropped: 0, gap: false }
    }

    pub fn venue(&self) -> (r: Venue)
        ensures
            r == self@.venue,
    {
        self.venue
    }

    pub fn cap(&self) -> (r: usize)
        ensures
            r == self@.cap,
    {
        self.cap
    }

    /// Never blocks. Returns false on overflow, which marks this venue `gap`.
    pub fn try_push(&mut self, item: T) -> (r: bool)
        ensures
            r == (old(self)@.items.len() < old(self)@.cap),
            final(self)@.venue == old(self)@.venue,
            final(self)@.cap == old(self)@.cap,
            r ==> final(self)@.items == old(self)@.items.push(item) && final(self)@.dropped
                == old(self)@.dropped && final(self)@.gap == old(self)@.gap,
            !r ==> final(self)@.items == old(self)@.items && final(self)@.dropped
                == old(self)@.dropped.wrapping_add(1) && final(self)@.gap,
    {
        proof {
            use_type_invariant(&*self);
        }
        if self.q.len() >= self.cap {
            self.dropped = self.dropped.wrapping_add(1);
            self.gap = true;
            return false;
        }
        let mut q = VecDeque::new();
        std::mem::swap(&mut q, &mut self.q);
        q.push_back(item);
        std::mem::swap(&mut q, &mut self.q);
        true
    }

    /// The oldest item, if any.
    pub fn pop(&mut self) -> (r: Option<T>)
        ensures
            final(self)@.venue == old(self)@.venue,
            final(self)@.cap == old(self)@.cap,
            final(self)@.dropped == old(self)@.dropped,
            final(self)@.gap == old(self)@.gap,
            match r {
                Some(x) => old(self)@.items.len() > 0 && x == old(self)@.items[0]
                    && final(self)@.items == old(self)@.items.drop_first(),
                None => old(self)@.items.len() == 0 && final(self)@.items == old(self)@.items,
            },
    {
        proof {
            use_type_invariant(&*self);
        }
        let mut q = VecDeque::new();
        std::mem::swap(&mut q, &mut self.q);
        let r = q.pop_front();
        std::mem::swap(&mut q, &mut self.q);
        proof {
            if r is Some {
                assert(self@.items =~= old(self)@.items.drop_first());
            }
        }
        r
    }

    /// Up to `max` of the oldest items, oldest first.
    pub fn drain(&mut self, max: usize) -> (r: Vec<T>)
        ensures
            final(self)@.venue == old(self)@.venue,
            final(self)@.cap == old(self)@.cap,
            final(self)@.dropped == old(self)@.dropped,
            final(self)@.gap == old(self)@.gap,
            ({
                let k = if max < old(self)@.items.len() { max as int } else { old(self)@.items.len() as int };
                &&& r@ == old(self)@.items.subrange(0, k)
                &&& final(self)@.items == old(self)@.items.subrange(k, old(self)@.items.len() as int)
            }),
    {
        let ghost start = self@.items;
        let mut out: Vec<T> = Vec::new();
        while out.len() < max
            invariant_except_break
                out@.len() <= max,
                out@.len() <= start.len(),
                out@ == start.subrange(0, out@.len() as int),
                self@.items == start.subrange(out@.len() as int, start.len() as int),
                self@.venue == old(self)@.venue,
                self@.cap == old(self)@.cap,
                self@.dropped == old(self)@.dropped,
                self@.gap == old(self)@.gap,
            ensures
                out@.len() <= max,
                out@.len() <= start.len(),
                out@ == start.subrange(0, out@.len() as int),
                self@.items == start.subrange(out@.len() as int, start.len() as int),
                out@.len() == max || out@.len() == start.len(),
                self@.venue == old(self)@.venue,
                self@.cap == old(self)@.cap,
                self@.dropped == old(self)@.dropped,
                self@.gap == old(self)@.gap,
            decreases max - out@.len(),
        {
            match self.pop() {
                Some(t) => {
                    out.push(t);
                    assert(out@ =~= start.subrange(0, out@.len() as int));
                    assert(self@.items =~= start.subrange(out@.len() as int, start.len() as int));
                },
                None => {
                    break;
                },
            }
        }
        out
    }

    /// The number of queued items, never above the capacity.
    pub fn len(&self) -> (r: usize)
        ensures
            r == self@.items.len(),
            r <= self@.cap,
            0 < self@.cap,
    {
        proof {
            use_type_invariant(self);
        }
        self.q.len()
    }

    pub fn is_empty(&self) -> (r: bool)
        ensures
            r == (self@.items.len() == 0),
    {
        self.q.len() == 0
    }

    pub fn dropped(&self) -> (r: u64)
        ensures
            r == self@.dropped,
    {
        self.dropped
    }

    pub fn is_gap(&self) -> (r: bool)
        ensures
            r == self@.gap,
    {
        self.gap
    }

    /// Copies this venue's gap onto the quality vector.
    pub fn apply_gap(&self, quality: &mut QualityVector)
        ensures
            *final(quality) == (if self@.gap { with_gap(*old(quality), self@.venue) } else { *old(quality) }),
    {
        if self.gap {
            quality.mark_gap(self.venue);
        }
    }
}

/// Three independent lanes. A full Binance lane does not stop an OKX push.
pub struct ThreeLanes<T> {
    pub okx: BoundedInbox<T>,
    pub binance: BoundedInbox<T>,
    pub bybit: BoundedInbox<T>,
}

pub open spec fn lane_venues_ok<T>(l: ThreeLanes<T>) -> bool {
    l.okx@.venue == Venue::Okx && l.binance@.venue == Venue::Binance && l.bybit@.venue == Venue::Bybit
}

impl<T> ThreeLanes<T> {
    pub open spec fn lane(&self, venue: Venue) -> InboxView<T> {
        match venue {
            Venue::Okx => self.okx@,
            Venue::Binance => self.binance@,
            Venue::Bybit => self.bybit@,
        }
    }

    pub fn with_cap(cap: usize) -> (r: Self)
        requires
            cap > 0,
        ensures
            lane_venues_ok(r),
            forall|v: Venue| #[trigger] r.lane(v).cap == cap && r.lane(v).items.len() == 0
                && !r.lane(v).gap && r.lane(v).dropped == 0,
    {
        ThreeLanes {
            okx: BoundedInbox::new(Venue::Okx, cap),
            binance: BoundedInbox::new(Venue::Binance, cap),
            bybit: BoundedInbox::new(Venue::Bybit, cap),
        }
    }

    pub fn inbox(&self, venue: Venue) -> (r: &BoundedInbox<T>)
        ensures
            r@ == self.lane(venue),
    {
        match venue {
            Venue::Okx => &self.okx,
            Venue::Binance => &self.binance,
            Venue::Bybit => &self.bybit,
        }
    }

    /// Pushes into the lane of `venue`; the other two lanes are untouched.
    pub fn try_push(&mut self, venue: Venue, item: T) -> (r: bool)
        ensures
            r == (old(self).lane(venue).items.len() < old(self).lane(venue).cap),
            r ==> final(self).lane(venue).items == old(self).lane(venue).items.push(item),
            !r ==> final(self).lane(venue).items == old(self).lane(venue).items && final(self).lane(venue).gap,
            final(self).lane(venue).cap == old(self).lane(venue).cap,
            final(self).lane(venue).venue == old(self).lane(venue).venue,
            forall|u: Venue| u != venue ==> #[trigger] final(self).lane(u) == old(self).lane(u),
    {
        match venue {
            Venue::Okx => self.okx.try_push(item),
            Venue::Binance => self.binance.try_push(item),
            Venue::Bybit => self.bybit.try_push(item),
        }
    }

    /// Raises on the quality vector the gap of every lane that has one, each
    /// under its own venue; nothing else changes.
    pub fn apply_gaps(&self, quality: &mut QualityVector)
        ensures
            forall|v: Venue| #[trigger] gap_of(*final(quality), v) == (gap_of(*old(quality), v)
                || (self.okx@.gap && self.okx@.venue == v) || (self.binance@.gap
                && self.binance@.venue == v) || (self.bybit@.gap && self.bybit@.venue == v)),
            *final(quality) == (QualityVector {
                okx_gap: final(quality).okx_gap,
                binance_gap: final(quality).binance_gap,
                bybit_gap: final(quality).bybit_gap,
                ..*old(quality)
            }),
    {
        self.okx.apply_gap(quality);
        self.binance.apply_gap(quality);
        self.bybit.apply_gap(quality);
    }
}

} // verus!

verus! {

/// What decides whether a public frame is a control message: which keys the
/// top-level object has, and its `op` / `event` strings.
#[derive(Debug, Clone)]
pub struct FrameKeys {
    pub has_result: bool,
    pub has_id: bool,
    pub has_data: bool,
    pub has_e: bool,
    pub has_success: bool,
    pub has_event: bool,
    pub op: Option<String>,
    pub event: Option<String>,
}

pub open spec fn text_is(o: Option<String>, w: Seq<char>) -> bool {
    o matches Some(s) && s@ == w
}

/// Subscribe acks, pings and errors carry no trades.
pub open spec fn is_control_spec(venue: Venue, k: FrameKeys) -> bool {
    match venue {
        Venue::Binance => k.has_result && k.has_id && !k.has_data && !k.has_e,
        Venue::Bybit => text_is(k.op, "subscribe"@) || text_is(k.op, "unsubscribe"@) || text_is(
            k.op,
            "ping"@,
        ) || text_is(k.op, "pong"@) || (k.has_success && !k.has_data),
        Venue::Okx => text_is(k.event, "subscribe"@) || text_is(k.event, "unsubscribe"@) || text_is(
            k.event,
            "error"@,
        ) || text_is(k.event, "login"@) || (k.has_event && !k.has_data),
    }
}

fn text_eq(o: &Option<String>, w: &str) -> (r: bool)
    ensures
        r == text_is(*o, w@),
{
    match o {
        Some(s) => str_eq(s.as_str(), w),
        None => false,
    }
}

pub fn is_control_frame(venue: Venue, k: &FrameKeys) -> (r: bool)
    ensures
        r == is_control_spec(venue, *k),
{
    match venue {
        Venue::Binance => k.has_result && k.has_id && !k.has_data && !k.has_e,
        Venue::Bybit => text_eq(&k.op, "subscribe") || text_eq(&k.op, "unsubscribe") || text_eq(
            &k.op,
            "ping",
        ) || text_eq(&k.op, "pong") || (k.has_success && !k.has_data),
        Venue::Okx => text_eq(&k.event, "subscribe") || text_eq(&k.event, "unsubscribe") || text_eq(
            &k.event,
            "error",
        ) || text_eq(&k.event, "login") || (k.has_event && !k.has_data),
    }
}

} // verus!

verus! {

/// Order of two texts that may be missing: none first, then by code point.
pub open spec fn opt_lt(a: Option<Seq<char>>, b: Option<Seq<char>>) -> bool {
    match (a, b) {
        (None, Some(_)) => true,
        (Some(x), Some(y)) => seq_lt(x, y),
        _ => false,
    }
}

/// Trades sort by event time, then by trade id (none first).
pub open spec fn key_lt(a: (i64, Option<Seq<char>>), b: (i64, Option<Seq<char>>)) -> bool {
    a.0 < b.0 || (a.0 == b.0 && opt_lt(a.1, b.1))
}

proof fn lemma_key_lt_facts(a: (i64, Option<Seq<char>>), b: (i64, Option<Seq<char>>), c: (i64, Option<Seq<char>>))
    ensures
        !key_lt(a, a),
        key_lt(a, b) ==> !key_lt(b, a),
        key_lt(a, b) && key_lt(b, c) ==> key_lt(a, c),
        a != b ==> key_lt(a, b) || key_lt(b, a),
{
    match a.1 {
        Some(x) => {
            lemma_lt_irreflexive(x);
        },
        None => {},
    }
    match (a.1, b.1) {
        (Some(x), Some(y)) => {
            lemma_lt_asymmetric(x, y);
            lemma_lt_total(x, y);
        },
        _ => {},
    }
    match (a.1, b.1, c.1) {
        (Some(x), Some(y), Some(z)) => {
            if seq_lt(x, y) && seq_lt(y, z) {
                lemma_lt_transitive(x, y, z);
            }
        },
        _ => {},
    }
}

pub open spec fn key_view(k: (i64, Option<String>)) -> (i64, Option<Seq<char>>) {
    (
        k.0,
        match k.1 {
            Some(s) => Some(s@),
            None => None,
        },
    )
}

pub open spec fn keys_view(keys: Seq<(i64, Option<String>)>) -> Seq<(i64, Option<Seq<char>>)> {
    keys.map_values(|k: (i64, Option<String>)| key_view(k))
}

/// `o` lists the indices `0..n` of `keys`, each once, in stable sorted order:
/// keys never decrease, and equal keys keep their input order.
pub open spec fn stable_sorted(keys: Seq<(i64, Option<Seq<char>>)>, o: Seq<usize>, n: int) -> bool {
    &&& o.len() == n
    &&& forall|a: int| 0 <= a < o.len() ==> #[trigger] o[a] < n
    &&& forall|x: usize| x < n ==> #[trigger] o.contains(x)
    &&& forall|a: int, b: int| #![trigger o[a], o[b]] 0 <= a < b < o.len() ==> o[a] != o[b]
    &&& forall|a: int, b: int|
        #![trigger o[a], o[b]]
        0 <= a < b < o.len() ==> !key_lt(keys[o[b] as int], keys[o[a] as int]) && (keys[o[a] as int]
            == keys[o[b] as int] ==> o[a] < o[b])
}

fn opt_text_lt(a: &Option<String>, b: &Option<String>) -> (r: bool)
    ensures
        r == opt_lt(key_view((0, *a)).1, key_view((0, *b)).1),
{
    match (a, b) {
        (None, Some(_)) => true,
        (Some(x), Some(y)) => str_lt(x.as_str(), y.as_str()),
        _ => false,
    }
}

fn trade_key_lt(a: &(i64, Option<String>), b: &(i64, Option<String>)) -> (r: bool)
    ensures
        r == key_lt(key_view(*a), key_view(*b)),
{
    a.0 < b.0 || (a.0 == b.0 && opt_text_lt(&a.1, &b.1))
}

/// The stable sort of `keys`: the order in which the trades they belong to
/// are replayed.
pub fn stable_order(keys: &[(i64, Option<String>)]) -> (o: Vec<usize>)
    ensures
        stable_sorted(keys@.map_values(|k: (i64, Option<String>)| key_view(k)), o@, keys@.len() as int),
{
    let ghost kv = keys@.map_values(|k: (i64, Option<String>)| key_view(k));
    let n = keys.len();
    let mut o: Vec<usize> = Vec::new();
    let mut i: usize = 0;
    while i < n
        invariant
            n == keys@.len(),
            kv == keys@.map_values(|k: (i64, Option<String>)| key_view(k)),
            i <= n,
            stable_sorted(kv, o@, i as int),
        decreases n - i,
    {
        let mut p: usize = 0;
        while p < o.len() && !trade_key_lt(&keys[i], &keys[o[p]])
            invariant
                n == keys@.len(),
                kv == keys@.map_values(|k: (i64, Option<String>)| key_view(k)),
                i < n,
                stable_sorted(kv, o@, i as int),
                p <= o@.len(),
                forall|a: int| 0 <= a < p ==> !key_lt(kv[i as int], kv[#[trigger] o@[a] as int]),
            decreases o@.len() - p,
        {
            assert(kv[i as int] == key_view(keys@[i as int]));
            assert(kv[o@[p as int] as int] == key_view(keys@[o@[p as int] as int]));
            p += 1;
        }
        let ghost old_o = o@;
        proof {
            if p < old_o.len() {
                assert(kv[i as int] == key_view(keys@[i as int]));
                assert(kv[old_o[p as int] as int] == key_view(keys@[old_o[p as int] as int]));
                assert(key_lt(kv[i as int], kv[old_o[p as int] as int]));
            }
        }
        o.insert(p, i);
        proof {
            let t = o@;
            assert(t =~= old_o.insert(p as int, i));
            assert forall|a: int| 0 <= a < t.len() implies #[trigger] t[a] < i + 1 by {
                if a < p {
                    assert(t[a] == old_o[a]);
                } else if a > p {
                    assert(t[a] == old_o[a - 1]);
                }
            }
            assert forall|x: usize| x < i + 1 implies #[trigger] t.contains(x) by {
                if x == i {
                    assert(t[p as int] == i);
                } else {
                    assert(old_o.contains(x));
                    let a = choose|a: int| 0 <= a < old_o.len() && old_o[a] == x;
                    if a < p {
                        assert(t[a] == x);
                    } else {
                        assert(t[a + 1] == x);
                    }
                }
            }
            assert forall|a: int, b: int| #![trigger t[a], t[b]] 0 <= a < b < t.len() implies t[a] != t[b] && !key_lt(kv[t[b] as int], kv[t[a] as int]) && (kv[t[a] as int] == kv[t[b] as int] ==> t[a] < t[b]) by {
                let ki = kv[i as int];
                if b < p {
                    assert(t[a] == old_o[a] && t[b] == old_o[b]);
                } else if b == p {
                    assert(t[a] == old_o[a]);
                    assert(old_o[a] < i);
                    assert(!key_lt(ki, kv[old_o[a] as int]));
                } else if a < p {
                    assert(t[a] == old_o[a] && t[b] == old_o[b - 1]);
                } else if a == p {
                    assert(t[b] == old_o[b - 1]);
                    assert(old_o[b - 1] < i);
                    let kp = kv[old_o[p as int] as int];
                    let kb = kv[old_o[b - 1] as int];
                    assert(key_lt(ki, kp));
                    if b - 1 > p {
                        assert(!key_lt(kb, kp));
                        lemma_key_lt_facts(ki, kp, kb);
                        lemma_key_lt_facts(kp, kb, ki);
                        lemma_key_lt_facts(kb, kp, ki);
                    }
                    lemma_key_lt_facts(ki, kb, kp);
                    lemma_key_lt_facts(kb, ki, kp);
                } else {
                    assert(t[a] == old_o[a - 1] && t[b] == old_o[b - 1]);
                }
            }
        }
        i += 1;
    }
    o
}

} // verus!

verus! {

/// `o` with every element whose trade id already appeared earlier in `o`
/// dropped; elements without an id are all kept.
pub open spec fn dedup_spec(keys: Seq<(i64, Option<Seq<char>>)>, o: Seq<usize>) -> Seq<usize>
    decreases o.len(),
{
    if o.len() == 0 {
        o
    } else {
        let d = dedup_spec(keys, o.drop_last());
        let last = o.last();
        if keys[last as int].1 is None || !(exists|a: int|
            0 <= a < o.len() - 1 && #[trigger] keys[o[a] as int].1 == keys[last as int].1) {
            d.push(last)
        } else {
            d
        }
    }
}

pub open spec fn seen_spec(seen: Seq<String>, x: Seq<char>) -> bool {
    exists|b: int| 0 <= b < seen.len() && #[trigger] seen[b]@ == x
}

pub open spec fn id_before(kv: Seq<(i64, Option<Seq<char>>)>, o: Seq<usize>, j: int, x: Seq<char>) -> bool {
    exists|a: int| 0 <= a < j && #[trigger] kv[o[a] as int].1 == Some(x)
}

fn seen_has(seen: &Vec<String>, id: &str) -> (r: bool)
    ensures
        r == (exists|a: int| 0 <= a < seen@.len() && #[trigger] seen@[a]@ == id@),
{
    let mut a: usize = 0;
    while a < seen.len()
        invariant
            a <= seen@.len(),
            forall|b: int| 0 <= b < a ==> #[trigger] seen@[b]@ != id@,
        decreases seen.len() - a,
    {
        if str_eq(seen[a].as_str(), id) {
            return true;
        }
        a += 1;
    }
    false
}

/// Keeps the first trade of each id along `order`.
pub fn dedup_by_id(keys: &[(i64, Option<String>)], order: &[usize]) -> (r: Vec<usize>)
    requires
        forall|a: int| 0 <= a < order@.len() ==> #[trigger] order@[a] < keys@.len(),
    ensures
        r@ == dedup_spec(keys@.map_values(|k: (i64, Option<String>)| key_view(k)), order@),
{
    let ghost kv = keys@.map_values(|k: (i64, Option<String>)| key_view(k));
    let n = order.len();
    let mut out: Vec<usize> = Vec::new();
    let mut seen: Vec<String> = Vec::new();
    let mut j: usize = 0;
    assert(order@.subrange(0, 0) =~= Seq::<usize>::empty());
    while j < n
        invariant
            n == order@.len(),
            j <= n,
            kv == keys@.map_values(|k: (i64, Option<String>)| key_view(k)),
            forall|a: int| 0 <= a < order@.len() ==> #[trigger] order@[a] < keys@.len(),
            out@ == dedup_spec(kv, order@.subrange(0, j as int)),
            forall|x: Seq<char>|
                #![trigger seen_spec(seen@, x)]
                #![trigger id_before(kv, order@, j as int, x)]
                seen_spec(seen@, x) <==> id_before(kv, order@, j as int, x),
        decreases n - j,
    {
        let idx = order[j];
        let ghost pre = order@.subrange(0, j as int);
        let ghost cur = order@.subrange(0, j + 1);
        assert(cur.drop_last() =~= pre);
        assert(cur.last() == idx);
        assert(kv[idx as int] == key_view(keys@[idx as int]));
        proof {
            assert forall|a: int| 0 <= a < cur.len() - 1 implies #[trigger] kv[cur[a] as int].1 == kv[order@[a] as int].1 by {
                assert(cur[a] == order@[a]);
            }
        }
        match &keys[idx].1 {
            None => {
                out.push(idx);
                proof {
                    assert forall|x: Seq<char>|
                        #![trigger seen_spec(seen@, x)]
                        #![trigger id_before(kv, order@, j + 1, x)]
                        seen_spec(seen@, x) <==> id_before(kv, order@, j + 1, x) by {
                        if exists|a: int| 0 <= a < j + 1 && #[trigger] kv[order@[a] as int].1 == Some(x) {
                            let a = choose|a: int| 0 <= a < j + 1 && #[trigger] kv[order@[a] as int].1 == Some(x);
                            if a == j {
                                assert(false);
                            }
                        }
                    }
                }
            },
            Some(id) => {
                let dup = seen_has(&seen, id.as_str());
                proof {
                    assert(kv[idx as int].1 == Some(id@));
                    if dup {
                        assert(seen_spec(seen@, id@));
                        assert(id_before(kv, order@, j as int, id@));
                        let a = choose|a: int| 0 <= a < j && #[trigger] kv[order@[a] as int].1 == Some(id@);
                        assert(cur[a] == order@[a]);
                        assert(kv[cur[a] as int].1 == kv[idx as int].1);
                    } else {
                        assert(!seen_spec(seen@, id@));
                        assert forall|a: int| 0 <= a < cur.len() - 1 implies #[trigger] kv[cur[a] as int].1 != kv[idx as int].1 by {
                            assert(cur[a] == order@[a]);
                            if kv[cur[a] as int].1 == kv[idx as int].1 {
                                assert(kv[order@[a] as int].1 == Some(id@));
                                assert(id_before(kv, order@, j as int, id@));
                            }
                        }
                    }
                }
                if !dup {
                    out.push(idx);
                    let ghost old_seen = seen@;
                    seen.push(id.clone());
                    proof {
                        assert forall|x: Seq<char>|
                            #![trigger seen_spec(seen@, x)]
                            #![trigger id_before(kv, order@, j + 1, x)]
                            seen_spec(seen@, x) <==> id_before(kv, order@, j + 1, x) by {
                            if exists|b: int| 0 <= b < seen@.len() && #[trigger] seen@[b]@ == x {
                                let b = choose|b: int| 0 <= b < seen@.len() && #[trigger] seen@[b]@ == x;
                                if b < old_seen.len() {
                                    assert(old_seen[b]@ == x);
                                    assert(seen_spec(old_seen, x));
                                    assert(id_before(kv, order@, j as int, x));
                                } else {
                                    assert(kv[order@[j as int] as int].1 == Some(x));
                                }
                            }
                            if exists|a: int| 0 <= a < j + 1 && #[trigger] kv[order@[a] as int].1 == Some(x) {
                                let a = choose|a: int| 0 <= a < j + 1 && #[trigger] kv[order@[a] as int].1 == Some(x);
                                if a < j {
                                    assert(id_before(kv, order@, j as int, x));
                                    assert(seen_spec(old_seen, x));
                                    let b = choose|b: int| 0 <= b < old_seen.len() && #[trigger] old_seen[b]@ == x;
                                    assert(seen@[b]@ == x);
                                } else {
                                    assert(seen@[old_seen.len() as int]@ == x);
                                }
                            }
                        }
                    }
                } else {
                    proof {
                        assert forall|x: Seq<char>|
                            #![trigger seen_spec(seen@, x)]
                            #![trigger id_before(kv, order@, j + 1, x)]
                            seen_spec(seen@, x) <==> id_before(kv, order@, j + 1, x) by {
                            if exists|a: int| 0 <= a < j + 1 && #[trigger] kv[order@[a] as int].1 == Some(x) {
                                let a = choose|a: int| 0 <= a < j + 1 && #[trigger] kv[order@[a] as int].1 == Some(x);
                                if a == j {
                                    assert(x == id@);
                                    let b = choose|b: int| 0 <= b < seen@.len() && #[trigger] seen@[b]@ == id@;
                                    assert(seen@[b]@ == x);
                                }
                            }
                        }
                    }
                }
            },
        }
        j += 1;
    }
    assert(order@.subrange(0, n as int) =~= order@);
    out
}

/// The order in which a dump's trades are kept: sorted by event time then
/// trade id (stable), and only the first trade of each id.
pub fn sort_dedup_order(keys: &[(i64, Option<String>)]) -> (r: Vec<usize>)
    ensures
        exists|o: Seq<usize>|
            #[trigger] stable_sorted(keys_view(keys@), o, keys@.len() as int) && r@ == dedup_spec(
                keys_view(keys@),
                o,
            ),
{
    let o = stable_order(keys);
    let r = dedup_by_id(keys, o.as_slice());
    assert(stable_sorted(keys_view(keys@), o@, keys@.len() as int));
    r
}

} // verus!
