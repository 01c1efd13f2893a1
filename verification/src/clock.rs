//! Exchange-event 1m clock and bar cutter decisions.
//!
//! Contract:
//! - bars are `[t, t+60_000)` on venue **event** time (not local sleep)
//! - only `Closed` bars for entries
//! - **never rewrite a closed bar**; late trades only bump `QualityVector::late_trade`
//! - out-of-order trades inside a forming bar still apply by event time
//! - reconnect does not reopen closed bars
//!
//! The clock keeps the integer part of the forming bar (its minute, first and
//! last event time, trade count) and tells its caller, per trade, whether the
//! trade is late, which bar it closes, and whether its price becomes the
//! bar's open and/or close.

use vstd::prelude::*;
use crate::domain::BarState;
use crate::domain::{
    bar_open_ms, bar_open_spec, quality_zero, QualityVector, Venue, BAR_INTERVAL_MS,
};

verus! {

pub const WIRED: bool = true;

/// The integer part of a 1m bar: its minute, first and last trade event
/// times, and how many trades it holds.
#[derive(Debug, Clone, Copy, PartialEq, Eq, Structural)]
pub struct BarStamp {
    pub open_ms: i64,
    pub first_trade_ts_ms: i64,
    pub last_trade_ts_ms: i64,
    pub trade_count: u32,
}

/// What one trade does to the clock.
#[derive(Debug, Clone, Copy, PartialEq, Eq, Structural)]
pub enum ClockEvent {
    /// The trade belongs to a minute already closed (or behind the forming
    /// minute). Nothing is applied; only `late_trade` counts it.
    Late,
    /// The trade is applied to the forming bar. `closed` is the bar it closed
    /// first (now immutable), `opened` says a new forming bar started with it,
    /// `sets_open` / `sets_close` say its price becomes the bar's open / close.
    Applied { closed: Option<BarStamp>, opened: bool, sets_open: bool, sets_close: bool },
}

/// One venue + symbol stream of 1m bars.
pub struct BarClock {
    venue: Venue,
    forming: Option<BarStamp>,
    /// Highest closed bar open_ms. Late trades for any open_ms <= this are rejected.
    last_closed_open_ms: Option<i64>,
    quality: QualityVector,
    last_event_ts_ms: Option<i64>,
}

pub struct ClockView {
    pub venue: Venue,
    pub forming: Option<BarStamp>,
    pub last_closed_open_ms: Option<i64>,
    pub quality: QualityVector,
    pub last_event_ts_ms: Option<i64>,
}

impl View for BarClock {
    type V = ClockView;

    closed spec fn view(&self) -> ClockView {
        ClockView {
            venue: self.venue,
            forming: self.forming,
            last_closed_open_ms: self.last_closed_open_ms,
            quality: self.quality,
            last_event_ts_ms: self.last_event_ts_ms,
        }
    }
}

/// A forming bar stamp is consistent: both event times lie in its minute.
pub open spec fn stamp_ok(b: BarStamp) -> bool {
    &&& b.first_trade_ts_ms <= b.last_trade_ts_ms
    &&& bar_open_spec(b.first_trade_ts_ms as int) == b.open_ms
    &&& bar_open_spec(b.last_trade_ts_ms as int) == b.open_ms
    &&& b.trade_count >= 1
}

/// The clock's invariant: the forming minute is after every closed minute.
pub open spec fn clock_wf(v: ClockView) -> bool {
    &&& v.forming matches Some(f) ==> stamp_ok(f)
    &&& v.forming matches Some(f) ==> (v.last_closed_open_ms matches Some(c) ==> c < f.open_ms)
}

/// Minutes skipped between a closed forming minute `f` and the new minute `o`.
pub open spec fn skipped_minutes(f: int, o: int) -> int {
    (o - f) / (BAR_INTERVAL_MS as int) - 1
}

/// The trade at event time `t` is late for the clock `v`.
pub open spec fn is_late(v: ClockView, t: int) -> bool {
    let open = bar_open_spec(t);
    ||| (v.last_closed_open_ms matches Some(c) && open <= c)
    ||| (v.forming matches Some(f) && open < f.open_ms)
}

/// Every counter that one trade may bump still has room.
pub open spec fn counters_have_room(v: ClockView, t: int) -> bool {
    let q = v.quality;
    let open = bar_open_spec(t);
    &&& q.trades_seen < u64::MAX
    &&& q.late_trade < u32::MAX
    &&& q.out_of_order < u32::MAX
    &&& q.bars_closed < u64::MAX
    &&& bar_open_spec(t) >= i64::MIN
    &&& v.forming matches Some(f) ==> f.trade_count < u32::MAX
    &&& v.forming matches Some(f) ==> (open > f.open_ms ==> {
        &&& open - f.open_ms <= i64::MAX
        &&& q.gap_minutes + (skipped_minutes(f.open_ms as int, open) as u32) <= u32::MAX
    })
}

impl BarClock {
    pub fn new(venue: Venue) -> (r: Self)
        ensures
            r@.venue == venue,
            r@.forming is None,
            r@.last_closed_open_ms is None,
            r@.last_event_ts_ms is None,
            r@.quality == quality_zero(),
            clock_wf(r@),
    {
        BarClock {
            venue,
            forming: None,
            last_closed_open_ms: None,
            quality: QualityVector::default(),
            last_event_ts_ms: None,
        }
    }

    pub fn venue(&self) -> (r: Venue)
        ensures
            r == self@.venue,
    {
        self.venue
    }

    pub fn quality(&self) -> (r: &QualityVector)
        ensures
            *r == self@.quality,
    {
        &self.quality
    }

    pub fn forming(&self) -> (r: Option<BarStamp>)
        ensures
            r == self@.forming,
    {
        self.forming
    }

    pub fn last_closed_open_ms(&self) -> (r: Option<i64>)
        ensures
            r == self@.last_closed_open_ms,
    {
        self.last_closed_open_ms
    }

    /// Counts a reconnect. Closed history and the forming bar stay as they were.
    pub fn mark_reconnect(&mut self)
        requires
            old(self)@.quality.reconnect < u32::MAX,
        ensures
            final(self)@.quality == (QualityVector {
                reconnect: (old(self)@.quality.reconnect + 1) as u32,
                ..old(self)@.quality
            }),
            final(self)@.forming == old(self)@.forming,
            final(self)@.last_closed_open_ms == old(self)@.last_closed_open_ms,
            final(self)@.last_event_ts_ms == old(self)@.last_event_ts_ms,
            final(self)@.venue == old(self)@.venue,
    {
        self.quality.reconnect = self.quality.reconnect + 1;
    }

    /// Whether a trade at `event_ts_ms` can be pushed without any counter
    /// running over.
    pub fn can_push(&self, event_ts_ms: i64) -> (r: bool)
        ensures
            r == counters_have_room(self@, event_ts_ms as int),
    {
        let q = &self.quality;
        if q.trades_seen == u64::MAX || q.late_trade == u32::MAX || q.out_of_order == u32::MAX
            || q.bars_closed == u64::MAX {
            return false;
        }
        let rem = event_ts_ms.checked_rem_euclid(BAR_INTERVAL_MS).unwrap();
        if event_ts_ms < i64::MIN + rem {
            return false;
        }
        let open = event_ts_ms - rem;
        assert(open == bar_open_spec(event_ts_ms as int));
        match self.forming {
            None => true,
            Some(f) => {
                if f.trade_count == u32::MAX {
                    return false;
                }
                if open > f.open_ms {
                    let span: i128 = (open as i128) - (f.open_ms as i128);
                    if span > i64::MAX as i128 {
                        return false;
                    }
                    let skipped: i128 = span / (BAR_INTERVAL_MS as i128) - 1;
                    assert(skipped == skipped_minutes(f.open_ms as int, open as int));
                    let gap = skipped as u32;
                    (q.gap_minutes as u64) + (gap as u64) <= u32::MAX as u64
                } else {
                    true
                }
            },
        }
    }

    /// Push one trade by its exchange event time.
    #[verifier::rlimit(60)]
    pub fn push(&mut self, event_ts_ms: i64) -> (ev: ClockEvent)
        requires
            clock_wf(old(self)@),
            counters_have_room(old(self)@, event_ts_ms as int),
        ensures
            clock_wf(final(self)@),
            final(self)@.venue == old(self)@.venue,
            ({
                let o = old(self)@;
                let n = final(self)@;
                let t = event_ts_ms as int;
                let open = bar_open_spec(t);
                &&& n.quality.trades_seen == o.quality.trades_seen + 1
                &&& n.quality.out_of_order == (if (o.last_event_ts_ms matches Some(l) && t < l) {
                    o.quality.out_of_order + 1
                } else {
                    o.quality.out_of_order as int
                })
                &&& n.last_event_ts_ms == Some(
                    match o.last_event_ts_ms {
                        Some(l) => if l < event_ts_ms { event_ts_ms } else { l },
                        None => event_ts_ms,
                    },
                )
                &&& n.quality.reconnect == o.quality.reconnect
                &&& n.quality.late_trade == (if is_late(o, t) {
                    o.quality.late_trade + 1
                } else {
                    o.quality.late_trade as int
                })
                &&& (ev is Late <==> is_late(o, t))
                &&& ev is Late ==> {
                    &&& n.forming == o.forming
                    &&& n.last_closed_open_ms == o.last_closed_open_ms
                    &&& n.quality.bars_closed == o.quality.bars_closed
                    &&& n.quality.gap_minutes == o.quality.gap_minutes
                }
                &&& ev matches ClockEvent::Applied { closed, opened, sets_open, sets_close } ==> {
                    let f = n.forming->Some_0;
                    &&& n.forming is Some
                    &&& f.open_ms == open
                    // a trade of a later minute closes the forming bar, as it was
                    &&& (closed is Some <==> (o.forming matches Some(g) && open > g.open_ms))
                    &&& closed matches Some(b) ==> {
                        &&& o.forming == Some(b)
                        &&& n.last_closed_open_ms == Some(b.open_ms)
                        &&& n.quality.bars_closed == o.quality.bars_closed + 1
                        &&& n.quality.gap_minutes == o.quality.gap_minutes + (skipped_minutes(
                            b.open_ms as int,
                            open,
                        ) as u32)
                    }
                    &&& closed is None ==> {
                        &&& n.last_closed_open_ms == o.last_closed_open_ms
                        &&& n.quality.bars_closed == o.quality.bars_closed
                        &&& n.quality.gap_minutes == o.quality.gap_minutes
                    }
                    &&& (opened <==> (closed is Some || o.forming is None))
                    &&& opened ==> f == (BarStamp {
                        open_ms: open as i64,
                        first_trade_ts_ms: event_ts_ms,
                        last_trade_ts_ms: event_ts_ms,
                        trade_count: 1,
                    }) && sets_open && sets_close
                    &&& !opened ==> {
                        let g = o.forming->Some_0;
                        &&& sets_open == (t < g.first_trade_ts_ms)
                        &&& sets_close == (t >= g.last_trade_ts_ms)
                        &&& f == (BarStamp {
                            open_ms: g.open_ms,
                            first_trade_ts_ms: if sets_open { event_ts_ms } else { g.first_trade_ts_ms },
                            last_trade_ts_ms: if sets_close { event_ts_ms } else { g.last_trade_ts_ms },
                            trade_count: (g.trade_count + 1) as u32,
                        })
                    }
                }
            }),
    {
        self.quality.trades_seen = self.quality.trades_seen + 1;
        let open = bar_open_ms(event_ts_ms);
        match self.last_event_ts_ms {
            Some(last) => {
                if event_ts_ms < last {
                    self.quality.out_of_order = self.quality.out_of_order + 1;
                }
                self.last_event_ts_ms = Some(if last < event_ts_ms { event_ts_ms } else { last });
            },
            None => {
                self.last_event_ts_ms = Some(event_ts_ms);
            },
        }
        if let Some(last_closed) = self.last_closed_open_ms {
            if open <= last_closed {
                self.quality.late_trade = self.quality.late_trade + 1;
                return ClockEvent::Late;
            }
        }
        let mut closed: Option<BarStamp> = None;
        if let Some(f) = self.forming {
            if open > f.open_ms {
                let gap = ((open - f.open_ms) / BAR_INTERVAL_MS - 1) as u32;
                self.quality.gap_minutes = self.quality.gap_minutes + gap;
                self.last_closed_open_ms = Some(f.open_ms);
                self.quality.bars_closed = self.quality.bars_closed + 1;
                self.forming = None;
                closed = Some(f);
            } else if open < f.open_ms {
                self.quality.late_trade = self.quality.late_trade + 1;
                return ClockEvent::Late;
            }
        }
        match self.forming {
            Some(g) => {
                let sets_open = event_ts_ms < g.first_trade_ts_ms;
                let sets_close = event_ts_ms >= g.last_trade_ts_ms;
                self.forming = Some(
                    BarStamp {
                        open_ms: g.open_ms,
                        first_trade_ts_ms: if sets_open { event_ts_ms } else { g.first_trade_ts_ms },
                        last_trade_ts_ms: if sets_close { event_ts_ms } else { g.last_trade_ts_ms },
                        trade_count: g.trade_count + 1,
                    },
                );
                ClockEvent::Applied { closed, opened: false, sets_open, sets_close }
            },
            None => {
                self.forming = Some(
                    BarStamp {
                        open_ms: open,
                        first_trade_ts_ms: event_ts_ms,
                        last_trade_ts_ms: event_ts_ms,
                        trade_count: 1,
                    },
                );
                ClockEvent::Applied { closed, opened: true, sets_open: true, sets_close: true }
            },
        }
    }

    /// Force-close the forming bar (e.g. end of replay). Does nothing if empty.
    pub fn flush(&mut self) -> (r: Option<BarStamp>)
        requires
            clock_wf(old(self)@),
            old(self)@.forming is Some ==> old(self)@.quality.bars_closed < u64::MAX,
        ensures
            clock_wf(final(self)@),
            r == old(self)@.forming,
            final(self)@.forming is None,
            final(self)@.venue == old(self)@.venue,
            final(self)@.last_event_ts_ms == old(self)@.last_event_ts_ms,
            r matches Some(b) ==> final(self)@.last_closed_open_ms == Some(b.open_ms)
                && final(self)@.quality == (QualityVector {
                bars_closed: (old(self)@.quality.bars_closed + 1) as u64,
                ..old(self)@.quality
            }),
            r is None ==> final(self)@.last_closed_open_ms == old(self)@.last_closed_open_ms
                && final(self)@.quality == old(self)@.quality,
    {
        match self.forming {
            None => None,
            Some(f) => {
                self.forming = None;
                self.last_closed_open_ms = Some(f.open_ms);
                self.quality.bars_closed = self.quality.bars_closed + 1;
                Some(f)
            },
        }
    }
}

} // verus!

verus! {

/// Once a minute is closed, every later trade of that minute (or of an earlier
/// one) is late: a closed bar is never reopened or rewritten.
pub proof fn lemma_closed_minute_stays_closed(v: ClockView, t: int)
    requires
        v.last_closed_open_ms is Some,
        bar_open_spec(t) <= v.last_closed_open_ms->Some_0,
    ensures
        is_late(v, t),
{
}

/// Closed minutes come out in strictly increasing order: the bar a trade
/// closes is after every minute closed before it.
pub proof fn lemma_closed_minutes_increase(v: ClockView, b: BarStamp)
    requires
        clock_wf(v),
        v.forming == Some(b),
    ensures
        v.last_closed_open_ms matches Some(c) ==> c < b.open_ms,
{
}

/// Opening minute of an event time (the bar that holds it).
pub fn open_of(event_ts_ms: i64) -> (r: i64)
    requires
        bar_open_spec(event_ts_ms as int) >= i64::MIN,
    ensures
        r == bar_open_spec(event_ts_ms as int),
{
    bar_open_ms(event_ts_ms)
}

pub fn bar_close_not_wired() -> (r: &'static str)
    ensures
        r@ == "orderflow-clock: stage 1 wired; use BarCutter"@,
{
    "orderflow-clock: stage 1 wired; use BarCutter"
}

} // verus!

verus! {

/// Only closed bars may drive entries.
pub fn entries_need_closed_bar(state: BarState) -> (r: bool)
    ensures
        r == (state == BarState::Closed),
{
    match state {
        BarState::Closed => true,
        BarState::Forming => false,
    }
}

} // verus!
