//! Footprint school rules on integers: the session clock, stacked-imbalance
//! runs and what a stack may mean for a closed bar.
//!
//! Hard rules:
//! - one matrix per venue; never sum Binance + OKX + Bybit volume
//! - unfinished auction is display-only, not an entry
//! - Dale 300% and Valtos 400% stay parallel; do not average to 350%
//! - a stack counts only when aligned with the bar direction; buy and sell
//!   stacks together are chaos and align nothing

use vstd::prelude::*;
use crate::domain::{bar_open_ms, bar_open_spec};

verus! {

pub const WIRED: bool = true;

/// Features the footprint never computes.
pub const FORBIDDEN: [&'static str; 5] = ["vwap", "avwap", "tpo", "market_profile", "naked_poc"];

pub fn unfinished_is_entry() -> (r: bool)
    ensures
        !r,
{
    false
}

pub const HOUR_MS: i64 = 3_600_000;

pub const DAY_MS: i64 = 86_400_000;

#[derive(Debug, Clone, Copy, PartialEq, Eq, Structural)]
pub enum Session {
    Asia,
    Eu,
    Us,
    Thin,
}

pub open spec fn session_name(s: Session) -> Seq<char> {
    match s {
        Session::Asia => "asia"@,
        Session::Eu => "eu"@,
        Session::Us => "us"@,
        Session::Thin => "thin"@,
    }
}

impl Session {
    pub fn as_str(self) -> (r: &'static str)
        ensures
            r@ == session_name(self),
    {
        match self {
            Session::Asia => "asia",
            Session::Eu => "eu",
            Session::Us => "us",
            Session::Thin => "thin",
        }
    }
}

/// UTC hour of the day that holds `t` (ms).
pub open spec fn utc_hour(t: int) -> int {
    (t / (HOUR_MS as int)) % 24
}

/// Asia 00–08, EU 08–13, US 13–21, thin 21–24 (UTC hour of the time).
pub open spec fn session_spec(t: int) -> Session {
    let h = utc_hour(t);
    if h < 8 {
        Session::Asia
    } else if 13 <= h && h < 21 {
        Session::Us
    } else if h >= 21 {
        Session::Thin
    } else {
        Session::Eu
    }
}

pub fn session_of(ts_ms: i64) -> (r: Session)
    ensures
        r == session_spec(ts_ms as int),
{
    let hours = ts_ms.checked_div_euclid(HOUR_MS).unwrap();
    let hour = hours.checked_rem_euclid(24).unwrap();
    if hour < 8 {
        Session::Asia
    } else if 13 <= hour && hour < 21 {
        Session::Us
    } else if hour >= 21 {
        Session::Thin
    } else {
        Session::Eu
    }
}

/// UTC day number of a time in ms.
pub fn utc_day(ts_ms: i64) -> (r: i64)
    ensures
        r == (ts_ms as int) / (DAY_MS as int),
{
    ts_ms.checked_div_euclid(DAY_MS).unwrap()
}

/// (UTC day, session) of the bar that holds `ts_ms`.
pub fn session_key(ts_ms: i64) -> (r: (i64, Session))
    requires
        bar_open_spec(ts_ms as int) >= i64::MIN,
    ensures
        r.0 == bar_open_spec(ts_ms as int) / (DAY_MS as int),
        r.1 == session_spec(bar_open_spec(ts_ms as int)),
{
    let open = bar_open_ms(ts_ms);
    (utc_day(open), session_of(open))
}

/// `s[i..j]` is all true.
pub open spec fn all_true(s: Seq<bool>, i: int, j: int) -> bool {
    forall|k: int| i <= k < j ==> #[trigger] s[k]
}

/// `s[i..i + r]` is all true.
pub open spec fn run_at(s: Seq<bool>, i: int, r: int) -> bool {
    all_true(s, i, i + r)
}

/// `r` is the length of the longest run of consecutive trues in `s`.
pub open spec fn is_longest_run(s: Seq<bool>, r: int) -> bool {
    &&& exists|i: int| 0 <= i && i + r <= s.len() && #[trigger] run_at(s, i, r)
    &&& forall|i: int, j: int| 0 <= i <= j <= s.len() && all_true(s, i, j) ==> j - i <= r
}

/// Longest run of adjacent flagged levels.
pub fn stacked_runs(flags: &[bool]) -> (r: u32)
    requires
        forall|i: int, j: int|
            0 <= i <= j <= flags@.len() && all_true(flags@, i, j) ==> j - i <= u32::MAX,
    ensures
        is_longest_run(flags@, r as int),
{
    let mut best: u32 = 0;
    let mut cur: u32 = 0;
    let mut n: usize = 0;
    let ghost mut at: int = 0;
    while n < flags.len()
        invariant
            n <= flags@.len(),
            forall|i: int, j: int|
                0 <= i <= j <= flags@.len() && all_true(flags@, i, j) ==> j - i <= u32::MAX,
            cur <= n,
            cur <= best,
            all_true(flags@, n - cur, n as int),
            n - cur > 0 ==> !flags@[n - cur - 1],
            0 <= at && at + best <= n && all_true(flags@, at, at + best),
            forall|i: int, j: int| 0 <= i <= j <= n && all_true(flags@, i, j) ==> j - i <= best,
        decreases flags.len() - n,
    {
        if flags[n] {
            assert(all_true(flags@, n - cur, n + 1));
            cur = cur + 1;
            if cur > best {
                best = cur;
                proof {
                    at = n + 1 - cur;
                }
            }
            assert forall|i: int, j: int|
                0 <= i <= j <= n + 1 && all_true(flags@, i, j) implies j - i <= best by {
                if j == n + 1 && i < n + 1 - cur {
                    assert(flags@[n + 1 - cur - 1]);
                }
            }
        } else {
            cur = 0;
            assert forall|i: int, j: int|
                0 <= i <= j <= n + 1 && all_true(flags@, i, j) implies j - i <= best by {
                if j == n + 1 && i < j {
                    assert(flags@[n as int]);
                }
            }
        }
        n += 1;
    }
    proof {
        r_is(flags@, best, at);
    }
    best
}

proof fn r_is(s: Seq<bool>, best: u32, at: int)
    requires
        0 <= at && at + best <= s.len() && all_true(s, at, at + best),
        forall|i: int, j: int| 0 <= i <= j <= s.len() && all_true(s, i, j) ==> j - i <= best,
    ensures
        is_longest_run(s, best as int),
{
    assert(run_at(s, at, best as int));
}

/// What a closed bar's stacks mean at one imbalance ratio.
#[derive(Debug, Clone, Copy, PartialEq, Eq, Structural)]
pub struct StackVerdict {
    /// Buy and sell stacks both reach the minimum: no side is aligned.
    pub chaos: bool,
    /// Stack ≥ min and bar-direction aligned (chaos excluded).
    pub stacked_buy: bool,
    pub stacked_sell: bool,
    pub aligned: bool,
    pub contra: bool,
    /// Enough imbalances, but scattered rather than stacked.
    pub multiple_buy: bool,
    pub multiple_sell: bool,
}

pub fn stack_verdict(
    buy_stack: u32,
    sell_stack: u32,
    n_buy_imb: u32,
    n_sell_imb: u32,
    stack_min: u32,
    bar_up: bool,
    bar_down: bool,
    require_dir: bool,
) -> (v: StackVerdict)
    ensures
        v.chaos == (buy_stack >= stack_min && sell_stack >= stack_min),
        v.stacked_buy == (buy_stack >= stack_min && !v.chaos && (!require_dir || bar_up)),
        v.stacked_sell == (sell_stack >= stack_min && !v.chaos && (!require_dir || bar_down)),
        v.aligned == (!v.chaos && ((buy_stack >= stack_min && bar_up) || (sell_stack >= stack_min
            && bar_down))),
        v.contra == ((buy_stack >= stack_min && bar_down) || (sell_stack >= stack_min && bar_up)),
        v.multiple_buy == (n_buy_imb >= stack_min && buy_stack < stack_min),
        v.multiple_sell == (n_sell_imb >= stack_min && sell_stack < stack_min),
{
    let chaos = buy_stack >= stack_min && sell_stack >= stack_min;
    let buy_raw = buy_stack >= stack_min;
    let sell_raw = sell_stack >= stack_min;
    let mut aligned = (buy_raw && bar_up) || (sell_raw && bar_down);
    if chaos {
        aligned = false;
    }
    StackVerdict {
        chaos,
        stacked_buy: buy_raw && !chaos && (!require_dir || bar_up),
        stacked_sell: sell_raw && !chaos && (!require_dir || bar_down),
        aligned,
        contra: (buy_raw && bar_down) || (sell_raw && bar_up),
        multiple_buy: n_buy_imb >= stack_min && buy_stack < stack_min,
        multiple_sell: n_sell_imb >= stack_min && sell_stack < stack_min,
    }
}

/// A bar never carries a stacked buy and a stacked sell at once, and chaos
/// aligns nothing.
pub proof fn lemma_stack_sides_exclusive(
    buy_stack: u32,
    sell_stack: u32,
    stack_min: u32,
    bar_up: bool,
    bar_down: bool,
    require_dir: bool,
)
    ensures
        ({
            let chaos = buy_stack >= stack_min && sell_stack >= stack_min;
            let sb = buy_stack >= stack_min && !chaos && (!require_dir || bar_up);
            let ss = sell_stack >= stack_min && !chaos && (!require_dir || bar_down);
            !(sb && ss)
        }),
{
}

} // verus!
