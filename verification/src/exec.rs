//! Execution side: intents, the REST priority queue, kill switch and degrade
//! ladder, OKX private acks and client order ids. Live send stays locked.

use vstd::prelude::*;
use crate::domain::{
    is_live_mode, live_gate_spec, live_open_allowed, venue_of_name, GateConfig, LiveDenied, Mode,
    Venue,
};
use crate::text::{
    concat_str, dec_seq, is_ascii_alnum, lemma_dec_alnum, lemma_dec_len, lower_seq, occurs_at,
    pow10, seq_contains, str_contains, str_eq, str_starts_with, string_push, to_ascii_lowercase,
    trim_seq, u64_decimal_padded, zero_pad, ascii_alnum,
};

verus! {

#[derive(Debug, Clone, Copy, PartialEq, Eq, Structural)]
pub enum Side {
    Buy,
    Sell,
}

pub open spec fn side_name(s: Side) -> Seq<char> {
    match s {
        Side::Buy => "buy"@,
        Side::Sell => "sell"@,
    }
}

pub open spec fn opposite_side(s: Side) -> Side {
    match s {
        Side::Buy => Side::Sell,
        Side::Sell => Side::Buy,
    }
}

impl Side {
    pub fn as_str(self) -> (r: &'static str)
        ensures
            r@ == side_name(self),
    {
        match self {
            Side::Buy => "buy",
            Side::Sell => "sell",
        }
    }

    pub fn opposite(self) -> (r: Side)
        ensures
            r == opposite_side(self),
    {
        match self {
            Side::Buy => Side::Sell,
            Side::Sell => Side::Buy,
        }
    }
}

/// Taking the opposite side twice gives the side back, and never the same side once.
pub proof fn lemma_opposite_involutive(s: Side)
    ensures
        opposite_side(opposite_side(s)) == s,
        opposite_side(s) != s,
{
}

#[derive(Debug, Clone, Copy, PartialEq, Eq, Structural)]
pub enum IntentKind {
    ShadowSignal,
    SimOpen,
    Flatten,
    Cancel,
}

#[derive(Debug, Clone, Copy, PartialEq, Eq, Structural)]
pub enum Universe {
    Core,
    Research,
}

impl Default for Universe {
    fn default() -> (r: Self)
        ensures
            r == Universe::Core,
    {
        Universe::Core
    }
}

/// Hard-coded: risk > cancel > flatten > open > query.
#[derive(Debug, Clone, Copy, PartialEq, Eq, PartialOrd, Ord, Structural)]
pub enum RestPriority {
    Risk,
    Cancel,
    Flatten,
    Open,
    Query,
}

/// The priority's number: lower numbers are sent first.
pub open spec fn priority_rank(p: RestPriority) -> u8 {
    match p {
        RestPriority::Risk => 0,
        RestPriority::Cancel => 1,
        RestPriority::Flatten => 2,
        RestPriority::Open => 3,
        RestPriority::Query => 4,
    }
}

impl RestPriority {
    pub fn rank(self) -> (r: u8)
        ensures
            r == priority_rank(self),
    {
        match self {
            RestPriority::Risk => 0,
            RestPriority::Cancel => 1,
            RestPriority::Flatten => 2,
            RestPriority::Open => 3,
            RestPriority::Query => 4,
        }
    }
}

#[derive(Debug, Clone, PartialEq, Eq)]
pub struct RestOp {
    pub priority: RestPriority,
    pub name: String,
}

/// An operation as the queue's view sees it: its priority and its name.
pub open spec fn op_view(op: RestOp) -> (RestPriority, Seq<char>) {
    (op.priority, op.name@)
}

/// `i` is the first index of `s` whose priority rank is the least.
pub open spec fn first_min(s: Seq<(RestPriority, Seq<char>)>, i: int) -> bool {
    &&& 0 <= i < s.len()
    &&& forall|j: int| 0 <= j < i ==> priority_rank(#[trigger] s[j].0) > priority_rank(s[i].0)
    &&& forall|j: int| 0 <= j < s.len() ==> priority_rank(#[trigger] s[j].0) >= priority_rank(s[i].0)
}

/// Pending REST operations in arrival order. Never sends anything itself.
pub struct RestQueue {
    items: Vec<RestOp>,
}

impl View for RestQueue {
    type V = Seq<(RestPriority, Seq<char>)>;

    closed spec fn view(&self) -> Seq<(RestPriority, Seq<char>)> {
        self.items@.map_values(|op: RestOp| op_view(op))
    }
}

impl Default for RestQueue {
    fn default() -> (r: Self)
        ensures
            r@ == Seq::<(RestPriority, Seq<char>)>::empty(),
    {
        RestQueue::new()
    }
}

impl RestQueue {
    pub fn new() -> (r: Self)
        ensures
            r@ == Seq::<(RestPriority, Seq<char>)>::empty(),
    {
        let r = RestQueue { items: Vec::new() };
        assert(r@ =~= Seq::<(RestPriority, Seq<char>)>::empty());
        r
    }

    pub fn push(&mut self, priority: RestPriority, name: &str)
        ensures
            final(self)@ == old(self)@.push((priority, name@)),
    {
        let op = RestOp { priority, name: name.to_string() };
        self.items.push(op);
        assert(self@ =~= old(self)@.push((priority, name@)));
    }

    /// Removes and returns the first operation of the least priority number.
    pub fn pop(&mut self) -> (r: Option<RestOp>)
        ensures
            r is None <==> old(self)@.len() == 0,
            r is None ==> final(self)@ == old(self)@,
            r matches Some(op) ==> exists|i: int|
                first_min(old(self)@, i) && op_view(op) == old(self)@[i] && final(self)@ == old(
                    self,
                )@.remove(i),
    {
        let n = self.items.len();
        if n == 0 {
            return None;
        }
        let ghost s = self@;
        let mut best: usize = 0;
        let mut best_rank: u8 = self.items[0].priority.rank();
        let mut i: usize = 1;
        while i < n
            invariant
                n == self.items@.len(),
                s == self@,
                s.len() == n,
                1 <= i <= n,
                best < i,
                best_rank == priority_rank(s[best as int].0),
                forall|j: int| 0 <= j < best ==> priority_rank(#[trigger] s[j].0) > best_rank,
                forall|j: int| 0 <= j < i ==> priority_rank(#[trigger] s[j].0) >= best_rank,
            decreases n - i,
        {
            let r = self.items[i].priority.rank();
            assert(s[i as int] == op_view(self.items@[i as int]));
            if r < best_rank {
                best = i;
                best_rank = r;
            }
            i += 1;
        }
        assert(first_min(s, best as int));
        let op = self.items.remove(best);
        assert(self@ =~= s.remove(best as int));
        Some(op)
    }

    pub fn is_empty(&self) -> (r: bool)
        ensures
            r == (self@.len() == 0),
    {
        self.items.len() == 0
    }

    pub fn len(&self) -> (r: usize)
        ensures
            r == self@.len(),
    {
        self.items.len()
    }
}

/// A queued risk operation is always sent before anything of another priority.
pub proof fn lemma_risk_first(s: Seq<(RestPriority, Seq<char>)>, i: int, k: int)
    requires
        first_min(s, i),
        0 <= k < s.len(),
        s[k].0 == RestPriority::Risk,
    ensures
        s[i].0 == RestPriority::Risk,
{
    assert(priority_rank(s[k].0) >= priority_rank(s[i].0));
}

/// Among operations of one priority the earliest is sent first.
pub proof fn lemma_fifo_within_priority(s: Seq<(RestPriority, Seq<char>)>, i: int, k: int)
    requires
        first_min(s, i),
        0 <= k < s.len(),
        s[k].0 == s[i].0,
    ensures
        i <= k,
{
    if k < i {
        assert(priority_rank(s[k].0) > priority_rank(s[i].0));
    }
}

} // verus!

verus! {

#[derive(Debug, Clone, Copy, PartialEq, Eq, Structural)]
pub enum KillAction {
    Off,
    CancelAll,
    FlattenAll,
    ReduceOnly,
    Halt,
}

/// The degrade ladder, mildest first. Each step sheds more than the one before.
#[derive(Debug, Clone, Copy, PartialEq, Eq, PartialOrd, Ord, Structural)]
pub enum Degrade {
    /// Nothing shed.
    Normal,
    /// Drop research universe first.
    StopResearch,
    /// Then low-weight scripts.
    StopLowWeight,
    /// Then new opens. Flatten and risk still run.
    StopOpens,
    /// Last: flatten / risk only.
    RiskOnly,
}

pub open spec fn degrade_level(d: Degrade) -> u8 {
    match d {
        Degrade::Normal => 0,
        Degrade::StopResearch => 1,
        Degrade::StopLowWeight => 2,
        Degrade::StopOpens => 3,
        Degrade::RiskOnly => 4,
    }
}

impl Degrade {
    pub fn level(self) -> (r: u8)
        ensures
            r == degrade_level(self),
    {
        match self {
            Degrade::Normal => 0,
            Degrade::StopResearch => 1,
            Degrade::StopLowWeight => 2,
            Degrade::StopOpens => 3,
            Degrade::RiskOnly => 4,
        }
    }
}

#[derive(Debug, Clone)]
pub struct KillState {
    pub action: KillAction,
    pub reason: String,
    pub tripped_at_ms: i64,
}

impl Default for KillState {
    fn default() -> (r: Self)
        ensures
            r.action == KillAction::Off,
            r.reason@ == Seq::<char>::empty(),
            r.tripped_at_ms == 0,
    {
        KillState { action: KillAction::Off, reason: String::new(), tripped_at_ms: 0 }
    }
}

/// Why a new open is refused, in the order the checks run.
#[derive(Debug, Clone, Copy, PartialEq, Eq, Structural)]
pub enum OpenDenied {
    KillHalt,
    KillReduceOnly,
    DegradeStopOpens,
    DegradeLowWeight,
    DegradeResearch,
    DailyLoss,
    LiqBuffer,
    MaxDayTrades,
}

pub open spec fn open_denied_name(d: OpenDenied) -> Seq<char> {
    match d {
        OpenDenied::KillHalt => "kill_halt"@,
        OpenDenied::KillReduceOnly => "kill_reduce_only"@,
        OpenDenied::DegradeStopOpens => "degrade_stop_opens"@,
        OpenDenied::DegradeLowWeight => "degrade_low_weight"@,
        OpenDenied::DegradeResearch => "degrade_research"@,
        OpenDenied::DailyLoss => "daily_loss"@,
        OpenDenied::LiqBuffer => "liq_buffer"@,
        OpenDenied::MaxDayTrades => "max_day_trades"@,
    }
}

impl OpenDenied {
    pub fn as_str(self) -> (r: &'static str)
        ensures
            r@ == open_denied_name(self),
    {
        match self {
            OpenDenied::KillHalt => "kill_halt",
            OpenDenied::KillReduceOnly => "kill_reduce_only",
            OpenDenied::DegradeStopOpens => "degrade_stop_opens",
            OpenDenied::DegradeLowWeight => "degrade_low_weight",
            OpenDenied::DegradeResearch => "degrade_research",
            OpenDenied::DailyLoss => "daily_loss",
            OpenDenied::LiqBuffer => "liq_buffer",
            OpenDenied::MaxDayTrades => "max_day_trades",
        }
    }
}

/// What the risk engine reads to decide on a new open. The two loss checks are
/// measured on prices and arrive here as their verdicts.
#[derive(Debug, Clone, Copy, PartialEq, Eq, Structural)]
pub struct OpenCheck {
    pub kill: KillAction,
    pub degrade: Degrade,
    pub low_weight: bool,
    pub universe: Universe,
    pub daily_loss_tripped: bool,
    pub liq_buffer_breached: bool,
    pub day_trades: u32,
    pub max_day_trades: u32,
}

/// Kill switch first, then the degrade ladder, then the loss limits, then the
/// day-trade count.
pub open spec fn open_gate_spec(c: OpenCheck) -> Result<(), OpenDenied> {
    if c.kill == KillAction::Halt {
        Err(OpenDenied::KillHalt)
    } else if c.kill != KillAction::Off {
        Err(OpenDenied::KillReduceOnly)
    } else if degrade_level(c.degrade) >= 3 {
        Err(OpenDenied::DegradeStopOpens)
    } else if degrade_level(c.degrade) >= 2 && c.low_weight {
        Err(OpenDenied::DegradeLowWeight)
    } else if degrade_level(c.degrade) >= 1 && c.universe == Universe::Research {
        Err(OpenDenied::DegradeResearch)
    } else if c.daily_loss_tripped {
        Err(OpenDenied::DailyLoss)
    } else if c.liq_buffer_breached {
        Err(OpenDenied::LiqBuffer)
    } else if c.day_trades >= c.max_day_trades {
        Err(OpenDenied::MaxDayTrades)
    } else {
        Ok(())
    }
}

pub fn open_gate(c: &OpenCheck) -> (r: Result<(), OpenDenied>)
    ensures
        r == open_gate_spec(*c),
{
    match c.kill {
        KillAction::Halt => return Err(OpenDenied::KillHalt),
        KillAction::ReduceOnly | KillAction::FlattenAll | KillAction::CancelAll => {
            return Err(OpenDenied::KillReduceOnly)
        },
        KillAction::Off => {},
    }
    let level = c.degrade.level();
    if level >= 3 {
        return Err(OpenDenied::DegradeStopOpens);
    }
    if level >= 2 && c.low_weight {
        return Err(OpenDenied::DegradeLowWeight);
    }
    if level >= 1 && c.universe == Universe::Research {
        return Err(OpenDenied::DegradeResearch);
    }
    if c.daily_loss_tripped {
        return Err(OpenDenied::DailyLoss);
    }
    if c.liq_buffer_breached {
        return Err(OpenDenied::LiqBuffer);
    }
    if c.day_trades >= c.max_day_trades {
        return Err(OpenDenied::MaxDayTrades);
    }
    Ok(())
}

/// Flatten and risk operations run under every kill action but `Halt`.
pub fn flatten_gate(kill: KillAction) -> (r: Result<(), OpenDenied>)
    ensures
        r is Ok <==> kill != KillAction::Halt,
        r is Err ==> r == Err::<(), OpenDenied>(OpenDenied::KillHalt),
{
    match kill {
        KillAction::Halt => Err(OpenDenied::KillHalt),
        _ => Ok(()),
    }
}

/// A stricter degrade step never lets through an open that a milder one refused.
pub proof fn lemma_degrade_monotone(c: OpenCheck, d: Degrade)
    requires
        degrade_level(c.degrade) <= degrade_level(d),
        open_gate_spec(c) is Err,
    ensures
        open_gate_spec(OpenCheck { degrade: d, ..c }) is Err,
{
}

/// Any kill action other than `Off` blocks every new open.
pub proof fn lemma_kill_blocks_opens(c: OpenCheck)
    requires
        c.kill != KillAction::Off,
    ensures
        open_gate_spec(c) is Err,
{
}

/// From `StopOpens` on, no open passes, whatever else holds.
pub proof fn lemma_stop_opens_blocks_all(c: OpenCheck)
    requires
        degrade_level(c.degrade) >= 3,
    ensures
        open_gate_spec(c) is Err,
{
}

/// The research universe is shed before the core: under `StopResearch` a core,
/// full-weight open meets no degrade refusal.
pub proof fn lemma_research_shed_before_core(c: OpenCheck)
    requires
        c.kill == KillAction::Off,
        c.degrade == Degrade::StopResearch,
    ensures
        c.universe == Universe::Research ==> open_gate_spec(c) == Err::<(), OpenDenied>(
            OpenDenied::DegradeResearch,
        ),
        c.universe == Universe::Core ==> open_gate_spec(c) != Err::<(), OpenDenied>(
            OpenDenied::DegradeResearch,
        ) && open_gate_spec(c) != Err::<(), OpenDenied>(OpenDenied::DegradeLowWeight)
            && open_gate_spec(c) != Err::<(), OpenDenied>(OpenDenied::DegradeStopOpens),
{
}

/// What the loss checks trip when no kill is active: the daily loss limit
/// first (reduce only), then the liquidation buffer (flatten all). An active
/// kill is never overwritten.
pub open spec fn auto_kill_spec(current: KillAction, daily_loss_tripped: bool, liq_buffer_breached: bool) -> Option<(KillAction, Seq<char>)> {
    if current != KillAction::Off {
        None
    } else if daily_loss_tripped {
        Some((KillAction::ReduceOnly, "daily_loss"@))
    } else if liq_buffer_breached {
        Some((KillAction::FlattenAll, "liq_buffer"@))
    } else {
        None
    }
}

/// An active kill is never overwritten by the loss checks, whatever they report.
pub proof fn lemma_active_kill_kept(current: KillAction, daily_loss_tripped: bool, liq_buffer_breached: bool)
    requires
        current != KillAction::Off,
    ensures
        auto_kill_spec(current, daily_loss_tripped, liq_buffer_breached) is None,
{
}

/// With no kill active, a check trips exactly when one reports a breach; the
/// daily loss limit wins and only reduces, the liquidation buffer alone flattens.
pub proof fn lemma_auto_kill_trips(daily_loss_tripped: bool, liq_buffer_breached: bool)
    ensures
        auto_kill_spec(KillAction::Off, daily_loss_tripped, liq_buffer_breached) is Some <==> (
        daily_loss_tripped || liq_buffer_breached),
        daily_loss_tripped ==> auto_kill_spec(KillAction::Off, daily_loss_tripped, liq_buffer_breached)
            == Some((KillAction::ReduceOnly, "daily_loss"@)),
        (!daily_loss_tripped && liq_buffer_breached) ==> auto_kill_spec(
            KillAction::Off,
            daily_loss_tripped,
            liq_buffer_breached,
        ) == Some((KillAction::FlattenAll, "liq_buffer"@)),
{
}

pub fn auto_kill(current: KillAction, daily_loss_tripped: bool, liq_buffer_breached: bool) -> (r: Option<(KillAction, &'static str)>)
    ensures
        match r {
            Some((a, s)) => auto_kill_spec(current, daily_loss_tripped, liq_buffer_breached) == Some((a, s@)),
            None => auto_kill_spec(current, daily_loss_tripped, liq_buffer_breached) is None,
        },
{
    if current != KillAction::Off {
        None
    } else if daily_loss_tripped {
        Some((KillAction::ReduceOnly, "daily_loss"))
    } else if liq_buffer_breached {
        Some((KillAction::FlattenAll, "liq_buffer"))
    } else {
        None
    }
}

/// Whether tripping `action` drops every working order.
pub fn kill_clears_working(action: KillAction) -> (r: bool)
    ensures
        r <==> (action == KillAction::CancelAll || action == KillAction::Halt || action
            == KillAction::FlattenAll),
{
    match action {
        KillAction::CancelAll | KillAction::Halt | KillAction::FlattenAll => true,
        KillAction::ReduceOnly | KillAction::Off => false,
    }
}

} // verus!

verus! {

/// Private decode is on. Actual HTTP/WS write stays off.
pub const LIVE_SEND_WIRED: bool = false;

/// Live HTTP write is not wired. Private decode and sim matching are.
pub const WIRED: bool = false;

pub const SIM_WIRED: bool = true;

pub const PRIVATE_WIRED: bool = true;

pub const LIVE_WIRED: bool = false;

/// The refusal that every live submission meets: the first lock of the live
/// gate that holds, or else the unwired execution path.
pub open spec fn live_send_refusal(mode: Mode, cfg: GateConfig) -> LiveDenied {
    match live_gate_spec(mode, cfg) {
        Err(e) => e,
        Ok(()) => LiveDenied::ExecNotWired,
    }
}

/// A live open is never submitted: it fails with the refusal of the live lock.
pub fn submit_live_open(mode: Mode, cfg: &GateConfig) -> (r: Result<(), LiveDenied>)
    ensures
        r == Err::<(), LiveDenied>(live_send_refusal(mode, *cfg)),
{
    live_open_allowed(mode, cfg)?;
    Err(LiveDenied::ExecNotWired)
}

/// Both locks: calibration and live flags, then the `live_send` switch, then
/// this crate. Even with every flag on, sending stays refused.
pub fn live_send_allowed(mode: Mode, cfg: &GateConfig) -> (r: Result<(), LiveDenied>)
    ensures
        r == Err::<(), LiveDenied>(live_send_refusal(mode, *cfg)),
{
    live_open_allowed(mode, cfg)?;
    if !cfg.live_send || !LIVE_SEND_WIRED {
        return Err(LiveDenied::ExecNotWired);
    }
    Err(LiveDenied::ExecNotWired)
}

#[verifier::external_type_specification]
#[verifier::external_body]
pub struct ExJsonValue(serde_json::Value);

/// Transport that encodes but never writes bytes.
pub fn dispatch_live(mode: Mode, cfg: &GateConfig, payload: &serde_json::Value) -> (r: Result<(), LiveDenied>)
    ensures
        r == Err::<(), LiveDenied>(live_send_refusal(mode, *cfg)),
{
    live_send_allowed(mode, cfg)
}

/// Where the gateway sends an intent.
#[derive(Debug, Clone, Copy, PartialEq, Eq, Structural)]
pub enum SubmitRoute {
    /// A price copied from a peer venue onto OKX: refused.
    CopiedPrice,
    /// Execution is OKX only: refused.
    NotOkx,
    /// A live intent, or a live mode: refused with the live lock's reason.
    LiveRefused(LiveDenied),
    ShadowOnly,
    Cancel,
    Flatten,
    /// A sim open outside sim mode: refused.
    NotSim,
    Open,
}

pub open spec fn submit_route_spec(
    copied_price: bool,
    venue: Venue,
    live: bool,
    mode: Mode,
    kind: IntentKind,
    cfg: GateConfig,
) -> SubmitRoute {
    if copied_price {
        SubmitRoute::CopiedPrice
    } else if venue != Venue::Okx {
        SubmitRoute::NotOkx
    } else if live || is_live_mode(mode) {
        SubmitRoute::LiveRefused(live_send_refusal(mode, cfg))
    } else {
        match kind {
            IntentKind::ShadowSignal => SubmitRoute::ShadowOnly,
            IntentKind::Cancel => SubmitRoute::Cancel,
            IntentKind::Flatten => SubmitRoute::Flatten,
            IntentKind::SimOpen => if mode != Mode::Sim {
                SubmitRoute::NotSim
            } else {
                SubmitRoute::Open
            },
        }
    }
}

/// The first decision of a submission: refusals before any state changes.
pub fn submit_route(
    copied_price: bool,
    venue: Venue,
    live: bool,
    mode: Mode,
    kind: IntentKind,
    cfg: &GateConfig,
) -> (r: SubmitRoute)
    ensures
        r == submit_route_spec(copied_price, venue, live, mode, kind, *cfg),
        (live || is_live_mode(mode)) ==> !(r is Open || r is ShadowOnly || r is Cancel
            || r is Flatten),
{
    if copied_price {
        return SubmitRoute::CopiedPrice;
    }
    if venue != Venue::Okx {
        return SubmitRoute::NotOkx;
    }
    if live || mode.is_live() {
        let reason = match submit_live_open(mode, cfg) {
            Err(e) => e,
            Ok(()) => LiveDenied::ExecNotWired,
        };
        return SubmitRoute::LiveRefused(reason);
    }
    match kind {
        IntentKind::ShadowSignal => SubmitRoute::ShadowOnly,
        IntentKind::Cancel => SubmitRoute::Cancel,
        IntentKind::Flatten => SubmitRoute::Flatten,
        IntentKind::SimOpen => {
            if mode != Mode::Sim {
                SubmitRoute::NotSim
            } else {
                SubmitRoute::Open
            }
        },
    }
}

/// Why an open that passed routing is still refused before sizing.
#[derive(Debug, Clone, Copy, PartialEq, Eq, Structural)]
pub enum OpenPrecheck {
    AccountModeMismatch,
    Risk(OpenDenied),
    NoLimit,
    NoInvalidation,
}

pub open spec fn open_precheck_spec(account_mismatch: bool, c: OpenCheck, has_limit: bool, has_invalidation: bool) -> Result<(), OpenPrecheck> {
    if account_mismatch {
        Err(OpenPrecheck::AccountModeMismatch)
    } else if open_gate_spec(c) is Err {
        Err(OpenPrecheck::Risk(open_gate_spec(c)->Err_0))
    } else if !has_limit {
        Err(OpenPrecheck::NoLimit)
    } else if !has_invalidation {
        Err(OpenPrecheck::NoInvalidation)
    } else {
        Ok(())
    }
}

/// Account mode first, then the risk gate, then the two prices an open needs.
pub fn open_precheck(account_mismatch: bool, c: &OpenCheck, has_limit: bool, has_invalidation: bool) -> (r: Result<(), OpenPrecheck>)
    ensures
        r == open_precheck_spec(account_mismatch, *c, has_limit, has_invalidation),
{
    if account_mismatch {
        return Err(OpenPrecheck::AccountModeMismatch);
    }
    if let Err(d) = open_gate(c) {
        return Err(OpenPrecheck::Risk(d));
    }
    if !has_limit {
        return Err(OpenPrecheck::NoLimit);
    }
    if !has_invalidation {
        return Err(OpenPrecheck::NoInvalidation);
    }
    Ok(())
}

} // verus!

verus! {

#[derive(Debug, Clone, Copy, PartialEq, Eq, Structural)]
pub enum OrderState {
    Live,
    PartiallyFilled,
    Filled,
    Canceled,
    Rejected,
}

/// OKX order states by name; any other name reads as rejected.
pub open spec fn order_state_of(s: Seq<char>) -> OrderState {
    if s == "live"@ {
        OrderState::Live
    } else if s == "partially_filled"@ {
        OrderState::PartiallyFilled
    } else if s == "filled"@ {
        OrderState::Filled
    } else if s == "canceled"@ || s == "cancelled"@ {
        OrderState::Canceled
    } else {
        OrderState::Rejected
    }
}

pub fn parse_state(s: &str) -> (r: OrderState)
    ensures
        r == order_state_of(s@),
{
    if str_eq(s, "live") {
        OrderState::Live
    } else if str_eq(s, "partially_filled") {
        OrderState::PartiallyFilled
    } else if str_eq(s, "filled") {
        OrderState::Filled
    } else if str_eq(s, "canceled") || str_eq(s, "cancelled") {
        OrderState::Canceled
    } else {
        OrderState::Rejected
    }
}

/// A state after which the order leaves the working set.
pub fn is_terminal(st: OrderState) -> (r: bool)
    ensures
        r <==> (st == OrderState::Canceled || st == OrderState::Filled || st == OrderState::Rejected),
{
    match st {
        OrderState::Canceled | OrderState::Filled | OrderState::Rejected => true,
        _ => false,
    }
}

#[derive(Debug, Clone, Copy, PartialEq, Eq, Structural)]
pub enum RejectClass {
    /// Not a rejection: the venue accepted.
    Accepted,
    Precision,
    Spread,
    Position,
    Risk,
    RateLimit,
    Other,
}

/// Reject class of an OKX code and message: the code `"0"` or no code is an
/// accept; otherwise the lower-cased `"{code} {msg}"` is searched for keywords
/// in a fixed order, with a few codes known by number.
pub open spec fn reject_class_of(code: Seq<char>, msg: Seq<char>) -> RejectClass {
    let blob = lower_seq(code + " "@ + msg);
    if code == "0"@ || code.len() == 0 {
        RejectClass::Accepted
    } else if seq_contains(blob, "precision"@) || seq_contains(blob, "tick"@) || code == "51000"@ {
        RejectClass::Precision
    } else if seq_contains(blob, "spread"@) || code == "51119"@ {
        RejectClass::Spread
    } else if seq_contains(blob, "position"@) || seq_contains(blob, "margin"@) {
        RejectClass::Position
    } else if seq_contains(blob, "rate"@) || seq_contains(blob, "limit"@) || code == "50011"@ {
        RejectClass::RateLimit
    } else if seq_contains(blob, "risk"@) {
        RejectClass::Risk
    } else {
        RejectClass::Other
    }
}

pub fn classify_reject(code: &str, msg: &str) -> (r: RejectClass)
    ensures
        r == reject_class_of(code@, msg@),
{
    if str_eq(code, "0") || code.unicode_len() == 0 {
        return RejectClass::Accepted;
    }
    let raw = concat_str(concat_str(code.to_string(), " "), msg);
    let blob_s = to_ascii_lowercase(raw.as_str());
    let blob = blob_s.as_str();
    if str_contains(blob, "precision") || str_contains(blob, "tick") || str_eq(code, "51000") {
        RejectClass::Precision
    } else if str_contains(blob, "spread") || str_eq(code, "51119") {
        RejectClass::Spread
    } else if str_contains(blob, "position") || str_contains(blob, "margin") {
        RejectClass::Position
    } else if str_contains(blob, "rate") || str_contains(blob, "limit") || str_eq(code, "50011") {
        RejectClass::RateLimit
    } else if str_contains(blob, "risk") {
        RejectClass::Risk
    } else {
        RejectClass::Other
    }
}

/// `symbol` names SUI, ASCII case ignored.
pub open spec fn is_sui_spec(symbol: Seq<char>) -> bool {
    lower_seq(symbol) == "sui"@
}

pub fn is_sui(symbol: &str) -> (r: bool)
    ensures
        r == is_sui_spec(symbol@),
{
    let l = to_ascii_lowercase(symbol);
    str_eq(l.as_str(), "sui")
}

/// The OKX instrument of a symbol: SUI's for SUI, SOL's for everything else.
pub fn inst_id_for(symbol: &str, sol_inst_id: &str, sui_inst_id: &str) -> (r: String)
    ensures
        r@ == (if is_sui_spec(symbol@) { sui_inst_id@ } else { sol_inst_id@ }),
{
    if is_sui(symbol) {
        sui_inst_id.to_string()
    } else {
        sol_inst_id.to_string()
    }
}

/// The symbol tag in a client order id.
pub open spec fn cl_tag(symbol: Seq<char>) -> Seq<char> {
    if is_sui_spec(symbol) {
        "sui"@
    } else {
        "sol"@
    }
}

/// The script letter in a client order id: the script's first char when it is
/// ASCII alphanumeric, else `X`.
pub open spec fn cl_script_char(script: Seq<char>) -> char {
    if script.len() > 0 && is_ascii_alnum(script[0]) {
        script[0]
    } else {
        'X'
    }
}

/// `of{tag}{script}{seq:08}`.
pub open spec fn cl_ord_id_spec(symbol: Seq<char>, script: Seq<char>, seq: u64) -> Seq<char> {
    "of"@ + cl_tag(symbol) + seq![cl_script_char(script)] + zero_pad(dec_seq(seq as nat), 8)
}

/// A client order id OKX takes: 1 to 32 ASCII alphanumerics.
pub open spec fn okx_cl_ord_id_ok(id: Seq<char>) -> bool {
    &&& 1 <= id.len() <= 32
    &&& forall|i: int| 0 <= i < id.len() ==> is_ascii_alnum(#[trigger] id[i])
}

/// OKX clOrdId: 1 to 32 alphanumerics.
pub fn cl_ord_id(symbol: &str, script: &str, seq: u64) -> (r: String)
    ensures
        r@ == cl_ord_id_spec(symbol@, script@, seq),
        okx_cl_ord_id_ok(r@),
        r@.subrange(0, 5) == "of"@ + cl_tag(symbol@),
{
    let tag = if is_sui(symbol) {
        "sui"
    } else {
        "sol"
    };
    let sc = if script.unicode_len() > 0 && ascii_alnum(script.get_char(0)) {
        script.get_char(0)
    } else {
        'X'
    };
    let mut id = concat_str(String::from_str("of"), tag);
    string_push(&mut id, sc);
    let digits = u64_decimal_padded(seq, 8);
    let id = concat_str(id, digits.as_str());
    proof {
        reveal_strlit("of");
        reveal_strlit("sui");
        reveal_strlit("sol");
        lemma_dec_alnum(seq as nat);
        assert(pow10(20) == 100000000000000000000nat) by {
            reveal_with_fuel(pow10, 21);
        }
        lemma_dec_len(seq as nat, 20);
        let d = zero_pad(dec_seq(seq as nat), 8);
        assert(d.len() <= 20);
        assert forall|i: int| 0 <= i < d.len() implies is_ascii_alnum(#[trigger] d[i]) by {
            let ds = dec_seq(seq as nat);
            if ds.len() < 8 && i < 8 - ds.len() {
            } else if ds.len() < 8 {
                assert(d[i] == ds[i - (8 - ds.len())]);
            }
        }
        let v = id@;
        assert(v == cl_ord_id_spec(symbol@, script@, seq));
        assert forall|i: int| 0 <= i < v.len() implies is_ascii_alnum(#[trigger] v[i]) by {
            if i >= 6 {
                assert(v[i] == d[i - 6]);
            }
        }
        assert(v.subrange(0, 5) =~= "of"@ + cl_tag(symbol@));
    }
    id
}

/// Exchange instrument to symbol: SUI instruments to `SUI`, the rest to `SOL`.
pub fn symbol_from_inst(inst_id: &str) -> (r: String)
    ensures
        r@ == (if occurs_at(inst_id@, "SUI"@, 0) { "SUI"@ } else { "SOL"@ }),
{
    if str_starts_with(inst_id, "SUI") {
        String::from_str("SUI")
    } else {
        String::from_str("SOL")
    }
}

/// The check before encoding an order: at most 32 bytes, all ASCII alphanumeric.
pub fn valid_cl_ord_id(cl: &str) -> (r: bool)
    ensures
        r == (cl@.len() <= 32 && forall|i: int| 0 <= i < cl@.len() ==> is_ascii_alnum(#[trigger] cl@[i])),
{
    let n = cl.unicode_len();
    if n > 32 {
        return false;
    }
    let mut i: usize = 0;
    while i < n
        invariant
            n == cl@.len(),
            i <= n,
            forall|j: int| 0 <= j < i ==> is_ascii_alnum(#[trigger] cl@[j]),
        decreases n - i,
    {
        if !ascii_alnum(cl.get_char(i)) {
            return false;
        }
        i += 1;
    }
    true
}

#[derive(Debug, Clone)]
pub struct AccountSnap {
    pub pos_mode: String,
    pub td_mode: Option<String>,
}

/// Whether the account's position mode differs from the expected one (an
/// empty mode says nothing).
pub fn account_mode_mismatch(snap: &AccountSnap, expected_pos_mode: &str) -> (r: bool)
    ensures
        r == (snap.pos_mode@.len() > 0 && snap.pos_mode@ != expected_pos_mode@),
{
    snap.pos_mode.unicode_len() > 0 && !str_eq(snap.pos_mode.as_str(), expected_pos_mode)
}

} // verus!

verus! {

/// Whether `text` parses as one JSON document.
pub uninterp spec fn json_valid(text: Seq<char>) -> bool;

/// The string under `key` in the top-level object of the JSON `text`.
pub uninterp spec fn json_top_str(text: Seq<char>, key: Seq<char>) -> Option<Seq<char>>;

/// The string under `key` in the first element of the array under `arr_key`
/// in the top-level object of the JSON `text`.
pub uninterp spec fn json_first_row_str(text: Seq<char>, arr_key: Seq<char>, key: Seq<char>) -> Option<
    Seq<char>,
>;

/// `serde_json::from_str::<Value>` succeeds on `text`.
#[verifier::external_body]
fn json_parses(text: &str) -> (r: bool)
    ensures
        r == json_valid(text@),
{
    serde_json::from_str::<serde_json::Value>(text).is_ok()
}

/// `serde_json::from_str::<Value>(text)`, then `get(key)` and `as_str`: the
/// string value of a top-level key. Nothing comes out of text that does not parse.
#[verifier::external_body]
pub(crate) fn json_str_at(text: &str, key: &str) -> (r: Option<String>)
    ensures
        r matches Some(s) ==> json_top_str(text@, key@) == Some(s@) && json_valid(text@),
        r is None ==> json_top_str(text@, key@) is None,
{
    serde_json::from_str::<serde_json::Value>(text).ok()?.get(key)?.as_str().map(String::from)
}

/// `serde_json::from_str::<Value>(text)`, then `get(arr_key)`, `as_array`,
/// `first`, `get(key)` and `as_str`.
#[verifier::external_body]
fn json_first_row_str_at(text: &str, arr_key: &str, key: &str) -> (r: Option<String>)
    ensures
        r matches Some(s) ==> json_first_row_str(text@, arr_key@, key@) == Some(s@) && json_valid(
            text@,
        ),
        r is None ==> json_first_row_str(text@, arr_key@, key@) is None,
{
    let v = serde_json::from_str::<serde_json::Value>(text).ok()?;
    v.get(arr_key)?.as_array()?.first()?.get(key)?.as_str().map(String::from)
}

/// The message of the error `serde_json::from_str::<Value>` gives on `text`,
/// if it fails.
pub uninterp spec fn json_error_of(text: Seq<char>) -> Option<Seq<char>>;

/// The boolean under `key` in the top-level object of the JSON `text`.
pub uninterp spec fn json_top_bool(text: Seq<char>, key: Seq<char>) -> Option<bool>;

/// The boolean under `k2` in the object under `k1` of the JSON `text`.
pub uninterp spec fn json_nested_bool(text: Seq<char>, k1: Seq<char>, k2: Seq<char>) -> Option<bool>;

/// The `u64` under `k2` in the object under `k1` of the JSON `text`.
pub uninterp spec fn json_nested_u64(text: Seq<char>, k1: Seq<char>, k2: Seq<char>) -> Option<u64>;

/// The JSON text of the value under `key` in the top-level object of `text`.
pub uninterp spec fn json_sub_text(text: Seq<char>, key: Seq<char>) -> Option<Seq<char>>;

/// `serde_json::from_str::<Value>(text)` and, when it fails, the error's
/// message (`to_string`).
#[verifier::external_body]
pub(crate) fn json_error_text(text: &str) -> (r: Option<String>)
    ensures
        opt_view(r) == json_error_of(text@),
{
    serde_json::from_str::<serde_json::Value>(text).err().map(|e| e.to_string())
}

/// `serde_json::from_str::<Value>(text)`, then `get(key)` and `as_bool`.
#[verifier::external_body]
pub(crate) fn json_bool_at(text: &str, key: &str) -> (r: Option<bool>)
    ensures
        r == json_top_bool(text@, key@),
{
    serde_json::from_str::<serde_json::Value>(text).ok()?.get(key)?.as_bool()
}

/// `serde_json::from_str::<Value>(text)`, then `get(k1)`, `get(k2)` and `as_bool`.
#[verifier::external_body]
pub(crate) fn json_nested_bool_at(text: &str, k1: &str, k2: &str) -> (r: Option<bool>)
    ensures
        r == json_nested_bool(text@, k1@, k2@),
{
    serde_json::from_str::<serde_json::Value>(text).ok()?.get(k1)?.get(k2)?.as_bool()
}

/// `serde_json::from_str::<Value>(text)`, then `get(k1)`, `get(k2)` and `as_u64`.
#[verifier::external_body]
pub(crate) fn json_nested_u64_at(text: &str, k1: &str, k2: &str) -> (r: Option<u64>)
    ensures
        r == json_nested_u64(text@, k1@, k2@),
{
    serde_json::from_str::<serde_json::Value>(text).ok()?.get(k1)?.get(k2)?.as_u64()
}

/// `serde_json::from_str::<Value>(text)`, then `get(key)` and `to_string` of
/// that value: its JSON text. That the text reads back with the same keys,
/// strings, booleans and integers is left unsaid here.
#[verifier::external_body]
pub(crate) fn json_sub_text_at(text: &str, key: &str) -> (r: Option<String>)
    ensures
        opt_view(r) == json_sub_text(text@, key@),
{
    serde_json::from_str::<serde_json::Value>(text).ok()?.get(key).map(|v| v.to_string())
}

/// What the decision over one private frame reads of it.
#[derive(Debug, Clone)]
pub struct PrivateFrame {
    pub valid: bool,
    pub venue: Option<String>,
    pub stream: Option<String>,
    pub event: Option<String>,
    pub op: Option<String>,
    pub code: Option<String>,
    pub row_cl_ord_id: Option<String>,
    pub row_ord_id: Option<String>,
    pub row_s_code: Option<String>,
    pub row_s_msg: Option<String>,
}

pub struct FrameView {
    pub valid: bool,
    pub venue: Option<Seq<char>>,
    pub stream: Option<Seq<char>>,
    pub event: Option<Seq<char>>,
    pub op: Option<Seq<char>>,
    pub code: Option<Seq<char>>,
    pub row_cl_ord_id: Option<Seq<char>>,
    pub row_ord_id: Option<Seq<char>>,
    pub row_s_code: Option<Seq<char>>,
    pub row_s_msg: Option<Seq<char>>,
}

pub open spec fn opt_view(o: Option<String>) -> Option<Seq<char>> {
    match o {
        Some(s) => Some(s@),
        None => None,
    }
}

pub open spec fn frame_view(f: PrivateFrame) -> FrameView {
    FrameView {
        valid: f.valid,
        venue: opt_view(f.venue),
        stream: opt_view(f.stream),
        event: opt_view(f.event),
        op: opt_view(f.op),
        code: opt_view(f.code),
        row_cl_ord_id: opt_view(f.row_cl_ord_id),
        row_ord_id: opt_view(f.row_ord_id),
        row_s_code: opt_view(f.row_s_code),
        row_s_msg: opt_view(f.row_s_msg),
    }
}

/// The fields of a private frame as the JSON parser reads them from `text`.
pub open spec fn frame_of_text(t: Seq<char>) -> FrameView {
    FrameView {
        valid: json_valid(t),
        venue: json_top_str(t, "venue"@),
        stream: json_top_str(t, "stream"@),
        event: json_top_str(t, "event"@),
        op: json_top_str(t, "op"@),
        code: json_top_str(t, "code"@),
        row_cl_ord_id: json_first_row_str(t, "data"@, "clOrdId"@),
        row_ord_id: json_first_row_str(t, "data"@, "ordId"@),
        row_s_code: json_first_row_str(t, "data"@, "sCode"@),
        row_s_msg: json_first_row_str(t, "data"@, "sMsg"@),
    }
}

/// Reads the fields of a private frame out of its JSON text.
pub fn read_private_frame(text: &str) -> (f: PrivateFrame)
    ensures
        frame_view(f) == frame_of_text(text@),
{
    PrivateFrame {
        valid: json_parses(text),
        venue: json_str_at(text, "venue"),
        stream: json_str_at(text, "stream"),
        event: json_str_at(text, "event"),
        op: json_str_at(text, "op"),
        code: json_str_at(text, "code"),
        row_cl_ord_id: json_first_row_str_at(text, "data", "clOrdId"),
        row_ord_id: json_first_row_str_at(text, "data", "ordId"),
        row_s_code: json_first_row_str_at(text, "data", "sCode"),
        row_s_msg: json_first_row_str_at(text, "data", "sMsg"),
    }
}

/// How a private frame is handled, before its data rows are read.
#[derive(Debug, Clone, Copy, PartialEq, Eq, Structural)]
pub enum FrameKind {
    /// Not JSON.
    Invalid,
    /// From Binance or Bybit: those are never the execution venue.
    Refused,
    /// Subscribe, login, error and the like.
    Control,
    /// The answer to an order operation.
    Ack,
    /// Channel data rows.
    Data,
}

pub open spec fn names_peer_venue(venue: Option<Seq<char>>) -> bool {
    match venue {
        Some(v) => match venue_of_name(lower_seq(trim_seq(v))) {
            Some(x) => x != Venue::Okx,
            None => false,
        },
        None => false,
    }
}

pub open spec fn peer_stream(stream: Option<Seq<char>>) -> bool {
    match stream {
        Some(s) => seq_contains(s, "binance"@) || seq_contains(s, "bybit"@),
        None => false,
    }
}

pub open spec fn is_control_event(event: Option<Seq<char>>) -> bool {
    match event {
        Some(e) => e == "subscribe"@ || e == "unsubscribe"@ || e == "login"@ || e == "error"@,
        None => false,
    }
}

pub open spec fn is_order_op(op: Option<Seq<char>>) -> bool {
    match op {
        Some(o) => o == "order"@ || o == "cancel-order"@ || o == "batch-orders"@,
        None => false,
    }
}

pub open spec fn frame_kind_of(f: FrameView) -> FrameKind {
    if !f.valid {
        FrameKind::Invalid
    } else if names_peer_venue(f.venue) || peer_stream(f.stream) {
        FrameKind::Refused
    } else if is_control_event(f.event) {
        FrameKind::Control
    } else if is_order_op(f.op) {
        FrameKind::Ack
    } else {
        FrameKind::Data
    }
}

fn opt_str_eq(o: &Option<String>, lit: &str) -> (r: bool)
    ensures
        r == (opt_view(*o) == Some(lit@)),
{
    match o {
        Some(s) => str_eq(s.as_str(), lit),
        None => false,
    }
}

pub fn classify_frame(f: &PrivateFrame) -> (k: FrameKind)
    ensures
        k == frame_kind_of(frame_view(*f)),
{
    if !f.valid {
        return FrameKind::Invalid;
    }
    let peer_venue = match &f.venue {
        Some(v) => match Venue::parse(v.as_str()) {
            Ok(x) => x != Venue::Okx,
            Err(_) => false,
        },
        None => false,
    };
    let peer = match &f.stream {
        Some(s) => str_contains(s.as_str(), "binance") || str_contains(s.as_str(), "bybit"),
        None => false,
    };
    if peer_venue || peer {
        return FrameKind::Refused;
    }
    if opt_str_eq(&f.event, "subscribe") || opt_str_eq(&f.event, "unsubscribe") || opt_str_eq(
        &f.event,
        "login",
    ) || opt_str_eq(&f.event, "error") {
        return FrameKind::Control;
    }
    if opt_str_eq(&f.op, "order") || opt_str_eq(&f.op, "cancel-order") || opt_str_eq(
        &f.op,
        "batch-orders",
    ) {
        return FrameKind::Ack;
    }
    FrameKind::Data
}

#[derive(Debug, Clone)]
pub struct Ack {
    pub op: String,
    pub ok: bool,
    pub cl_ord_id: Option<String>,
    pub ord_id: Option<String>,
    pub code: String,
    pub msg: String,
    pub class: RejectClass,
}

pub struct AckView {
    pub op: Seq<char>,
    pub ok: bool,
    pub cl_ord_id: Option<Seq<char>>,
    pub ord_id: Option<Seq<char>>,
    pub code: Seq<char>,
    pub msg: Seq<char>,
    pub class: RejectClass,
}

pub open spec fn ack_view(a: Ack) -> AckView {
    AckView {
        op: a.op@,
        ok: a.ok,
        cl_ord_id: opt_view(a.cl_ord_id),
        ord_id: opt_view(a.ord_id),
        code: a.code@,
        msg: a.msg@,
        class: a.class,
    }
}

pub open spec fn or_default(o: Option<Seq<char>>, d: Seq<char>) -> Seq<char> {
    match o {
        Some(s) => s,
        None => d,
    }
}

/// The ack an order-operation frame carries: the row's `sCode` (else the
/// top-level code, else `"0"`) and `sMsg`; ok only when both codes say so.
pub open spec fn ack_of_frame(f: FrameView) -> Option<AckView> {
    if frame_kind_of(f) != FrameKind::Ack {
        None
    } else {
        let top = or_default(f.code, "0"@);
        let scode = or_default(f.row_s_code, top);
        let msg = or_default(f.row_s_msg, Seq::<char>::empty());
        let ok = top == "0"@ && (scode == "0"@ || scode.len() == 0);
        Some(
            AckView {
                op: or_default(f.op, "order"@),
                ok,
                cl_ord_id: f.row_cl_ord_id,
                ord_id: f.row_ord_id,
                code: scode,
                msg,
                class: if ok {
                    RejectClass::Accepted
                } else {
                    reject_class_of(scode, msg)
                },
            },
        )
    }
}

fn clone_opt(o: &Option<String>) -> (r: Option<String>)
    ensures
        opt_view(r) == opt_view(*o),
{
    match o {
        Some(s) => Some(s.clone()),
        None => None,
    }
}

fn or_default_string(o: &Option<String>, d: &str) -> (r: String)
    ensures
        r@ == or_default(opt_view(*o), d@),
{
    match o {
        Some(s) => s.clone(),
        None => d.to_string(),
    }
}

/// The ack of a frame whose fields have been read.
pub fn ack_from_frame(f: &PrivateFrame) -> (r: Option<Ack>)
    ensures
        match r {
            Some(a) => ack_of_frame(frame_view(*f)) == Some(ack_view(a)),
            None => ack_of_frame(frame_view(*f)) is None,
        },
{
    if classify_frame(f) != FrameKind::Ack {
        return None;
    }
    let top = or_default_string(&f.code, "0");
    let scode = match &f.row_s_code {
        Some(s) => s.clone(),
        None => top.clone(),
    };
    let msg = or_default_string(&f.row_s_msg, "");
    let ok = str_eq(top.as_str(), "0") && (str_eq(scode.as_str(), "0") || scode.unicode_len() == 0);
    let class = if ok {
        RejectClass::Accepted
    } else {
        classify_reject(scode.as_str(), msg.as_str())
    };
    let a = Ack {
        op: or_default_string(&f.op, "order"),
        ok,
        cl_ord_id: clone_opt(&f.row_cl_ord_id),
        ord_id: clone_opt(&f.row_ord_id),
        code: scode,
        msg,
        class,
    };
    proof {
        reveal_strlit("");
        let fv = frame_view(*f);
        let top_v = or_default(fv.code, "0"@);
        assert(top@ == top_v);
        assert(scode@ == or_default(fv.row_s_code, top_v));
        assert(msg@ == or_default(fv.row_s_msg, Seq::<char>::empty()));
        assert(ok == (top_v == "0"@ && (scode@ == "0"@ || scode@.len() == 0)));
        assert(frame_kind_of(fv) == FrameKind::Ack);
    }
    assert(ack_of_frame(frame_view(*f)) == Some(ack_view(a)));
    Some(a)
}

/// The ack in one private JSON line, if the line is an order answer from OKX.
pub fn parse_ack_text(text: &str) -> (r: Option<Ack>)
    ensures
        match r {
            Some(a) => ack_of_frame(frame_of_text(text@)) == Some(ack_view(a)),
            None => ack_of_frame(frame_of_text(text@)) is None,
        },
{
    let f = read_private_frame(text);
    ack_from_frame(&f)
}

} // verus!

verus! {

/// The side of a private order or fill row: `sell` (ASCII case ignored) is a
/// sell; anything else, or no side, is a buy.
pub fn side_of_text(side: Option<&str>) -> (r: Side)
    ensures
        r == (match side {
            Some(s) => if lower_seq(s@) == "sell"@ {
                Side::Sell
            } else {
                Side::Buy
            },
            None => Side::Buy,
        }),
{
    match side {
        Some(s) => {
            let l = to_ascii_lowercase(s);
            if str_eq(l.as_str(), "sell") {
                Side::Sell
            } else {
                Side::Buy
            }
        },
        None => {
            proof {
                reveal_strlit("buy");
                reveal_strlit("sell");
                assert(lower_seq("buy"@) =~= "buy"@);
            }
            Side::Buy
        },
    }
}

} // verus!

verus! {

/// What a data row of a private channel becomes.
#[derive(Debug, Clone, Copy, PartialEq, Eq, Structural)]
pub enum RowRoute {
    Order,
    /// A fill, when its size is positive.
    Fill,
    Position,
    Account,
    /// Nothing is read from the row.
    Skip,
}

/// Rows route by channel; on an unknown channel a row that carries both a
/// client order id and a fill size is read as a fill.
pub open spec fn row_route_spec(channel: Seq<char>, has_cl_ord_id: bool, has_fill_sz: bool) -> RowRoute {
    if channel == "orders"@ {
        RowRoute::Order
    } else if channel == "fills"@ {
        RowRoute::Fill
    } else if channel == "positions"@ {
        RowRoute::Position
    } else if channel == "account"@ || channel == "balance_and_position"@ {
        RowRoute::Account
    } else if has_cl_ord_id && has_fill_sz {
        RowRoute::Fill
    } else {
        RowRoute::Skip
    }
}

pub fn row_route(channel: &str, has_cl_ord_id: bool, has_fill_sz: bool) -> (r: RowRoute)
    ensures
        r == row_route_spec(channel@, has_cl_ord_id, has_fill_sz),
{
    if str_eq(channel, "orders") {
        RowRoute::Order
    } else if str_eq(channel, "fills") {
        RowRoute::Fill
    } else if str_eq(channel, "positions") {
        RowRoute::Position
    } else if str_eq(channel, "account") || str_eq(channel, "balance_and_position") {
        RowRoute::Account
    } else if has_cl_ord_id && has_fill_sz {
        RowRoute::Fill
    } else {
        RowRoute::Skip
    }
}

} // verus!

verus! {

/// A kill action by its fixture word; any other word is `Off`.
pub open spec fn kill_action_of_spec(word: Seq<char>) -> KillAction {
    if word == "halt"@ {
        KillAction::Halt
    } else if word == "flatten_all"@ {
        KillAction::FlattenAll
    } else if word == "reduce_only"@ {
        KillAction::ReduceOnly
    } else if word == "cancel_all"@ {
        KillAction::CancelAll
    } else {
        KillAction::Off
    }
}

pub fn kill_action_of_word(word: &str) -> (r: KillAction)
    ensures
        r == kill_action_of_spec(word@),
{
    if str_eq(word, "halt") {
        KillAction::Halt
    } else if str_eq(word, "flatten_all") {
        KillAction::FlattenAll
    } else if str_eq(word, "reduce_only") {
        KillAction::ReduceOnly
    } else if str_eq(word, "cancel_all") {
        KillAction::CancelAll
    } else {
        KillAction::Off
    }
}

} // verus!
