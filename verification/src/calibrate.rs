//! Fill-number interfaces. Calibration is not completed here: the report
//! lists the open slots, and promotion to live is always refused while the
//! observation draft is frozen or the armed rate is still parallel.

use vstd::prelude::*;
use crate::domain::{
    is_live_mode, live_gate_spec, live_open_allowed, ArmedRatePolicy, CalibrationStatus, GateConfig,
    LiveDenied, Mode,
};
use crate::lex::{lemma_lt_asymmetric, lemma_lt_irreflexive, lemma_lt_total, lemma_lt_transitive, seq_lt, str_lt};
use crate::exec::{
    json_bool_at, json_error_of, json_error_text, json_nested_bool, json_nested_bool_at,
    json_nested_u64, json_nested_u64_at, json_str_at, json_sub_text, json_sub_text_at,
    json_top_bool, json_top_str, or_default,
};
use crate::text::{concat_str, dec_seq, str_eq, trim, trim_seq, u64_decimal};

verus! {

pub const WIRED: bool = true;

/// This plan period does not finish filling numbers.
pub const COMPLETE: bool = false;

#[derive(Debug, Clone, Copy, PartialEq, Eq, Structural)]
pub enum FillStep {
    SolBucket,
    RecordVsArmed,
    LiquiditySession,
    SuiTable,
    OutOfSample,
}

/// SOL bucket, record vs armed (still parallel), liquidity/session, SUI, OOS.
pub const FILL_ORDER: [FillStep; 5] = [
    FillStep::SolBucket,
    FillStep::RecordVsArmed,
    FillStep::LiquiditySession,
    FillStep::SuiTable,
    FillStep::OutOfSample,
];

pub open spec fn fill_step_name(s: FillStep) -> Seq<char> {
    match s {
        FillStep::SolBucket => "sol_bucket"@,
        FillStep::RecordVsArmed => "record_vs_armed"@,
        FillStep::LiquiditySession => "liquidity_session"@,
        FillStep::SuiTable => "sui_table"@,
        FillStep::OutOfSample => "out_of_sample"@,
    }
}

impl FillStep {
    pub fn as_str(self) -> (r: &'static str)
        ensures
            r@ == fill_step_name(self),
    {
        match self {
            FillStep::SolBucket => "sol_bucket",
            FillStep::RecordVsArmed => "record_vs_armed",
            FillStep::LiquiditySession => "liquidity_session",
            FillStep::SuiTable => "sui_table",
            FillStep::OutOfSample => "out_of_sample",
        }
    }
}

#[derive(Debug, Clone, Copy, PartialEq, Eq, Structural)]
pub enum SlotStatus {
    /// Locked school definition (not a number to fill).
    LockedDefinition,
    /// 21-day observation hypothesis. Not OOS. Not live.
    Observation,
    /// Still waiting on replay / shadow stats. Do not invent a number.
    StillOpen,
    /// Feature present but not evaluated (e.g. script F without L2).
    NotEvaluated,
}

#[derive(Debug, Clone, Copy)]
pub struct FillSlot {
    pub key: &'static str,
    pub symbol: &'static str,
    pub status: SlotStatus,
    pub note: &'static str,
}

pub open spec fn slot_view(s: FillSlot) -> (Seq<char>, Seq<char>, SlotStatus, Seq<char>) {
    (s.key@, s.symbol@, s.status, s.note@)
}

/// The ten slots of the fill plan; the two armed-rate slots stay open while
/// both symbols keep 300 and 400 in parallel.
pub open spec fn expected_slots(parallel: bool) -> Seq<(Seq<char>, Seq<char>, SlotStatus, Seq<char>)> {
    let armed = if parallel {
        SlotStatus::StillOpen
    } else {
        SlotStatus::Observation
    };
    seq![
        ("bucket"@, "SOL"@, SlotStatus::Observation, "0.01 hypothesis; 0.10 rejected; not live"@),
        ("imbalance_rate_record"@, "SOL"@, SlotStatus::Observation, "200% display only"@),
        ("imbalance_rate_dale_valtos"@, "SOL"@, armed, "300∥400 parallel; do not average to 350%"@),
        (
            "min_imbalance_volume_rule"@,
            "SOL"@,
            SlotStatus::Observation,
            "session nonempty-side p25 both; no frozen SOL lot"@,
        ),
        ("unfinished_is_entry"@, "SOL"@, SlotStatus::LockedDefinition, "never an entry"@),
        ("script_g_is_entry"@, "SOL"@, SlotStatus::LockedDefinition, "never an entry"@),
        ("script_f"@, "SOL"@, SlotStatus::NotEvaluated, "needs healthy L2"@),
        ("bucket"@, "SUI"@, SlotStatus::Observation, "0.0001 native tick; must not copy SOL 0.01"@),
        ("imbalance_rate_dale_valtos"@, "SUI"@, armed, "own table; still parallel"@),
        ("out_of_sample"@, "ALL"@, SlotStatus::StillOpen, "observation freeze is not OOS"@),
    ]
}

#[derive(Debug, Clone)]
pub struct FillReport {
    pub event: &'static str,
    pub wired: bool,
    pub complete: bool,
    pub observation_frozen: bool,
    pub calibration_complete: bool,
    pub out_of_sample_validated: bool,
    pub live_allowed: bool,
    pub chosen_armed_rate: Option<&'static str>,
    pub next_step: &'static str,
    pub fill_order: Vec<&'static str>,
    pub slots: Vec<FillSlot>,
    pub errors: Vec<&'static str>,
    pub promote_allowed: bool,
    pub copied_price_onto_okx: bool,
}

/// Both symbols still run the 300 and 400 armed rates side by side.
pub open spec fn armed_parallel(cfg: GateConfig) -> bool {
    cfg.sol.armed_rate_policy == ArmedRatePolicy::Parallel && cfg.sui.armed_rate_policy
        == ArmedRatePolicy::Parallel
}

pub open spec fn chosen_rate_name(p: ArmedRatePolicy) -> Option<Seq<char>> {
    match p {
        ArmedRatePolicy::Parallel => None,
        ArmedRatePolicy::Dale300 => Some("dale_300"@),
        ArmedRatePolicy::Valtos400 => Some("valtos_400"@),
    }
}

/// The errors of the fill plan, in order: SUI's bucket copied from SOL, an
/// averaged armed rate, and a complete flag on an observation draft.
pub open spec fn fill_errors(cfg: GateConfig, sui_copied_sol_bucket: bool, averaged_armed_rate: bool) -> Seq<Seq<char>> {
    let e1: Seq<Seq<char>> = if sui_copied_sol_bucket {
        seq!["sui_copied_sol_bucket"@]
    } else {
        seq![]
    };
    let e2: Seq<Seq<char>> = if averaged_armed_rate {
        seq!["averaged_armed_rate"@]
    } else {
        seq![]
    };
    let e3: Seq<Seq<char>> = if cfg.calibration.calibration_complete && cfg.calibration.status
        == CalibrationStatus::ObservationDraft {
        seq!["complete_flag_on_observation_draft"@]
    } else {
        seq![]
    };
    e1 + e2 + e3
}

fn slot(key: &'static str, symbol: &'static str, status: SlotStatus, note: &'static str) -> (r: FillSlot)
    ensures
        slot_view(r) == (key@, symbol@, status, note@),
{
    FillSlot { key, symbol, status, note }
}

/// The fill-plan report. The two checks on prices (SUI's bucket equal to
/// SOL's; an armed rate with Dale equal to Valtos) arrive as their verdicts.
pub fn fill_report(cfg: &GateConfig, sui_copied_sol_bucket: bool, averaged_armed_rate: bool) -> (r: FillReport)
    ensures
        r.event@ == "calibrate_check"@,
        r.wired,
        !r.complete,
        r.observation_frozen == cfg.calibration.observation_frozen,
        r.calibration_complete == cfg.calibration.calibration_complete,
        r.out_of_sample_validated == cfg.calibration.out_of_sample_validated,
        !r.live_allowed,
        !r.promote_allowed,
        !r.copied_price_onto_okx,
        match r.chosen_armed_rate {
            Some(s) => chosen_rate_name(cfg.sol.armed_rate_policy) == Some(s@),
            None => chosen_rate_name(cfg.sol.armed_rate_policy) is None,
        },
        r.next_step@ == (if armed_parallel(*cfg) {
            fill_step_name(FillStep::RecordVsArmed)
        } else {
            fill_step_name(FillStep::OutOfSample)
        }),
        r.fill_order@.len() == 5,
        forall|i: int| 0 <= i < 5 ==> (#[trigger] r.fill_order@[i])@ == fill_step_name(FILL_ORDER@[i]),
        r.slots@.map_values(|s: FillSlot| slot_view(s)) == expected_slots(armed_parallel(*cfg)),
        r.errors@.map_values(|e: &'static str| e@) == fill_errors(*cfg, sui_copied_sol_bucket, averaged_armed_rate),
{
    let mut errors: Vec<&'static str> = Vec::new();
    if sui_copied_sol_bucket {
        errors.push("sui_copied_sol_bucket");
    }
    if averaged_armed_rate {
        errors.push("averaged_armed_rate");
    }
    if cfg.calibration.calibration_complete && cfg.calibration.status
        == CalibrationStatus::ObservationDraft {
        errors.push("complete_flag_on_observation_draft");
    }
    let parallel = cfg.sol.armed_rate_policy == ArmedRatePolicy::Parallel
        && cfg.sui.armed_rate_policy == ArmedRatePolicy::Parallel;
    let chosen: Option<&'static str> = match cfg.sol.armed_rate_policy {
        ArmedRatePolicy::Parallel => None,
        ArmedRatePolicy::Dale300 => Some("dale_300"),
        ArmedRatePolicy::Valtos400 => Some("valtos_400"),
    };
    let armed = if parallel {
        SlotStatus::StillOpen
    } else {
        SlotStatus::Observation
    };
    let mut slots: Vec<FillSlot> = Vec::new();
    slots.push(slot("bucket", "SOL", SlotStatus::Observation, "0.01 hypothesis; 0.10 rejected; not live"));
    slots.push(slot("imbalance_rate_record", "SOL", SlotStatus::Observation, "200% display only"));
    slots.push(slot("imbalance_rate_dale_valtos", "SOL", armed, "300∥400 parallel; do not average to 350%"));
    slots.push(
        slot(
            "min_imbalance_volume_rule",
            "SOL",
            SlotStatus::Observation,
            "session nonempty-side p25 both; no frozen SOL lot",
        ),
    );
    slots.push(slot("unfinished_is_entry", "SOL", SlotStatus::LockedDefinition, "never an entry"));
    slots.push(slot("script_g_is_entry", "SOL", SlotStatus::LockedDefinition, "never an entry"));
    slots.push(slot("script_f", "SOL", SlotStatus::NotEvaluated, "needs healthy L2"));
    slots.push(slot("bucket", "SUI", SlotStatus::Observation, "0.0001 native tick; must not copy SOL 0.01"));
    slots.push(slot("imbalance_rate_dale_valtos", "SUI", armed, "own table; still parallel"));
    slots.push(slot("out_of_sample", "ALL", SlotStatus::StillOpen, "observation freeze is not OOS"));
    let next_step = if !parallel {
        FillStep::OutOfSample.as_str()
    } else {
        FillStep::RecordVsArmed.as_str()
    };
    let mut fill_order: Vec<&'static str> = Vec::new();
    let mut i: usize = 0;
    while i < 5
        invariant
            i <= 5,
            fill_order@.len() == i,
            forall|j: int| 0 <= j < i ==> (#[trigger] fill_order@[j])@ == fill_step_name(FILL_ORDER@[j]),
        decreases 5 - i,
    {
        fill_order.push(FILL_ORDER[i].as_str());
        i += 1;
    }
    assert(slots@.map_values(|s: FillSlot| slot_view(s)) =~= expected_slots(parallel));
    assert(errors@.map_values(|e: &'static str| e@) =~= fill_errors(*cfg, sui_copied_sol_bucket, averaged_armed_rate));
    FillReport {
        event: "calibrate_check",
        wired: WIRED,
        complete: COMPLETE,
        observation_frozen: cfg.calibration.observation_frozen,
        calibration_complete: cfg.calibration.calibration_complete,
        out_of_sample_validated: cfg.calibration.out_of_sample_validated,
        live_allowed: crate::domain::live_allowed(),
        chosen_armed_rate: chosen,
        next_step,
        fill_order,
        slots,
        errors,
        promote_allowed: false,
        copied_price_onto_okx: false,
    }
}

/// Why promotion is refused: a frozen observation draft without out-of-sample
/// validation first, then a parallel armed rate on either symbol, then the
/// live gate, then the unwired execution path.
pub open spec fn promote_refusal(mode: Mode, cfg: GateConfig) -> LiveDenied {
    let g = cfg.calibration;
    if g.observation_frozen && !g.out_of_sample_validated {
        LiveDenied::ParamsNotCalibrated
    } else if cfg.sol.armed_rate_policy == ArmedRatePolicy::Parallel || cfg.sui.armed_rate_policy
        == ArmedRatePolicy::Parallel {
        LiveDenied::ArmedRateStillParallel
    } else {
        match live_gate_spec(mode, cfg) {
            Err(e) => e,
            Ok(()) => LiveDenied::ExecNotWired,
        }
    }
}

/// Observation freeze is not a live authorization; promotion never succeeds.
pub fn promote_fill(mode: Mode, cfg: &GateConfig) -> (r: Result<(), LiveDenied>)
    ensures
        r == Err::<(), LiveDenied>(promote_refusal(mode, *cfg)),
{
    let g = &cfg.calibration;
    if g.observation_frozen && !g.out_of_sample_validated {
        return Err(LiveDenied::ParamsNotCalibrated);
    }
    if cfg.sol.armed_rate_policy == ArmedRatePolicy::Parallel || cfg.sui.armed_rate_policy
        == ArmedRatePolicy::Parallel {
        return Err(LiveDenied::ArmedRateStillParallel);
    }
    live_open_allowed(mode, cfg)?;
    Err(LiveDenied::ExecNotWired)
}

} // verus!

verus! {

/// A rate slice counts as a stack when either side reaches three levels.
pub const STACK_MIN: u32 = 3;

/// Whether a slice's buy or sell stack (as recorded, read as `u32`) reaches
/// the minimum.
pub fn stack3(buy_stack: u64, sell_stack: u64) -> (r: bool)
    ensures
        r == ((buy_stack as u32) >= STACK_MIN || (sell_stack as u32) >= STACK_MIN),
{
    let buy = buy_stack as u32;
    let sell = sell_stack as u32;
    buy >= STACK_MIN || sell >= STACK_MIN
}

/// Counts of closed bars and of the flags they carried.
#[derive(Debug, Clone, Copy, PartialEq, Eq, Structural)]
pub struct BarCounts {
    pub bars: u64,
    pub dale_aligned: u64,
    pub valtos_aligned: u64,
    pub record_aligned: u64,
    pub dale_stack3: u64,
    pub valtos_stack3: u64,
    pub record_stack3: u64,
    pub unfinished: u64,
    pub chaos: u64,
}

pub open spec fn counts_zero() -> BarCounts {
    BarCounts {
        bars: 0,
        dale_aligned: 0,
        valtos_aligned: 0,
        record_aligned: 0,
        dale_stack3: 0,
        valtos_stack3: 0,
        record_stack3: 0,
        unfinished: 0,
        chaos: 0,
    }
}

/// What one frozen closed footprint contributes.
#[derive(Debug, Clone)]
pub struct ClosedBarFlags {
    pub session: String,
    pub unfinished_is_entry: bool,
    pub dale_aligned: bool,
    pub valtos_aligned: bool,
    pub record_aligned: bool,
    pub dale_stack3: bool,
    pub valtos_stack3: bool,
    pub record_stack3: bool,
    pub unfinished: bool,
    pub chaos: bool,
}

/// Column `k` of the counts (0 is `bars`).
pub open spec fn pick(c: BarCounts, k: int) -> int {
    if k == 0 {
        c.bars as int
    } else if k == 1 {
        c.dale_aligned as int
    } else if k == 2 {
        c.valtos_aligned as int
    } else if k == 3 {
        c.record_aligned as int
    } else if k == 4 {
        c.dale_stack3 as int
    } else if k == 5 {
        c.valtos_stack3 as int
    } else if k == 6 {
        c.record_stack3 as int
    } else if k == 7 {
        c.unfinished as int
    } else {
        c.chaos as int
    }
}

/// Flag `k` of one bar (0 is the bar itself).
pub open spec fn flag(f: ClosedBarFlags, k: int) -> bool {
    if k == 0 {
        true
    } else if k == 1 {
        f.dale_aligned
    } else if k == 2 {
        f.valtos_aligned
    } else if k == 3 {
        f.record_aligned
    } else if k == 4 {
        f.dale_stack3
    } else if k == 5 {
        f.valtos_stack3
    } else if k == 6 {
        f.record_stack3
    } else if k == 7 {
        f.unfinished
    } else {
        f.chaos
    }
}

/// `c` after one more bar with flags `f`: every column whose flag is set grows by one.
pub open spec fn counts_added(c: BarCounts, f: ClosedBarFlags, d: BarCounts) -> bool {
    forall|k: int| 0 <= k < 9 ==> #[trigger] pick(d, k) == pick(c, k) + (if flag(f, k) { 1int } else { 0int })
}

/// No column exceeds the bar count.
pub open spec fn counts_wf(c: BarCounts) -> bool {
    forall|k: int| 0 <= k < 9 ==> #[trigger] pick(c, k) <= c.bars
}

fn bump(x: u64, b: bool) -> (r: u64)
    requires
        x < u64::MAX,
    ensures
        r == x + (if b { 1int } else { 0int }),
{
    if b {
        x + 1
    } else {
        x
    }
}

fn add_counts(c: &BarCounts, f: &ClosedBarFlags) -> (d: BarCounts)
    requires
        counts_wf(*c),
        c.bars < u64::MAX,
    ensures
        counts_added(*c, *f, d),
        counts_wf(d),
{
    assert(pick(*c, 1) <= c.bars && pick(*c, 2) <= c.bars && pick(*c, 3) <= c.bars && pick(*c, 4)
        <= c.bars && pick(*c, 5) <= c.bars && pick(*c, 6) <= c.bars && pick(*c, 7) <= c.bars
        && pick(*c, 8) <= c.bars);
    BarCounts {
        bars: c.bars + 1,
        dale_aligned: bump(c.dale_aligned, f.dale_aligned),
        valtos_aligned: bump(c.valtos_aligned, f.valtos_aligned),
        record_aligned: bump(c.record_aligned, f.record_aligned),
        dale_stack3: bump(c.dale_stack3, f.dale_stack3),
        valtos_stack3: bump(c.valtos_stack3, f.valtos_stack3),
        record_stack3: bump(c.record_stack3, f.record_stack3),
        unfinished: bump(c.unfinished, f.unfinished),
        chaos: bump(c.chaos, f.chaos),
    }
}

/// Session rows by name.
pub open spec fn row_views(s: Seq<(String, BarCounts)>) -> Seq<(Seq<char>, BarCounts)> {
    s.map_values(|r: (String, BarCounts)| (r.0@, r.1))
}

/// Names strictly increase.
pub open spec fn names_sorted(s: Seq<(Seq<char>, BarCounts)>) -> bool {
    forall|i: int, j: int| #![trigger s[i], s[j]] 0 <= i < j < s.len() ==> seq_lt(s[i].0, s[j].0)
}

/// Column `k` summed over the rows.
pub open spec fn col_sum(s: Seq<(Seq<char>, BarCounts)>, k: int) -> int
    decreases s.len(),
{
    if s.len() == 0 {
        0
    } else {
        col_sum(s.drop_last(), k) + pick(s.last().1, k)
    }
}

proof fn lemma_col_sum_update(s: Seq<(Seq<char>, BarCounts)>, p: int, x: (Seq<char>, BarCounts), k: int)
    requires
        0 <= p < s.len(),
    ensures
        col_sum(s.update(p, x), k) == col_sum(s, k) - pick(s[p].1, k) + pick(x.1, k),
    decreases s.len(),
{
    let t = s.update(p, x);
    if p == s.len() - 1 {
        assert(t.drop_last() =~= s.drop_last());
    } else {
        lemma_col_sum_update(s.drop_last(), p, x, k);
        assert(t.drop_last() =~= s.drop_last().update(p, x));
    }
}

proof fn lemma_col_sum_insert(s: Seq<(Seq<char>, BarCounts)>, p: int, x: (Seq<char>, BarCounts), k: int)
    requires
        0 <= p <= s.len(),
    ensures
        col_sum(s.insert(p, x), k) == col_sum(s, k) + pick(x.1, k),
    decreases s.len(),
{
    let t = s.insert(p, x);
    if p == s.len() {
        assert(t.drop_last() =~= s);
    } else {
        lemma_col_sum_insert(s.drop_last(), p, x, k);
        assert(t.drop_last() =~= s.drop_last().insert(p, x));
    }
}

proof fn lemma_col_sum_bounds(s: Seq<(Seq<char>, BarCounts)>, p: int, k: int)
    requires
        0 <= p < s.len(),
        forall|i: int| 0 <= i < s.len() ==> pick(#[trigger] s[i].1, k) >= 0,
    ensures
        pick(s[p].1, k) <= col_sum(s, k),
        col_sum(s, k) >= 0,
    decreases s.len(),
{
    let t = s.drop_last();
    assert(pick(s[s.len() - 1].1, k) >= 0);
    if t.len() == 0 {
        assert(col_sum(t, k) == 0);
    } else {
        assert forall|i: int| 0 <= i < t.len() implies pick(#[trigger] t[i].1, k) >= 0 by {
            assert(t[i] == s[i]);
        }
        if p < s.len() - 1 {
            lemma_col_sum_bounds(t, p, k);
            assert(t[p] == s[p]);
        } else {
            lemma_col_sum_bounds(t, 0, k);
        }
    }
}

/// Shadow statistics over closed footprints: totals and one row per session,
/// rows in session-name order. Never picks 300 vs 400.
#[derive(Debug)]
pub struct ShadowTally {
    totals: BarCounts,
    rows: Vec<(String, BarCounts)>,
}

impl ShadowTally {
    pub closed spec fn totals_spec(&self) -> BarCounts {
        self.totals
    }

    pub closed spec fn rows_spec(&self) -> Seq<(Seq<char>, BarCounts)> {
        row_views(self.rows@)
    }

    /// Rows sorted by name, each column of the totals the sum of the rows'.
    pub closed spec fn wf(&self) -> bool {
        &&& names_sorted(self.rows_spec())
        &&& counts_wf(self.totals)
        &&& forall|i: int| 0 <= i < self.rows@.len() ==> counts_wf(#[trigger] self.rows@[i].1)
        &&& forall|k: int| 0 <= k < 9 ==> #[trigger] col_sum(self.rows_spec(), k) == pick(self.totals, k)
    }

    pub fn new() -> (r: Self)
        ensures
            r.wf(),
            r.totals_spec() == counts_zero(),
            r.rows_spec() == Seq::<(Seq<char>, BarCounts)>::empty(),
    {
        let r = ShadowTally {
            totals: BarCounts {
                bars: 0,
                dale_aligned: 0,
                valtos_aligned: 0,
                record_aligned: 0,
                dale_stack3: 0,
                valtos_stack3: 0,
                record_stack3: 0,
                unfinished: 0,
                chaos: 0,
            },
            rows: Vec::new(),
        };
        assert(r.rows_spec() =~= Seq::<(Seq<char>, BarCounts)>::empty());
        r
    }

    pub fn totals(&self) -> (r: BarCounts)
        ensures
            r == self.totals_spec(),
    {
        self.totals
    }

    /// The session rows, in name order.
    pub fn rows(&self) -> (r: &Vec<(String, BarCounts)>)
        ensures
            row_views(r@) == self.rows_spec(),
    {
        &self.rows
    }

    /// Counts one closed footprint. A footprint that calls an unfinished
    /// auction an entry is refused and nothing is counted.
    pub fn add(&mut self, f: &ClosedBarFlags) -> (r: Result<(), String>)
        requires
            old(self).wf(),
            old(self).totals_spec().bars < u64::MAX,
        ensures
            final(self).wf(),
            names_sorted(final(self).rows_spec()),
            counts_wf(final(self).totals_spec()),
            forall|i: int| 0 <= i < final(self).rows_spec().len() ==> counts_wf(#[trigger] final(self).rows_spec()[i].1),
            f.unfinished_is_entry ==> r is Err && final(self).totals_spec() == old(self).totals_spec()
                && final(self).rows_spec() == old(self).rows_spec(),
            r matches Err(e) ==> f.unfinished_is_entry && e@ == "unfinished_is_entry must stay false"@,
            !f.unfinished_is_entry ==> r is Ok && counts_added(old(self).totals_spec(), *f, final(self).totals_spec()) && ({
                let s = old(self).rows_spec();
                let key = f.session@;
                ||| exists|p: int|
                    0 <= p < s.len() && s[p].0 == key && counts_added(s[p].1, *f, final(self).rows_spec()[p].1)
                        && final(self).rows_spec() == s.update(p, (key, final(self).rows_spec()[p].1))
                ||| exists|p: int|
                    0 <= p <= s.len() && (forall|j: int| 0 <= j < s.len() ==> s[j].0 != key)
                        && counts_added(counts_zero(), *f, final(self).rows_spec()[p].1)
                        && final(self).rows_spec() == s.insert(p, (key, final(self).rows_spec()[p].1))
            }),
    {
        if f.unfinished_is_entry {
            return Err(String::from_str("unfinished_is_entry must stay false"));
        }
        let ghost s = self.rows_spec();
        let ghost old_totals = self.totals;
        proof {
            assert(pick(self.totals, 0) == old_totals.bars);
        }
        self.totals = add_counts(&self.totals, f);
        let key = f.session.as_str();
        let n = self.rows.len();
        let mut p: usize = 0;
        while p < n && str_lt(self.rows[p].0.as_str(), key)
            invariant
                n == self.rows@.len(),
                s == row_views(self.rows@),
                p <= n,
                forall|j: int| 0 <= j < p ==> seq_lt(#[trigger] s[j].0, key@),
            decreases n - p,
        {
            assert(s[p as int].0 == self.rows@[p as int].0@);
            p += 1;
        }
        proof {
            assert forall|j: int| 0 <= j < s.len() && j < p implies s[j].0 != key@ by {
                lemma_lt_irreflexive(key@);
            }
        }
        if p < n && str_eq(self.rows[p].0.as_str(), key) {
            assert(s[p as int].0 == key@);
            proof {
                assert forall|i: int| 0 <= i < s.len() implies pick(#[trigger] s[i].1, 0) >= 0 by {}
                lemma_col_sum_bounds(s, p as int, 0);
            }
            let c = add_counts(&self.rows[p].1, f);
            let name = self.rows[p].0.clone();
            self.rows.set(p, (name, c));
            proof {
                let t = self.rows_spec();
                assert(t =~= s.update(p as int, (key@, c)));
                assert forall|k: int| 0 <= k < 9 implies #[trigger] col_sum(t, k) == pick(self.totals, k) by {
                    lemma_col_sum_update(s, p as int, (key@, c), k);
                }
                assert(names_sorted(t)) by {
                    assert forall|i: int, j: int| #![trigger t[i], t[j]] 0 <= i < j < t.len() implies seq_lt(t[i].0, t[j].0) by {
                        assert(t[i].0 == s[i].0 && t[j].0 == s[j].0);
                    }
                }
            }
        } else {
            let c = add_counts(&BarCounts {
                bars: 0,
                dale_aligned: 0,
                valtos_aligned: 0,
                record_aligned: 0,
                dale_stack3: 0,
                valtos_stack3: 0,
                record_stack3: 0,
                unfinished: 0,
                chaos: 0,
            }, f);
            proof {
                if p < n {
                    lemma_lt_total(s[p as int].0, key@);
                    assert(seq_lt(key@, s[p as int].0));
                }
                assert forall|j: int| p <= j < s.len() implies seq_lt(key@, #[trigger] s[j].0) by {
                    if j > p {
                        lemma_lt_transitive(key@, s[p as int].0, s[j].0);
                    }
                }
                assert forall|j: int| 0 <= j < s.len() implies s[j].0 != key@ by {
                    if j >= p {
                        lemma_lt_irreflexive(key@);
                    }
                }
            }
            self.rows.insert(p, (key.to_string(), c));
            proof {
                let t = self.rows_spec();
                assert(t =~= s.insert(p as int, (key@, c)));
                assert forall|k: int| 0 <= k < 9 implies #[trigger] col_sum(t, k) == pick(self.totals, k) by {
                    lemma_col_sum_insert(s, p as int, (key@, c), k);
                }
                assert(names_sorted(t)) by {
                    assert forall|i: int, j: int| #![trigger t[i], t[j]] 0 <= i < j < t.len() implies seq_lt(t[i].0, t[j].0) by {
                        if j < p {
                            assert(t[i] == s[i] && t[j] == s[j]);
                        } else if j == p {
                            assert(t[i] == s[i]);
                        } else if i < p {
                            assert(t[i] == s[i] && t[j] == s[j - 1]);
                            lemma_lt_transitive(s[i].0, key@, s[j - 1].0);
                        } else if i == p {
                            assert(t[j] == s[j - 1]);
                        } else {
                            assert(t[i] == s[i - 1] && t[j] == s[j - 1]);
                        }
                    }
                }
            }
        }
        proof {
            assert forall|i: int| 0 <= i < self.rows@.len() implies counts_wf(#[trigger] self.rows@[i].1) by {
                if i != p {
                }
            }
        }
        Ok(())
    }
}

/// The shape of every tally: session rows in strictly ascending name order,
/// and no count, in the totals or in a row, above its bar count.
pub proof fn lemma_tally_shape(t: &ShadowTally)
    requires
        t.wf(),
    ensures
        names_sorted(t.rows_spec()),
        counts_wf(t.totals_spec()),
        forall|i: int| 0 <= i < t.rows_spec().len() ==> counts_wf(#[trigger] t.rows_spec()[i].1),
{
    assert forall|i: int| 0 <= i < t.rows_spec().len() implies counts_wf(#[trigger] t.rows_spec()[i].1) by {
        assert(t.rows_spec()[i].1 == t.rows@[i].1);
    }
}

/// Every bar counted in the totals is counted in exactly one session row: each
/// column of the totals is the sum of that column over the rows.
pub proof fn lemma_totals_are_row_sums(t: &ShadowTally, k: int)
    requires
        t.wf(),
        0 <= k < 9,
    ensures
        col_sum(t.rows_spec(), k) == pick(t.totals_spec(), k),
{
}

} // verus!

verus! {

/// What one closed footprint contributes, as values.
pub struct FlagsView {
    pub session: Seq<char>,
    pub unfinished_is_entry: bool,
    pub dale_aligned: bool,
    pub valtos_aligned: bool,
    pub record_aligned: bool,
    pub dale_stack3: bool,
    pub valtos_stack3: bool,
    pub record_stack3: bool,
    pub unfinished: bool,
    pub chaos: bool,
}

pub open spec fn flags_view(f: ClosedBarFlags) -> FlagsView {
    FlagsView {
        session: f.session@,
        unfinished_is_entry: f.unfinished_is_entry,
        dale_aligned: f.dale_aligned,
        valtos_aligned: f.valtos_aligned,
        record_aligned: f.record_aligned,
        dale_stack3: f.dale_stack3,
        valtos_stack3: f.valtos_stack3,
        record_stack3: f.record_stack3,
        unfinished: f.unfinished,
        chaos: f.chaos,
    }
}

/// Flag `k` of one bar (0 is the bar itself), as `flag` numbers them.
pub open spec fn flag_v(f: FlagsView, k: int) -> bool {
    if k == 0 {
        true
    } else if k == 1 {
        f.dale_aligned
    } else if k == 2 {
        f.valtos_aligned
    } else if k == 3 {
        f.record_aligned
    } else if k == 4 {
        f.dale_stack3
    } else if k == 5 {
        f.valtos_stack3
    } else if k == 6 {
        f.record_stack3
    } else if k == 7 {
        f.unfinished
    } else {
        f.chaos
    }
}

pub open spec fn is_true(o: Option<bool>) -> bool {
    o == Some(true)
}

pub open spec fn u64_or_zero(o: Option<u64>) -> u64 {
    match o {
        Some(n) => n,
        None => 0,
    }
}

pub open spec fn stack3_spec(buy: u64, sell: u64) -> bool {
    (buy as u32) >= STACK_MIN || (sell as u32) >= STACK_MIN
}

/// The footprint of a journal record: its `footprint` value, or the record itself.
pub open spec fn payload_of(t: Seq<char>) -> Seq<char> {
    match json_sub_text(t, "footprint"@) {
        Some(p) => p,
        None => t,
    }
}

pub open spec fn slice_stack3(p: Seq<char>, slice: Seq<char>) -> bool {
    stack3_spec(
        u64_or_zero(json_nested_u64(p, slice, "buy_stack"@)),
        u64_or_zero(json_nested_u64(p, slice, "sell_stack"@)),
    )
}

/// The flags of a parsed journal record `t`: none unless its `event` is
/// `footprint_closed`; a missing session reads `unknown`, a missing flag false,
/// a missing stack 0.
pub open spec fn closed_flags_of(t: Seq<char>) -> Option<FlagsView> {
    if json_top_str(t, "event"@) != Some("footprint_closed"@) {
        None
    } else {
        let p = payload_of(t);
        Some(
            FlagsView {
                session: or_default(json_top_str(p, "session"@), "unknown"@),
                unfinished_is_entry: is_true(json_top_bool(p, "unfinished_is_entry"@)),
                dale_aligned: is_true(json_nested_bool(p, "dale"@, "aligned"@)),
                valtos_aligned: is_true(json_nested_bool(p, "valtos"@, "aligned"@)),
                record_aligned: is_true(json_nested_bool(p, "record"@, "aligned"@)),
                dale_stack3: slice_stack3(p, "dale"@),
                valtos_stack3: slice_stack3(p, "valtos"@),
                record_stack3: slice_stack3(p, "record"@),
                unfinished: is_true(json_top_bool(p, "unfinished_high"@)) || is_true(
                    json_top_bool(p, "unfinished_low"@),
                ),
                chaos: is_true(json_top_bool(p, "chaos"@)),
            },
        )
    }
}

/// One journal line: blank lines are skipped, text that is not JSON is
/// refused with the parser's message, other records give their flags.
pub open spec fn journal_line_flags(line: Seq<char>) -> Result<Option<FlagsView>, Seq<char>> {
    let t = trim_seq(line);
    if t.len() == 0 {
        Ok(None)
    } else {
        match json_error_of(t) {
            Some(e) => Err(e),
            None => Ok(closed_flags_of(t)),
        }
    }
}

fn stack3_of(p: &str, slice: &str) -> (r: bool)
    ensures
        r == slice_stack3(p@, slice@),
{
    let buy = match json_nested_u64_at(p, slice, "buy_stack") {
        Some(n) => n,
        None => 0,
    };
    let sell = match json_nested_u64_at(p, slice, "sell_stack") {
        Some(n) => n,
        None => 0,
    };
    stack3(buy, sell)
}

fn flag_of(p: &str, key: &str) -> (r: bool)
    ensures
        r == is_true(json_top_bool(p@, key@)),
{
    match json_bool_at(p, key) {
        Some(b) => b,
        None => false,
    }
}

fn aligned_of(p: &str, slice: &str) -> (r: bool)
    ensures
        r == is_true(json_nested_bool(p@, slice@, "aligned"@)),
{
    match json_nested_bool_at(p, slice, "aligned") {
        Some(b) => b,
        None => false,
    }
}

/// Reads one line of a shadow journal.
pub fn closed_bar_flags_of_line(line: &str) -> (r: Result<Option<ClosedBarFlags>, String>)
    ensures
        match r {
            Ok(Some(f)) => journal_line_flags(line@) == Ok::<Option<FlagsView>, Seq<char>>(
                Some(flags_view(f)),
            ),
            Ok(None) => journal_line_flags(line@) == Ok::<Option<FlagsView>, Seq<char>>(None),
            Err(e) => journal_line_flags(line@) == Err::<Option<FlagsView>, Seq<char>>(e@),
        },
{
    let t = trim(line);
    if t.unicode_len() == 0 {
        return Ok(None);
    }
    if let Some(e) = json_error_text(t) {
        return Err(e);
    }
    let closed = match json_str_at(t, "event") {
        Some(ev) => str_eq(ev.as_str(), "footprint_closed"),
        None => false,
    };
    if !closed {
        return Ok(None);
    }
    let p = match json_sub_text_at(t, "footprint") {
        Some(s) => s,
        None => t.to_string(),
    };
    let ps = p.as_str();
    let session = match json_str_at(ps, "session") {
        Some(s) => s,
        None => String::from_str("unknown"),
    };
    let f = ClosedBarFlags {
        session,
        unfinished_is_entry: flag_of(ps, "unfinished_is_entry"),
        dale_aligned: aligned_of(ps, "dale"),
        valtos_aligned: aligned_of(ps, "valtos"),
        record_aligned: aligned_of(ps, "record"),
        dale_stack3: stack3_of(ps, "dale"),
        valtos_stack3: stack3_of(ps, "valtos"),
        record_stack3: stack3_of(ps, "record"),
        unfinished: flag_of(ps, "unfinished_high") || flag_of(ps, "unfinished_low"),
        chaos: flag_of(ps, "chaos"),
    };
    Ok(Some(f))
}

} // verus!

verus! {

/// Bars among `fs` that carry flag `k`.
pub open spec fn flag_count(fs: Seq<FlagsView>, k: int) -> int
    decreases fs.len(),
{
    if fs.len() == 0 {
        0
    } else {
        flag_count(fs.drop_last(), k) + (if flag_v(fs.last(), k) {
            1int
        } else {
            0int
        })
    }
}

/// Bars of session `name` among `fs` that carry flag `k`.
pub open spec fn session_count(fs: Seq<FlagsView>, name: Seq<char>, k: int) -> int
    decreases fs.len(),
{
    if fs.len() == 0 {
        0
    } else {
        session_count(fs.drop_last(), name, k) + (if fs.last().session == name && flag_v(fs.last(), k) {
            1int
        } else {
            0int
        })
    }
}

pub open spec fn has_session(fs: Seq<FlagsView>, name: Seq<char>) -> bool {
    exists|i: int| 0 <= i < fs.len() && #[trigger] fs[i].session == name
}

pub open spec fn row_named(rows: Seq<(Seq<char>, BarCounts)>, name: Seq<char>) -> bool {
    exists|i: int| 0 <= i < rows.len() && #[trigger] rows[i].0 == name
}

/// `totals` and `rows` tally the bars `fs`: each total column counts the bars
/// with that flag; there is one row per session, in name order, and each row
/// column counts that session's bars with the flag.
pub open spec fn tally_of(totals: BarCounts, rows: Seq<(Seq<char>, BarCounts)>, fs: Seq<FlagsView>) -> bool {
    &&& forall|k: int| 0 <= k < 9 ==> #[trigger] pick(totals, k) == flag_count(fs, k)
    &&& names_sorted(rows)
    &&& forall|i: int, k: int|
        0 <= i < rows.len() && 0 <= k < 9 ==> #[trigger] pick(rows[i].1, k) == session_count(
            fs,
            rows[i].0,
            k,
        )
    &&& forall|name: Seq<char>|
        #![trigger has_session(fs, name)]
        #![trigger row_named(rows, name)]
        has_session(fs, name) == row_named(rows, name)
}

/// The closed footprints of a journal's lines, in order, or the first refusal:
/// a line that is not JSON (with the file and its 1-based line number), or a
/// footprint that calls an unfinished auction an entry.
pub open spec fn journal_flags(path: Seq<char>, lines: Seq<Seq<char>>) -> Result<Seq<FlagsView>, Seq<char>>
    decreases lines.len(),
{
    if lines.len() == 0 {
        Ok(Seq::empty())
    } else {
        match journal_flags(path, lines.drop_last()) {
            Err(e) => Err(e),
            Ok(fs) => match journal_line_flags(lines.last()) {
                Err(e) => Err(path + ":"@ + dec_seq(lines.len()) + ": "@ + e),
                Ok(None) => Ok(fs),
                Ok(Some(fv)) => if fv.unfinished_is_entry {
                    Err("unfinished_is_entry must stay false"@)
                } else {
                    Ok(fs.push(fv))
                },
            },
        }
    }
}

pub open spec fn lines_view(lines: Seq<String>) -> Seq<Seq<char>> {
    lines.map_values(|l: String| l@)
}

/// Every counted footprint is a bar: the bar column counts them all.
pub proof fn lemma_flag_count_bars(fs: Seq<FlagsView>)
    ensures
        flag_count(fs, 0) == fs.len(),
    decreases fs.len(),
{
    if fs.len() > 0 {
        lemma_flag_count_bars(fs.drop_last());
    }
}

proof fn lemma_session_count_absent(fs: Seq<FlagsView>, name: Seq<char>, k: int)
    requires
        !has_session(fs, name),
    ensures
        session_count(fs, name, k) == 0,
    decreases fs.len(),
{
    if fs.len() > 0 {
        let t = fs.drop_last();
        assert(!has_session(t, name)) by {
            if has_session(t, name) {
                let i = choose|i: int| 0 <= i < t.len() && #[trigger] t[i].session == name;
                assert(fs[i].session == name);
            }
        }
        assert(fs[fs.len() - 1].session != name);
        lemma_session_count_absent(t, name, k);
    }
}

proof fn lemma_push_counts(fs: Seq<FlagsView>, fv: FlagsView)
    ensures
        forall|k: int| #[trigger] flag_count(fs.push(fv), k) == flag_count(fs, k) + (if flag_v(fv, k) {
            1int
        } else {
            0int
        }),
        forall|name: Seq<char>, k: int| #[trigger] session_count(fs.push(fv), name, k) == session_count(fs, name, k)
            + (if fv.session == name && flag_v(fv, k) {
            1int
        } else {
            0int
        }),
        forall|name: Seq<char>| #[trigger] has_session(fs.push(fv), name) == (has_session(fs, name) || fv.session == name),
{
    let t = fs.push(fv);
    assert(t.drop_last() =~= fs);
    assert forall|name: Seq<char>| #[trigger] has_session(t, name) == (has_session(fs, name) || fv.session == name) by {
        if has_session(fs, name) {
            let i = choose|i: int| 0 <= i < fs.len() && #[trigger] fs[i].session == name;
            assert(t[i].session == name);
        }
        if fv.session == name {
            assert(t[fs.len() as int].session == name);
        }
        if has_session(t, name) {
            let i = choose|i: int| 0 <= i < t.len() && #[trigger] t[i].session == name;
            if i < fs.len() {
                assert(fs[i].session == name);
            }
        }
    }
}

proof fn lemma_names_distinct(s: Seq<(Seq<char>, BarCounts)>, i: int, j: int)
    requires
        names_sorted(s),
        0 <= i < s.len(),
        0 <= j < s.len(),
        i != j,
    ensures
        s[i].0 != s[j].0,
{
    if i < j {
        assert(seq_lt(s[i].0, s[j].0));
        lemma_lt_irreflexive(s[i].0);
    } else {
        assert(seq_lt(s[j].0, s[i].0));
        lemma_lt_irreflexive(s[j].0);
    }
}

/// One counted footprint keeps the tally exact, whether its session already
/// has a row (updated in place) or not (inserted).
proof fn lemma_tally_step(
    totals0: BarCounts,
    s: Seq<(Seq<char>, BarCounts)>,
    fs: Seq<FlagsView>,
    f: ClosedBarFlags,
    totals1: BarCounts,
    s1: Seq<(Seq<char>, BarCounts)>,
)
    requires
        tally_of(totals0, s, fs),
        counts_added(totals0, f, totals1),
        names_sorted(s1),
        ({
            let key = f.session@;
            ||| exists|p: int|
                0 <= p < s.len() && s[p].0 == key && counts_added(s[p].1, f, s1[p].1) && s1 == s.update(
                    p,
                    (key, s1[p].1),
                )
            ||| exists|p: int|
                0 <= p <= s.len() && (forall|j: int| 0 <= j < s.len() ==> s[j].0 != key) && counts_added(
                    counts_zero(),
                    f,
                    s1[p].1,
                ) && s1 == s.insert(p, (key, s1[p].1))
        }),
    ensures
        tally_of(totals1, s1, fs.push(flags_view(f))),
{
    let fv = flags_view(f);
    let fs1 = fs.push(fv);
    let key = f.session@;
    lemma_push_counts(fs, fv);
    assert forall|k: int| 0 <= k < 9 implies #[trigger] flag(f, k) == flag_v(fv, k) by {}
    assert forall|k: int| 0 <= k < 9 implies #[trigger] pick(totals1, k) == flag_count(fs1, k) by {
        assert(flag(f, k) == flag_v(fv, k));
    }
    if exists|p: int|
        0 <= p < s.len() && s[p].0 == key && counts_added(s[p].1, f, s1[p].1) && s1 == s.update(p, (key, s1[p].1)) {
        let p = choose|p: int|
            0 <= p < s.len() && s[p].0 == key && counts_added(s[p].1, f, s1[p].1) && s1 == s.update(
                p,
                (key, s1[p].1),
            );
        assert forall|i: int, k: int| 0 <= i < s1.len() && 0 <= k < 9 implies #[trigger] pick(s1[i].1, k)
            == session_count(fs1, s1[i].0, k) by {
            assert(flag(f, k) == flag_v(fv, k));
            assert(session_count(fs1, s1[i].0, k) == session_count(fs, s1[i].0, k) + (if fv.session
                == s1[i].0 && flag_v(fv, k) {
                1int
            } else {
                0int
            }));
            if i != p {
                lemma_names_distinct(s, i, p);
                assert(s1[i] == s[i]);
                assert(pick(s[i].1, k) == session_count(fs, s[i].0, k));
            } else {
                assert(pick(s[p].1, k) == session_count(fs, s[p].0, k));
            }
        }
        assert forall|name: Seq<char>|
            #![trigger has_session(fs1, name)]
            #![trigger row_named(s1, name)]
            has_session(fs1, name) == row_named(s1, name) by {
            assert(has_session(fs1, name) == (has_session(fs, name) || key == name));
            assert(has_session(fs, name) == row_named(s, name));
            if row_named(s, name) {
                let i = choose|i: int| 0 <= i < s.len() && #[trigger] s[i].0 == name;
                assert(s1[i].0 == name);
            }
            if key == name {
                assert(s1[p].0 == name);
            }
            if row_named(s1, name) {
                let i = choose|i: int| 0 <= i < s1.len() && #[trigger] s1[i].0 == name;
                assert(s[i].0 == name);
            }
        }
    } else {
        let p = choose|p: int|
            0 <= p <= s.len() && (forall|j: int| 0 <= j < s.len() ==> s[j].0 != key) && counts_added(
                counts_zero(),
                f,
                s1[p].1,
            ) && s1 == s.insert(p, (key, s1[p].1));
        assert(!has_session(fs, key)) by {
            if has_session(fs, key) {
                assert(row_named(s, key));
                let i = choose|i: int| 0 <= i < s.len() && #[trigger] s[i].0 == key;
            }
        }
        assert forall|i: int, k: int| 0 <= i < s1.len() && 0 <= k < 9 implies #[trigger] pick(s1[i].1, k)
            == session_count(fs1, s1[i].0, k) by {
            assert(flag(f, k) == flag_v(fv, k));
            assert(session_count(fs1, s1[i].0, k) == session_count(fs, s1[i].0, k) + (if fv.session
                == s1[i].0 && flag_v(fv, k) {
                1int
            } else {
                0int
            }));
            if i < p {
                assert(s1[i] == s[i]);
                assert(pick(s[i].1, k) == session_count(fs, s[i].0, k));
            } else if i > p {
                assert(s1[i] == s[i - 1]);
                assert(pick(s[i - 1].1, k) == session_count(fs, s[i - 1].0, k));
            } else {
                lemma_session_count_absent(fs, key, k);
                assert(pick(counts_zero(), k) == 0);
            }
        }
        assert forall|name: Seq<char>|
            #![trigger has_session(fs1, name)]
            #![trigger row_named(s1, name)]
            has_session(fs1, name) == row_named(s1, name) by {
            assert(has_session(fs1, name) == (has_session(fs, name) || key == name));
            assert(has_session(fs, name) == row_named(s, name));
            if row_named(s, name) {
                let i = choose|i: int| 0 <= i < s.len() && #[trigger] s[i].0 == name;
                if i < p {
                    assert(s1[i].0 == name);
                } else {
                    assert(s1[i + 1].0 == name);
                }
            }
            if key == name {
                assert(s1[p].0 == name);
            }
            if row_named(s1, name) {
                let i = choose|i: int| 0 <= i < s1.len() && #[trigger] s1[i].0 == name;
                if i < p {
                    assert(s[i].0 == name);
                } else if i > p {
                    assert(s[i - 1].0 == name);
                }
            }
        }
    }
}

} // verus!

verus! {

/// A refusal on a prefix of the journal is the refusal of the whole journal.
proof fn lemma_journal_err_sticks(path: Seq<char>, lines: Seq<Seq<char>>, j: int)
    requires
        0 <= j <= lines.len(),
        journal_flags(path, lines.subrange(0, j)) is Err,
    ensures
        journal_flags(path, lines) == journal_flags(path, lines.subrange(0, j)),
    decreases lines.len() - j,
{
    if j < lines.len() {
        let k = j + 1;
        assert(lines.subrange(0, k).drop_last() =~= lines.subrange(0, j));
        lemma_journal_err_sticks(path, lines, k);
    } else {
        assert(lines.subrange(0, j) =~= lines);
    }
}

/// A journal line that is a closed footprint calling an unfinished auction an entry.
pub open spec fn line_is_entry(line: Seq<char>) -> bool {
    match journal_line_flags(line) {
        Ok(Some(fv)) => fv.unfinished_is_entry,
        _ => false,
    }
}

/// The closed footprints among `lines`, in order.
pub open spec fn closed_flags(lines: Seq<Seq<char>>) -> Seq<FlagsView>
    decreases lines.len(),
{
    if lines.len() == 0 {
        Seq::empty()
    } else {
        match journal_line_flags(lines.last()) {
            Ok(Some(fv)) => closed_flags(lines.drop_last()).push(fv),
            _ => closed_flags(lines.drop_last()),
        }
    }
}

/// On a journal whose lines all read (blank or JSON), the tally is refused
/// exactly when some closed footprint calls an unfinished auction an entry, and
/// then with that refusal; otherwise it counts every closed footprint, in order.
pub proof fn lemma_journal_refusal(path: Seq<char>, lines: Seq<Seq<char>>)
    requires
        forall|i: int| 0 <= i < lines.len() ==> #[trigger] journal_line_flags(lines[i]) is Ok,
    ensures
        journal_flags(path, lines) is Err <==> exists|i: int|
            0 <= i < lines.len() && #[trigger] line_is_entry(lines[i]),
        journal_flags(path, lines) is Err ==> journal_flags(path, lines) == Err::<
            Seq<FlagsView>,
            Seq<char>,
        >("unfinished_is_entry must stay false"@),
        journal_flags(path, lines) is Ok ==> journal_flags(path, lines) == Ok::<
            Seq<FlagsView>,
            Seq<char>,
        >(closed_flags(lines)),
    decreases lines.len(),
{
    if lines.len() > 0 {
        let init = lines.drop_last();
        assert forall|i: int| 0 <= i < init.len() implies #[trigger] journal_line_flags(init[i]) is Ok by {
            assert(init[i] == lines[i]);
        }
        lemma_journal_refusal(path, init);
        let last = lines.len() - 1;
        assert(lines.last() == lines[last]);
        assert(journal_line_flags(lines[last]) is Ok);
        if line_is_entry(lines[last]) {
            assert(exists|i: int| 0 <= i < lines.len() && #[trigger] line_is_entry(lines[i]));
        }
        if exists|i: int| 0 <= i < init.len() && #[trigger] line_is_entry(init[i]) {
            let i = choose|i: int| 0 <= i < init.len() && #[trigger] line_is_entry(init[i]);
            assert(lines[i] == init[i]);
            assert(line_is_entry(lines[i]));
        }
        if exists|i: int| 0 <= i < lines.len() && #[trigger] line_is_entry(lines[i]) {
            let i = choose|i: int| 0 <= i < lines.len() && #[trigger] line_is_entry(lines[i]);
            if i < last {
                assert(init[i] == lines[i]);
                assert(line_is_entry(init[i]));
            }
        }
    }
}

/// The tally of a journal whose lines all read and that has no refused
/// footprint counts each closed footprint once: its bar total is their number,
/// and each flag total is the sum of that flag over the session rows.
pub proof fn lemma_journal_counts(path: Seq<char>, lines: Seq<Seq<char>>, t: ShadowTally)
    requires
        forall|i: int| 0 <= i < lines.len() ==> #[trigger] journal_line_flags(lines[i]) is Ok,
        forall|i: int| 0 <= i < lines.len() ==> !#[trigger] line_is_entry(lines[i]),
        t.wf(),
        journal_flags(path, lines) is Ok,
        tally_of(t.totals_spec(), t.rows_spec(), journal_flags(path, lines)->Ok_0),
    ensures
        t.totals_spec().bars == closed_flags(lines).len(),
        forall|k: int| 0 <= k < 9 ==> #[trigger] pick(t.totals_spec(), k) == flag_count(closed_flags(lines), k),
        forall|k: int| 0 <= k < 9 ==> #[trigger] pick(t.totals_spec(), k) == col_sum(t.rows_spec(), k),
{
    lemma_journal_refusal(path, lines);
    lemma_flag_count_bars(closed_flags(lines));
    assert(pick(t.totals_spec(), 0) == flag_count(closed_flags(lines), 0));
    assert forall|k: int| 0 <= k < 9 implies #[trigger] pick(t.totals_spec(), k) == col_sum(t.rows_spec(), k) by {
        lemma_totals_are_row_sums(&t, k);
    }
}

/// Tallies the lines of a shadow journal (read from `path`): its closed
/// footprints, per session and in total. Never picks 300 vs 400.
pub fn tally_journal(path: &str, lines: &[String]) -> (r: Result<ShadowTally, String>)
    ensures
        match r {
            Ok(t) => t.wf() && journal_flags(path@, lines_view(lines@)) is Ok && tally_of(
                t.totals_spec(),
                t.rows_spec(),
                journal_flags(path@, lines_view(lines@))->Ok_0,
            ),
            Err(e) => journal_flags(path@, lines_view(lines@)) == Err::<Seq<FlagsView>, Seq<char>>(e@),
        },
{
    let ghost lv = lines_view(lines@);
    let n = lines.len();
    let mut t = ShadowTally::new();
    let ghost mut fs: Seq<FlagsView> = Seq::empty();
    let mut i: usize = 0;
    proof {
        assert(lv.subrange(0, 0) =~= Seq::<Seq<char>>::empty());
        assert(tally_of(t.totals_spec(), t.rows_spec(), fs)) by {
            assert forall|name: Seq<char>|
                #![trigger has_session(fs, name)]
                #![trigger row_named(t.rows_spec(), name)]
                has_session(fs, name) == row_named(t.rows_spec(), name) by {}
        }
    }
    while i < n
        invariant
            n == lines@.len(),
            lv == lines_view(lines@),
            i <= n,
            t.wf(),
            journal_flags(path@, lv.subrange(0, i as int)) == Ok::<Seq<FlagsView>, Seq<char>>(fs),
            tally_of(t.totals_spec(), t.rows_spec(), fs),
            fs.len() <= i,
        decreases n - i,
    {
        let ghost pre = lv.subrange(0, i as int);
        let ghost cur = lv.subrange(0, i + 1);
        proof {
            assert(cur.drop_last() =~= pre);
            assert(cur.last() == lines@[i as int]@);
            assert(cur.len() == i + 1);
        }
        match closed_bar_flags_of_line(lines[i].as_str()) {
            Err(e) => {
                let head = concat_str(path.to_string(), ":");
                let num = u64_decimal((i + 1) as u64);
                let head = concat_str(head, num.as_str());
                let head = concat_str(head, ": ");
                let msg = concat_str(head, e.as_str());
                proof {
                    assert(msg@ == path@ + ":"@ + dec_seq(cur.len()) + ": "@ + e@);
                    lemma_journal_err_sticks(path@, lv, i + 1);
                }
                return Err(msg);
            },
            Ok(None) => {},
            Ok(Some(f)) => {
                if f.unfinished_is_entry {
                    proof {
                        lemma_journal_err_sticks(path@, lv, i + 1);
                    }
                    return Err(String::from_str("unfinished_is_entry must stay false"));
                }
                proof {
                    lemma_flag_count_bars(fs);
                    assert(pick(t.totals_spec(), 0) == flag_count(fs, 0));
                }
                let ghost s0 = t.rows_spec();
                let ghost tot0 = t.totals_spec();
                let _ = t.add(&f);
                proof {
                    lemma_tally_step(tot0, s0, fs, f, t.totals_spec(), t.rows_spec());
                    fs = fs.push(flags_view(f));
                }
            },
        }
        i += 1;
    }
    proof {
        assert(lv.subrange(0, n as int) =~= lv);
    }
    Ok(t)
}

} // verus!
