//! Per-venue L2 integrity. Unhealthy book → that venue's DOM scripts
//! `not_evaluated`. Never fill OKX from another book. Script F stays
//! `not_evaluated` until the book is Ok.
//!
//! Integrity (do not mix venue rules):
//! - OKX: `seqId`/`prevSeqId`. `checksum==0` is ignored (deprecated 2026-06-23).
//! - Binance USD-M: `pu` must equal previous `u`. REST snapshot seeds `lastUpdateId`.
//! - Bybit: `type=snapshot` resets; `type=delta` applies; `u==1` overwrites.
//!
//! A toxic book on one venue never marks the other two venues' books bad:
//! each venue has its own [`BookIntegrity`].

use vstd::prelude::*;
use crate::domain::{with_book_ok, QualityVector, Venue, VenueRole};
use crate::ingest::text_is;
use crate::text::str_eq;

verus! {

pub const WIRED: bool = true;

pub fn unfinished_book_is_not_an_entry() -> (r: bool)
    ensures
        r,
{
    true
}

#[derive(Debug, Clone, Copy, PartialEq, Eq, Structural)]
pub enum BookHealth {
    /// No snapshot yet, or currently resyncing.
    Rebuilding,
    Healthy,
    Degraded,
    Bad,
}

pub open spec fn health_name(h: BookHealth) -> Seq<char> {
    match h {
        BookHealth::Rebuilding => "book_rebuilding"@,
        BookHealth::Healthy => "book_ok"@,
        BookHealth::Degraded => "book_degraded"@,
        BookHealth::Bad => "book_bad"@,
    }
}

impl BookHealth {
    pub fn is_ok(self) -> (r: bool)
        ensures
            r == (self == BookHealth::Healthy),
    {
        match self {
            BookHealth::Healthy => true,
            _ => false,
        }
    }

    pub fn as_str(self) -> (r: &'static str)
        ensures
            r@ == health_name(self),
    {
        match self {
            BookHealth::Rebuilding => "book_rebuilding",
            BookHealth::Healthy => "book_ok",
            BookHealth::Degraded => "book_degraded",
            BookHealth::Bad => "book_bad",
        }
    }
}

/// Four footprint↔DOM reads. `not_evaluated` when the book is toxic or there is no wall.
#[derive(Debug, Clone, Copy, PartialEq, Eq, Structural)]
pub enum WallRead {
    NotEvaluated,
    EatThrough,
    Yield,
    Absorb,
    FakeWall,
}

#[derive(Debug, Clone, Copy, PartialEq, Eq, Structural)]
pub enum BookMsgKind {
    Snapshot,
    Delta,
}

/// Book side of a ladder level.
#[derive(Debug, Clone, Copy, PartialEq, Eq, Structural)]
pub enum Side {
    Bid,
    Ask,
}

/// The integrity fields of one venue-native book message.
#[derive(Debug, Clone, Copy, PartialEq, Eq, Structural)]
pub struct SeqInfo {
    pub kind: BookMsgKind,
    /// OKX `seqId`; Binance final `u`; Bybit `u`.
    pub seq: Option<i64>,
    /// OKX `prevSeqId`; Binance `pu`.
    pub prev_seq: Option<i64>,
    /// Binance first update id `U` (range start).
    pub seq_from: Option<i64>,
    /// OKX checksum. 0 means deprecated / ignore.
    pub checksum: Option<i32>,
}

/// Whether a message continues the local sequence `last` on `venue`.
pub open spec fn seq_accepts(venue: Venue, last: Option<i64>, d: SeqInfo) -> bool {
    match d.kind {
        BookMsgKind::Snapshot => true,
        BookMsgKind::Delta => match venue {
            Venue::Okx => match (last, d.prev_seq) {
                (Some(l), Some(p)) => p == l,
                _ => false,
            },
            Venue::Binance => match last {
                None => false,
                Some(l) => match d.prev_seq {
                    Some(pu) => pu == l,
                    None => match (d.seq_from, d.seq) {
                        (Some(from), Some(to)) => from <= l + 1 && l + 1 <= to,
                        _ => false,
                    },
                },
            },
            Venue::Bybit => if d.seq == Some(1i64) {
                true
            } else {
                match (last, d.seq) {
                    (Some(l), Some(u)) => u == l || u == l + 1,
                    _ => false,
                }
            },
        },
    }
}

/// Whether checking `d` on `venue` computes `last + 1`.
pub open spec fn seq_uses_successor(venue: Venue, last: Option<i64>, d: SeqInfo) -> bool {
    &&& d.kind == BookMsgKind::Delta
    &&& last is Some
    &&& d.seq is Some
    &&& match venue {
        Venue::Okx => false,
        Venue::Binance => d.prev_seq is None && d.seq_from is Some,
        Venue::Bybit => d.seq != Some(1i64),
    }
}

/// A Binance delta without `pu` is accepted exactly when its id range `[U, u]`
/// covers the next update id `last + 1`: a delta whose first id lies beyond it
/// (ids missing) or whose last id falls short of it is refused.
pub proof fn lemma_binance_range_covers_next(l: i64, d: SeqInfo)
    requires
        d.kind == BookMsgKind::Delta,
        d.prev_seq is None,
    ensures
        seq_accepts(Venue::Binance, Some(l), d) <==> (d.seq_from is Some && d.seq is Some
            && d.seq_from->Some_0 <= l + 1 && l + 1 <= d.seq->Some_0),
        (d.seq_from is Some && d.seq_from->Some_0 > l + 1) ==> !seq_accepts(Venue::Binance, Some(l), d),
{
}

/// Deltas that carry the previous id (OKX `prevSeqId`, Binance `pu`) are
/// accepted exactly when it chains to the last applied id.
pub proof fn lemma_prev_id_chains(venue: Venue, l: i64, d: SeqInfo)
    requires
        d.kind == BookMsgKind::Delta,
        d.prev_seq is Some,
        venue == Venue::Okx || venue == Venue::Binance,
    ensures
        seq_accepts(venue, Some(l), d) <==> d.prev_seq == Some(l),
{
}

/// Before a snapshot (no last id) no delta is accepted, except Bybit's reset
/// message `u == 1`; an OKX delta without `prevSeqId` is never accepted; a
/// Bybit delta is accepted exactly as that reset, a repeat of the last id or
/// its successor. Snapshots are always accepted.
pub proof fn lemma_delta_acceptance_bounds(venue: Venue, last: Option<i64>, d: SeqInfo)
    ensures
        d.kind == BookMsgKind::Snapshot ==> seq_accepts(venue, last, d),
        (d.kind == BookMsgKind::Delta && last is None && seq_accepts(venue, last, d)) ==> venue
            == Venue::Bybit && d.seq == Some(1i64),
        (d.kind == BookMsgKind::Delta && venue == Venue::Okx && d.prev_seq is None) ==> !seq_accepts(
            venue,
            last,
            d,
        ),
        (d.kind == BookMsgKind::Delta && venue == Venue::Bybit) ==> (seq_accepts(venue, last, d) <==> (
        d.seq == Some(1i64) || (last is Some && d.seq is Some && (d.seq->Some_0 == last->Some_0
            || d.seq->Some_0 == last->Some_0 + 1)))),
{
}

pub fn accept_seq(venue: Venue, last: Option<i64>, d: &SeqInfo) -> (r: bool)
    requires
        seq_uses_successor(venue, last, *d) ==> last->Some_0 < i64::MAX,
    ensures
        r == seq_accepts(venue, last, *d),
{
    match d.kind {
        BookMsgKind::Snapshot => true,
        BookMsgKind::Delta => match venue {
            Venue::Okx => match (last, d.prev_seq) {
                (Some(l), Some(p)) => p == l,
                _ => false,
            },
            Venue::Binance => match last {
                None => false,
                Some(l) => match d.prev_seq {
                    Some(pu) => pu == l,
                    None => match (d.seq_from, d.seq) {
                        (Some(from), Some(to)) => from <= l + 1 && l + 1 <= to,
                        _ => false,
                    },
                },
            },
            Venue::Bybit => {
                if d.seq == Some(1i64) {
                    true
                } else {
                    match (last, d.seq) {
                        (Some(l), Some(u)) => u == l || u == l + 1,
                        _ => false,
                    }
                }
            },
        },
    }
}

/// A message that resets the ladders before its levels are applied.
pub open spec fn forces_snapshot(venue: Venue, d: SeqInfo) -> bool {
    d.kind == BookMsgKind::Snapshot || (venue == Venue::Bybit && d.seq == Some(1i64))
}

/// Health from ladder depth and touch: empty side → rebuilding, crossed →
/// bad, thin → degraded.
pub open spec fn health_spec(
    n_bids: nat,
    n_asks: nat,
    bid1: Option<i64>,
    ask1: Option<i64>,
    min_levels: nat,
) -> BookHealth {
    if n_bids == 0 || n_asks == 0 {
        BookHealth::Rebuilding
    } else if (bid1 matches Some(b) && ask1 matches Some(a) && b >= a) {
        BookHealth::Bad
    } else if n_bids < min_levels || n_asks < min_levels {
        BookHealth::Degraded
    } else {
        BookHealth::Healthy
    }
}

/// A crossed touch (best bid at or above best ask) on a book with both sides
/// is bad, however deep or thin the book is.
pub proof fn lemma_crossed_is_bad(n_bids: nat, n_asks: nat, b: i64, a: i64, min_levels: nat)
    requires
        n_bids > 0,
        n_asks > 0,
        b >= a,
    ensures
        health_spec(n_bids, n_asks, Some(b), Some(a), min_levels) == BookHealth::Bad,
{
}

/// What each grade says of the book: an empty side means rebuilding; bad
/// means both sides and a crossed touch; degraded means both sides, an
/// uncrossed touch and a side thinner than `min_levels`; healthy means both
/// sides at least `min_levels` deep and an uncrossed touch.
pub proof fn lemma_health_grades(
    n_bids: nat,
    n_asks: nat,
    bid1: Option<i64>,
    ask1: Option<i64>,
    min_levels: nat,
)
    ensures
        ({
            let h = health_spec(n_bids, n_asks, bid1, ask1, min_levels);
            let crossed = bid1 is Some && ask1 is Some && bid1->Some_0 >= ask1->Some_0;
            &&& (h == BookHealth::Rebuilding) <==> (n_bids == 0 || n_asks == 0)
            &&& h == BookHealth::Bad <==> (n_bids > 0 && n_asks > 0 && crossed)
            &&& h == BookHealth::Degraded <==> (n_bids > 0 && n_asks > 0 && !crossed && (n_bids < min_levels
                || n_asks < min_levels))
            &&& h == BookHealth::Healthy <==> (n_bids > 0 && n_asks > 0 && !crossed && n_bids >= min_levels
                && n_asks >= min_levels)
        }),
{
}

pub fn compute_health(
    n_bids: usize,
    n_asks: usize,
    bid1: Option<i64>,
    ask1: Option<i64>,
    min_levels: usize,
) -> (r: BookHealth)
    ensures
        r == health_spec(n_bids as nat, n_asks as nat, bid1, ask1, min_levels as nat),
{
    if n_bids == 0 || n_asks == 0 {
        return BookHealth::Rebuilding;
    }
    if let (Some(b), Some(a)) = (bid1, ask1) {
        if b >= a {
            return BookHealth::Bad;
        }
    }
    if n_bids < min_levels || n_asks < min_levels {
        return BookHealth::Degraded;
    }
    BookHealth::Healthy
}

/// What a message does to the ladders once its sequence is checked.
#[derive(Debug, Clone, Copy, PartialEq, Eq, Structural)]
pub enum DeltaStart {
    /// Sequence gap: the book is now bad and both ladders must be cleared.
    Rejected,
    /// Apply the levels; clear both ladders first when `reset` is set.
    Apply { reset: bool },
}

/// Sequence, checksum and health bookkeeping of one venue's book.
#[derive(Debug, Clone, Copy, PartialEq, Eq, Structural)]
pub struct BookIntegrity {
    pub venue: Venue,
    pub health: BookHealth,
    pub last_seq: Option<i64>,
    pub checksum_fail: u32,
    pub seq_gap: u32,
    pub rebuilds: u32,
}

/// `b` after a sequence gap or checksum failure: bad, no sequence, one more gap.
pub open spec fn after_gap(b: BookIntegrity) -> BookIntegrity {
    BookIntegrity {
        seq_gap: (b.seq_gap + 1) as u32,
        health: BookHealth::Bad,
        last_seq: None,
        ..b
    }
}

impl BookIntegrity {
    pub fn new(venue: Venue) -> (r: Self)
        ensures
            r == (BookIntegrity {
                venue,
                health: BookHealth::Rebuilding,
                last_seq: None,
                checksum_fail: 0,
                seq_gap: 0,
                rebuilds: 0,
            }),
    {
        BookIntegrity {
            venue,
            health: BookHealth::Rebuilding,
            last_seq: None,
            checksum_fail: 0,
            seq_gap: 0,
            rebuilds: 0,
        }
    }

    fn mark_bad_gap(&mut self)
        requires
            old(self).seq_gap < u32::MAX,
        ensures
            *final(self) == after_gap(*old(self)),
    {
        self.seq_gap = self.seq_gap + 1;
        self.health = BookHealth::Bad;
        self.last_seq = None;
    }

    /// First half of applying a message: the sequence check and the reset.
    pub fn begin(&mut self, d: &SeqInfo) -> (r: DeltaStart)
        requires
            seq_uses_successor(old(self).venue, old(self).last_seq, *d) ==> old(
                self,
            ).last_seq->Some_0 < i64::MAX,
            old(self).seq_gap < u32::MAX,
            old(self).rebuilds < u32::MAX,
        ensures
            !seq_accepts(old(self).venue, old(self).last_seq, *d) ==> r == DeltaStart::Rejected
                && *final(self) == after_gap(*old(self)),
            seq_accepts(old(self).venue, old(self).last_seq, *d) ==> r == (DeltaStart::Apply {
                reset: forces_snapshot(old(self).venue, *d),
            }) && *final(self) == (BookIntegrity {
                rebuilds: if forces_snapshot(old(self).venue, *d) {
                    (old(self).rebuilds + 1) as u32
                } else {
                    old(self).rebuilds
                },
                ..*old(self)
            }),
    {
        if !accept_seq(self.venue, self.last_seq, d) {
            self.mark_bad_gap();
            return DeltaStart::Rejected;
        }
        let reset = d.kind == BookMsgKind::Snapshot || (self.venue == Venue::Bybit && d.seq
            == Some(1i64));
        if reset {
            self.rebuilds = self.rebuilds + 1;
        }
        DeltaStart::Apply { reset }
    }

    /// Second half, after the levels are applied: the checksum of the book as
    /// it now stands (`book_crc`), then the new sequence and health. Returns
    /// false when a nonzero checksum disagrees; the book is then bad and both
    /// ladders must be cleared.
    pub fn finish(
        &mut self,
        d: &SeqInfo,
        book_crc: i32,
        n_bids: usize,
        n_asks: usize,
        bid1: Option<i64>,
        ask1: Option<i64>,
        min_levels: usize,
    ) -> (ok: bool)
        requires
            old(self).checksum_fail < u32::MAX,
            old(self).seq_gap < u32::MAX,
        ensures
            ok == !(d.checksum matches Some(cs) && cs != 0 && cs != book_crc),
            !ok ==> *final(self) == after_gap(
                BookIntegrity { checksum_fail: (old(self).checksum_fail + 1) as u32, ..*old(self) },
            ),
            ok ==> *final(self) == (BookIntegrity {
                last_seq: if d.seq is Some {
                    d.seq
                } else {
                    old(self).last_seq
                },
                health: health_spec(
                    n_bids as nat,
                    n_asks as nat,
                    bid1,
                    ask1,
                    min_levels as nat,
                ),
                ..*old(self)
            }),
    {
        if let Some(cs) = d.checksum {
            if cs != 0 && cs != book_crc {
                self.checksum_fail = self.checksum_fail + 1;
                self.mark_bad_gap();
                return false;
            }
        }
        if let Some(s) = d.seq {
            self.last_seq = Some(s);
        }
        self.health = compute_health(n_bids, n_asks, bid1, ask1, min_levels);
        true
    }

    pub fn apply_quality(&self, q: &mut QualityVector)
        ensures
            *final(q) == with_book_ok(*old(q), self.venue, self.health == BookHealth::Healthy),
    {
        q.set_book_ok(self.venue, self.health.is_ok());
    }
}

/// After a gap the book has no sequence: only a snapshot (or a Bybit `u == 1`
/// overwrite) is accepted until the book is rebuilt.
pub proof fn lemma_gap_requires_rebuild(b: BookIntegrity, d: SeqInfo)
    ensures
        seq_accepts(b.venue, after_gap(b).last_seq, d) == forces_snapshot(b.venue, d),
{
}

/// An OKX delta is accepted exactly when its `prevSeqId` is the local sequence.
pub proof fn lemma_okx_seq_chain(last: Option<i64>, d: SeqInfo)
    requires
        d.kind == BookMsgKind::Delta,
    ensures
        seq_accepts(Venue::Okx, last, d) <==> (last is Some && d.prev_seq == last),
{
}

/// Healthy means both sides have at least `min_levels` levels and the touch is not crossed.
pub proof fn lemma_ok_health(
    n_bids: nat,
    n_asks: nat,
    bid1: Option<i64>,
    ask1: Option<i64>,
    min_levels: nat,
)
    requires
        min_levels > 0,
    ensures
        health_spec(n_bids, n_asks, bid1, ask1, min_levels) == BookHealth::Healthy <==> (n_bids
            >= min_levels && n_asks >= min_levels && !(bid1 matches Some(b) && ask1 matches Some(
            a,
        ) && b >= a)),
{
}

/// How one venue's frozen book gates DOM reads.
#[derive(Debug, Clone, Copy, PartialEq, Eq)]
pub struct DomGate {
    pub book_ok: bool,
    /// Execution-venue DOM entries. Resonance book damage does not block OKX footprint.
    pub dom_entries_allowed: bool,
    pub resonance_read: &'static str,
    pub script_f: &'static str,
    /// A wall read is computed (else it is `not_evaluated`).
    pub read_evaluated: bool,
}

pub fn dom_gate(role: VenueRole, health: BookHealth) -> (g: DomGate)
    ensures
        g.book_ok == (health == BookHealth::Healthy),
        g.dom_entries_allowed == (role == VenueRole::Resonance || health == BookHealth::Healthy),
        g.resonance_read@ == (if role == VenueRole::Execution {
            "n/a"@
        } else if health == BookHealth::Healthy {
            "evaluated"@
        } else {
            "not_evaluated"@
        }),
        g.script_f@ == (if health == BookHealth::Healthy {
            "computed"@
        } else {
            "not_evaluated"@
        }),
        g.read_evaluated == !(health == BookHealth::Bad || health == BookHealth::Rebuilding),
{
    let book_ok = health.is_ok();
    let exec = role == VenueRole::Execution;
    DomGate {
        book_ok,
        dom_entries_allowed: if exec {
            book_ok
        } else {
            true
        },
        resonance_read: if exec {
            "n/a"
        } else if book_ok {
            "evaluated"
        } else {
            "not_evaluated"
        },
        script_f: if book_ok {
            "computed"
        } else {
            "not_evaluated"
        },
        read_evaluated: !(health == BookHealth::Bad || health == BookHealth::Rebuilding),
    }
}

} // verus!

verus! {

/// CRC-32 (IEEE) of a byte string, as `crc32fast` computes it.
pub uninterp spec fn crc32_of(bytes: Seq<u8>) -> u32;

/// `crc32fast::hash`: the CRC-32 checksum of `bytes`. The contract names the
/// result; the polynomial arithmetic is not restated.
#[verifier::external_body]
fn crc32_hash(bytes: &[u8]) -> (r: u32)
    ensures
        r == crc32_of(bytes@),
{
    crc32fast::hash(bytes)
}

pub open spec fn level_text(l: (String, String)) -> Seq<char> {
    l.0@ + ":"@ + l.1@
}

/// The first `n` rows of the OKX checksum text: bid i, then ask i.
pub open spec fn checksum_parts(
    bids: Seq<(String, String)>,
    asks: Seq<(String, String)>,
    n: nat,
) -> Seq<Seq<char>>
    decreases n,
{
    if n == 0 {
        Seq::empty()
    } else {
        let k = (n - 1) as nat;
        let ps = checksum_parts(bids, asks, k);
        let ps = if k < bids.len() {
            ps.push(level_text(bids[k as int]))
        } else {
            ps
        };
        if k < asks.len() {
            ps.push(level_text(asks[k as int]))
        } else {
            ps
        }
    }
}

/// Parts joined by `:`.
pub open spec fn join_colon(parts: Seq<Seq<char>>) -> Seq<char>
    decreases parts.len(),
{
    if parts.len() == 0 {
        Seq::empty()
    } else if parts.len() == 1 {
        parts[0]
    } else {
        join_colon(parts.drop_last()) + ":"@ + parts.last()
    }
}

pub open spec fn checksum_text(bids: Seq<(String, String)>, asks: Seq<(String, String)>) -> Seq<
    char,
> {
    join_colon(checksum_parts(bids, asks, 25))
}

proof fn lemma_join_push(ps: Seq<Seq<char>>, x: Seq<char>)
    ensures
        join_colon(ps.push(x)) == (if ps.len() == 0 {
            x
        } else {
            join_colon(ps) + ":"@ + x
        }),
{
    assert(ps.push(x).drop_last() =~= ps);
}

fn push_part(out: &mut String, first: &mut bool, part: &str)
    requires
        *old(first) ==> old(out)@.len() == 0,
    ensures
        final(out)@ == (if *old(first) {
            part@
        } else {
            old(out)@ + ":"@ + part@
        }),
        !*final(first),
{
    if !*first {
        out.append(":");
    }
    out.append(part);
    *first = false;
}

/// OKX historical CRC32 (signed) over the top 25 levels, bid and ask
/// interleaved as `px:sz`. After 2026-06-23 production checksum is always 0
/// and must be ignored; seqId/prevSeqId is the integrity path.
pub fn okx_checksum(bids: &[(String, String)], asks: &[(String, String)]) -> (r: i32)
    ensures
        r == crc32_of(crate::text::utf8_of(checksum_text(bids@, asks@))) as i32,
{
    let mut out = String::new();
    let mut first = true;
    let mut i: usize = 0;
    while i < 25
        invariant
            i <= 25,
            out@ == join_colon(checksum_parts(bids@, asks@, i as nat)),
            first == (checksum_parts(bids@, asks@, i as nat).len() == 0),
        decreases 25 - i,
    {
        let ghost ps0 = checksum_parts(bids@, asks@, i as nat);
        if i < bids.len() {
            let l = &bids[i];
            let mut part = l.0.clone();
            part.append(":");
            part.append(l.1.as_str());
            proof {
                lemma_join_push(ps0, level_text(bids@[i as int]));
            }
            push_part(&mut out, &mut first, part.as_str());
        }
        let ghost ps1 = if (i as nat) < bids@.len() {
            ps0.push(level_text(bids@[i as int]))
        } else {
            ps0
        };
        if i < asks.len() {
            let l = &asks[i];
            let mut part = l.0.clone();
            part.append(":");
            part.append(l.1.as_str());
            proof {
                lemma_join_push(ps1, level_text(asks@[i as int]));
            }
            push_part(&mut out, &mut first, part.as_str());
        }
        i += 1;
    }
    let h = crc32_hash(out.as_str().as_bytes());
    h as i32
}

} // verus!

verus! {

/// What decides how a venue-native book frame is applied: which keys it has
/// and its `action` / `op` / `type` strings. For Binance the keys are those of
/// the `data` object when there is one.
#[derive(Debug, Clone)]
pub struct BookFrameKeys {
    pub has_event: bool,
    pub has_data: bool,
    pub action: Option<String>,
    pub has_last_update_id: bool,
    pub has_e: bool,
    pub has_result: bool,
    pub has_id: bool,
    pub op: Option<String>,
    pub typ: Option<String>,
}

/// How a book frame applies: `None` for a control frame (subscribe acks,
/// pings), else a snapshot or a delta.
/// - OKX: an `event` without `data` is control; `action = update` is a delta.
/// - Binance: `lastUpdateId` without `e` is the REST snapshot; `result` with
///   `id` is control; the rest are depth deltas.
/// - Bybit: `op` subscribe / ping / pong is control; `type = delta` is a delta.
pub open spec fn book_frame_kind_spec(venue: Venue, k: BookFrameKeys) -> Option<BookMsgKind> {
    match venue {
        Venue::Okx => if k.has_event && !k.has_data {
            None
        } else if text_is(k.action, "update"@) {
            Some(BookMsgKind::Delta)
        } else {
            Some(BookMsgKind::Snapshot)
        },
        Venue::Binance => if k.has_last_update_id && !k.has_e {
            Some(BookMsgKind::Snapshot)
        } else if k.has_result && k.has_id {
            None
        } else {
            Some(BookMsgKind::Delta)
        },
        Venue::Bybit => if text_is(k.op, "subscribe"@) || text_is(k.op, "ping"@) || text_is(
            k.op,
            "pong"@,
        ) {
            None
        } else if text_is(k.typ, "delta"@) {
            Some(BookMsgKind::Delta)
        } else {
            Some(BookMsgKind::Snapshot)
        },
    }
}

fn opt_is(o: &Option<String>, w: &str) -> (r: bool)
    ensures
        r == text_is(*o, w@),
{
    match o {
        Some(s) => str_eq(s.as_str(), w),
        None => false,
    }
}

pub fn book_frame_kind(venue: Venue, k: &BookFrameKeys) -> (r: Option<BookMsgKind>)
    ensures
        r == book_frame_kind_spec(venue, *k),
{
    match venue {
        Venue::Okx => {
            if k.has_event && !k.has_data {
                None
            } else if opt_is(&k.action, "update") {
                Some(BookMsgKind::Delta)
            } else {
                Some(BookMsgKind::Snapshot)
            }
        },
        Venue::Binance => {
            if k.has_last_update_id && !k.has_e {
                Some(BookMsgKind::Snapshot)
            } else if k.has_result && k.has_id {
                None
            } else {
                Some(BookMsgKind::Delta)
            }
        },
        Venue::Bybit => {
            if opt_is(&k.op, "subscribe") || opt_is(&k.op, "ping") || opt_is(&k.op, "pong") {
                None
            } else if opt_is(&k.typ, "delta") {
                Some(BookMsgKind::Delta)
            } else {
                Some(BookMsgKind::Snapshot)
            }
        },
    }
}

} // verus!
