//! Bybit linear publicTrade adapter (resonance venue, not a backup). `S` is
//! the side of the taker: `Buy` hits the ask, `Sell` hits the bid.

use vstd::prelude::*;
use crate::domain::{TakerSide, VenueRole};
use crate::ingest::{parse_side_word, side_word_result, ParseError};
use crate::ingest::binance::{line_prefix, line_prefix_text};
use crate::text::{
    concat_str, dec_seq, lower_seq, occurs_at, split_char, split_on, str_starts_with,
    to_ascii_lowercase, trim, trim_seq, u64_decimal,
};

verus! {

pub const VENUE: &'static str = "bybit";

pub const WIRED: bool = true;

pub const ROLE: VenueRole = VenueRole::Resonance;

/// Golden tests of the taker mapping must stay green before any live parse path.
pub const TAKER_GOLDEN_REQUIRED: bool = true;

pub const TAKER_GOLDEN_PRESENT: bool = true;

/// Official: `S` is the side of the taker.
pub fn parse_taker_side(side: &str) -> (r: Result<TakerSide, ParseError>)
    ensures
        side_word_result(side@, r),
{
    parse_side_word(side)
}

} // verus!

verus! {

/// One trade row of a `public.bybit.com` daily CSV:
/// `timestamp,symbol,side,size,price,tickDirection,trdMatchID,...`. The
/// timestamp, side, size and price stay text for the caller to read.
#[derive(Debug, Clone)]
pub struct PublicCsvRow {
    pub timestamp: String,
    pub side: String,
    pub size: String,
    pub price: String,
    pub trade_id: Option<String>,
}

pub struct PublicCsvView {
    pub timestamp: Seq<char>,
    pub side: Seq<char>,
    pub size: Seq<char>,
    pub price: Seq<char>,
    pub trade_id: Option<Seq<char>>,
}

pub open spec fn public_row_view(r: PublicCsvRow) -> PublicCsvView {
    PublicCsvView {
        timestamp: r.timestamp@,
        side: r.side@,
        size: r.size@,
        price: r.price@,
        trade_id: match r.trade_id {
            Some(t) => Some(t@),
            None => None,
        },
    }
}

/// Blank lines and the header are skipped; a row needs five columns; the
/// trade id is the seventh column, trimmed, when it is not empty.
pub open spec fn public_csv_spec(line: Seq<char>, i: usize) -> Result<Option<PublicCsvView>, Seq<char>> {
    let t = trim_seq(line);
    let parts = split_on(t, ',');
    if t.len() == 0 || occurs_at(lower_seq(t), "timestamp"@, 0) {
        Ok(None)
    } else if parts.len() < 5 {
        Err(line_prefix(i) + "expected ≥5 CSV columns, got "@ + dec_seq(parts.len()))
    } else {
        Ok(
            Some(
                PublicCsvView {
                    timestamp: parts[0],
                    side: parts[2],
                    size: parts[3],
                    price: parts[4],
                    trade_id: if parts.len() > 6 && trim_seq(parts[6]).len() > 0 {
                        Some(trim_seq(parts[6]))
                    } else {
                        None
                    },
                },
            ),
        )
    }
}

/// Reads line `i` (counted from zero) of a public trades CSV dump.
pub fn public_csv_line(line: &str, i: usize) -> (r: Result<Option<PublicCsvRow>, String>)
    ensures
        match r {
            Ok(Some(row)) => public_csv_spec(line@, i) == Ok::<Option<PublicCsvView>, Seq<char>>(
                Some(public_row_view(row)),
            ),
            Ok(None) => public_csv_spec(line@, i) == Ok::<Option<PublicCsvView>, Seq<char>>(None),
            Err(e) => public_csv_spec(line@, i) == Err::<Option<PublicCsvView>, Seq<char>>(e@),
        },
{
    let t = trim(line);
    let low = to_ascii_lowercase(t);
    if t.unicode_len() == 0 || str_starts_with(low.as_str(), "timestamp") {
        return Ok(None);
    }
    let parts = split_char(t, ',');
    let ghost pv = parts@.map_values(|x: String| x@);
    assert(pv.len() == parts@.len());
    if parts.len() < 5 {
        let e = concat_str(line_prefix_text(i), "expected ≥5 CSV columns, got ");
        return Err(concat_str(e, u64_decimal(parts.len() as u64).as_str()));
    }
    assert(pv[0] == parts@[0]@ && pv[2] == parts@[2]@ && pv[3] == parts@[3]@ && pv[4] == parts@[4]@);
    let trade_id = if parts.len() > 6 {
        assert(pv[6] == parts@[6]@);
        let id = trim(parts[6].as_str());
        if id.unicode_len() > 0 {
            Some(id.to_string())
        } else {
            None
        }
    } else {
        None
    };
    Ok(
        Some(
            PublicCsvRow {
                timestamp: parts[0].clone(),
                side: parts[2].clone(),
                size: parts[3].clone(),
                price: parts[4].clone(),
                trade_id,
            },
        ),
    )
}

} // verus!
