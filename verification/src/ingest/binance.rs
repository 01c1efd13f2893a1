//! Binance USD-M aggTrade adapter (resonance venue). Field `m` asks "is the
//! buyer the market maker?": `true` means the taker sold, `false` that the
//! taker bought.

use vstd::prelude::*;
use crate::domain::{TakerSide, VenueRole};
use crate::ingest::ParseError;
use crate::text::{
    concat_str, debug_quote, debug_str, dec_seq, i64_of_dec, lower_seq, occurs_at, parse_i64,
    split_char, split_on, str_eq, str_starts_with, to_ascii_lowercase, trim, trim_seq, u64_decimal,
};

verus! {

pub const VENUE: &'static str = "binance";

pub const WIRED: bool = true;

pub const ROLE: VenueRole = VenueRole::Resonance;

/// Official mapping. Inverting this reverses Binance footprint vs OKX.
pub fn taker_from_is_buyer_maker(is_buyer_maker: bool) -> (r: TakerSide)
    ensures
        r == (if is_buyer_maker { TakerSide::Sell } else { TakerSide::Buy }),
{
    if is_buyer_maker {
        TakerSide::Sell
    } else {
        TakerSide::Buy
    }
}

} // verus!

verus! {

/// One trade row of a `data.binance.vision` USD-M aggTrades daily CSV:
/// `agg_trade_id,price,quantity,first_trade_id,last_trade_id,transact_time,is_buyer_maker`.
/// Price and quantity stay text for the caller to read as numbers.
#[derive(Debug, Clone)]
pub struct AggCsvRow {
    pub trade_id: String,
    pub price: String,
    pub quantity: String,
    pub transact_time_ms: i64,
    pub is_buyer_maker: bool,
}

pub struct AggCsvView {
    pub trade_id: Seq<char>,
    pub price: Seq<char>,
    pub quantity: Seq<char>,
    pub transact_time_ms: i64,
    pub is_buyer_maker: bool,
}

pub open spec fn agg_row_view(r: AggCsvRow) -> AggCsvView {
    AggCsvView {
        trade_id: r.trade_id@,
        price: r.price@,
        quantity: r.quantity@,
        transact_time_ms: r.transact_time_ms,
        is_buyer_maker: r.is_buyer_maker,
    }
}

/// The CSV flag words: `true`/`1` and `false`/`0`, already trimmed and lower-cased.
pub open spec fn csv_flag_of(key: Seq<char>) -> Option<bool> {
    if key == "true"@ || key == "1"@ {
        Some(true)
    } else if key == "false"@ || key == "0"@ {
        Some(false)
    } else {
        None
    }
}

pub open spec fn line_prefix(i: usize) -> Seq<char> {
    "line "@ + dec_seq(i as nat) + ": "@
}

/// How one line of the dump reads: blank lines and the header are skipped;
/// a row needs seven columns, a flag word and an integer time.
pub open spec fn agg_csv_spec(line: Seq<char>, i: usize) -> Result<Option<AggCsvView>, Seq<char>> {
    let t = trim_seq(line);
    let low = lower_seq(t);
    let parts = split_on(t, ',');
    if t.len() == 0 || occurs_at(low, "agg_trade_id"@, 0) || occurs_at(low, "id"@, 0) {
        Ok(None)
    } else if parts.len() < 7 {
        Err(line_prefix(i) + "expected 7 CSV columns, got "@ + dec_seq(parts.len()))
    } else {
        let flag_key = lower_seq(trim_seq(parts[6]));
        match csv_flag_of(flag_key) {
            None => Err(line_prefix(i) + "bad is_buyer_maker "@ + debug_str(flag_key)),
            Some(ibm) => match i64_of_dec(trim_seq(parts[5])) {
                None => Err(line_prefix(i) + "bad transact_time"@),
                Some(ts) => Ok(
                    Some(
                        AggCsvView {
                            trade_id: trim_seq(parts[0]),
                            price: parts[1],
                            quantity: parts[2],
                            transact_time_ms: ts,
                            is_buyer_maker: ibm,
                        },
                    ),
                ),
            },
        }
    }
}

pub(crate) fn line_prefix_text(i: usize) -> (r: String)
    ensures
        r@ == line_prefix(i),
{
    let s = concat_str(String::from_str("line "), u64_decimal(i as u64).as_str());
    concat_str(s, ": ")
}

/// Reads line `i` (counted from zero) of an aggTrades CSV dump.
pub fn aggtrade_csv_line(line: &str, i: usize) -> (r: Result<Option<AggCsvRow>, String>)
    ensures
        match r {
            Ok(Some(row)) => agg_csv_spec(line@, i) == Ok::<Option<AggCsvView>, Seq<char>>(
                Some(agg_row_view(row)),
            ),
            Ok(None) => agg_csv_spec(line@, i) == Ok::<Option<AggCsvView>, Seq<char>>(None),
            Err(e) => agg_csv_spec(line@, i) == Err::<Option<AggCsvView>, Seq<char>>(e@),
        },
{
    let t = trim(line);
    let low = to_ascii_lowercase(t);
    if t.unicode_len() == 0 || str_starts_with(low.as_str(), "agg_trade_id") || str_starts_with(
        low.as_str(),
        "id",
    ) {
        return Ok(None);
    }
    let parts = split_char(t, ',');
    let ghost pv = parts@.map_values(|x: String| x@);
    assert(pv.len() == parts@.len());
    if parts.len() < 7 {
        let e = concat_str(line_prefix_text(i), "expected 7 CSV columns, got ");
        return Err(concat_str(e, u64_decimal(parts.len() as u64).as_str()));
    }
    assert(pv[6] == parts@[6]@ && pv[5] == parts@[5]@ && pv[0] == parts@[0]@ && pv[1] == parts@[1]@
        && pv[2] == parts@[2]@);
    let key = to_ascii_lowercase(trim(parts[6].as_str()));
    let ibm = if str_eq(key.as_str(), "true") || str_eq(key.as_str(), "1") {
        true
    } else if str_eq(key.as_str(), "false") || str_eq(key.as_str(), "0") {
        false
    } else {
        let e = concat_str(line_prefix_text(i), "bad is_buyer_maker ");
        return Err(concat_str(e, debug_quote(key.as_str()).as_str()));
    };
    let ts = match parse_i64(trim(parts[5].as_str())) {
        Some(v) => v,
        None => {
            return Err(concat_str(line_prefix_text(i), "bad transact_time"));
        },
    };
    Ok(
        Some(
            AggCsvRow {
                trade_id: trim(parts[0].as_str()).to_string(),
                price: parts[1].clone(),
                quantity: parts[2].clone(),
                transact_time_ms: ts,
                is_buyer_maker: ibm,
            },
        ),
    )
}

} // verus!

verus! {

/// The JSON value that carries `m` / `isBuyerMaker`, as far as it is read.
#[derive(Debug, Clone)]
pub enum MakerFlag {
    Bool(bool),
    /// A number, with its value when it is an `i64`.
    Number(Option<i64>),
    Text(String),
    /// Null, an array or an object.
    Other,
}

/// Words for the flag: `true`/`1`/`yes` and `false`/`0`/`no`, already
/// trimmed and lower-cased.
pub open spec fn maker_word_of(key: Seq<char>) -> Option<bool> {
    if key == "true"@ || key == "1"@ || key == "yes"@ {
        Some(true)
    } else if key == "false"@ || key == "0"@ || key == "no"@ {
        Some(false)
    } else {
        None
    }
}

/// Reads the buyer-is-maker flag: a boolean as is, a number as nonzero (a
/// number that is not an `i64` reads as zero), a word as above.
pub fn parse_is_buyer_maker(v: &MakerFlag) -> (r: Result<bool, ParseError>)
    ensures
        match v {
            MakerFlag::Bool(b) => r matches Ok(x) && x == *b,
            MakerFlag::Number(n) => r matches Ok(x) && x == (match n {
                Some(k) => *k != 0,
                None => false,
            }),
            MakerFlag::Text(s) => {
                let key = lower_seq(trim_seq(s@));
                match maker_word_of(key) {
                    Some(b) => r matches Ok(x) && x == b,
                    None => r matches Err(ParseError::BadSide(w)) && w@ == "isBuyerMaker="@ + key,
                }
            },
            MakerFlag::Other => r matches Err(ParseError::MissingField(f)) && f@ == "m"@,
        },
{
    match v {
        MakerFlag::Bool(b) => Ok(*b),
        MakerFlag::Number(n) => Ok(
            match n {
                Some(k) => *k != 0,
                None => false,
            },
        ),
        MakerFlag::Text(s) => {
            let key = to_ascii_lowercase(trim(s.as_str()));
            let k = key.as_str();
            if str_eq(k, "true") || str_eq(k, "1") || str_eq(k, "yes") {
                Ok(true)
            } else if str_eq(k, "false") || str_eq(k, "0") || str_eq(k, "no") {
                Ok(false)
            } else {
                Err(ParseError::BadSide(concat_str(String::from_str("isBuyerMaker="), k)))
            }
        },
        MakerFlag::Other => Err(ParseError::MissingField("m")),
    }
}

} // verus!
