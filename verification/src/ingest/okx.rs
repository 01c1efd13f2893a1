//! OKX public trade adapter: `side=buy` is a taker buy (hits ask), `side=sell`
//! a taker sell (hits bid). Role is execution.

use vstd::prelude::*;
use crate::domain::{TakerSide, VenueRole};
use crate::ingest::{parse_side_word, side_word_result, ParseError};

verus! {

pub const VENUE: &'static str = "okx";

pub const WIRED: bool = true;

pub const ROLE: VenueRole = VenueRole::Execution;

/// OKX public history-trades / WS trade row (one object in `data[]`).
#[derive(Debug, Clone)]
pub struct OkxTradeRow {
    pub inst_id: String,
    pub trade_id: String,
    pub px: String,
    pub sz: String,
    /// `buy` = taker buy (hits ask); `sell` = taker sell (hits bid).
    pub side: String,
    pub ts: String,
}

/// Map OKX `side` to the internal taker side. A wrong mapping reverses the
/// whole school.
pub fn parse_side(side: &str) -> (r: Result<TakerSide, ParseError>)
    ensures
        side_word_result(side@, r),
{
    parse_side_word(side)
}

} // verus!
