//! The fetch stage: turns what the quote source returned for a request into
//! a history for the aggregation stage.
use vstd::prelude::*;
use crate::common::{valid_timestamp, QuotePoint, QuoteRequest, Quotes, SECONDS_PER_DAY};

verus! {

/// The fetch stage. The read from the quote source is made by the caller;
/// this decides what is forwarded.
pub struct QuoteRequester {}

impl QuoteRequester {
    /// The history forwarded for `msg`: the quotes that the source returned,
    /// or none where the read or the decoding failed (`fetched` is `None`),
    /// with the window's start and its length in whole days.
    pub fn handle(&self, msg: QuoteRequest, fetched: Option<Vec<QuotePoint>>) -> (r: Quotes)
        requires
            valid_timestamp(msg.from as int),
            valid_timestamp(msg.to as int),
            msg.from <= msg.to,
        ensures
            r.days == (msg.to - msg.from) / (SECONDS_PER_DAY as int),
            r.symbol@ == msg.symbol@,
            r.timestamp == msg.from,
            r.quotes@ == match fetched {
                Some(q) => q@,
                None => Seq::empty(),
            },
    {
        let days = ((msg.to - msg.from) / SECONDS_PER_DAY) as usize;
        let quotes = match fetched {
            Some(q) => q,
            None => Vec::new(),
        };
        Quotes { days, symbol: msg.symbol, timestamp: msg.from, quotes }
    }
}

} // verus!
