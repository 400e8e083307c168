//! The messages that flow through the pipeline.
use vstd::prelude::*;
use crate::signals::{Mean, Ratio};

verus! {

/// Timestamps and windows are counted in seconds; steps in whole days.
pub const SECONDS_PER_DAY: i64 = 86_400;

/// The largest distance from the Unix epoch, in seconds, of a timestamp that
/// the pipeline handles (about 250,000 years either way).
pub const TIMESTAMP_LIMIT: i64 = 8_000_000_000_000;

/// A timestamp within the range that the pipeline handles.
pub open spec fn valid_timestamp(t: int) -> bool {
    -TIMESTAMP_LIMIT <= t <= TIMESTAMP_LIMIT
}

/// One quote of a price history: when it was taken (seconds since the Unix
/// epoch) and its adjusted closing price, in price units.
#[derive(Clone, Copy, Debug, PartialEq, Eq, Structural)]
pub struct QuotePoint {
    pub timestamp: u64,
    pub adjclose: u64,
}

/// A request for the history of one symbol over the window `[from, to)`,
/// both in seconds since the Unix epoch.
#[derive(Clone, Debug)]
pub struct QuoteRequest {
    pub symbol: String,
    pub from: i64,
    pub to: i64,
}

/// The quotes fetched for one request: the symbol, the start of the window,
/// the window's length in whole days, and the quotes in the order the source
/// delivered them (possibly none).
#[derive(Clone, Debug)]
pub struct Quotes {
    pub days: usize,
    pub symbol: String,
    pub timestamp: i64,
    pub quotes: Vec<QuotePoint>,
}

/// One row of the output log.
#[derive(Clone, Debug)]
pub struct FileFormat {
    pub symbol: String,
    pub timestamp: i64,
    pub price: u64,
    pub pct_change: Ratio,
    pub period_min: u64,
    pub period_max: u64,
    pub last_sma: Mean,
}

/// The notice, broadcast once, that tells every stage to stop.
#[derive(Clone, Copy, Debug, PartialEq, Eq, Structural)]
pub struct RegisteredSignal;

/// What a row of the output log holds, as mathematical values.
pub ghost struct RecordView {
    pub symbol: Seq<char>,
    pub timestamp: i64,
    pub price: u64,
    pub pct_change: Ratio,
    pub period_min: u64,
    pub period_max: u64,
    pub last_sma: (nat, nat),
}

impl View for FileFormat {
    type V = RecordView;

    open spec fn view(&self) -> RecordView {
        RecordView {
            symbol: self.symbol@,
            timestamp: self.timestamp,
            price: self.price,
            pct_change: self.pct_change,
            period_min: self.period_min,
            period_max: self.period_max,
            last_sma: crate::signals::mean_view(self.last_sma),
        }
    }
}

} // verus!
