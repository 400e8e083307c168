//! The sink: renders rows of the output log and decides when the buffered
//! output is flushed. The caller owns the file and performs the writes.
use vstd::prelude::*;
use crate::common::{valid_timestamp, FileFormat};
use crate::signals::{Mean, Ratio, PRICE_SCALE};
use crate::text::{
    decimal, fixed2, push_decimal, push_fixed2, rfc3339, rfc3339_text, round_div, rounded_div,
};

verus! {

/// The buffered output is flushed on every write whose position, counted
/// from zero, is a multiple of this.
pub const FLUSH_EVERY: u64 = 23;

/// A price with two decimal places (halves rounded up) and a dollar sign.
pub open spec fn money_text(p: u64) -> Seq<char> {
    seq!['$'] + fixed2(round_div(p as nat, (PRICE_SCALE / 100) as nat))
}

/// A ratio as a percentage with two decimal places (halves rounded away from
/// zero) and a percent sign; the minus sign is written only where the
/// rounded value is not zero.
pub open spec fn percent_text(r: Ratio) -> Seq<char> {
    let mag: nat = if r.num < 0 {
        (-r.num) as nat
    } else {
        r.num as nat
    };
    let h = round_div(mag * 10000, r.den as nat);
    (if r.num < 0 && h > 0 {
        seq!['-']
    } else {
        Seq::empty()
    }) + fixed2(h) + seq!['%']
}

/// A mean price with two decimal places and a dollar sign.
pub open spec fn mean_text(m: Mean) -> Seq<char> {
    seq!['$'] + fixed2(round_div(m.sum as nat, (m.count * (PRICE_SCALE / 100)) as nat))
}

/// A row of the output log is well formed where its ratio has a positive
/// denominator and a numerator that a difference of two prices can have, its
/// mean has a positive count, and its timestamp is in the handled range.
pub open spec fn row_wf(row: &FileFormat) -> bool {
    &&& row.pct_change.den > 0
    &&& -(u64::MAX as int) <= row.pct_change.num <= u64::MAX
    &&& row.last_sma.count > 0
    &&& valid_timestamp(row.timestamp as int)
}

/// Tells whether a row is well formed.
pub fn row_is_wf(row: &FileFormat) -> (r: bool)
    ensures
        r == row_wf(row),
{
    row.pct_change.den > 0 && -(u64::MAX as i128) <= row.pct_change.num && row.pct_change.num
        <= u64::MAX as i128 && row.last_sma.count > 0 && -crate::common::TIMESTAMP_LIMIT
        <= row.timestamp && row.timestamp <= crate::common::TIMESTAMP_LIMIT
}

/// One line of the output log, without its line break:
/// `timestamp,symbol,$price,change%,$min,$max,$average`.
pub open spec fn row_text(row: &FileFormat) -> Seq<char> {
    rfc3339_text(row.timestamp as int) + seq![','] + row.symbol@ + seq![','] + money_text(row.price)
        + seq![','] + percent_text(row.pct_change) + seq![','] + money_text(row.period_min)
        + seq![','] + money_text(row.period_max) + seq![','] + mean_text(row.last_sma)
}

/// The first line of the output log, naming the columns and the span, in
/// days, of each fetched window.
pub open spec fn header_text(days: nat) -> Seq<char> {
    "period start,symbol,price,change %,min,max,"@ + decimal(days) + "d avg"@
}

fn push_money(out: &mut String, p: u64)
    ensures
        final(out)@ == old(out)@ + money_text(p),
{
    out.push('$');
    let h = rounded_div(p as u128, (PRICE_SCALE / 100) as u128);
    push_fixed2(out, h);
    assert(final(out)@ =~= old(out)@ + money_text(p));
}

fn push_percent(out: &mut String, r: Ratio)
    requires
        r.den > 0,
        -(u64::MAX as int) <= r.num <= u64::MAX,
    ensures
        final(out)@ == old(out)@ + percent_text(r),
{
    let mag: u128 = if r.num < 0 {
        (-r.num) as u128
    } else {
        r.num as u128
    };
    let h = if r.den == 1 {
        mag * 10000
    } else {
        rounded_div(mag * 10000, r.den as u128)
    };
    proof {
        let n = (mag * 10000) as nat;
        if r.den == 1 {
            assert(n % 1 == 0 && n / 1 == n);
        }
        assert(h as nat == round_div(n, r.den as nat));
        assert(mag as nat == if r.num < 0 {
            (-r.num) as nat
        } else {
            r.num as nat
        });
    }
    let ghost before = out@;
    if r.num < 0 && h > 0 {
        out.push('-');
    }
    let ghost signed = out@;
    assert(signed =~= before + if r.num < 0 && h > 0 {
        seq!['-']
    } else {
        Seq::<char>::empty()
    });
    push_fixed2(out, h);
    out.push('%');
    assert(final(out)@ =~= old(out)@ + percent_text(r));
}

fn push_mean(out: &mut String, m: Mean)
    requires
        m.count > 0,
    ensures
        final(out)@ == old(out)@ + mean_text(m),
{
    out.push('$');
    assert(m.count as u128 * 10000 >= 2) by (nonlinear_arith)
        requires
            m.count > 0,
    ;
    let h = rounded_div(m.sum, m.count as u128 * (PRICE_SCALE / 100) as u128);
    push_fixed2(out, h);
    assert(final(out)@ =~= old(out)@ + mean_text(m));
}

/// Renders one line of the output log.
pub fn row_line(row: &FileFormat) -> (r: String)
    requires
        row_wf(row),
    ensures
        r@ == row_text(row),
{
    let mut out = rfc3339(row.timestamp);
    out.push(',');
    out.append(row.symbol.as_str());
    out.push(',');
    push_money(&mut out, row.price);
    out.push(',');
    push_percent(&mut out, row.pct_change);
    out.push(',');
    push_money(&mut out, row.period_min);
    out.push(',');
    push_money(&mut out, row.period_max);
    out.push(',');
    push_mean(&mut out, row.last_sma);
    assert(out@ =~= row_text(row));
    out
}

/// Renders the first line of the output log.
pub fn header_line(days: usize) -> (r: String)
    ensures
        r@ == header_text(days as nat),
{
    let mut out = String::from_str("period start,symbol,price,change %,min,max,");
    push_decimal(&mut out, days as u128);
    out.append("d avg");
    out
}

/// Where the sink is in its life: waiting for its output to be created,
/// open for rows, or closed for good.
#[derive(Clone, Copy, Debug, PartialEq, Eq, Structural)]
pub enum SinkState {
    Waiting,
    Open,
    Closed,
}

/// What the caller does with a row handed to the sink.
pub enum SinkAction {
    /// Append `line` and a line break; flush the buffer afterwards where
    /// `flush` holds.
    Write { line: String, flush: bool },
    /// Drop the row: the sink is not open.
    Ignore,
}

/// The sink, for one output file whose name is chosen by the caller.
pub struct DataPersistor {
    pub filename: String,
    pub days: usize,
    /// The position of the next write within the flush cycle.
    pub count: u64,
    pub state: SinkState,
}

impl DataPersistor {
    pub open spec fn wf(&self) -> bool {
        self.count < FLUSH_EVERY
    }

    pub fn new(filename: String, days: usize) -> (r: DataPersistor)
        ensures
            r.wf(),
            r.filename@ == filename@,
            r.days == days,
            r.count == 0,
            r.state == SinkState::Waiting,
    {
        DataPersistor { filename, days, count: 0, state: SinkState::Waiting }
    }

    /// The output has been created: the sink opens and returns the header
    /// line to write first. A sink that was opened or closed before stays as
    /// it is and returns `None`.
    pub fn started(&mut self) -> (r: Option<String>)
        ensures
            final(self).filename@ == old(self).filename@,
            final(self).days == old(self).days,
            final(self).count == old(self).count,
            old(self).state == SinkState::Waiting ==> final(self).state == SinkState::Open
                && r is Some && r->0@ == header_text(old(self).days as nat),
            old(self).state != SinkState::Waiting ==> final(self).state == old(self).state
                && r is None,
    {
        match self.state {
            SinkState::Waiting => {
                self.state = SinkState::Open;
                Some(header_line(self.days))
            },
            _ => None,
        }
    }

    /// A row arrives. An open sink renders it, asks for a flush on every
    /// `FLUSH_EVERY`-th write starting with the first, and moves its count
    /// on; a sink that is not open ignores it and is left as it is.
    pub fn handle(&mut self, msg: &FileFormat) -> (r: SinkAction)
        requires
            old(self).wf(),
            row_wf(msg),
        ensures
            final(self).wf(),
            final(self).filename@ == old(self).filename@,
            final(self).days == old(self).days,
            final(self).state == old(self).state,
            old(self).state == SinkState::Open ==> final(self).count == (old(self).count + 1)
                % (FLUSH_EVERY as int) && match r {
                SinkAction::Write { line, flush } => line@ == row_text(msg) && flush == (old(
                    self,
                ).count == 0),
                SinkAction::Ignore => false,
            },
            old(self).state != SinkState::Open ==> final(self).count == old(self).count
                && r is Ignore,
    {
        match self.state {
            SinkState::Open => {
                let flush = self.count == 0;
                let line = row_line(msg);
                self.count = (self.count + 1) % FLUSH_EVERY;
                SinkAction::Write { line, flush }
            },
            _ => SinkAction::Ignore,
        }
    }

    /// The termination notice arrives: the sink closes for good. It returns
    /// whether the caller must flush now, which holds exactly when the sink
    /// was open, so the buffer is flushed once.
    pub fn stopped(&mut self) -> (r: bool)
        ensures
            final(self).filename@ == old(self).filename@,
            final(self).days == old(self).days,
            final(self).count == old(self).count,
            final(self).state == SinkState::Closed,
            r == (old(self).state == SinkState::Open),
    {
        let r = match self.state {
            SinkState::Open => true,
            _ => false,
        };
        self.state = SinkState::Closed;
        r
    }
}

} // verus!
