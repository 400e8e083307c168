//! The scheduler: an advancing time window that yields one fetch request per
//! symbol on each tick.
use vstd::prelude::*;
use crate::common::{valid_timestamp, QuoteRequest, SECONDS_PER_DAY, TIMESTAMP_LIMIT};

verus! {

/// The longest step of the window, in days.
pub const MAX_INTERVAL_DAYS: u64 = 50_000_000;

/// Whether a tick from `cursor` emits requests: the scheduler still runs and
/// the window's end lies within the handled range.
pub open spec fn tick_emits(cursor: int, stopped: bool, step: int) -> bool {
    !stopped && valid_timestamp(cursor + step)
}

/// The cursor and the stop flag after one tick. A tick that emits moves the
/// cursor by one step, and in bounded mode stops the scheduler once the
/// window it emitted ends after `end`. A tick that cannot emit stops it.
pub open spec fn tick_state(cursor: int, stopped: bool, end: Option<i64>, step: int) -> (int, bool) {
    if stopped {
        (cursor, true)
    } else if !valid_timestamp(cursor + step) {
        (cursor, true)
    } else {
        let next = cursor + step;
        (
            next,
            match end {
                Some(e) => next > e,
                None => false,
            },
        )
    }
}

/// The cursor and the stop flag after `k` ticks from `cursor`.
pub open spec fn after_ticks(cursor: int, stopped: bool, end: Option<i64>, step: int, k: nat) -> (
    int,
    bool,
)
    decreases k,
{
    if k == 0 {
        (cursor, stopped)
    } else {
        let prev = after_ticks(cursor, stopped, end, step, (k - 1) as nat);
        tick_state(prev.0, prev.1, end, step)
    }
}

/// `a / b` rounded up, for `b > 0`.
pub open spec fn ceil_div(a: int, b: int) -> int {
    (a + b - 1) / b
}

/// The scheduler. In continuous mode (`to` is `None`) it runs until it is
/// stopped; in bounded mode it stops itself after the window that passes
/// `to`. The cursor `from` only moves forward.
pub struct QuoteMaker {
    pub symbols: Vec<String>,
    pub from: i64,
    pub to: Option<i64>,
    /// The step of the window, in seconds.
    pub interval: i64,
    pub stopped: bool,
}

impl QuoteMaker {
    pub open spec fn wf(&self) -> bool {
        &&& 0 < self.interval <= MAX_INTERVAL_DAYS * SECONDS_PER_DAY
        &&& valid_timestamp(self.from as int)
    }

    /// A scheduler whose first window starts at `from` and whose step is
    /// `interval_days` days.
    pub fn new(symbols: Vec<String>, from: i64, to: Option<i64>, interval_days: u64) -> (r:
        QuoteMaker)
        requires
            valid_timestamp(from as int),
            1 <= interval_days <= MAX_INTERVAL_DAYS,
        ensures
            r.wf(),
            r.symbols@ == symbols@,
            r.from == from,
            r.to == to,
            r.interval == interval_days * SECONDS_PER_DAY,
            !r.stopped,
    {
        QuoteMaker { symbols, from, to, interval: interval_days as i64 * SECONDS_PER_DAY, stopped: false }
    }

    /// One tick: where the scheduler still runs and the window fits the
    /// handled range, one request per symbol for `[from, from + interval)`,
    /// in the order of the symbols; then the cursor moves to the window's
    /// end. See `tick_state` for when the scheduler stops.
    pub fn tick(&mut self) -> (r: Vec<QuoteRequest>)
        requires
            old(self).wf(),
        ensures
            final(self).wf(),
            final(self).symbols@ == old(self).symbols@,
            final(self).to == old(self).to,
            final(self).interval == old(self).interval,
            final(self).from >= old(self).from,
            (final(self).from as int, final(self).stopped) == tick_state(
                old(self).from as int,
                old(self).stopped,
                old(self).to,
                old(self).interval as int,
            ),
            tick_emits(old(self).from as int, old(self).stopped, old(self).interval as int) ==> {
                &&& r@.len() == old(self).symbols@.len()
                &&& forall|i: int|
                    0 <= i < r@.len() ==> {
                        &&& (#[trigger] r@[i]).symbol@ == old(self).symbols@[i]@
                        &&& r@[i].from == old(self).from
                        &&& r@[i].to == old(self).from + old(self).interval
                    }
            },
            !tick_emits(old(self).from as int, old(self).stopped, old(self).interval as int)
                ==> r@.len() == 0,
    {
        let mut out: Vec<QuoteRequest> = Vec::new();
        if self.stopped {
            return out;
        }
        if self.from > TIMESTAMP_LIMIT - self.interval {
            self.stopped = true;
            return out;
        }
        let next = self.from + self.interval;
        let mut i: usize = 0;
        while i < self.symbols.len()
            invariant
                i <= self.symbols@.len(),
                next == self.from + self.interval,
                out@.len() == i,
                forall|j: int|
                    0 <= j < i ==> {
                        &&& (#[trigger] out@[j]).symbol@ == self.symbols@[j]@
                        &&& out@[j].from == self.from
                        &&& out@[j].to == next
                    },
            decreases self.symbols@.len() - i,
        {
            out.push(QuoteRequest { symbol: self.symbols[i].clone(), from: self.from, to: next });
            i = i + 1;
        }
        self.from = next;
        self.stopped = match self.to {
            Some(end) => next > end,
            None => false,
        };
        out
    }

    /// The fetch stage can no longer be reached: the scheduler stops.
    pub fn send_failed(&mut self)
        ensures
            final(self).stopped,
            final(self).symbols@ == old(self).symbols@,
            final(self).from == old(self).from,
            final(self).to == old(self).to,
            final(self).interval == old(self).interval,
    {
        self.stopped = true;
    }
}

/// Bounded replay from `start` to `end` with step `step`, where
/// `end - start` is positive and not a multiple of `step`, and every window
/// lies in the handled range: exactly the first `ceil_div(end - start, step)`
/// ticks emit requests, after them the scheduler is stopped, and the last
/// window ends no later than `end + step`.
pub proof fn lemma_bounded_tick_count(start: i64, end: i64, step: int)
    requires
        step > 0,
        start < end,
        (end - start) % step != 0,
        valid_timestamp(start as int),
        valid_timestamp(end + step),
    ensures
        forall|k: nat|
            k < ceil_div(end - start, step) ==> {
                let st = #[trigger] after_ticks(start as int, false, Some(end), step, k);
                tick_emits(st.0, st.1, step)
            },
        ({
            let n = ceil_div(end - start, step) as nat;
            let st = after_ticks(start as int, false, Some(end), step, n);
            &&& st.1
            &&& !tick_emits(st.0, st.1, step)
            &&& st.0 <= end + step
            &&& st.0 == start + n * step
        }),
{
    let d = end - start;
    let q = d / step;
    let n = ceil_div(d, step);
    assert(d == q * step + d % step) by (nonlinear_arith)
        requires
            step > 0,
            q == d / step,
    ;
    assert(n == q + 1) by (nonlinear_arith)
        requires
            step > 0,
            n == (d + step - 1) / step,
            d == q * step + d % step,
            0 < d % step < step,
    ;
    assert forall|k: nat| k <= q implies #[trigger] after_ticks(start as int, false, Some(end), step, k)
        == (start + k * step, false) by {
        lemma_ticks_before_end(start, end, step, q, k);
    }
    assert forall|k: nat| k < n implies {
        let st = #[trigger] after_ticks(start as int, false, Some(end), step, k);
        tick_emits(st.0, st.1, step)
    } by {
        lemma_ticks_before_end(start, end, step, q, k);
        assert(k * step <= q * step) by (nonlinear_arith)
            requires
                k <= q,
                step > 0,
        ;
    }
    lemma_ticks_before_end(start, end, step, q, q as nat);
    assert(q * step + step == (q + 1) * step) by (nonlinear_arith);
}

proof fn lemma_ticks_before_end(start: i64, end: i64, step: int, q: int, k: nat)
    requires
        step > 0,
        start < end,
        q == (end - start) / step,
        0 < (end - start) % step,
        (end - start) == q * step + (end - start) % step,
        valid_timestamp(start as int),
        valid_timestamp(end + step),
        k <= q + 1,
    ensures
        k <= q ==> after_ticks(start as int, false, Some(end), step, k) == (start + k * step, false),
        k == q + 1 ==> after_ticks(start as int, false, Some(end), step, k) == (
            start + k * step,
            true,
        ),
    decreases k,
{
    if k > 0 {
        let j = (k - 1) as nat;
        lemma_ticks_before_end(start, end, step, q, j);
        assert(j * step <= q * step) by (nonlinear_arith)
            requires
                j <= q,
                step > 0,
        ;
        assert(k * step == j * step + step) by (nonlinear_arith)
            requires
                k == j + 1,
        ;
        assert(q * step + step > end - start);
        if k <= q {
            assert(k * step <= q * step) by (nonlinear_arith)
                requires
                    k <= q,
                    step > 0,
            ;
        }
    }
}

} // verus!
