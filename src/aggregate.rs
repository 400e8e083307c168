//! The aggregation stage: orders a fetched history by time and reduces it to
//! one row of statistics.
use vstd::prelude::*;
use crate::common::{valid_timestamp, FileFormat, QuotePoint, Quotes, RecordView};
use crate::persist::row_wf;
use crate::signals::{
    mean_view, moving_average, relative_change, seq_max, seq_min, MaxPrice, MinPrice,
    PriceDifference, WindowedSMA,
};

verus! {

/// Where a stable insertion puts `p` into `t`: after every quote whose
/// timestamp is not later than that of `p`, counted from the end.
pub open spec fn insert_pos(t: Seq<QuotePoint>, p: QuotePoint) -> int
    decreases t.len(),
{
    if t.len() == 0 || t.last().timestamp <= p.timestamp {
        t.len() as int
    } else {
        insert_pos(t.drop_last(), p)
    }
}

/// The quotes of `s` ordered by timestamp; quotes with equal timestamps keep
/// the order they had in `s`.
pub open spec fn sort_by_time(s: Seq<QuotePoint>) -> Seq<QuotePoint>
    decreases s.len(),
{
    if s.len() == 0 {
        s
    } else {
        let t = sort_by_time(s.drop_last());
        t.insert(insert_pos(t, s.last()), s.last())
    }
}

/// A sequence of quotes whose timestamps never decrease.
pub open spec fn is_time_ordered(s: Seq<QuotePoint>) -> bool {
    forall|i: int, j: int| 0 <= i < j < s.len() ==> s[i].timestamp <= s[j].timestamp
}

/// The closing prices of `s`, in the order of `s`.
pub open spec fn closes(s: Seq<QuotePoint>) -> Seq<u64> {
    s.map_values(|p: QuotePoint| p.adjclose)
}

/// The row derived from a history: `None` where the history is empty or the
/// moving-average window (half the requested span, in days) has no full
/// window over the prices or is at most one price long.
pub open spec fn aggregate(symbol: Seq<char>, timestamp: i64, days: usize, quotes: Seq<QuotePoint>) -> Option<RecordView> {
    let prices = closes(sort_by_time(quotes));
    let w = (days / 2) as nat;
    if prices.len() == 0 || w <= 1 || w > prices.len() {
        None
    } else {
        Some(RecordView {
            symbol,
            timestamp,
            price: prices.last(),
            pct_change: relative_change(prices),
            period_min: seq_min(prices),
            period_max: seq_max(prices),
            last_sma: moving_average(prices, w).last(),
        })
    }
}

proof fn lemma_insert_pos_bounds(t: Seq<QuotePoint>, p: QuotePoint)
    ensures
        0 <= insert_pos(t, p) <= t.len(),
    decreases t.len(),
{
    if t.len() > 0 && t.last().timestamp > p.timestamp {
        lemma_insert_pos_bounds(t.drop_last(), p);
    }
}

proof fn lemma_sort_len(s: Seq<QuotePoint>)
    ensures
        sort_by_time(s).len() == s.len(),
    decreases s.len(),
{
    if s.len() > 0 {
        lemma_sort_len(s.drop_last());
        lemma_insert_pos_bounds(sort_by_time(s.drop_last()), s.last());
    }
}

proof fn lemma_insert_pos_split(t: Seq<QuotePoint>, p: QuotePoint)
    ensures
        insert_pos(t, p) == 0 || t[insert_pos(t, p) - 1].timestamp <= p.timestamp,
        forall|k: int| insert_pos(t, p) <= k < t.len() ==> #[trigger] t[k].timestamp > p.timestamp,
    decreases t.len(),
{
    lemma_insert_pos_bounds(t, p);
    if t.len() > 0 && t.last().timestamp > p.timestamp {
        let u = t.drop_last();
        lemma_insert_pos_split(u, p);
        lemma_insert_pos_bounds(u, p);
        assert(insert_pos(t, p) == insert_pos(u, p));
        assert forall|k: int| insert_pos(t, p) <= k < t.len() implies #[trigger] t[k].timestamp
            > p.timestamp by {
            if k < t.len() - 1 {
                assert(t[k] == u[k]);
            }
        }
        if insert_pos(t, p) > 0 {
            assert(t[insert_pos(t, p) - 1] == u[insert_pos(t, p) - 1]);
        }
    }
}

proof fn lemma_insert_keeps_order(t: Seq<QuotePoint>, p: QuotePoint)
    requires
        is_time_ordered(t),
    ensures
        is_time_ordered(t.insert(insert_pos(t, p), p)),
{
    lemma_insert_pos_bounds(t, p);
    lemma_insert_pos_split(t, p);
    let pos = insert_pos(t, p);
    let r = t.insert(pos, p);
    assert forall|i: int, j: int| 0 <= i < j < r.len() implies r[i].timestamp
        <= r[j].timestamp by {
        if j < pos {
            assert(r[i] == t[i] && r[j] == t[j]);
        } else if j == pos {
            assert(r[i] == t[i]);
            assert(t[i].timestamp <= t[pos - 1].timestamp);
        } else if i < pos {
            assert(r[i] == t[i] && r[j] == t[j - 1]);
        } else if i == pos {
            assert(r[j] == t[j - 1]);
        } else {
            assert(r[i] == t[i - 1] && r[j] == t[j - 1]);
        }
    }
}

/// Sorting by time yields a time-ordered sequence of the same length.
pub proof fn lemma_sort_orders(s: Seq<QuotePoint>)
    ensures
        is_time_ordered(sort_by_time(s)),
        sort_by_time(s).len() == s.len(),
    decreases s.len(),
{
    lemma_sort_len(s);
    if s.len() > 0 {
        lemma_sort_orders(s.drop_last());
        lemma_insert_keeps_order(sort_by_time(s.drop_last()), s.last());
    }
}

/// A time-ordered sequence is left as it is by sorting.
pub proof fn lemma_sort_of_ordered(s: Seq<QuotePoint>)
    requires
        is_time_ordered(s),
    ensures
        sort_by_time(s) == s,
    decreases s.len(),
{
    if s.len() > 0 {
        let u = s.drop_last();
        assert(is_time_ordered(u)) by {
            assert forall|i: int, j: int| 0 <= i < j < u.len() implies u[i].timestamp
                <= u[j].timestamp by {
                assert(u[i] == s[i] && u[j] == s[j]);
            }
        }
        lemma_sort_of_ordered(u);
        if u.len() > 0 {
            assert(u.last() == s[s.len() - 2]);
        }
        assert(insert_pos(u, s.last()) == u.len());
        assert(u.insert(u.len() as int, s.last()) =~= s);
    }
}

/// Aggregation depends only on the history's content, and running it on
/// the history once more after ordering it by time yields the same row.
pub proof fn lemma_aggregate_idempotent(
    symbol: Seq<char>,
    timestamp: i64,
    days: usize,
    quotes: Seq<QuotePoint>,
)
    ensures
        aggregate(symbol, timestamp, days, sort_by_time(quotes)) == aggregate(
            symbol,
            timestamp,
            days,
            quotes,
        ),
{
    lemma_sort_orders(quotes);
    lemma_sort_of_ordered(sort_by_time(quotes));
}

/// No row is derived from an empty history, nor where the moving-average
/// window is at most one price or longer than the history.
pub proof fn lemma_no_row_without_window(
    symbol: Seq<char>,
    timestamp: i64,
    days: usize,
    quotes: Seq<QuotePoint>,
)
    requires
        quotes.len() == 0 || days / 2 <= 1 || days / 2 > quotes.len(),
    ensures
        aggregate(symbol, timestamp, days, quotes) is None,
{
    lemma_sort_len(quotes);
}

/// Finds where a stable insertion puts `p` into `t`.
fn find_insert_pos(t: &Vec<QuotePoint>, p: QuotePoint) -> (r: usize)
    ensures
        r == insert_pos(t@, p),
{
    let mut j: usize = t.len();
    assert(t@.subrange(0, j as int) =~= t@);
    while j > 0 && t[j - 1].timestamp > p.timestamp
        invariant
            j <= t@.len(),
            insert_pos(t@, p) == insert_pos(t@.subrange(0, j as int), p),
        decreases j,
    {
        assert(t@.subrange(0, j as int).drop_last() =~= t@.subrange(0, j - 1));
        j = j - 1;
    }
    proof {
        let u = t@.subrange(0, j as int);
        assert(u.len() == j);
        if j > 0 {
            assert(u.last() == t@[j - 1]);
        }
    }
    j
}

/// Orders quotes by timestamp, keeping the delivered order among quotes with
/// equal timestamps.
pub fn sort_quotes(quotes: &Vec<QuotePoint>) -> (r: Vec<QuotePoint>)
    ensures
        r@ == sort_by_time(quotes@),
{
    let mut out: Vec<QuotePoint> = Vec::new();
    let mut i: usize = 0;
    while i < quotes.len()
        invariant
            i <= quotes@.len(),
            out@ == sort_by_time(quotes@.subrange(0, i as int)),
        decreases quotes@.len() - i,
    {
        let p = quotes[i];
        let j = find_insert_pos(&out, p);
        proof {
            let u = quotes@.subrange(0, i + 1);
            assert(u.drop_last() =~= quotes@.subrange(0, i as int));
            assert(u.last() == p);
            lemma_insert_pos_bounds(out@, p);
        }
        out.insert(j, p);
        i = i + 1;
    }
    assert(quotes@.subrange(0, quotes@.len() as int) =~= quotes@);
    out
}

/// Collects the closing prices of quotes, in order.
fn closing_prices(quotes: &Vec<QuotePoint>) -> (r: Vec<u64>)
    ensures
        r@ == closes(quotes@),
{
    let mut out: Vec<u64> = Vec::new();
    let mut i: usize = 0;
    while i < quotes.len()
        invariant
            i <= quotes@.len(),
            out@ == closes(quotes@.subrange(0, i as int)),
        decreases quotes@.len() - i,
    {
        assert(closes(quotes@.subrange(0, i + 1)) =~= closes(quotes@.subrange(0, i as int)).push(
            quotes@[i as int].adjclose,
        ));
        out.push(quotes[i].adjclose);
        i = i + 1;
    }
    assert(quotes@.subrange(0, quotes@.len() as int) =~= quotes@);
    out
}

/// The aggregation stage.
pub struct QuoteProcessor {}

impl QuoteProcessor {
    /// Derives the row for one fetched history, or `None` where no row is
    /// defined for it (see `aggregate`).
    pub fn handle(&self, msg: Quotes) -> (r: Option<FileFormat>)
        ensures
            match r {
                Some(row) => aggregate(msg.symbol@, msg.timestamp, msg.days, msg.quotes@) == Some(
                    row@,
                ),
                None => aggregate(msg.symbol@, msg.timestamp, msg.days, msg.quotes@) is None,
            },
            r is Some && valid_timestamp(msg.timestamp as int) ==> row_wf(&r->0),
    {
        let sorted = sort_quotes(&msg.quotes);
        let data = closing_prices(&sorted);
        if data.len() == 0 {
            return None;
        }
        let period_max = MaxPrice {}.calculate(data.as_slice());
        let period_min = MinPrice {}.calculate(data.as_slice());
        let diff = PriceDifference {}.calculate(data.as_slice());
        let sma = WindowedSMA { window_size: msg.days / 2 }.calculate(data.as_slice());
        match (period_max, period_min, diff, sma) {
            (Some(period_max), Some(period_min), Some((_, pct_change)), Some(sma)) => {
                if sma.len() == 0 {
                    return None;
                }
                let last_sma = sma[sma.len() - 1];
                proof {
                    let m = sma@.map_values(|m: crate::signals::Mean| mean_view(m));
                    assert(m[m.len() - 1] == mean_view(last_sma));
                }
                Some(
                    FileFormat {
                        symbol: msg.symbol,
                        timestamp: msg.timestamp,
                        price: data[data.len() - 1],
                        pct_change,
                        period_min,
                        period_max,
                        last_sma,
                    },
                )
            },
            _ => None,
        }
    }
}

} // verus!
