//! Statistics over a chronologically ordered series of prices.
//!
//! Prices are fixed-point integers: one currency unit is `PRICE_SCALE`
//! price units. Ratios and means are kept exact, as a numerator and a
//! denominator, so that no rounding happens before a value is rendered.
use vstd::prelude::*;

verus! {

/// Price units per currency unit (prices carry six decimal places).
pub const PRICE_SCALE: u64 = 1_000_000;

/// The smallest price of a non-empty series.
pub open spec fn seq_min(s: Seq<u64>) -> u64
    recommends
        s.len() > 0,
    decreases s.len(),
{
    if s.len() <= 1 {
        s[0]
    } else {
        let m = seq_min(s.drop_last());
        if s.last() < m {
            s.last()
        } else {
            m
        }
    }
}

/// The largest price of a non-empty series.
pub open spec fn seq_max(s: Seq<u64>) -> u64
    recommends
        s.len() > 0,
    decreases s.len(),
{
    if s.len() <= 1 {
        s[0]
    } else {
        let m = seq_max(s.drop_last());
        if s.last() > m {
            s.last()
        } else {
            m
        }
    }
}

/// Finds the minimum of a series.
pub struct MinPrice {}

impl MinPrice {
    pub fn calculate(&self, series: &[u64]) -> (r: Option<u64>)
        ensures
            series@.len() == 0 ==> r is None,
            series@.len() > 0 ==> r == Some(seq_min(series@)),
    {
        if series.len() == 0 {
            return None;
        }
        let mut m: u64 = series[0];
        let mut i: usize = 1;
        while i < series.len()
            invariant
                1 <= i <= series@.len(),
                m == seq_min(series@.subrange(0, i as int)),
            decreases series@.len() - i,
        {
            proof {
                assert(series@.subrange(0, i + 1).drop_last() =~= series@.subrange(0, i as int));
            }
            if series[i] < m {
                m = series[i];
            }
            i = i + 1;
        }
        assert(series@.subrange(0, i as int) =~= series@);
        Some(m)
    }
}


/// The sum of a series.
pub open spec fn seq_sum(s: Seq<u64>) -> nat
    decreases s.len(),
{
    if s.len() == 0 {
        0
    } else {
        seq_sum(s.drop_last()) + s.last() as nat
    }
}

/// An exact ratio `num / den` with a positive denominator.
#[derive(Clone, Copy, Debug, PartialEq, Eq, Structural)]
pub struct Ratio {
    pub num: i128,
    pub den: u64,
}

/// The exact mean of `count` prices whose sum is `sum`.
#[derive(Clone, Copy, Debug, PartialEq, Eq, Structural)]
pub struct Mean {
    pub sum: u128,
    pub count: u64,
}

/// The reference price that a relative change is measured against: the
/// first price, or one currency unit where the first price is zero.
pub open spec fn reference_price(first: u64) -> u64 {
    if first == 0 {
        PRICE_SCALE
    } else {
        first
    }
}

/// The relative change from the first to the last price of a non-empty
/// series, `(last - first) / reference_price(first)`.
pub open spec fn relative_change(s: Seq<u64>) -> Ratio
    recommends
        s.len() > 0,
{
    Ratio { num: (s.last() - s[0]) as i128, den: reference_price(s[0]) }
}

/// The simple moving average of `s` over windows of `w` prices: entry `i` is
/// the mean of `s[i..i + w]`, for every `i` that has a full window.
pub open spec fn moving_average(s: Seq<u64>, w: nat) -> Seq<(nat, nat)> {
    if w == 0 || w > s.len() {
        Seq::empty()
    } else {
        Seq::new((s.len() - w + 1) as nat, |i: int| (seq_sum(s.subrange(i, i + w)), w))
    }
}

/// The exact value of a mean, as a pair of a sum and a count.
pub open spec fn mean_view(m: Mean) -> (nat, nat) {
    (m.sum as nat, m.count as nat)
}

/// Every element of a non-empty series lies between its minimum and its
/// maximum, and both are elements of it.
pub proof fn lemma_min_max_bound(s: Seq<u64>)
    requires
        s.len() > 0,
    ensures
        forall|i: int| 0 <= i < s.len() ==> seq_min(s) <= #[trigger] s[i] <= seq_max(s),
        s.contains(seq_min(s)),
        s.contains(seq_max(s)),
    decreases s.len(),
{
    if s.len() > 1 {
        let t = s.drop_last();
        lemma_min_max_bound(t);
        assert forall|i: int| 0 <= i < s.len() implies seq_min(s) <= #[trigger] s[i] <= seq_max(
            s,
        ) by {
            if i < s.len() - 1 {
                assert(s[i] == t[i]);
            }
        }
        let mi = choose|j: int| 0 <= j < t.len() && t[j] == seq_min(t);
        let ma = choose|j: int| 0 <= j < t.len() && t[j] == seq_max(t);
        assert(s[mi] == t[mi]);
        assert(s[ma] == t[ma]);
        assert(s[s.len() - 1] == s.last());
    } else {
        assert(s[0] == seq_min(s));
    }
}

/// For a window of `w` prices with `1 < w <= s.len()`, the moving average
/// has `s.len() - w + 1` entries, and entry `i` is the mean of the window
/// `s[i..i + w]`, that is its sum over its `w` prices.
pub proof fn lemma_moving_average_shape(s: Seq<u64>, w: nat)
    requires
        1 < w <= s.len(),
    ensures
        moving_average(s, w).len() == s.len() - w + 1,
        forall|i: int|
            0 <= i < s.len() - w + 1 ==> #[trigger] moving_average(s, w)[i] == (
                seq_sum(s.subrange(i, i + w)),
                w,
            ),
        forall|i: int|
            0 <= i < s.len() - w + 1 ==> #[trigger] s.subrange(i, i + w).len() == w,
{
}

proof fn lemma_sum_front(s: Seq<u64>)
    requires
        s.len() > 0,
    ensures
        seq_sum(s) == s[0] + seq_sum(s.drop_first()),
    decreases s.len(),
{
    if s.len() > 1 {
        lemma_sum_front(s.drop_last());
        assert(s.drop_last().drop_first() =~= s.drop_first().drop_last());
    } else {
        assert(s.drop_last() =~= Seq::<u64>::empty());
        assert(s.drop_first() =~= Seq::<u64>::empty());
    }
}

proof fn lemma_sum_bound(s: Seq<u64>)
    ensures
        seq_sum(s) <= s.len() * (u64::MAX as nat),
    decreases s.len(),
{
    if s.len() > 0 {
        lemma_sum_bound(s.drop_last());
        assert((s.len() - 1) * (u64::MAX as nat) + u64::MAX == s.len() * (u64::MAX as nat))
            by (nonlinear_arith);
    }
}

proof fn lemma_sum_fits(s: Seq<u64>)
    requires
        s.len() <= usize::MAX,
    ensures
        seq_sum(s) <= u128::MAX,
{
    lemma_sum_bound(s);
    let n = s.len();
    assert(n * (u64::MAX as nat) <= u128::MAX) by (nonlinear_arith)
        requires
            n <= u64::MAX,
    ;
}

/// Finds the maximum of a series.
pub struct MaxPrice {}

impl MaxPrice {
    pub fn calculate(&self, series: &[u64]) -> (r: Option<u64>)
        ensures
            series@.len() == 0 ==> r is None,
            series@.len() > 0 ==> r == Some(seq_max(series@)),
    {
        if series.len() == 0 {
            return None;
        }
        let mut m: u64 = series[0];
        let mut i: usize = 1;
        while i < series.len()
            invariant
                1 <= i <= series@.len(),
                m == seq_max(series@.subrange(0, i as int)),
            decreases series@.len() - i,
        {
            proof {
                assert(series@.subrange(0, i + 1).drop_last() =~= series@.subrange(0, i as int));
            }
            if series[i] > m {
                m = series[i];
            }
            i = i + 1;
        }
        assert(series@.subrange(0, i as int) =~= series@);
        Some(m)
    }
}

/// The absolute and relative difference between the first and the last
/// price of a series.
pub struct PriceDifference {}

impl PriceDifference {
    /// Returns `(last - first, relative_change)`, in price units and as an
    /// exact ratio.
    pub fn calculate(&self, series: &[u64]) -> (r: Option<(i128, Ratio)>)
        ensures
            series@.len() == 0 ==> r is None,
            series@.len() > 0 ==> r == Some(
                ((series@.last() - series@[0]) as i128, relative_change(series@)),
            ),
    {
        if series.len() == 0 {
            return None;
        }
        let first = series[0];
        let last = series[series.len() - 1];
        let diff: i128 = last as i128 - first as i128;
        let den: u64 = if first == 0 {
            PRICE_SCALE
        } else {
            first
        };
        Some((diff, Ratio { num: diff, den }))
    }
}

/// A simple moving average over windows of `window_size` prices.
pub struct WindowedSMA {
    pub window_size: usize,
}

impl WindowedSMA {
    /// Returns `None` for an empty series or a window of at most one price,
    /// and otherwise the mean of every full window, in order (none where the
    /// window is longer than the series).
    pub fn calculate(&self, series: &[u64]) -> (r: Option<Vec<Mean>>)
        ensures
            (series@.len() == 0 || self.window_size <= 1) ==> r is None,
            (series@.len() > 0 && self.window_size > 1) ==> r is Some && r->0@.map_values(
                |m: Mean| mean_view(m),
            ) == moving_average(series@, self.window_size as nat),
    {
        let n = series.len();
        let w = self.window_size;
        if n == 0 || w <= 1 {
            return None;
        }
        let mut out: Vec<Mean> = Vec::new();
        if w > n {
            assert(out@.map_values(|m: Mean| mean_view(m)) =~= moving_average(series@, w as nat));
            return Some(out);
        }
        let ghost s = series@;
        let mut sum: u128 = 0;
        let mut k: usize = 0;
        while k < w
            invariant
                w <= n == s.len(),
                s == series@,
                0 <= k <= w,
                sum as nat == seq_sum(s.subrange(0, k as int)),
            decreases w - k,
        {
            proof {
                assert(s.subrange(0, k + 1).drop_last() =~= s.subrange(0, k as int));
                lemma_sum_fits(s.subrange(0, k + 1));
            }
            sum = sum + series[k] as u128;
            k = k + 1;
        }
        out.push(Mean { sum, count: w as u64 });
        let mut i: usize = 1;
        while i <= n - w
            invariant
                1 < w <= n == s.len(),
                s == series@,
                1 <= i <= n - w + 1,
                out@.len() == i,
                sum as nat == seq_sum(s.subrange(i - 1, i - 1 + w)),
                forall|j: int|
                    0 <= j < i ==> mean_view(#[trigger] out@[j]) == (
                        seq_sum(s.subrange(j, j + w)),
                        w as nat,
                    ),
            decreases n - i,
        {
            proof {
                let lo = i - 1;
                assert(s.subrange(lo, i + w).drop_last() =~= s.subrange(lo, lo + w));
                lemma_sum_fits(s.subrange(lo, i + w));
                lemma_sum_front(s.subrange(lo, i + w));
                assert(s.subrange(lo, i + w).drop_first() =~= s.subrange(i as int, i + w));
            }
            let added: u128 = sum + series[i + w - 1] as u128;
            sum = added - series[i - 1] as u128;
            out.push(Mean { sum, count: w as u64 });
            i = i + 1;
        }
        assert(out@.map_values(|m: Mean| mean_view(m)) =~= moving_average(series@, w as nat));
        Some(out)
    }
}

} // verus!
