//! The run's configuration, from the text of its arguments.
use vstd::prelude::*;
use crate::common::valid_timestamp;
use crate::schedule::MAX_INTERVAL_DAYS;

verus! {

/// The pieces of `s` between commas, empty ones included; a text without a
/// comma is one piece.
pub open spec fn split_commas(s: Seq<char>) -> Seq<Seq<char>>
    decreases s.len(),
{
    if s.len() == 0 {
        seq![Seq::empty()]
    } else {
        let p = split_commas(s.drop_last());
        if s.last() == ',' {
            p.push(Seq::empty())
        } else {
            p.update(p.len() - 1, p.last().push(s.last()))
        }
    }
}

proof fn lemma_split_nonempty(s: Seq<char>)
    ensures
        split_commas(s).len() >= 1,
    decreases s.len(),
{
    if s.len() > 0 {
        lemma_split_nonempty(s.drop_last());
    }
}

/// Whether every character of `s` is a decimal digit.
pub open spec fn all_digits(s: Seq<char>) -> bool {
    forall|i: int| 0 <= i < s.len() ==> '0' <= #[trigger] s[i] <= '9'
}

/// The number that the decimal digits `s` write.
pub open spec fn digits_value(s: Seq<char>) -> nat
    decreases s.len(),
{
    if s.len() == 0 {
        0
    } else {
        digits_value(s.drop_last()) * 10 + (s.last() as nat - '0' as nat) as nat
    }
}

/// The timestamp, in seconds since the Unix epoch, of the date and time that
/// chrono reads from an RFC 3339 text, or `None` where it reads none.
pub uninterp spec fn parsed_timestamp(s: Seq<char>) -> Option<int>;

/// Relies on chrono's `FromStr` for `DateTime<Utc>`, which reads an RFC 3339
/// date and time, and on `DateTime::timestamp`.
#[verifier::external_body]
fn parse_rfc3339(s: &str) -> (r: Option<i64>)
    ensures
        match r {
            Some(t) => parsed_timestamp(s@) == Some(t as int),
            None => parsed_timestamp(s@) is None,
        },
{
    match s.parse::<chrono::DateTime<chrono::Utc>>() {
        Ok(d) => Some(d.timestamp()),
        Err(_) => None,
    }
}

/// Why the arguments of a run were refused.
#[derive(Clone, Copy, Debug, PartialEq, Eq, Structural)]
pub enum ConfigError {
    /// The start is no RFC 3339 date and time in the handled range.
    InvalidFrom,
    /// The end is no RFC 3339 date and time in the handled range.
    InvalidTo,
    /// The step is no whole number of days from one to `MAX_INTERVAL_DAYS`.
    InvalidInterval,
}

/// Whether `s` denotes a timestamp in the handled range.
pub open spec fn is_valid_time(s: Seq<char>) -> bool {
    parsed_timestamp(s) matches Some(t) && valid_timestamp(t)
}

/// Whether `s` writes a step in days: a non-empty run of decimal digits
/// whose value lies between one and `MAX_INTERVAL_DAYS`.
pub open spec fn is_valid_interval(s: Seq<char>) -> bool {
    s.len() > 0 && all_digits(s) && 1 <= digits_value(s) <= MAX_INTERVAL_DAYS
}

/// The validated arguments of a run. Without an end the run follows live
/// data; with one it replays the range up to it.
pub struct RunConfig {
    pub symbols: Vec<String>,
    pub from: i64,
    pub to: Option<i64>,
    pub interval_days: u64,
}

/// Reads an RFC 3339 date and time in the handled range.
pub fn parse_time(s: &str) -> (r: Option<i64>)
    ensures
        r is Some <==> is_valid_time(s@),
        r is Some ==> parsed_timestamp(s@) == Some(r->0 as int),
{
    match parse_rfc3339(s) {
        Some(t) => {
            if t < -crate::common::TIMESTAMP_LIMIT || t > crate::common::TIMESTAMP_LIMIT {
                None
            } else {
                Some(t)
            }
        },
        None => None,
    }
}

/// Splits a comma-separated list of symbols.
pub fn split_symbols(s: &str) -> (r: Vec<String>)
    ensures
        r@.map_values(|x: String| x@) == split_commas(s@),
{
    let n = s.unicode_len();
    let mut out: Vec<String> = Vec::new();
    let mut cur = String::new();
    let mut i: usize = 0;
    while i < n
        invariant
            n == s@.len(),
            i <= n,
            out@.map_values(|x: String| x@).push(cur@) == split_commas(s@.subrange(0, i as int)),
        decreases n - i,
    {
        let c = s.get_char(i);
        proof {
            let u = s@.subrange(0, i + 1);
            assert(u.drop_last() =~= s@.subrange(0, i as int));
            assert(u.last() == c);
            lemma_split_nonempty(s@.subrange(0, i as int));
        }
        if c == ',' {
            let piece = cur;
            cur = String::new();
            let ghost before = out@;
            out.push(piece);
            assert(out@.map_values(|x: String| x@).push(cur@) =~= before.map_values(|x: String| x@).push(piece@).push(Seq::empty()));
        } else {
            let ghost before = cur@;
            cur.push(c);
            assert(out@.map_values(|x: String| x@).push(cur@) =~= out@.map_values(|x: String| x@).push(before).update(out@.len() as int, before.push(c)));
        }
        i = i + 1;
    }
    assert(s@.subrange(0, n as int) =~= s@);
    out.push(cur);
    assert(out@.map_values(|x: String| x@) =~= split_commas(s@));
    out
}

/// Reads a step in days: a non-empty run of decimal digits whose value lies
/// between one and `MAX_INTERVAL_DAYS`.
pub fn parse_interval(s: &str) -> (r: Option<u64>)
    ensures
        r is Some <==> is_valid_interval(s@),
        r is Some ==> r->0 == digits_value(s@),
{
    let n = s.unicode_len();
    if n == 0 {
        return None;
    }
    let mut v: u64 = 0;
    let mut i: usize = 0;
    while i < n
        invariant
            n == s@.len(),
            i <= n,
            all_digits(s@.subrange(0, i as int)),
            v == digits_value(s@.subrange(0, i as int)),
            v <= MAX_INTERVAL_DAYS,
        decreases n - i,
    {
        let c = s.get_char(i);
        proof {
            let u = s@.subrange(0, i + 1);
            assert(u.drop_last() =~= s@.subrange(0, i as int));
            assert(u.last() == c);
        }
        if c < '0' || c > '9' {
            assert(!all_digits(s@)) by {
                assert(s@[i as int] == c);
            }
            return None;
        }
        let d = (c as u32 - '0' as u32) as u64;
        let next = v * 10 + d;
        if next > MAX_INTERVAL_DAYS {
            proof {
                if all_digits(s@) {
                    lemma_digits_value_grows(s@, i + 1);
                }
            }
            return None;
        }
        v = next;
        i = i + 1;
    }
    assert(s@.subrange(0, n as int) =~= s@);
    if v == 0 {
        None
    } else {
        Some(v)
    }
}

proof fn lemma_digits_value_grows(s: Seq<char>, k: int)
    requires
        0 <= k <= s.len(),
        all_digits(s),
    ensures
        digits_value(s) >= digits_value(s.subrange(0, k)),
    decreases s.len() - k,
{
    if k < s.len() {
        lemma_digits_value_grows(s, k + 1);
        let u = s.subrange(0, k + 1);
        assert(u.drop_last() =~= s.subrange(0, k));
        assert(u.last() == s[k]);
    } else {
        assert(s.subrange(0, k) =~= s);
    }
}

impl RunConfig {
    /// Validates the arguments of a run: the symbols as a comma-separated
    /// list, the start and the optional end as RFC 3339 dates and times, and
    /// the step in days. The first invalid argument, in that order, is
    /// reported.
    pub fn from_args(symbols: &str, from: &str, to: Option<&str>, interval: &str) -> (r: Result<
        RunConfig,
        ConfigError,
    >)
        ensures
            match r {
                Ok(c) => {
                    &&& c.symbols@.map_values(|x: String| x@) == split_commas(symbols@)
                    &&& is_valid_time(from@)
                    &&& parsed_timestamp(from@) == Some(c.from as int)
                    &&& match to {
                        Some(e) => is_valid_time(e@) && (c.to matches Some(t) && parsed_timestamp(
                            e@,
                        ) == Some(t as int)),
                        None => c.to is None,
                    }
                    &&& is_valid_interval(interval@)
                    &&& c.interval_days == digits_value(interval@)
                },
                Err(ConfigError::InvalidFrom) => !is_valid_time(from@),
                Err(ConfigError::InvalidTo) => is_valid_time(from@) && (to matches Some(e)
                    && !is_valid_time(e@)),
                Err(ConfigError::InvalidInterval) => {
                    &&& is_valid_time(from@)
                    &&& to matches Some(e) ==> is_valid_time(e@)
                    &&& !is_valid_interval(interval@)
                },
            },
    {
        let start = match parse_time(from) {
            Some(t) => t,
            None => return Err(ConfigError::InvalidFrom),
        };
        let end = match to {
            Some(e) => match parse_time(e) {
                Some(t) => Some(t),
                None => return Err(ConfigError::InvalidTo),
            },
            None => None,
        };
        let interval_days = match parse_interval(interval) {
            Some(d) => d,
            None => return Err(ConfigError::InvalidInterval),
        };
        Ok(RunConfig { symbols: split_symbols(symbols), from: start, to: end, interval_days })
    }
}

} // verus!
