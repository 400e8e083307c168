//! Rendering of numbers and timestamps as text.
use vstd::prelude::*;

verus! {

/// Relies on std's `String::push`: it appends one character.
pub assume_specification[ String::push ](s: &mut String, ch: char)
    ensures
        final(s)@ == old(s)@.push(ch),
;

/// The RFC 3339 rendering of a timestamp in seconds since the Unix epoch,
/// in UTC, as chrono writes it.
pub uninterp spec fn rfc3339_text(secs: int) -> Seq<char>;

/// Relies on chrono's `DateTime::<Utc>::from_timestamp`, which accepts every
/// timestamp of about 262,000 years around the epoch, and on
/// `DateTime::to_rfc3339`, which renders it.
#[verifier::external_body]
pub(crate) fn rfc3339(secs: i64) -> (r: String)
    requires
        crate::common::valid_timestamp(secs as int),
    ensures
        r@ == rfc3339_text(secs as int),
{
    chrono::DateTime::from_timestamp(secs, 0).unwrap().to_rfc3339()
}

/// The character of a decimal digit.
pub open spec fn digit_char(d: nat) -> char {
    ((d + 48) as u8) as char
}

/// The decimal digits of `n`, without leading zeros.
pub open spec fn decimal(n: nat) -> Seq<char>
    decreases n,
{
    if n < 10 {
        seq![digit_char(n)]
    } else {
        decimal(n / 10).push(digit_char(n % 10))
    }
}

/// `n / d` rounded to the nearest integer, halves rounded up.
pub open spec fn round_div(n: nat, d: nat) -> nat
    recommends
        d > 0,
{
    n / d + if 2 * (n % d) >= d {
        1nat
    } else {
        0nat
    }
}

/// A count of hundredths written with two decimal places.
pub open spec fn fixed2(h: nat) -> Seq<char> {
    decimal(h / 100) + seq!['.', digit_char((h / 10) % 10), digit_char(h % 10)]
}

fn digit(d: u128) -> (c: char)
    requires
        d < 10,
    ensures
        c == digit_char(d as nat),
{
    ((d as u8) + 48) as char
}

/// Appends the decimal digits of `n`.
pub fn push_decimal(out: &mut String, n: u128)
    ensures
        final(out)@ == old(out)@ + decimal(n as nat),
    decreases n,
{
    if n >= 10 {
        push_decimal(out, n / 10);
    }
    out.push(digit(n % 10));
    proof {
        if n < 10 {
            assert(n % 10 == n);
        }
    }
    assert(final(out)@ =~= old(out)@ + decimal(n as nat));
}

/// Appends a count of hundredths with two decimal places.
pub fn push_fixed2(out: &mut String, h: u128)
    ensures
        final(out)@ == old(out)@ + fixed2(h as nat),
{
    push_decimal(out, h / 100);
    out.push('.');
    out.push(digit((h / 10) % 10));
    out.push(digit(h % 10));
    assert(final(out)@ =~= old(out)@ + fixed2(h as nat));
}

/// `n / d` rounded to the nearest integer, halves rounded up.
pub fn rounded_div(n: u128, d: u128) -> (r: u128)
    requires
        d >= 2,
    ensures
        r == round_div(n as nat, d as nat),
{
    let q = n / d;
    let rem = n % d;
    assert(q < u128::MAX) by (nonlinear_arith)
        requires
            q == n / d,
            d >= 2,
            n <= u128::MAX,
    ;
    if rem >= d - rem {
        q + 1
    } else {
        q
    }
}

} // verus!
