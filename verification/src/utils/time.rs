//! The clock, and integers written out in decimal.
use chrono::{DateTime, Local, Utc};
use vstd::prelude::*;

verus! {

/// The decimal digit for `d` in `0..10`.
pub open spec fn digit_char(d: int) -> char {
    if d == 0 {
        '0'
    } else if d == 1 {
        '1'
    } else if d == 2 {
        '2'
    } else if d == 3 {
        '3'
    } else if d == 4 {
        '4'
    } else if d == 5 {
        '5'
    } else if d == 6 {
        '6'
    } else if d == 7 {
        '7'
    } else if d == 8 {
        '8'
    } else {
        '9'
    }
}

/// The decimal digits of `n >= 0`, without leading zeros.
pub open spec fn natural_text(n: nat) -> Seq<char>
    decreases n,
{
    if n < 10 {
        seq![digit_char(n as int)]
    } else {
        natural_text(n / 10) + seq![digit_char((n % 10) as int)]
    }
}

/// `n` written in decimal, with a leading `-` where it is negative.
pub open spec fn decimal_text(n: int) -> Seq<char> {
    if n < 0 {
        seq!['-'] + natural_text((-n) as nat)
    } else {
        natural_text(n as nat)
    }
}

/// The current local time in nanoseconds since the Unix epoch
/// (`chrono::Local::now().timestamp_nanos()`, which panics past the year
/// 2262).  Nothing is stated of it: it is the time.
#[verifier::external_body]
pub fn get_nanos() -> i64 {
    #[allow(deprecated)]
    Local::now().timestamp_nanos()
}

/// The current UTC time in nanoseconds since the Unix epoch
/// (`chrono::Utc::now().timestamp_nanos_opt()`); `None` past the year 2262.
/// Nothing is stated of it: it is the time.
#[verifier::external_body]
pub(crate) fn utc_now_nanos() -> Option<i64> {
    Utc::now().timestamp_nanos_opt()
}

/// What reading `text` as a UTC time (`str::parse::<DateTime<Utc>>`, an
/// RFC 3339 date and time) and taking its nanoseconds since the Unix epoch
/// (`timestamp_nanos_opt`) gives; `None` where either fails.
pub uninterp spec fn utc_timestamp_nanos(text: Seq<char>) -> Option<i64>;

/// Reads an RFC 3339 time such as `2020-05-24T00:00:00.123Z` and gives its
/// nanoseconds since the Unix epoch; `None` for another text or a time
/// outside the years 1677 to 2262.
#[verifier::external_body]
pub(crate) fn parse_utc_nanos(text: &str) -> (r: Option<i64>)
    ensures
        r == utc_timestamp_nanos(text@),
{
    match text.parse::<DateTime<Utc>>() {
        Ok(t) => t.timestamp_nanos_opt(),
        Err(_) => None,
    }
}

/// `n.to_string()` for a `usize`: its decimal digits.
#[verifier::external_body]
pub(crate) fn usize_to_string(n: usize) -> (r: String)
    ensures
        r@ == natural_text(n as nat),
{
    n.to_string()
}

/// `n.to_string()` for an `i64`: its decimal digits, with a `-` if negative.
#[verifier::external_body]
pub(crate) fn i64_to_string(n: i64) -> (r: String)
    ensures
        r@ == decimal_text(n as int),
{
    n.to_string()
}

} // verus!
