//! Instants and spans of time as the protocol handles them.
//!
//! An instant is kept as plain numbers. Calendar arithmetic belongs to
//! `chrono`, which is reached through the three conversions below. A span of
//! time is a `std::time::Duration`, known to the proofs through
//! [`duration_nanos`].

use std::time::Duration;
use vstd::prelude::*;

verus! {

/// An instant on the UTC time line: whole seconds since
/// 1970-01-01T00:00:00Z, and the nanoseconds past that second.
#[derive(Clone, Copy, Debug, PartialEq, Eq, Structural)]
pub struct Timestamp {
    pub seconds: i64,
    pub nanos: u32,
}

/// The instant that an RFC 2822 date such as
/// `Wed, 18 Feb 2015 23:16:09 GMT` denotes, if it is one.
pub uninterp spec fn rfc2822_instant(text: Seq<char>) -> Option<Timestamp>;

/// The instant that an RFC 3339 date such as `2015-02-18T23:16:09Z`
/// denotes, if it is one.
pub uninterp spec fn rfc3339_instant(text: Seq<char>) -> Option<Timestamp>;

/// The HTTP date (`Wed, 18 Feb 2015 23:16:09 GMT`) of the instant with the
/// given seconds and nanoseconds, if the calendar can express it.
pub uninterp spec fn http_date(seconds: int, nanos: int) -> Option<Seq<char>>;

/// Calls `chrono::DateTime::parse_from_rfc2822` and keeps the seconds and
/// nanoseconds of the instant it found. The contract only names the result:
/// the same text always gives the same instant.
#[verifier::external_body]
pub(crate) fn parse_rfc2822(text: &str) -> (instant: Option<Timestamp>)
    ensures
        instant == rfc2822_instant(text@),
{
    match chrono::DateTime::parse_from_rfc2822(text) {
        Ok(t) => Some(Timestamp { seconds: t.timestamp(), nanos: t.timestamp_subsec_nanos() }),
        Err(_) => None,
    }
}

/// Calls `chrono`'s `FromStr` for `DateTime<Utc>`, which reads a relaxed
/// RFC 3339 date, and keeps the seconds and nanoseconds of the instant it
/// found. The contract only names the result.
#[verifier::external_body]
pub(crate) fn parse_rfc3339(text: &str) -> (instant: Option<Timestamp>)
    ensures
        instant == rfc3339_instant(text@),
{
    match text.parse::<chrono::DateTime<chrono::Utc>>() {
        Ok(t) => Some(Timestamp { seconds: t.timestamp(), nanos: t.timestamp_subsec_nanos() }),
        Err(_) => None,
    }
}

/// Calls `chrono::DateTime::from_timestamp` and, where that gives a date,
/// `DateTime::format` with the pattern of an HTTP date. The contract only
/// names the result.
#[verifier::external_body]
pub(crate) fn format_http_date(instant: Timestamp) -> (text: Option<String>)
    ensures
        text.deep_view() == http_date(instant.seconds as int, instant.nanos as int),
{
    match chrono::DateTime::from_timestamp(instant.seconds, instant.nanos) {
        Some(t) => Some(t.format("%a, %d %b %Y %H:%M:%S GMT").to_string()),
        None => None,
    }
}

/// Calls `chrono::Utc::now`. Nothing is promised of the instant.
#[verifier::external_body]
pub(crate) fn utc_now() -> (instant: Timestamp) {
    let t = chrono::Utc::now();
    Timestamp { seconds: t.timestamp(), nanos: t.timestamp_subsec_nanos() }
}

impl Timestamp {
    pub fn new(seconds: i64, nanos: u32) -> (t: Timestamp)
        ensures
            t == (Timestamp { seconds, nanos }),
    {
        Timestamp { seconds, nanos }
    }

    /// The instant at which it is called.
    pub fn now() -> (t: Timestamp) {
        utc_now()
    }

    /// Reads an RFC 2822 date, the form of the `Last-Modified` header.
    pub fn from_rfc2822(text: &str) -> (instant: Option<Timestamp>)
        ensures
            instant == rfc2822_instant(text@),
    {
        parse_rfc2822(text)
    }

    /// Reads an RFC 3339 date, the form of a listing's `LastModified`.
    pub fn from_rfc3339(text: &str) -> (instant: Option<Timestamp>)
        ensures
            instant == rfc3339_instant(text@),
    {
        parse_rfc3339(text)
    }

    /// The instant as an HTTP date, for the conditional request headers.
    pub fn to_http_date(&self) -> (text: Option<String>)
        ensures
            text.deep_view() == http_date(self.seconds as int, self.nanos as int),
    {
        format_http_date(*self)
    }
}

// ---------------------------------------------------------------------
// Durations
// ---------------------------------------------------------------------

/// The length of a duration in nanoseconds.
pub uninterp spec fn duration_nanos(d: Duration) -> nat;

/// One second in nanoseconds.
pub const NANOS_PER_SECOND: u128 = 1_000_000_000;

/// No duration reaches this many nanoseconds: its seconds fit in 64 bits.
pub open spec fn duration_limit() -> nat {
    0x1_0000_0000_0000_0000 * 1_000_000_000
}

/// `Duration::as_nanos` returns the whole length in nanoseconds, which is
/// below 2^64 seconds.
pub assume_specification[ Duration::as_nanos ](d: &Duration) -> (n: u128)
    ensures
        n == duration_nanos(*d),
        n < duration_limit(),
;

/// `Duration::new` with less than a second of nanoseconds makes the
/// duration of that many seconds and nanoseconds.
pub assume_specification[ Duration::new ](secs: u64, nanos: u32) -> (d: Duration)
    requires
        nanos < 1_000_000_000,
    ensures
        duration_nanos(d) == secs * 1_000_000_000 + nanos,
;

/// The duration of `n` nanoseconds.
pub fn duration_of(n: u128) -> (d: Duration)
    requires
        n < duration_limit(),
    ensures
        duration_nanos(d) == n,
{
    let secs: u64 = (n / NANOS_PER_SECOND) as u64;
    let nanos: u32 = (n % NANOS_PER_SECOND) as u32;
    Duration::new(secs, nanos)
}

} // verus!
