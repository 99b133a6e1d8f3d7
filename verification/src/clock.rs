//! The clock, and the text forms of points in time.

use vstd::prelude::*;

verus! {

/// A point in time: seconds since the Unix epoch and nanoseconds within
/// the second.
#[derive(Debug, Clone, Copy, PartialEq, Eq, Structural)]
pub struct Instant {
    pub secs: i64,
    pub nanos: u32,
}

/// The RFC 3339 text that `DateTime::to_rfc3339` writes for a point in
/// time in UTC; none where the point lies outside the calendar's range.
pub uninterp spec fn rfc3339_of(secs: int, nanos: int) -> Option<Seq<char>>;

/// The day, as `%Y-%m-%d`, on which a point in time falls in UTC; none
/// where the point lies outside the calendar's range.
pub uninterp spec fn date_of(secs: int, nanos: int) -> Option<Seq<char>>;

/// The point in time, in milliseconds since the Unix epoch, that
/// `DateTime::parse_from_rfc3339` reads from a text; none where the text
/// is no RFC 3339 date and time.
pub uninterp spec fn millis_of_text(text: Seq<char>) -> Option<int>;

/// Reads the clock with `Utc::now` of `chrono`. Nothing is promised of
/// the reading.
#[verifier::external_body]
pub(crate) fn read_clock() -> (now: Instant) {
    let now = chrono::Utc::now();
    Instant { secs: now.timestamp(), nanos: now.timestamp_subsec_nanos() }
}

/// Builds the UTC date and time of a point in time with
/// `DateTime::from_timestamp` and writes it with `DateTime::to_rfc3339`.
#[verifier::external_body]
pub(crate) fn write_rfc3339(at: Instant) -> (text: Option<String>)
    ensures
        match text {
            Some(t) => rfc3339_of(at.secs as int, at.nanos as int) == Some(t@),
            None => rfc3339_of(at.secs as int, at.nanos as int) is None,
        },
{
    match chrono::DateTime::from_timestamp(at.secs, at.nanos) {
        Some(t) => Some(t.to_rfc3339()),
        None => None,
    }
}

/// Builds the UTC date and time of a point in time with
/// `DateTime::from_timestamp` and writes its day with
/// `DateTime::format`, as `%Y-%m-%d`.
#[verifier::external_body]
pub(crate) fn write_date(at: Instant) -> (text: Option<String>)
    ensures
        match text {
            Some(t) => date_of(at.secs as int, at.nanos as int) == Some(t@),
            None => date_of(at.secs as int, at.nanos as int) is None,
        },
{
    match chrono::DateTime::from_timestamp(at.secs, at.nanos) {
        Some(t) => Some(t.format("%Y-%m-%d").to_string()),
        None => None,
    }
}

/// Reads an RFC 3339 date and time with `DateTime::parse_from_rfc3339`
/// and gives its `timestamp_millis`.
#[verifier::external_body]
pub(crate) fn parse_rfc3339(text: &str) -> (millis: Option<i64>)
    ensures
        match millis {
            Some(ms) => millis_of_text(text@) == Some(ms as int),
            None => millis_of_text(text@) is None,
        },
{
    match chrono::DateTime::parse_from_rfc3339(text) {
        Ok(t) => Some(t.timestamp_millis()),
        Err(_) => None,
    }
}

impl Instant {
    /// The point in time in milliseconds since the Unix epoch.
    pub open spec fn spec_millis(self) -> int {
        self.secs * 1000 + self.nanos as int / 1_000_000
    }

    /// The point in time in milliseconds since the Unix epoch; none where
    /// it does not fit.
    pub fn millis(&self) -> (ms: Option<i64>)
        ensures
            match ms {
                Some(m) => m == self.spec_millis(),
                None => self.spec_millis() < i64::MIN || self.spec_millis() > i64::MAX,
            },
    {
        let wide: i128 = self.secs as i128 * 1000 + (self.nanos / 1_000_000) as i128;
        if wide < i64::MIN as i128 || wide > i64::MAX as i128 {
            None
        } else {
            Some(wide as i64)
        }
    }

    /// The point in time `days` days later; none where it does not fit.
    pub fn plus_days(&self, days: i64) -> (later: Option<Instant>)
        ensures
            match later {
                Some(t) => t.secs == self.secs + days * 86_400 && t.nanos == self.nanos,
                None => self.secs + days * 86_400 < i64::MIN || self.secs + days * 86_400
                    > i64::MAX,
            },
    {
        let wide: i128 = self.secs as i128 + days as i128 * 86_400;
        if wide < i64::MIN as i128 || wide > i64::MAX as i128 {
            None
        } else {
            Some(Instant { secs: wide as i64, nanos: self.nanos })
        }
    }

    /// The clock's reading.
    pub fn now() -> (now: Instant) {
        read_clock()
    }

    /// The point in time as RFC 3339 text; none where it lies outside the
    /// calendar's range.
    pub fn to_rfc3339(&self) -> (text: Option<String>)
        ensures
            match text {
                Some(t) => rfc3339_of(self.secs as int, self.nanos as int) == Some(t@),
                None => rfc3339_of(self.secs as int, self.nanos as int) is None,
            },
    {
        write_rfc3339(*self)
    }

    /// The day on which the point in time falls, as `%Y-%m-%d`.
    pub fn date(&self) -> (text: Option<String>)
        ensures
            match text {
                Some(t) => date_of(self.secs as int, self.nanos as int) == Some(t@),
                None => date_of(self.secs as int, self.nanos as int) is None,
            },
    {
        write_date(*self)
    }
}

} // verus!
