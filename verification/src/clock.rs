//! Wall-clock instants as plain values, with the calendar formatting that the
//! library takes from chrono.
use vstd::prelude::*;

verus! {

/// A UTC instant: whole seconds since the Unix epoch plus the sub-second
/// nanoseconds (chrono's `timestamp()` / `timestamp_subsec_nanos()`).
#[derive(Debug, Clone, Copy, PartialEq, Eq)]
pub struct Timestamp {
    pub secs: i64,
    pub nanos: u32,
}

/// RFC 3339 rendering of a UTC instant (`DateTime<Utc>::to_rfc3339`), or
/// `None` where chrono cannot represent the instant.
pub uninterp spec fn rfc3339_of(secs: i64, nanos: u32) -> Option<Seq<char>>;

/// The current time (`chrono::Utc::now`). Nothing is claimed of the value: it
/// is whatever the system clock reads.
#[verifier::external_body]
pub(crate) fn now() -> (t: Timestamp) {
    let now = chrono::Utc::now();
    Timestamp { secs: now.timestamp(), nanos: now.timestamp_subsec_nanos() }
}

/// `DateTime::from_timestamp(secs, nanos)` followed by `to_rfc3339`. Claimed:
/// the result is `rfc3339_of(secs, nanos)`; chrono's rendering itself is not
/// restated.
#[verifier::external_body]
pub(crate) fn to_rfc3339(t: Timestamp) -> (r: Option<String>)
    ensures
        match r {
            Some(s) => rfc3339_of(t.secs, t.nanos) == Some(s@),
            None => rfc3339_of(t.secs, t.nanos) is None,
        },
{
    chrono::DateTime::from_timestamp(t.secs, t.nanos).map(|at| at.to_rfc3339())
}

/// The local-time renderings the app uses.
#[derive(Debug, Clone, Copy, PartialEq, Eq, Structural)]
pub enum LocalPattern {
    /// `%Y-%m-%d`, the calendar day.
    Day,
    /// `%Y-%m-%d %H:%M`, the day and the clock time.
    DayTime,
}

/// Local-time rendering of an instant (`DateTime::from_timestamp`,
/// `with_timezone(&Local)`, `format` with one of the app's patterns, both
/// valid chrono patterns). Which day and time it shows depends on the
/// machine's time zone, so only this is claimed: `None` only where chrono
/// cannot represent the instant, and an ordinary instant renders to a
/// non-empty text (both patterns hold a literal `-`).
#[verifier::external_body]
pub(crate) fn format_local(t: Timestamp, pattern: LocalPattern) -> (r: Option<String>)
    ensures
        ordinary_instant(t) ==> r is Some && r->0@.len() > 0,
{
    let pattern = match pattern {
        LocalPattern::Day => "%Y-%m-%d",
        LocalPattern::DayTime => "%Y-%m-%d %H:%M",
    };
    chrono::DateTime::from_timestamp(t.secs, t.nanos).map(
        |at| at.with_timezone(&chrono::Local).format(pattern).to_string(),
    )
}

/// Whether chrono's `DateTime::from_timestamp` surely accepts the instant:
/// nanoseconds below one second and seconds within about 250,000 years of
/// the epoch, well inside chrono's year range of about 262,000 years.
pub open spec fn ordinary_instant(t: Timestamp) -> bool {
    t.nanos < 1_000_000_000 && -8_000_000_000_000 <= t.secs && t.secs <= 8_000_000_000_000
}

/// Local hour and minute of an instant (`DateTime::from_timestamp`, then
/// `Timelike::hour` / `minute` after `with_timezone(&Local)`). Depends on the
/// machine's time zone; only chrono's documented ranges are claimed, and that
/// `from_timestamp` accepts an ordinary instant (it refuses only seconds
/// outside its date range and invalid nanoseconds).
#[verifier::external_body]
pub(crate) fn local_hour_minute(t: Timestamp) -> (r: Option<(u32, u32)>)
    ensures
        r matches Some(hm) ==> hm.0 < 24 && hm.1 < 60,
        ordinary_instant(t) ==> r is Some,
{
    chrono::DateTime::from_timestamp(t.secs, t.nanos).map(
        |at| {
            let local = at.with_timezone(&chrono::Local);
            (chrono::Timelike::hour(&local), chrono::Timelike::minute(&local))
        },
    )
}

} // verus!
