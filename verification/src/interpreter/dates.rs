//! Reads dates from text.
use vstd::prelude::*;

verus! {

/// The milliseconds since the epoch that `chrono` reads from a date and
/// time without time zone, or `None` for text that it rejects.
pub uninterp spec fn naive_datetime_millis(text: Seq<char>) -> Option<i64>;

/// The milliseconds since the epoch that `chrono` reads from a date and
/// time with an offset from UTC, or `None` for text that it rejects.
pub uninterp spec fn utc_datetime_millis(text: Seq<char>) -> Option<i64>;

/// Reads a date and time without time zone, such as `2015-09-18T23:56:04`,
/// as milliseconds since the epoch.
///
/// Calls `NaiveDateTime::from_str` of `chrono` and, on what it read,
/// `and_utc` and `DateTime::timestamp_millis`. The result depends on the
/// text alone; nothing else is claimed of it.
#[verifier::external_body]
pub(crate) fn parse_naive_datetime(text: &str) -> (res: Option<i64>)
    ensures
        res == naive_datetime_millis(text@),
{
    match text.parse::<chrono::NaiveDateTime>() {
        Ok(datetime) => Some(datetime.and_utc().timestamp_millis()),
        Err(_) => None,
    }
}

/// Reads a date and time with an offset from UTC, such as
/// `2015-09-18T23:56:04Z`, as milliseconds since the epoch.
///
/// Calls `DateTime::<Utc>::from_str` of `chrono` and, on what it read,
/// `DateTime::timestamp_millis`. The result depends on the text alone;
/// nothing else is claimed of it.
#[verifier::external_body]
pub(crate) fn parse_utc_datetime(text: &str) -> (res: Option<i64>)
    ensures
        res == utc_datetime_millis(text@),
{
    match text.parse::<chrono::DateTime<chrono::Utc>>() {
        Ok(datetime) => Some(datetime.timestamp_millis()),
        Err(_) => None,
    }
}

} // verus!
