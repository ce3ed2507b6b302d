//! Calendar dates and the clock: the `chrono` crate's parser and the current
//! year. Nothing in this file is proved.

use vstd::prelude::*;

verus! {

/// What `chrono::NaiveDateTime::parse_from_str` makes of a text under a
/// format, as milliseconds since the start of 1970 in UTC; `None` where the
/// text does not fit the format or names no date and time.
pub uninterp spec fn datetime_millis(text: Seq<char>, format: Seq<char>) -> Option<i64>;

/// Parses a date and time with `chrono::NaiveDateTime::parse_from_str` and
/// converts it to milliseconds since the start of 1970 in UTC. The outcome
/// depends on the text and the format alone.
#[verifier::external_body]
pub(crate) fn parse_datetime_millis(text: &str, format: &str) -> (res: Option<i64>)
    ensures
        res == datetime_millis(text@, format@),
{
    match chrono::NaiveDateTime::parse_from_str(text, format) {
        Ok(moment) => Some(moment.and_utc().timestamp_millis()),
        Err(_) => None,
    }
}

/// The current year in UTC, in digits, read from the clock with
/// `chrono::Utc::now`. Nothing is known of it.
#[verifier::external_body]
pub(crate) fn current_year() -> (res: String) {
    chrono::Utc::now().format("%Y").to_string()
}

/// What `chrono` makes of a time of day, read under a format with
/// `chrono::NaiveTime::parse_from_str`, on the day of the moment `base`:
/// that time on that day in UTC, in milliseconds since the start of 1970.
/// `None` where the text does not fit the format or names no time.
pub uninterp spec fn time_on_day(base: i64, text: Seq<char>, format: Seq<char>) -> Option<i64>;

/// Reads a time of day with `chrono::NaiveTime::parse_from_str` and puts
/// it on the day of the moment `base`, which is given in milliseconds
/// since the start of 1970, as the result is. The outcome depends on the
/// arguments alone.
#[verifier::external_body]
pub(crate) fn parse_time_on_day(base: i64, text: &str, format: &str) -> (res: Option<i64>)
    ensures
        res == time_on_day(base, text@, format@),
{
    match chrono::NaiveTime::parse_from_str(text, format) {
        Ok(time) => {
            let day = chrono::DateTime::from_timestamp_millis(base).unwrap_or_default();
            Some(day.date_naive().and_time(time).and_utc().timestamp_millis())
        },
        Err(_) => None,
    }
}

} // verus!
