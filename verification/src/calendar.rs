//! Instants on the calendar. An instant is a number of microseconds since the
//! Unix epoch.

use vstd::prelude::*;

verus! {

/// An instant as `YYYY-MM-DD HH:MM:SS` in UTC, where the calendar reaches it.
pub uninterp spec fn instant_text(micros: i64) -> Option<Seq<char>>;

/// The instant at which the day written as `YYYYMMDD` begins in UTC, where
/// the text writes a day.
pub uninterp spec fn day_start(text: Seq<char>) -> Option<i64>;

/// `chrono::DateTime::from_timestamp_micros`, then `DateTime::format` with
/// `%Y-%m-%d %H:%M:%S`: the text depends on the instant alone, and there is
/// none where `chrono` cannot hold the instant.
#[verifier::external_body]
pub(crate) fn format_instant(micros: i64) -> (out: Option<String>)
    ensures
        out is Some <==> instant_text(micros) is Some,
        out matches Some(s) ==> instant_text(micros) == Some(s@),
{
    chrono::DateTime::from_timestamp_micros(micros).map(
        |d| d.format("%Y-%m-%d %H:%M:%S").to_string(),
    )
}

/// `chrono::NaiveDate::parse_from_str` with `%Y%m%d`, then midnight of that
/// day in UTC: the instant depends on the text alone, and there is none
/// where the text is no day.
#[verifier::external_body]
pub(crate) fn parse_day(text: &str) -> (out: Option<i64>)
    ensures
        out == day_start(text@),
{
    chrono::NaiveDate::parse_from_str(text, "%Y%m%d").ok().and_then(
        |d| d.and_hms_opt(0, 0, 0),
    ).map(|t| t.and_utc().timestamp_micros())
}

} // verus!
