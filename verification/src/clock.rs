//! Calendar time: the current instant and the text of an instant in UTC.

use chrono::TimeZone;
use vstd::prelude::*;

verus! {

/// The pattern in which the library writes an instant: date, hour, minute.
pub const DATE_FORMAT: &'static str = "%Y-%m-%d %H:%M";

/// The text that chrono writes for the instant `millis` milliseconds after
/// the Unix epoch, in UTC and under `pattern`; `None` where chrono cannot
/// represent the instant or rejects the pattern.
pub uninterp spec fn utc_text(millis: i64, pattern: Seq<char>) -> Option<Seq<char>>;

/// Calls chrono's `Utc.timestamp_millis_opt(millis).single()` and writes the
/// instant with `DateTime::format(pattern)`. The result is a function of the
/// two arguments alone: no time zone or locale enters.
#[verifier::external_body]
pub(crate) fn format_utc(millis: i64, pattern: &str) -> (r: Option<String>)
    ensures
        match r {
            Some(text) => utc_text(millis, pattern@) == Some(text@),
            None => utc_text(millis, pattern@) is None,
        },
{
    let moment = chrono::Utc.timestamp_millis_opt(millis).single()?;
    let mut text = String::new();
    moment.format(pattern).write_to(&mut text).ok()?;
    Some(text)
}

/// Calls chrono's `Utc::now().timestamp_millis()`: the system clock, in
/// milliseconds since the Unix epoch. Nothing is known of the value.
#[verifier::external_body]
pub(crate) fn now_millis() -> i64 {
    chrono::Utc::now().timestamp_millis()
}

/// The date text of the instant `millis`. Where chrono cannot represent the
/// instant, the text is that of the current time.
pub(crate) fn stamp_text(millis: i64) -> (r: String)
    ensures
        utc_text(millis, DATE_FORMAT@) matches Some(date) ==> r@ == date,
{
    match format_utc(millis, DATE_FORMAT) {
        Some(text) => text,
        None => match format_utc(now_millis(), DATE_FORMAT) {
            Some(text) => text,
            None => String::new(),
        },
    }
}

} // verus!
