//! Dates and time windows in UTC. The calendar itself is chrono's: this module
//! names what chrono computes and builds the tracker's windows on it.

use vstd::prelude::*;
use chrono::{DateTime, Datelike, NaiveDateTime, TimeZone, Utc};
use crate::db::DBError;

verus! {

/// Seconds since the Unix epoch of the date and time that chrono reads from
/// `text` under the format `format`, taken as UTC; `None` where chrono
/// rejects the text.
pub uninterp spec fn utc_seconds_parsed(text: Seq<char>, format: Seq<char>) -> Option<i64>;

/// Seconds since the Unix epoch of a civil date and time in UTC, as chrono
/// computes them; `None` where chrono has no such date or time.
pub uninterp spec fn utc_seconds_civil(
    year: i32,
    month: u32,
    day: u32,
    hour: u32,
    minute: u32,
    second: u32,
) -> Option<i64>;

/// Year and month, in UTC, of the instant `seconds` after the Unix epoch, as
/// chrono computes them; `None` where the instant is outside chrono's range.
pub uninterp spec fn utc_year_month(seconds: i64) -> Option<(i32, u32)>;

/// Calls chrono's `NaiveDateTime::parse_from_str` on the text and format
/// given, reads the result as UTC with `DateTime::from_naive_utc_and_offset`
/// and gives its `timestamp`. Trusted: the result is what
/// `utc_seconds_parsed` names, `None` where chrono returned an error.
#[verifier::external_body]
pub(crate) fn parse_utc_seconds(text: &str, format: &str) -> (res: Option<i64>)
    ensures
        res == utc_seconds_parsed(text@, format@),
{
    match NaiveDateTime::parse_from_str(text, format) {
        Ok(naive) => Some(DateTime::<Utc>::from_naive_utc_and_offset(naive, Utc).timestamp()),
        Err(_) => None,
    }
}

/// Calls chrono's `TimeZone::with_ymd_and_hms` on `Utc` and gives the
/// `timestamp` of its single result. Trusted: the result is what
/// `utc_seconds_civil` names, `None` where chrono gave no single result.
#[verifier::external_body]
pub(crate) fn civil_utc_seconds(
    year: i32,
    month: u32,
    day: u32,
    hour: u32,
    minute: u32,
    second: u32,
) -> (res: Option<i64>)
    ensures
        res == utc_seconds_civil(year, month, day, hour, minute, second),
{
    match Utc.with_ymd_and_hms(year, month, day, hour, minute, second).single() {
        Some(instant) => Some(instant.timestamp()),
        None => None,
    }
}

/// Calls chrono's `DateTime::from_timestamp` with no nanoseconds and gives
/// `year()` and `month()` of the result. Trusted: the result is what
/// `utc_year_month` names, `None` where chrono returned `None`.
#[verifier::external_body]
pub(crate) fn year_month_of(seconds: i64) -> (res: Option<(i32, u32)>)
    ensures
        res == utc_year_month(seconds),
{
    match DateTime::from_timestamp(seconds, 0) {
        Some(instant) => Some((instant.year(), instant.month())),
        None => None,
    }
}

/// Reads the clock with chrono's `Utc::now` and gives its `timestamp`.
/// Nothing is promised of the result. chrono gives up where the clock of the
/// machine stands before the Unix epoch.
#[verifier::external_body]
pub(crate) fn now_seconds() -> i64 {
    Utc::now().timestamp()
}

/// Whether an instant lies in the half-open window from `from`, inclusive, to
/// `to`, exclusive; a bound that is absent does not restrict.
pub open spec fn in_window(seconds: i64, from: Option<i64>, to: Option<i64>) -> bool {
    &&& from matches Some(f) ==> f <= seconds
    &&& to matches Some(t) ==> seconds < t
}

pub fn window_contains(seconds: i64, from: Option<i64>, to: Option<i64>) -> (res: bool)
    ensures
        res == in_window(seconds, from, to),
{
    let after = match from {
        Some(f) => f <= seconds,
        None => true,
    };
    let before = match to {
        Some(t) => seconds < t,
        None => true,
    };
    after && before
}

/// The text that is read for a date: the date, then midnight.
pub open spec fn midnight_text(date: Seq<char>) -> Seq<char> {
    date + " 00:00:00"@
}

/// Midnight UTC of a date written as YYYY-MM-DD, in seconds since the epoch.
pub open spec fn date_seconds(date: Seq<char>) -> Option<i64> {
    utc_seconds_parsed(midnight_text(date), "%Y-%m-%d %H:%M:%S"@)
}

/// What a date that was read stands for: its instant, or the error that hands
/// back the text where it was no date.
pub fn dated(parsed: Option<i64>, date: &str) -> (res: Result<i64, DBError>)
    ensures
        match res {
            Ok(seconds) => parsed == Some(seconds),
            Err(DBError::DateFormatError(given)) => parsed is None && given@ == date@,
            Err(_) => false,
        },
{
    match parsed {
        Some(seconds) => Ok(seconds),
        None => Err(DBError::DateFormatError(date.to_owned())),
    }
}

/// Reads a date written as YYYY-MM-DD and gives the first instant of that day
/// in UTC. A text that is no such date is handed back in the error.
pub fn parse_date(date: &str) -> (res: Result<i64, DBError>)
    ensures
        match res {
            Ok(seconds) => date_seconds(date@) == Some(seconds),
            Err(DBError::DateFormatError(given)) => date_seconds(date@) is None && given@ == date@,
            Err(_) => false,
        },
{
    let mut full = date.to_owned();
    full.append(" 00:00:00");
    dated(parse_utc_seconds(full.as_str(), "%Y-%m-%d %H:%M:%S"), date)
}

/// The month after a month of a year; `None` where the year has no successor
/// in 32 bits.
pub open spec fn following_month(year: i32, month: u32) -> Option<(i32, u32)> {
    if month == 12 {
        if year < i32::MAX { Some(((year + 1) as i32, 1u32)) } else { None }
    } else if month < u32::MAX {
        Some((year, (month + 1) as u32))
    } else {
        None
    }
}

pub fn next_month(year: i32, month: u32) -> (res: Option<(i32, u32)>)
    ensures
        res == following_month(year, month),
{
    if month == 12 {
        if year < i32::MAX { Some((year + 1, 1)) } else { None }
    } else if month < u32::MAX {
        Some((year, month + 1))
    } else {
        None
    }
}

/// The window between two instants, where both are there.
pub open spec fn window_of(from: Option<i64>, to: Option<i64>) -> Option<(i64, i64)> {
    match (from, to) {
        (Some(from), Some(to)) => Some((from, to)),
        _ => None,
    }
}

pub fn window_between(from: Option<i64>, to: Option<i64>) -> (res: Option<(i64, i64)>)
    ensures
        res == window_of(from, to),
{
    match (from, to) {
        (Some(from), Some(to)) => Some((from, to)),
        _ => None,
    }
}

/// The window of one month: from the first instant of the month in UTC to the
/// first instant of the month after it. `None` where chrono has no such
/// instants.
pub open spec fn month_window_of(year: i32, month: u32) -> Option<(i64, i64)> {
    match following_month(year, month) {
        Some(next) => window_of(
            utc_seconds_civil(year, month, 1, 0, 0, 0),
            utc_seconds_civil(next.0, next.1, 1, 0, 0, 0),
        ),
        None => None,
    }
}

pub fn month_window(year: i32, month: u32) -> (res: Option<(i64, i64)>)
    ensures
        res == month_window_of(year, month),
{
    match next_month(year, month) {
        Some(next) => window_between(
            civil_utc_seconds(year, month, 1, 0, 0, 0),
            civil_utc_seconds(next.0, next.1, 1, 0, 0, 0),
        ),
        None => None,
    }
}

/// The window of the month, in UTC, that holds the instant `seconds`.
pub open spec fn month_window_around(seconds: i64) -> Option<(i64, i64)> {
    match utc_year_month(seconds) {
        Some(ym) => month_window_of(ym.0, ym.1),
        None => None,
    }
}

pub fn month_window_at(seconds: i64) -> (res: Option<(i64, i64)>)
    ensures
        res == month_window_around(seconds),
{
    match year_month_of(seconds) {
        Some(ym) => month_window(ym.0, ym.1),
        None => None,
    }
}

} // verus!
