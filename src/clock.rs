//! Calendar facts that chrono computes: the text of an instant, the UTC
//! date of an instant, and the instant of a date's midnight.

use vstd::prelude::*;

use chrono::Datelike;

verus! {

/// What chrono displays for the UTC date and time `secs` seconds after
/// the epoch (`YYYY-MM-DD HH:MM:SS`).
pub uninterp spec fn utc_text(secs: int) -> Seq<char>;

/// The UTC (year, month, day) of the instant `secs` seconds after the
/// epoch, as chrono computes it.
pub uninterp spec fn utc_date_of(secs: int) -> Option<(int, int, int)>;

/// The instant of midnight UTC at the start of the given date, as chrono
/// computes it; `None` for a date that does not exist.
pub uninterp spec fn midnight_secs(year: int, month: int, day: int) -> Option<int>;

/// Relies on chrono's `DateTime::from_timestamp`, which is `None` outside
/// chrono's range of dates, on the `Display` of `NaiveDateTime` and on the
/// `Datelike` accessors: the text and the UTC date of an instant, which
/// depend on `secs` alone.
#[verifier::external_body]
pub(crate) fn utc_instant(secs: i64) -> (r: Option<(String, i32, u32, u32)>)
    ensures
        r matches Some((t, y, m, d)) ==> t@ == utc_text(secs as int) && utc_date_of(secs as int)
            == Some((y as int, m as int, d as int)),
        r is None ==> utc_date_of(secs as int) is None,
{
    match chrono::DateTime::from_timestamp(secs, 0) {
        Some(t) => Some((t.naive_utc().to_string(), t.year(), t.month(), t.day())),
        None => None,
    }
}

/// The text of an instant, where chrono has one.
pub fn utc_datetime(secs: i64) -> (r: Option<String>)
    ensures
        r matches Some(t) ==> t@ == utc_text(secs as int),
{
    match utc_instant(secs) {
        Some((t, _, _, _)) => Some(t),
        None => None,
    }
}

/// The UTC (year, month, day) of an instant, where chrono has one.
pub fn utc_date(secs: i64) -> (r: Option<(i32, u32, u32)>)
    ensures
        r matches Some((y, m, d)) ==> utc_date_of(secs as int) == Some(
            (y as int, m as int, d as int),
        ),
        r is None ==> utc_date_of(secs as int) is None,
{
    match utc_instant(secs) {
        Some((_, y, m, d)) => Some((y, m, d)),
        None => None,
    }
}

/// Relies on chrono's `NaiveDate::from_ymd_opt`, which is `None` for a
/// date that does not exist, and on `timestamp` of its midnight in UTC.
#[verifier::external_body]
pub(crate) fn utc_midnight(year: i32, month: u32, day: u32) -> (r: Option<i64>)
    ensures
        r matches Some(t) ==> midnight_secs(year as int, month as int, day as int) == Some(
            t as int,
        ),
        r is None ==> midnight_secs(year as int, month as int, day as int) is None,
{
    match chrono::NaiveDate::from_ymd_opt(year, month, day) {
        Some(date) => match date.and_hms_opt(0, 0, 0) {
            Some(t) => Some(t.and_utc().timestamp()),
            None => None,
        },
        None => None,
    }
}

} // verus!
