//! Calendar conversion and the wall clock, through `chrono`.
use vstd::prelude::*;
use chrono::{Datelike, Timelike};

verus! {

/// The proleptic Gregorian `(year, month, day)` of a day count since
/// 1970-01-01 (days before it negative), by the era/day-of-era decomposition:
/// 400-year eras of 146097 days counted from 0000-03-01.
#[verifier::opaque]
pub open spec fn civil_from_days(days: int) -> (int, int, int) {
    let z = days + 719468;
    let era = z / 146097;
    let doe = z % 146097;
    let yoe = (doe - doe / 1460 + doe / 36524 - doe / 146096) / 365;
    let doy = doe - (365 * yoe + yoe / 4 - yoe / 100);
    let mp = (5 * doy + 2) / 153;
    let d = doy - (153 * mp + 2) / 5 + 1;
    let m = if mp < 10 {
        mp + 3
    } else {
        mp - 9
    };
    (yoe + era * 400 + if m <= 2 {
        1int
    } else {
        0
    }, m, d)
}

/// The UTC date `(year, month, day)` of a Unix timestamp, as
/// `chrono::DateTime::from_timestamp` gives it: the civil date of the day
/// `secs.div_euclid(86_400)`, and `None` outside `TS_MIN ..= TS_MAX`.
pub open spec fn utc_date(secs: i64) -> Option<(i32, u32, u32)> {
    if TS_MIN <= secs <= TS_MAX {
        let (y, m, d) = civil_from_days(secs as int / 86400);
        Some((y as i32, m as u32, d as u32))
    } else {
        None
    }
}

/// Unix time of `NaiveDate::MIN` at midnight (`DateTime::<Utc>::MIN_UTC`),
/// the first second `DateTime::from_timestamp` accepts.
pub const TS_MIN: i64 = -8_334_601_228_800;

/// Unix time of `NaiveDate::MAX` at 23:59:59 (`DateTime::<Utc>::MAX_UTC`),
/// the last second `DateTime::from_timestamp` accepts.
pub const TS_MAX: i64 = 8_210_266_876_799;

/// Calls `chrono::DateTime::from_timestamp(secs, 0)` and reads year, month,
/// day and hour: the proleptic Gregorian date of the day
/// `secs.div_euclid(86_400)` (chrono's `NaiveDate` is that calendar). Month
/// lies in 1..=12 and day in 1..=31 (chrono's `Datelike` documentation); the
/// hour is the whole hours since midnight of the timestamp's day (`from_timestamp` builds the time of day from
/// `secs.rem_euclid(86_400)`). `from_timestamp` returns `None` exactly when
/// the day count `secs.div_euclid(86_400)` falls outside `NaiveDate::MIN ..=
/// NaiveDate::MAX`, that is when `secs` lies outside `TS_MIN ..= TS_MAX`.
#[verifier::external_body]
pub(crate) fn utc_civil(secs: i64) -> (r: Option<(i32, u32, u32, u32)>)
    ensures
        match r {
            Some((y, m, d, h)) => utc_date(secs) == Some((y, m, d)) && 1 <= m <= 12 && 1 <= d <= 31
                && h == (secs as int % 86400) / 3600,
            None => utc_date(secs) is None,
        },
        (r is Some) == (TS_MIN <= secs <= TS_MAX),
{
    chrono::DateTime::from_timestamp(secs, 0).map(|t| (t.year(), t.month(), t.day(), t.hour()))
}

/// Whole seconds since the Unix epoch on the system clock:
/// `SystemTime::now().duration_since(UNIX_EPOCH)`, `None` when the clock
/// reads before the epoch (the `Err` of `duration_since`). Nothing is claimed
/// of the reading itself.
#[verifier::external_body]
pub(crate) fn clock_secs() -> Option<u64> {
    std::time::SystemTime::now().duration_since(std::time::UNIX_EPOCH).ok().map(|d| d.as_secs())
}

} // verus!
