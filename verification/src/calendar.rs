//! Calendar dates as UNIX timestamps, computed with `chrono`.
use vstd::prelude::*;
use chrono::{LocalResult, TimeZone, Utc};

verus! {

/// The UNIX timestamp of midnight UTC on the given day of the proleptic
/// Gregorian calendar, as `chrono` computes it; `None` for a date that does
/// not exist or that `chrono` cannot represent.
pub uninterp spec fn utc_midnight(year: i32, month: u32, day: u32) -> Option<i64>;

/// `Utc.with_ymd_and_hms(year, month, day, 0, 0, 0)` and `DateTime::timestamp`.
/// The contract names the result; of it, `chrono`'s `NaiveDate::from_ymd_opt`
/// shows that months outside `1..=12` and days outside `1..=31` give `None`.
#[verifier::external_body]
pub fn midnight_timestamp(year: i32, month: u32, day: u32) -> (res: Option<i64>)
    ensures
        res == utc_midnight(year, month, day),
        !(1 <= month <= 12 && 1 <= day <= 31) ==> res is None,
{
    match Utc.with_ymd_and_hms(year, month, day, 0, 0, 0) {
        LocalResult::Single(t) => Some(t.timestamp()),
        LocalResult::Ambiguous(_, _) => None,
        LocalResult::None => None,
    }
}

} // verus!
