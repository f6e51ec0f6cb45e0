//! Publication dates as the archives write them, read into UNIX timestamps.
use vstd::prelude::*;
use crate::calendar::{midnight_timestamp, utc_midnight};
use crate::numbers::{parse_i32, parse_u32, parsed_i32, parsed_u32};
use crate::text::{seq_split, split};

verus! {

/// The order of the three `/`-separated parts of a citation date.
#[derive(Clone, Copy, Debug, PartialEq, Eq, Structural)]
pub enum DateOrder {
    /// `2018/03/16`
    YearMonthDay,
    /// `03/16/2018`
    MonthDayYear,
}

/// Midnight UTC of the day that the text parts `y`, `m`, `d` write.
pub open spec fn day_timestamp(y: Seq<char>, m: Seq<char>, d: Seq<char>) -> Option<i64> {
    match (parsed_i32(y), parsed_u32(m), parsed_u32(d)) {
        (Some(year), Some(month), Some(day)) => utc_midnight(year, month, day),
        _ => None,
    }
}

/// The timestamp of a citation date: text of three `/`-separated numbers is
/// midnight UTC of that day; text of another shape stands for `now`. `None`
/// where the three parts do not parse or name no day.
pub open spec fn citation_date(text: Seq<char>, order: DateOrder, now: i64) -> Option<i64> {
    let parts = seq_split(text, "/"@);
    if parts.len() == 3 {
        match order {
            DateOrder::YearMonthDay => day_timestamp(parts[0], parts[1], parts[2]),
            DateOrder::MonthDayYear => day_timestamp(parts[2], parts[0], parts[1]),
        }
    } else {
        Some(now)
    }
}

/// The timestamp of a year alone: midnight UTC on its first of January.
pub open spec fn year_date(text: Seq<char>) -> Option<i64> {
    match parsed_i32(text) {
        Some(year) => utc_midnight(year, 1, 1),
        None => None,
    }
}

fn day_of(y: &str, m: &str, d: &str) -> (res: Option<i64>)
    ensures
        res == day_timestamp(y@, m@, d@),
{
    let year = match parse_i32(y) {
        Some(v) => v,
        None => return None,
    };
    let month = match parse_u32(m) {
        Some(v) => v,
        None => return None,
    };
    let day = match parse_u32(d) {
        Some(v) => v,
        None => return None,
    };
    midnight_timestamp(year, month, day)
}

/// The timestamp of the citation date `text` written in `order`; `now` when
/// the text is not three `/`-separated parts.
pub fn citation_timestamp(text: &str, order: DateOrder, now: i64) -> (res: Option<i64>)
    ensures
        res == citation_date(text@, order, now),
{
    proof {
        reveal_strlit("/");
    }
    let parts = split(text, "/");
    if parts.len() == 3 {
        let ghost pv = parts.deep_view();
        assert(pv[0] == parts[0]@ && pv[1] == parts[1]@ && pv[2] == parts[2]@);
        match order {
            DateOrder::YearMonthDay => day_of(parts[0].as_str(), parts[1].as_str(), parts[2].as_str()),
            DateOrder::MonthDayYear => day_of(parts[2].as_str(), parts[0].as_str(), parts[1].as_str()),
        }
    } else {
        Some(now)
    }
}

/// The timestamp of the first of January of the year `text`.
pub fn year_timestamp(text: &str) -> (res: Option<i64>)
    ensures
        res == year_date(text@),
{
    match parse_i32(text) {
        Some(year) => midnight_timestamp(year, 1, 1),
        None => None,
    }
}

} // verus!
