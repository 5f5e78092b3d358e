//! Proleptic-Gregorian calendar arithmetic on plain integer fields.
//!
//! A timestamp is a civil date with a time of day; the day number counts
//! days since 1970-01-01.  The era shift keeps every executable division
//! on non-negative operands, so executable and mathematical quotients
//! coincide.

use vstd::prelude::*;

use vstd::arithmetic::div_mod::{
    lemma_div_is_ordered, lemma_div_pos_is_pos, lemma_fundamental_div_mod, lemma_mod_bound,
};

verus! {

/// A civil timestamp: date and time of day, all plain integers.
#[derive(Clone, Copy, Debug, PartialEq, Eq, Structural)]
pub struct DateTime {
    pub year: i32,
    pub month: u8,
    pub day: u8,
    pub hour: u8,
    pub minute: u8,
    pub second: u8,
}

pub open spec fn datetime_wf(d: DateTime) -> bool {
    &&& -100_000 <= d.year <= 100_000
    &&& 1 <= d.month <= 12
    &&& 1 <= d.day <= 31
    &&& d.hour <= 23
    &&& d.minute <= 59
    &&& d.second <= 59
}

/// Days from 1970-01-01 to the civil date `(y, m, d)` in the proleptic
/// Gregorian calendar.  The year is shifted by 1 200 000 before the
/// 400-year-era division so the dividend is never negative.
pub open spec fn days_from_civil(y: int, m: int, d: int) -> int {
    let yy = if m <= 2 {
        y - 1
    } else {
        y
    };
    let era = (yy + 1_200_000) / 400 - 3_000;
    let yoe = yy - era * 400;
    let mp = if m > 2 {
        m - 3
    } else {
        m + 9
    };
    let doy = (153 * mp + 2) / 5 + d - 1;
    let doe = yoe * 365 + yoe / 4 - yoe / 100 + doy;
    era * 146_097 + doe - 719_468
}

/// Seconds from the epoch to a timestamp.
pub open spec fn seconds_from_epoch(t: DateTime) -> int {
    days_from_civil(t.year as int, t.month as int, t.day as int) * 86_400 + (t.hour as int) * 3_600
        + (t.minute as int) * 60 + (t.second as int)
}

/// The day number of a well-formed date stays within fixed bounds.
pub proof fn lemma_days_bounds(y: int, m: int, d: int)
    requires
        -100_001 <= y <= 100_000,
        1 <= m <= 12,
        1 <= d <= 31,
    ensures
        -40_000_000 <= days_from_civil(y, m, d) <= 40_000_000,
{
    let yy = if m <= 2 {
        y - 1
    } else {
        y
    };
    let q = (yy + 1_200_000) / 400;
    lemma_div_pos_is_pos(yy + 1_200_000, 400);
    lemma_div_is_ordered(yy + 1_200_000, 1_300_000, 400);
    lemma_fundamental_div_mod(yy + 1_200_000, 400);
    lemma_mod_bound(yy + 1_200_000, 400);
    let era = q - 3_000;
    let yoe = yy - era * 400;
    assert(0 <= yoe < 400);
    lemma_div_pos_is_pos(yoe, 4);
    lemma_div_is_ordered(yoe, 400, 4);
    lemma_div_pos_is_pos(yoe, 100);
    lemma_div_is_ordered(yoe, 400, 100);
    let mp = if m > 2 {
        m - 3
    } else {
        m + 9
    };
    lemma_div_pos_is_pos(153 * mp + 2, 5);
    lemma_div_is_ordered(153 * mp + 2, 1_685, 5);
}

/// Executable day count; exactly the model.
pub fn days_from_civil_exec(y: i32, m: u8, d: u8) -> (r: i64)
    requires
        -100_000 <= y <= 100_000,
        1 <= m <= 12,
        1 <= d <= 31,
    ensures
        r as int == days_from_civil(y as int, m as int, d as int),
        -40_000_000 <= r <= 40_000_000,
{
    proof {
        lemma_days_bounds(y as int, m as int, d as int);
    }
    let yy: i64 = if m <= 2 {
        y as i64 - 1
    } else {
        y as i64
    };
    let q: i64 = (((yy + 1_200_000) as u64) / 400) as i64;
    proof {
        lemma_div_pos_is_pos(yy + 1_200_000, 400);
        lemma_div_is_ordered(yy + 1_200_000, 1_300_000, 400);
        lemma_fundamental_div_mod(yy + 1_200_000, 400);
        lemma_mod_bound(yy + 1_200_000, 400);
    }
    let era: i64 = q - 3_000;
    let yoe: i64 = yy - era * 400;
    proof {
        assert(0 <= yoe < 400);
        lemma_div_pos_is_pos(yoe as int, 4);
        lemma_div_is_ordered(yoe as int, 400, 4);
        lemma_div_pos_is_pos(yoe as int, 100);
        lemma_div_is_ordered(yoe as int, 400, 100);
    }
    let mp: i64 = if m > 2 {
        m as i64 - 3
    } else {
        m as i64 + 9
    };
    let doy: i64 = (((153 * mp + 2) as u64) / 5) as i64 + d as i64 - 1;
    proof {
        lemma_div_pos_is_pos(153 * mp + 2, 5);
        lemma_div_is_ordered(153 * mp + 2, 1_685, 5);
    }
    let doe: i64 = yoe * 365 + ((yoe as u64) / 4) as i64 - ((yoe as u64) / 100) as i64 + doy;
    era * 146_097 + doe - 719_468
}

pub open spec fn is_digit(c: char) -> bool {
    '0' <= c && c <= '9'
}

pub open spec fn digit(c: char) -> int {
    c as int - 48
}

/// A well-formed `YYYY-MM-DD` date string: four year digits, two month
/// digits and two day digits separated by dashes, with the month and day
/// in calendar range.
pub open spec fn date_text_ok(s: Seq<char>) -> bool {
    &&& s.len() == 10
    &&& s[4] == '-'
    &&& s[7] == '-'
    &&& is_digit(s[0]) && is_digit(s[1]) && is_digit(s[2]) && is_digit(s[3])
    &&& is_digit(s[5]) && is_digit(s[6])
    &&& is_digit(s[8]) && is_digit(s[9])
    &&& 1 <= month_num(s) <= 12
    &&& 1 <= day_num(s) <= 31
}

pub open spec fn year_num(s: Seq<char>) -> int {
    digit(s[0]) * 1000 + digit(s[1]) * 100 + digit(s[2]) * 10 + digit(s[3])
}

pub open spec fn month_num(s: Seq<char>) -> int {
    digit(s[5]) * 10 + digit(s[6])
}

pub open spec fn day_num(s: Seq<char>) -> int {
    digit(s[8]) * 10 + digit(s[9])
}

/// Parses a `YYYY-MM-DD` date string into year, month and day; rejects
/// exactly the strings that are not in that shape or whose month or day is
/// out of calendar range.
pub fn parse_date(s: &str) -> (r: Result<(i32, u8, u8), crate::api::ParseError>)
    ensures
        r is Ok <==> date_text_ok(s@),
        r matches Ok(d) ==> d.0 == year_num(s@) && d.1 == month_num(s@) && d.2 == day_num(s@),
{
    let n = s.unicode_len();
    if n != 10 {
        return Err(crate::api::ParseError);
    }
    let c0 = s.get_char(0);
    let c1 = s.get_char(1);
    let c2 = s.get_char(2);
    let c3 = s.get_char(3);
    let c4 = s.get_char(4);
    let c5 = s.get_char(5);
    let c6 = s.get_char(6);
    let c7 = s.get_char(7);
    let c8 = s.get_char(8);
    let c9 = s.get_char(9);
    if c4 != '-' || c7 != '-' {
        return Err(crate::api::ParseError);
    }
    if !(c0 >= '0' && c0 <= '9' && c1 >= '0' && c1 <= '9' && c2 >= '0' && c2 <= '9' && c3 >= '0'
        && c3 <= '9' && c5 >= '0' && c5 <= '9' && c6 >= '0' && c6 <= '9' && c8 >= '0' && c8 <= '9'
        && c9 >= '0' && c9 <= '9') {
        return Err(crate::api::ParseError);
    }
    let year: i32 = (c0 as i32 - 48) * 1000 + (c1 as i32 - 48) * 100 + (c2 as i32 - 48) * 10 + (c3
        as i32 - 48);
    let month: u8 = ((c5 as u32 - 48) * 10 + (c6 as u32 - 48)) as u8;
    let day: u8 = ((c8 as u32 - 48) * 10 + (c9 as u32 - 48)) as u8;
    if month < 1 || month > 12 || day < 1 || day > 31 {
        return Err(crate::api::ParseError);
    }
    Ok((year, month, day))
}

/// The dataset's time span, used to place each record on a day axis.
#[derive(Clone, Copy, Debug, PartialEq, Eq, Structural)]
pub struct DateRange {
    pub start: DateTime,
    pub end: DateTime,
}

pub open spec fn date_range_wf(r: DateRange) -> bool {
    datetime_wf(r.start) && datetime_wf(r.end)
}

/// What [`DateRange::transform_date`] returns: whole days from the first
/// of January of the range's starting year to the given timestamp,
/// truncated toward zero.
pub open spec fn transform_date_spec(range: DateRange, date: DateTime) -> int {
    let base = days_from_civil(range.start.year as int, 1, 1) * 86_400;
    let diff = seconds_from_epoch(date) - base;
    if diff >= 0 {
        diff / 86_400
    } else {
        -((-diff) / 86_400)
    }
}

impl DateRange {
    /// Whole days from the first of January of the range's starting year
    /// to `date`.
    pub fn transform_date(&self, date: DateTime) -> (r: i32)
        requires
            date_range_wf(*self),
            datetime_wf(date),
        ensures
            r as int == transform_date_spec(*self, date),
    {
        proof {
            lemma_days_bounds(self.start.year as int, 1, 1);
            lemma_days_bounds(date.year as int, date.month as int, date.day as int);
        }
        let base: i64 = days_from_civil_exec(self.start.year, 1, 1) * 86_400;
        let days: i64 = days_from_civil_exec(date.year, date.month, date.day);
        let secs: i64 = days * 86_400 + (date.hour as i64) * 3_600 + (date.minute as i64) * 60
            + (date.second as i64);
        let diff: i64 = secs - base;
        if diff >= 0 {
            let q = ((diff as u64) / 86_400) as i64;
            proof {
                lemma_div_pos_is_pos(diff as int, 86_400);
                lemma_div_is_ordered(diff as int, 8_000_000_000_000, 86_400);
            }
            q as i32
        } else {
            let m = -diff;
            let q = ((m as u64) / 86_400) as i64;
            proof {
                lemma_div_pos_is_pos(m as int, 86_400);
                lemma_div_is_ordered(m as int, 8_000_000_000_000, 86_400);
            }
            -(q as i32)
        }
    }
}

} // verus!
