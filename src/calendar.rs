//! Gregorian calendar facts: leap years, month lengths, date validity and
//! the day of the week.

use chrono::Datelike;
use chrono::LocalResult;
use chrono::TimeZone;
use chrono::Utc;
use vstd::prelude::*;

verus! {

/// A day of the week.
#[derive(Debug, Clone, Copy, PartialEq, Eq, Structural)]
pub enum WeekDay {
    Sun,
    Mon,
    Tue,
    Wed,
    Thu,
    Fri,
    Sat,
}

/// The day before `w` in the weekly cycle.
pub open spec fn previous_day(w: WeekDay) -> WeekDay {
    match w {
        WeekDay::Sun => WeekDay::Sat,
        WeekDay::Mon => WeekDay::Sun,
        WeekDay::Tue => WeekDay::Mon,
        WeekDay::Wed => WeekDay::Tue,
        WeekDay::Thu => WeekDay::Wed,
        WeekDay::Fri => WeekDay::Thu,
        WeekDay::Sat => WeekDay::Fri,
    }
}

/// Position of a weekday counted from Monday (Monday is 0, Sunday is 6).
pub open spec fn slot_of(w: WeekDay) -> int {
    match w {
        WeekDay::Mon => 0,
        WeekDay::Tue => 1,
        WeekDay::Wed => 2,
        WeekDay::Thu => 3,
        WeekDay::Fri => 4,
        WeekDay::Sat => 5,
        WeekDay::Sun => 6,
    }
}

/// The weekday at position `n` counted from Monday.
pub open spec fn weekday_at(n: int) -> WeekDay {
    if n == 0 {
        WeekDay::Mon
    } else if n == 1 {
        WeekDay::Tue
    } else if n == 2 {
        WeekDay::Wed
    } else if n == 3 {
        WeekDay::Thu
    } else if n == 4 {
        WeekDay::Fri
    } else if n == 5 {
        WeekDay::Sat
    } else {
        WeekDay::Sun
    }
}

impl WeekDay {
    /// The day that closes a week starting on `self`.
    pub fn previous(&self) -> (r: WeekDay)
        ensures
            r == previous_day(*self),
    {
        match self {
            WeekDay::Sun => WeekDay::Sat,
            WeekDay::Mon => WeekDay::Sun,
            WeekDay::Tue => WeekDay::Mon,
            WeekDay::Wed => WeekDay::Tue,
            WeekDay::Thu => WeekDay::Wed,
            WeekDay::Fri => WeekDay::Thu,
            WeekDay::Sat => WeekDay::Fri,
        }
    }

    /// Position counted from Monday (Monday is 0, Sunday is 6).
    pub fn slot(&self) -> (r: usize)
        ensures
            r == slot_of(*self),
            r < 7,
    {
        match self {
            WeekDay::Mon => 0,
            WeekDay::Tue => 1,
            WeekDay::Wed => 2,
            WeekDay::Thu => 3,
            WeekDay::Fri => 4,
            WeekDay::Sat => 5,
            WeekDay::Sun => 6,
        }
    }
}

pub open spec fn is_leap_year(y: int) -> bool {
    y % 4 == 0 && (y % 100 != 0 || y % 400 == 0)
}

pub open spec fn days_in_month(y: int, m: int) -> int {
    if m == 2 {
        if is_leap_year(y) {
            29
        } else {
            28
        }
    } else if m == 4 || m == 6 || m == 9 || m == 11 {
        30
    } else {
        31
    }
}

/// `day` of `month` exists in the proleptic Gregorian calendar for `year`.
pub open spec fn valid_date(year: int, month: int, day: int) -> bool {
    1 <= month <= 12 && 1 <= day <= days_in_month(year, month)
}

/// Offset of each month in the weekday congruence.
pub open spec fn month_shift(m: int) -> int {
    if m == 1 {
        0
    } else if m == 2 {
        3
    } else if m == 3 {
        2
    } else if m == 4 {
        5
    } else if m == 5 {
        0
    } else if m == 6 {
        3
    } else if m == 7 {
        5
    } else if m == 8 {
        1
    } else if m == 9 {
        4
    } else if m == 10 {
        6
    } else if m == 11 {
        2
    } else {
        4
    }
}

/// Days from the last Monday on or before the date, by the Gregorian
/// congruence (January and February count with the previous year).
pub open spec fn days_from_monday(year: int, month: int, day: int) -> int {
    let y = if month < 3 {
        year - 1
    } else {
        year
    };
    let from_sunday = (y + y / 4 - y / 100 + y / 400 + month_shift(month) + day) % 7;
    (from_sunday + 6) % 7
}

/// The day of the week of a date.
pub open spec fn weekday_of(year: int, month: int, day: int) -> WeekDay {
    weekday_at(days_from_monday(year, month, day))
}

/// Relies on chrono's `Utc.with_ymd_and_hms`, which yields a single instant
/// exactly when the proleptic Gregorian date exists (any `u16` year is in its
/// range), and on `Weekday::num_days_from_monday` of that instant.
#[verifier::external_body]
fn chrono_days_from_monday(year: u16, month: u8, day: u16) -> (r: Option<u32>)
    ensures
        r == (if valid_date(year as int, month as int, day as int) {
            Some(days_from_monday(year as int, month as int, day as int) as u32)
        } else {
            None
        }),
{
    match Utc.with_ymd_and_hms(year as i32, month as u32, day as u32, 0, 0, 0) {
        LocalResult::Single(t) => Some(t.weekday().num_days_from_monday()),
        _ => None,
    }
}

/// The weekday of a date, or `None` when the date does not exist.
pub fn resolve_weekday(year: u16, month: u8, day: u16) -> (r: Option<WeekDay>)
    ensures
        r == (if valid_date(year as int, month as int, day as int) {
            Some(weekday_of(year as int, month as int, day as int))
        } else {
            None
        }),
{
    match chrono_days_from_monday(year, month, day) {
        None => None,
        Some(n) => {
            let w = if n == 0 {
                WeekDay::Mon
            } else if n == 1 {
                WeekDay::Tue
            } else if n == 2 {
                WeekDay::Wed
            } else if n == 3 {
                WeekDay::Thu
            } else if n == 4 {
                WeekDay::Fri
            } else if n == 5 {
                WeekDay::Sat
            } else {
                WeekDay::Sun
            };
            Some(w)
        },
    }
}

} // verus!
