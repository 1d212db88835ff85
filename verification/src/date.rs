//! Calendar dates as the API writes them: `YYYY-MM-DD`, with Gregorian
//! month lengths and leap-year rules.

use vstd::prelude::*;
use crate::parse::{digit_val, is_digit};
use crate::text::string_to_chars;

verus! {

/// A calendar date: year, month and day.
#[derive(Clone, Copy, PartialEq, Eq, Structural, Debug, Hash)]
pub struct Date {
    /// The year, as the four digits of the wire format give it.
    pub year: i32,
    /// The month, `1` to `12`.
    pub month: u8,
    /// The day of the month, `1` to the month's length.
    pub day: u8,
}

/// Gregorian leap years: divisible by four, except centuries not divisible
/// by four hundred.
pub open spec fn is_leap_year(y: int) -> bool {
    y % 4 == 0 && (y % 100 != 0 || y % 400 == 0)
}

/// The number of days in this month of this year.
pub open spec fn days_in_month(y: int, m: int) -> int {
    if m == 2 {
        if is_leap_year(y) {
            29
        } else {
            28
        }
    } else if m == 4 || m == 6 || m == 9 || m == 11 {
        30
    } else {
        31
    }
}

/// A date that exists on the calendar.
pub open spec fn date_wf(d: Date) -> bool {
    &&& 1 <= d.month <= 12
    &&& 1 <= d.day <= days_in_month(d.year as int, d.month as int)
}

/// Parses `YYYY-MM-DD`: exactly ten characters, digits and dashes in their
/// places, and a date that exists on the calendar.
pub open spec fn spec_parse_date(s: Seq<char>) -> Option<Date> {
    if s.len() == 10 && is_digit(s[0]) && is_digit(s[1]) && is_digit(s[2]) && is_digit(s[3]) && s[4]
        == '-' && is_digit(s[5]) && is_digit(s[6]) && s[7] == '-' && is_digit(s[8]) && is_digit(
        s[9],
    ) {
        let y = digit_val(s[0]) * 1000 + digit_val(s[1]) * 100 + digit_val(s[2]) * 10 + digit_val(
            s[3],
        );
        let m = digit_val(s[5]) * 10 + digit_val(s[6]);
        let d = digit_val(s[8]) * 10 + digit_val(s[9]);
        let date = Date { year: y as i32, month: m as u8, day: d as u8 };
        if date_wf(date) {
            Some(date)
        } else {
            None
        }
    } else {
        None
    }
}

/// The value of a decimal digit character, if it is one.
fn digit_of(c: char) -> (r: Option<u32>)
    ensures
        r is Some <==> is_digit(c),
        r matches Some(v) ==> v as int == digit_val(c) && v <= 9,
{
    if '0' <= c && c <= '9' {
        Some((c as u32) - 48)
    } else {
        None
    }
}

/// The number of days in this month of this year.
pub fn month_length(year: i32, month: u8) -> (r: u8)
    ensures
        r as int == days_in_month(year as int, month as int),
{
    if month == 2 {
        if year % 4 == 0 && (year % 100 != 0 || year % 400 == 0) {
            29
        } else {
            28
        }
    } else if month == 4 || month == 6 || month == 9 || month == 11 {
        30
    } else {
        31
    }
}

/// Parses a date from its `YYYY-MM-DD` wire text: exactly what
/// `spec_parse_date` says, `None` on anything malformed or impossible.
pub fn parse_date(s: &str) -> (r: Option<Date>)
    ensures
        r == spec_parse_date(s@),
{
    let chars = string_to_chars(s);
    if chars.len() != 10 {
        return None;
    }
    if chars[4] != '-' || chars[7] != '-' {
        return None;
    }
    let d0 = match digit_of(chars[0]) {
        Some(v) => v,
        None => {
            return None;
        },
    };
    let d1 = match digit_of(chars[1]) {
        Some(v) => v,
        None => {
            return None;
        },
    };
    let d2 = match digit_of(chars[2]) {
        Some(v) => v,
        None => {
            return None;
        },
    };
    let d3 = match digit_of(chars[3]) {
        Some(v) => v,
        None => {
            return None;
        },
    };
    let d5 = match digit_of(chars[5]) {
        Some(v) => v,
        None => {
            return None;
        },
    };
    let d6 = match digit_of(chars[6]) {
        Some(v) => v,
        None => {
            return None;
        },
    };
    let d8 = match digit_of(chars[8]) {
        Some(v) => v,
        None => {
            return None;
        },
    };
    let d9 = match digit_of(chars[9]) {
        Some(v) => v,
        None => {
            return None;
        },
    };
    let y: u32 = d0 * 1000 + d1 * 100 + d2 * 10 + d3;
    let m: u32 = d5 * 10 + d6;
    let d: u32 = d8 * 10 + d9;
    let date = Date { year: y as i32, month: m as u8, day: d as u8 };
    if 1 <= date.month && date.month <= 12 && 1 <= date.day && date.day <= month_length(
        date.year,
        date.month,
    ) {
        Some(date)
    } else {
        None
    }
}

} // verus!
