//! Timestamps and their human-readable form.

use chrono::{Datelike, Timelike};
use vstd::prelude::*;
use vstd::string::*;

use crate::text::{decimal_chars, decimal_text, string_from_chars};

verus! {

/// A UTC timestamp in microseconds since the Unix epoch, shown to clients as
/// e.g. `Friday, 3rd August 2034, 12:45:34 PM UTC`.
#[derive(Debug, Clone, Copy, PartialEq, Eq, Structural)]
pub struct FormattedDateTime(pub i64);

/// The calendar reading of a timestamp: year, month (1 to 12), day of month
/// (1 to 31), weekday (0 for Monday to 6 for Sunday), hour (0 to 23),
/// minute and second (0 to 59). None outside the calendar's range.
pub uninterp spec fn civil_time_of(micros: i64) -> Option<(i32, u32, u32, u32, u32, u32, u32)>;

/// The ranges of a calendar reading.
pub open spec fn civil_in_range(p: (i32, u32, u32, u32, u32, u32, u32)) -> bool {
    &&& 1 <= p.1 <= 12
    &&& 1 <= p.2 <= 31
    &&& p.3 <= 6
    &&& p.4 <= 23
    &&& p.5 <= 59
    &&& p.6 <= 59
}

/// Relies on chrono's `DateTime::from_timestamp_micros` (None out of range)
/// and on the `Datelike`/`Timelike` readings of the result, whose ranges
/// chrono documents; the weekday is `Weekday::num_days_from_monday`.
#[verifier::external_body]
fn civil_time(micros: i64) -> (r: Option<(i32, u32, u32, u32, u32, u32, u32)>)
    ensures
        r == civil_time_of(micros),
        r matches Some(p) ==> civil_in_range(p),
{
    match chrono::DateTime::from_timestamp_micros(micros) {
        Some(t) => Some(
            (t.year(), t.month(), t.day(), t.weekday().num_days_from_monday(), t.hour(), t.minute(), t.second()),
        ),
        None => None,
    }
}

/// The English ordinal suffix of a day number: `th` for 11 to 13, else by
/// the last digit.
pub open spec fn ordinal_suffix_text(day: u32) -> Seq<char> {
    if 11 <= day % 100 <= 13 {
        "th"@
    } else if day % 10 == 1 {
        "st"@
    } else if day % 10 == 2 {
        "nd"@
    } else if day % 10 == 3 {
        "rd"@
    } else {
        "th"@
    }
}

/// Returns the English ordinal suffix for a day of the month, with the
/// 11th, 12th and 13th handled before the last digit decides.
pub fn ordinal_suffix(day: u32) -> (r: &'static str)
    ensures
        r@ == ordinal_suffix_text(day),
{
    let tens = day % 100;
    if 11 <= tens && tens <= 13 {
        "th"
    } else if day % 10 == 1 {
        "st"
    } else if day % 10 == 2 {
        "nd"
    } else if day % 10 == 3 {
        "rd"
    } else {
        "th"
    }
}

/// The English name of a weekday numbered from Monday = 0.
pub open spec fn weekday_name(w: u32) -> Seq<char> {
    if w == 0 {
        "Monday"@
    } else if w == 1 {
        "Tuesday"@
    } else if w == 2 {
        "Wednesday"@
    } else if w == 3 {
        "Thursday"@
    } else if w == 4 {
        "Friday"@
    } else if w == 5 {
        "Saturday"@
    } else {
        "Sunday"@
    }
}

fn weekday_name_text(w: u32) -> (r: &'static str)
    ensures
        r@ == weekday_name(w),
{
    if w == 0 {
        "Monday"
    } else if w == 1 {
        "Tuesday"
    } else if w == 2 {
        "Wednesday"
    } else if w == 3 {
        "Thursday"
    } else if w == 4 {
        "Friday"
    } else if w == 5 {
        "Saturday"
    } else {
        "Sunday"
    }
}

/// The English name of a month numbered from January = 1.
pub open spec fn month_name(m: u32) -> Seq<char> {
    if m == 1 {
        "January"@
    } else if m == 2 {
        "February"@
    } else if m == 3 {
        "March"@
    } else if m == 4 {
        "April"@
    } else if m == 5 {
        "May"@
    } else if m == 6 {
        "June"@
    } else if m == 7 {
        "July"@
    } else if m == 8 {
        "August"@
    } else if m == 9 {
        "September"@
    } else if m == 10 {
        "October"@
    } else if m == 11 {
        "November"@
    } else {
        "December"@
    }
}

fn month_name_text(m: u32) -> (r: &'static str)
    ensures
        r@ == month_name(m),
{
    if m == 1 {
        "January"
    } else if m == 2 {
        "February"
    } else if m == 3 {
        "March"
    } else if m == 4 {
        "April"
    } else if m == 5 {
        "May"
    } else if m == 6 {
        "June"
    } else if m == 7 {
        "July"
    } else if m == 8 {
        "August"
    } else if m == 9 {
        "September"
    } else if m == 10 {
        "October"
    } else if m == 11 {
        "November"
    } else {
        "December"
    }
}

/// An integer in decimal, with a minus sign when negative.
pub open spec fn signed_text(y: int) -> Seq<char> {
    if y < 0 {
        "-"@ + decimal_text((-y) as nat)
    } else {
        decimal_text(y as nat)
    }
}

/// A number below 100 as two digits.
pub open spec fn two_digits(n: u32) -> Seq<char> {
    if n < 10 {
        "0"@ + decimal_text(n as nat)
    } else {
        decimal_text(n as nat)
    }
}

/// The hour on a twelve-hour clock, 1 to 12.
pub open spec fn hour12(h: u32) -> u32 {
    if h % 12 == 0 {
        12
    } else {
        h % 12
    }
}

/// `AM` before noon, `PM` from noon on.
pub open spec fn am_pm(h: u32) -> Seq<char> {
    if h < 12 {
        "AM"@
    } else {
        "PM"@
    }
}

/// The human-readable form of a calendar reading, e.g.
/// `Friday, 3rd August 2034, 12:45:34 PM UTC`.
pub open spec fn civil_text(p: (i32, u32, u32, u32, u32, u32, u32)) -> Seq<char> {
    weekday_name(p.3) + ", "@ + decimal_text(p.2 as nat) + ordinal_suffix_text(p.2) + " "@ + month_name(p.1)
        + " "@ + signed_text(p.0 as int) + ", "@ + two_digits(hour12(p.4)) + ":"@ + two_digits(p.5) + ":"@
        + two_digits(p.6) + " "@ + am_pm(p.4) + " UTC"@
}

fn append_two_digits(out: &mut String, n: u32)
    requires
        n < 100,
    ensures
        final(out)@ == old(out)@ + two_digits(n),
{
    if n < 10 {
        out.append("0");
    }
    let d = string_from_chars(&decimal_chars(n as u64));
    out.append(d.as_str());
}

/// Writes a calendar reading in human-readable form.
pub fn format_civil(p: (i32, u32, u32, u32, u32, u32, u32)) -> (r: String)
    requires
        civil_in_range(p),
    ensures
        r@ == civil_text(p),
{
    let (year, month, day, weekday, hour, minute, second) = p;
    let mut out = String::from_str(weekday_name_text(weekday));
    out.append(", ");
    let d = string_from_chars(&decimal_chars(day as u64));
    out.append(d.as_str());
    out.append(ordinal_suffix(day));
    out.append(" ");
    out.append(month_name_text(month));
    out.append(" ");
    if year < 0 {
        out.append("-");
        let y = string_from_chars(&decimal_chars((-(year as i64)) as u64));
        out.append(y.as_str());
    } else {
        let y = string_from_chars(&decimal_chars(year as u64));
        out.append(y.as_str());
    }
    out.append(", ");
    let h = if hour % 12 == 0 { 12 } else { hour % 12 };
    append_two_digits(&mut out, h);
    out.append(":");
    append_two_digits(&mut out, minute);
    out.append(":");
    append_two_digits(&mut out, second);
    out.append(" ");
    out.append(if hour < 12 { "AM" } else { "PM" });
    out.append(" UTC");
    out
}

impl FormattedDateTime {
    /// The human-readable form, e.g. `Friday, 3rd August 2034, 12:45:34 PM
    /// UTC`; None where the timestamp lies outside the calendar's range.
    pub fn to_display_string(&self) -> (r: Option<String>)
        ensures
            civil_time_of(self.0) is None ==> r is None,
            civil_time_of(self.0) matches Some(p) ==> (r matches Some(s) && s@ == civil_text(p)),
    {
        match civil_time(self.0) {
            None => None,
            Some(p) => Some(format_civil(p)),
        }
    }
}

} // verus!
