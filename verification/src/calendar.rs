//! Trading nights and the clock they run on.

use chrono::Datelike;
use vstd::prelude::*;

use crate::text::{chars_of, int_text, is_digit, number_text};

verus! {

/// A time on the clock, to the minute.
#[derive(Clone, Copy, Debug, PartialEq, Eq, Structural)]
pub struct TimeOfDay {
    pub hour: u8,
    pub minute: u8,
}

/// Why a time could not be read.
#[derive(Clone, Copy, Debug, PartialEq, Eq, Structural)]
pub enum CalendarError {
    /// The text is not a time like `18:00`.
    UnreadableTime,
}

impl CalendarError {
    pub open spec fn spec_message(self) -> Seq<char> {
        "expected a time like 18:00"@
    }

    /// The error in words.
    pub fn message(self) -> (result: &'static str)
        ensures
            result@ == self.spec_message(),
    {
        "expected a time like 18:00"
    }
}

/// The time that a text writes down as `HH:mm`, if it does.
pub open spec fn read_time(s: Seq<char>) -> Option<TimeOfDay> {
    let hour = (s[0] as int - 48) * 10 + (s[1] as int - 48);
    let minute = (s[3] as int - 48) * 10 + (s[4] as int - 48);
    if s.len() == 5 && is_digit(s[0]) && is_digit(s[1]) && s[2] == ':' && is_digit(s[3])
        && is_digit(s[4]) && hour < 24 && minute < 60 {
        Some(TimeOfDay { hour: hour as u8, minute: minute as u8 })
    } else {
        None
    }
}

fn digit_value(c: char) -> (result: Option<u8>)
    ensures
        match result {
            Some(value) => is_digit(c) && value == c as int - 48 && value <= 9,
            None => !is_digit(c),
        },
{
    if '0' <= c && c <= '9' {
        Some((c as u32 - 48) as u8)
    } else {
        None
    }
}

impl TimeOfDay {
    pub fn new(hour: u8, minute: u8) -> (result: TimeOfDay)
        requires
            hour < 24,
            minute < 60,
        ensures
            result == (TimeOfDay { hour, minute }),
    {
        TimeOfDay { hour, minute }
    }

    /// Reads a time written as `HH:mm`.
    pub fn parse(text: &str) -> (result: Result<TimeOfDay, CalendarError>)
        ensures
            match read_time(text@) {
                Some(time) => result == Ok::<TimeOfDay, CalendarError>(time),
                None => result == Err::<TimeOfDay, CalendarError>(CalendarError::UnreadableTime),
            },
    {
        let chars: Vec<char> = chars_of(text);
        if chars.len() != 5 || chars[2] != ':' {
            return Err(CalendarError::UnreadableTime);
        }
        match (
            digit_value(chars[0]),
            digit_value(chars[1]),
            digit_value(chars[3]),
            digit_value(chars[4]),
        ) {
            (Some(a), Some(b), Some(c), Some(d)) => {
                let hour: u8 = a * 10 + b;
                let minute: u8 = c * 10 + d;
                if hour < 24 && minute < 60 {
                    Ok(TimeOfDay { hour, minute })
                } else {
                    Err(CalendarError::UnreadableTime)
                }
            },
            _ => Err(CalendarError::UnreadableTime),
        }
    }
}

/// When a trading night starts and when it should be over.
#[derive(Clone, Copy, Debug, PartialEq, Eq, Structural)]
pub struct BusinessCalendar {
    pub day_start: TimeOfDay,
    pub day_end: TimeOfDay,
}

/// A day of the calendar.
#[derive(Clone, Copy, Debug, PartialEq, Eq, Structural)]
pub struct Date {
    pub year: i32,
    pub month: u32,
    pub day: u32,
}

/// What chrono's `NaiveDate::parse_from_str` reads out of a text under a
/// format: year, month and day, or nothing where it reports an error.
pub uninterp spec fn chrono_date(text: Seq<char>, format: Seq<char>) -> Option<(i32, u32, u32)>;

/// chrono's `NaiveDate::parse_from_str`, which depends on the text and the
/// format alone. The result is named rather than spelled out. Of a date that
/// was read, the month is one of twelve and the day one of at most thirty-one.
#[verifier::external_body]
fn parse_date(text: &str, format: &str) -> (result: Option<Date>)
    ensures
        match result {
            Some(date) => {
                &&& chrono_date(text@, format@) == Some((date.year, date.month, date.day))
                &&& 1 <= date.month <= 12
                &&& 1 <= date.day <= 31
            },
            None => chrono_date(text@, format@) is None,
        },
{
    match chrono::NaiveDate::parse_from_str(text, format) {
        Ok(date) => Some(Date { year: date.year(), month: date.month(), day: date.day() }),
        Err(_) => None,
    }
}

/// The date that a business date writes down, if it writes one.
pub open spec fn business_date(text: Seq<char>) -> Option<Date> {
    match chrono_date(text, "%Y-%m-%d"@) {
        Some((year, month, day)) => Some(Date { year, month, day }),
        None => None,
    }
}

/// Reads a business date, written as year, month and day.
pub fn read_business_date(text: &str) -> (result: Option<Date>)
    ensures
        result == business_date(text@),
        match result {
            Some(date) => 1 <= date.month <= 12 && 1 <= date.day <= 31,
            None => true,
        },
{
    parse_date(text, "%Y-%m-%d")
}

/// The name of a month.
pub open spec fn spec_month_name(month: u32) -> Seq<char> {
    if month == 1 {
        "January"@
    } else if month == 2 {
        "February"@
    } else if month == 3 {
        "March"@
    } else if month == 4 {
        "April"@
    } else if month == 5 {
        "May"@
    } else if month == 6 {
        "June"@
    } else if month == 7 {
        "July"@
    } else if month == 8 {
        "August"@
    } else if month == 9 {
        "September"@
    } else if month == 10 {
        "October"@
    } else if month == 11 {
        "November"@
    } else {
        "December"@
    }
}

fn month_name(month: u32) -> (result: &'static str)
    ensures
        result@ == spec_month_name(month),
{
    match month {
        1 => "January",
        2 => "February",
        3 => "March",
        4 => "April",
        5 => "May",
        6 => "June",
        7 => "July",
        8 => "August",
        9 => "September",
        10 => "October",
        11 => "November",
        _ => "December",
    }
}

/// A date as a heading shows it: `31 July 2025`.
pub open spec fn date_label(date: Date) -> Seq<char> {
    int_text(date.day as int) + " "@ + spec_month_name(date.month) + " "@ + int_text(
        date.year as int,
    )
}

/// A date as a heading shows it.
pub fn describe(date: Date) -> (result: String)
    ensures
        result@ == date_label(date),
{
    let mut out: String = number_text(date.day as i64);
    out.append(" ");
    out.append(month_name(date.month));
    out.append(" ");
    out.append(number_text(date.year as i64).as_str());
    out
}

} // verus!
