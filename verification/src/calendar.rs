//! Calendar dates of the proleptic Gregorian calendar, their text form, and
//! the reading of date text.

use crate::text::decimal_digits;
use chrono::Datelike;
use vstd::prelude::*;

verus! {

/// The earliest year a date can have.
pub const MIN_YEAR: i32 = -262143;

/// The latest year a date can have.
pub const MAX_YEAR: i32 = 262142;

/// Whether `year` has a 29th of February.
pub open spec fn is_leap_year(year: int) -> bool {
    year % 4 == 0 && (year % 100 != 0 || year % 400 == 0)
}

/// The number of days of a month, for months 1 to 12.
pub open spec fn days_in_month(year: int, month: int) -> int {
    if month == 2 {
        if is_leap_year(year) {
            29
        } else {
            28
        }
    } else if month == 4 || month == 6 || month == 9 || month == 11 {
        30
    } else {
        31
    }
}

/// Whether year, month and day name a day of the calendar.
pub open spec fn is_calendar_date(year: int, month: int, day: int) -> bool {
    &&& MIN_YEAR <= year <= MAX_YEAR
    &&& 1 <= month <= 12
    &&& 1 <= day <= days_in_month(year, month)
}

/// The decimal numeral of `n`, with zeros in front where it has fewer than
/// `width` digits.
pub open spec fn padded_digits(n: nat, width: nat) -> Seq<char> {
    let digits = decimal_digits(n);
    if digits.len() >= width {
        digits
    } else {
        Seq::new((width - digits.len()) as nat, |i: int| '0') + digits
    }
}

/// The text of a year: four digits for the years 0 to 9999, a sign and at
/// least four digits for the others.
pub open spec fn year_text(year: int) -> Seq<char> {
    if 0 <= year <= 9999 {
        padded_digits(year as nat, 4)
    } else if year < 0 {
        seq!['-'] + padded_digits((-year) as nat, 4)
    } else {
        seq!['+'] + padded_digits(year as nat, 4)
    }
}

/// The text of a date: year, month and day, each pair parted by a hyphen,
/// month and day in two digits.
pub open spec fn date_text(year: int, month: int, day: int) -> Seq<char> {
    year_text(year) + seq!['-'] + padded_digits(month as nat, 2) + seq!['-'] + padded_digits(
        day as nat,
        2,
    )
}

/// What `chrono::NaiveDate::parse_from_str` reads from a text under the
/// format `%Y-%m-%d`: year, month and day, or nothing where it rejects the
/// text.
pub uninterp spec fn parsed_ymd(text: Seq<char>) -> Option<(int, int, int)>;

/// A day of the calendar.
#[derive(Clone, Copy, Debug, PartialEq, Eq)]
pub struct Date {
    year: i32,
    month: u32,
    day: u32,
}

impl View for Date {
    type V = (int, int, int);

    closed spec fn view(&self) -> (int, int, int) {
        (self.year as int, self.month as int, self.day as int)
    }
}

impl Date {
    #[verifier::type_invariant]
    spec fn on_calendar(self) -> bool {
        is_calendar_date(self.year as int, self.month as int, self.day as int)
    }

    /// The date of the given year, month and day, where the calendar has
    /// such a day.
    pub fn new(year: i32, month: u32, day: u32) -> (out: Option<Date>)
        ensures
            out is Some == is_calendar_date(year as int, month as int, day as int),
            out is Some ==> out->0@ == (year as int, month as int, day as int),
    {
        if year < MIN_YEAR || year > MAX_YEAR || month < 1 || month > 12 || day < 1 {
            return None;
        }
        // 262400 is a multiple of 400, so the shifted year is positive and
        // leaps exactly when `year` does.
        let shifted: i32 = year + 262400;
        let leap: bool = shifted % 4 == 0 && (shifted % 100 != 0 || shifted % 400 == 0);
        assert(leap == is_leap_year(year as int));
        let length: u32 = if month == 2 {
            if leap {
                29
            } else {
                28
            }
        } else if month == 4 || month == 6 || month == 9 || month == 11 {
            30
        } else {
            31
        };
        if day > length {
            return None;
        }
        Some(Date { year, month, day })
    }

    /// The year.
    pub fn year(&self) -> (out: i32)
        ensures
            out as int == self@.0,
    {
        self.year
    }

    /// The month, from 1 to 12.
    pub fn month(&self) -> (out: u32)
        ensures
            out as int == self@.1,
    {
        self.month
    }

    /// The day of the month, from 1.
    pub fn day(&self) -> (out: u32)
        ensures
            out as int == self@.2,
    {
        self.day
    }

    /// The text of the date.
    pub fn to_text(&self) -> (out: String)
        ensures
            out@ == date_text(self@.0, self@.1, self@.2),
    {
        proof {
            use_type_invariant(self);
        }
        format_ymd(self.year, self.month, self.day)
    }

    /// Reads a date from text. The text is handed to the date parser; where
    /// the parser accepts it and names a day of the calendar, that day is
    /// the result.
    pub fn parse(text: &str) -> (out: Option<Date>)
        ensures
            out is Some == read_date(parsed_ymd(text@)) is Some,
            out is Some ==> out->0@ == read_date(parsed_ymd(text@))->0,
    {
        Date::from_parsed(parse_ymd(text))
    }

    /// The date that a parser's answer names, if it names a day of the
    /// calendar.
    pub fn from_parsed(parsed: Option<(i32, u32, u32)>) -> (out: Option<Date>)
        ensures
            out is Some == read_date(widened(parsed)) is Some,
            out is Some ==> out->0@ == read_date(widened(parsed))->0,
    {
        match parsed {
            Some((year, month, day)) => Date::new(year, month, day),
            None => None,
        }
    }
}

/// A parser's answer with its numbers as mathematical integers.
pub open spec fn widened(parsed: Option<(i32, u32, u32)>) -> Option<(int, int, int)> {
    match parsed {
        Some((year, month, day)) => Some((year as int, month as int, day as int)),
        None => None,
    }
}

/// The day that a parser's answer names: the answer itself where it is a day
/// of the calendar, nothing otherwise.
pub open spec fn read_date(parsed: Option<(int, int, int)>) -> Option<(int, int, int)> {
    match parsed {
        Some((year, month, day)) => if is_calendar_date(year, month, day) {
            Some((year, month, day))
        } else {
            None
        },
        None => None,
    }
}

/// Calls `chrono::NaiveDate::parse_from_str` with the format `%Y-%m-%d` and
/// hands back year, month and day of the date it read. The contract gives
/// that answer a name and claims nothing else of it.
#[verifier::external_body]
fn parse_ymd(text: &str) -> (out: Option<(i32, u32, u32)>)
    ensures
        widened(out) == parsed_ymd(text@),
{
    match chrono::NaiveDate::parse_from_str(text, "%Y-%m-%d") {
        Ok(date) => Some((date.year(), date.month(), date.day())),
        Err(_) => None,
    }
}

/// Builds a `chrono::NaiveDate` with `from_ymd_opt` and formats it with its
/// `Display` impl. The contract claims that the text is the year (four
/// digits from 0 to 9999, else a sign and at least four digits), the month
/// and the day in two digits each, parted by hyphens.
#[verifier::external_body]
fn format_ymd(year: i32, month: u32, day: u32) -> (out: String)
    requires
        is_calendar_date(year as int, month as int, day as int),
    ensures
        out@ == date_text(year as int, month as int, day as int),
{
    match chrono::NaiveDate::from_ymd_opt(year, month, day) {
        Some(date) => date.to_string(),
        None => String::new(),
    }
}

} // verus!
