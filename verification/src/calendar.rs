//! Calendar dates and the week window around a date.
//!
//! A date is a year, a month and a day of the proleptic Gregorian calendar.
//! Reading a date from a text, moving it by a number of days and writing it
//! back are done by `chrono`; this module states what those calls give and
//! computes with them the window of thirteen days centred on a date.

use chrono::Datelike;
use vstd::prelude::*;

pub mod laws;

verus! {

/// The first year that a date can have.
pub const MIN_YEAR: i32 = -262143;

/// The last year that a date can have.
pub const MAX_YEAR: i32 = 262142;

/// How far the window reaches on each side of its anchor, in days.
pub const WEEK_REACH: i32 = 6;

/// A year, a month and a day as numbers.
pub struct DateView {
    pub year: int,
    pub month: int,
    pub day: int,
}

/// Whether `year` has a 29th of February.
pub open spec fn is_leap_year(year: int) -> bool {
    year % 4 == 0 && (year % 100 != 0 || year % 400 == 0)
}

/// The number of days of `month` in `year`.
pub open spec fn days_in_month(year: int, month: int) -> int {
    if month == 2 {
        if is_leap_year(year) {
            29
        } else {
            28
        }
    } else if month == 4 || month == 6 || month == 9 || month == 11 {
        30
    } else {
        31
    }
}

/// The day exists in the calendar, whatever the year.
pub open spec fn is_gregorian(d: DateView) -> bool {
    1 <= d.month <= 12 && 1 <= d.day <= days_in_month(d.year, d.month)
}

/// The year is one that a date can have.
pub open spec fn in_supported_years(d: DateView) -> bool {
    MIN_YEAR <= d.year <= MAX_YEAR
}

/// The day exists in the calendar and its year is supported.
pub open spec fn is_calendar_date(d: DateView) -> bool {
    is_gregorian(d) && in_supported_years(d)
}

/// The day after `d`.
pub open spec fn next_day(d: DateView) -> DateView {
    if d.day < days_in_month(d.year, d.month) {
        DateView { day: d.day + 1, ..d }
    } else if d.month < 12 {
        DateView { year: d.year, month: d.month + 1, day: 1 }
    } else {
        DateView { year: d.year + 1, month: 1, day: 1 }
    }
}

/// The day before `d`.
pub open spec fn previous_day(d: DateView) -> DateView {
    if d.day > 1 {
        DateView { day: d.day - 1, ..d }
    } else if d.month > 1 {
        DateView { year: d.year, month: d.month - 1, day: days_in_month(d.year, d.month - 1) }
    } else {
        DateView { year: d.year - 1, month: 12, day: 31 }
    }
}

/// The day that lies `days` days after `d`, or before it for a negative number.
pub open spec fn shifted(d: DateView, days: int) -> DateView
    decreases
            if days >= 0 {
                days
            } else {
                -days
            },
{
    if days > 0 {
        next_day(shifted(d, days - 1))
    } else if days < 0 {
        previous_day(shifted(d, days + 1))
    } else {
        d
    }
}

/// `d` moved by `days` days, where that day has a supported year.
pub open spec fn shifted_date(d: DateView, days: int) -> Option<DateView> {
    if in_supported_years(shifted(d, days)) {
        Some(shifted(d, days))
    } else {
        None
    }
}

/// `a` is `b` or an earlier day.
pub open spec fn date_le(a: DateView, b: DateView) -> bool {
    a.year < b.year || (a.year == b.year && (a.month < b.month || (a.month == b.month && a.day
        <= b.day)))
}

/// The first and the last day of the thirteen days centred on `anchor`,
/// where both have a supported year.
pub open spec fn week_window(anchor: DateView) -> Option<(DateView, DateView)> {
    match (shifted_date(anchor, -(WEEK_REACH as int)), shifted_date(anchor, WEEK_REACH as int)) {
        (Some(first), Some(last)) => Some((first, last)),
        _ => None,
    }
}

/// The character of a decimal digit.
pub open spec fn digit_char(n: int) -> char {
    if n == 0 {
        '0'
    } else if n == 1 {
        '1'
    } else if n == 2 {
        '2'
    } else if n == 3 {
        '3'
    } else if n == 4 {
        '4'
    } else if n == 5 {
        '5'
    } else if n == 6 {
        '6'
    } else if n == 7 {
        '7'
    } else if n == 8 {
        '8'
    } else {
        '9'
    }
}

/// The digit of `n` at a place: `place` is 1 for the units, 10 for the
/// tens, and so on.
pub open spec fn decimal_digit(n: int, place: int) -> char {
    digit_char(n / place % 10)
}

/// The last two digits of `n`.
pub open spec fn two_digits(n: int) -> Seq<char> {
    seq![decimal_digit(n, 10), decimal_digit(n, 1)]
}

/// The last four digits of `n`.
pub open spec fn four_digits(n: int) -> Seq<char> {
    seq![decimal_digit(n, 1000), decimal_digit(n, 100), decimal_digit(n, 10), decimal_digit(n, 1)]
}

/// `n` in decimal digits, with leading zeros where it has fewer than four.
/// Stated for `0 <= n < 1_000_000`.
pub open spec fn four_or_more_digits(n: int) -> Seq<char> {
    if n < 10_000 {
        four_digits(n)
    } else if n < 100_000 {
        seq![decimal_digit(n, 10_000)] + four_digits(n)
    } else {
        seq![decimal_digit(n, 100_000), decimal_digit(n, 10_000)] + four_digits(n)
    }
}

/// The year as a date text has it: four digits for the years 0 to 9999,
/// and otherwise a sign before at least four digits.
pub open spec fn year_text(year: int) -> Seq<char> {
    if 0 <= year <= 9999 {
        four_or_more_digits(year)
    } else if year < 0 {
        seq!['-'] + four_or_more_digits(-year)
    } else {
        seq!['+'] + four_or_more_digits(year)
    }
}

/// The date written as year, month and day with hyphens between them:
/// `2024-06-09`.
pub open spec fn iso_text(d: DateView) -> Seq<char> {
    year_text(d.year) + seq!['-'] + two_digits(d.month) + seq!['-'] + two_digits(d.day)
}

/// The layout of a date text, in the notation of `chrono`.
pub const ISO_LAYOUT: &'static str = "%Y-%m-%d";

/// The first and the last day of the window around `anchor`, as texts.
pub open spec fn window_texts(anchor: DateView) -> Option<(Seq<char>, Seq<char>)> {
    match week_window(anchor) {
        Some((first, last)) => Some((iso_text(first), iso_text(last))),
        None => None,
    }
}

/// The first and the last day of the window around the date that `anchor`
/// reads as, both as texts; `None` where `anchor` reads as no date or a
/// bound of the window has no supported year.
pub open spec fn week_texts(anchor: Seq<char>) -> Option<(Seq<char>, Seq<char>)> {
    match parsed_date(anchor, ISO_LAYOUT@) {
        Some(date) => window_texts(date),
        None => None,
    }
}

/// A day of the calendar whose year lies in `MIN_YEAR ..= MAX_YEAR`.
#[derive(Clone, Copy, Debug, PartialEq, Eq)]
pub struct CalendarDate {
    year: i32,
    month: u32,
    day: u32,
}

impl View for CalendarDate {
    type V = DateView;

    closed spec fn view(&self) -> DateView {
        DateView { year: self.year as int, month: self.month as int, day: self.day as int }
    }
}

/// A text that is no date.
#[derive(Clone, Copy, Debug, PartialEq, Eq, Structural)]
pub struct InvalidDate;

/// The error of `chrono` for a text that it could not read as a date.
#[verifier::external_type_specification]
#[verifier::external_body]
pub struct ExParseError(chrono::ParseError);

/// What `chrono::NaiveDate::parse_from_str` reads from `text` under
/// `layout`: the date, or `None` where it returns an error.
pub uninterp spec fn parsed_date(text: Seq<char>, layout: Seq<char>) -> Option<DateView>;

/// Calls `chrono::NaiveDate::parse_from_str` and hands out the year, month
/// and day of the date it read.
///
/// Which texts `chrono` accepts under a layout is not stated here: the
/// result is named by [`parsed_date`]. A date that it returns is a day of
/// the calendar with a supported year, as every `NaiveDate` is.
#[verifier::external_body]
fn parse_with_layout(text: &str, layout: &str) -> (r: Result<CalendarDate, chrono::ParseError>)
    ensures
        match r {
            Ok(date) => parsed_date(text@, layout@) == Some(date@) && date.is_valid(),
            Err(_) => parsed_date(text@, layout@) is None,
        },
{
    match chrono::NaiveDate::parse_from_str(text, layout) {
        Ok(d) => Ok(CalendarDate { year: d.year(), month: d.month(), day: d.day() }),
        Err(e) => Err(e),
    }
}

/// Calls `chrono::NaiveDate::checked_add_signed` with a duration of `days`
/// whole days, on the `NaiveDate` of the same year, month and day.
///
/// `chrono` adds the days in the proleptic Gregorian calendar and returns
/// `None` where the resulting date would be out of its range, which is
/// the years from `MIN_YEAR` to `MAX_YEAR`.
#[verifier::external_body]
fn shift_by_days(date: &CalendarDate, days: i32) -> (r: Option<CalendarDate>)
    requires
        date.is_valid(),
    ensures
        match r {
            Some(moved) => shifted_date(date@, days as int) == Some(moved@) && moved.is_valid(),
            None => shifted_date(date@, days as int) is None,
        },
{
    let from = chrono::NaiveDate::from_ymd_opt(date.year, date.month, date.day)?;
    let to = from.checked_add_signed(chrono::Duration::days(i64::from(days)))?;
    Some(CalendarDate { year: to.year(), month: to.month(), day: to.day() })
}

/// Calls `chrono::NaiveDate::format` with `layout`, on the `NaiveDate` of
/// the same year, month and day, and turns the result into a `String`.
///
/// Under `%Y-%m-%d`, `chrono` writes the year in four digits with leading
/// zeros, or with a sign and at least four digits where it is negative or
/// has more than four, then the month and the day in two digits each,
/// with hyphens between them. It panics on a layout that it cannot read,
/// so none but this one is admitted.
#[verifier::external_body]
fn format_with_layout(date: &CalendarDate, layout: &str) -> (text: String)
    requires
        date.is_valid(),
        layout@ == ISO_LAYOUT@,
    ensures
        text@ == iso_text(date@),
{
    match chrono::NaiveDate::from_ymd_opt(date.year, date.month, date.day) {
        Some(d) => d.format(layout).to_string(),
        None => String::new(),
    }
}

impl CalendarDate {
    /// The date is a day of the calendar with a supported year.
    pub open spec fn is_valid(&self) -> bool {
        is_calendar_date(self@)
    }

    #[verifier::type_invariant]
    spec fn well_formed(self) -> bool {
        self.is_valid()
    }

    /// The date of a year, a month and a day, where there is such a day.
    pub fn from_ymd(year: i32, month: u32, day: u32) -> (r: Option<CalendarDate>)
        ensures
            ({
                let asked = DateView { year: year as int, month: month as int, day: day as int };
                match r {
                    Some(date) => date@ == asked && is_calendar_date(asked),
                    None => !is_calendar_date(asked),
                }
            }),
    {
        if year < MIN_YEAR || year > MAX_YEAR || month < 1 || month > 12 || day < 1 {
            return None;
        }
        // A multiple of 400 keeps the leap years where they are.
        let y: i32 = year + 262400;
        let leap = y % 4 == 0 && (y % 100 != 0 || y % 400 == 0);
        let last: u32 = if month == 2 {
            if leap {
                29
            } else {
                28
            }
        } else if month == 4 || month == 6 || month == 9 || month == 11 {
            30
        } else {
            31
        };
        if day > last {
            return None;
        }
        Some(CalendarDate { year, month, day })
    }

    /// The year.
    pub fn year(&self) -> (y: i32)
        ensures
            y == self@.year,
    {
        self.year
    }

    /// The month, from 1 for January.
    pub fn month(&self) -> (m: u32)
        ensures
            m == self@.month,
    {
        self.month
    }

    /// The day of the month, from 1.
    pub fn day(&self) -> (d: u32)
        ensures
            d == self@.day,
    {
        self.day
    }

    /// The date as a text: `2024-06-09`.
    pub fn to_text(&self) -> (text: String)
        ensures
            text@ == iso_text(self@),
    {
        proof {
            use_type_invariant(self);
        }
        format_with_layout(self, ISO_LAYOUT)
    }

    /// The date that lies `days` days later, or earlier for a negative
    /// number; `None` where that day has no supported year.
    pub fn plus_days(&self, days: i32) -> (r: Option<CalendarDate>)
        ensures
            shifted_date(self@, days as int) == match r {
                Some(moved) => Some(moved@),
                None => None,
            },
    {
        proof {
            use_type_invariant(self);
        }
        shift_by_days(self, days)
    }

    /// The first and the last day of the thirteen days centred on this
    /// date; `None` where one of the two has no supported year.
    pub fn week(&self) -> (r: Option<(CalendarDate, CalendarDate)>)
        ensures
            week_window(self@) == match r {
                Some((first, last)) => Some((first@, last@)),
                None => None,
            },
    {
        proof {
            use_type_invariant(self);
        }
        match (shift_by_days(self, -WEEK_REACH), shift_by_days(self, WEEK_REACH)) {
            (Some(first), Some(last)) => Some((first, last)),
            _ => None,
        }
    }

    /// The date that `text` reads as under the layout `%Y-%m-%d`.
    pub fn parse(text: &str) -> (r: Result<CalendarDate, InvalidDate>)
        ensures
            parsed_date(text@, ISO_LAYOUT@) == match r {
                Ok(date) => Some(date@),
                Err(_) => None,
            },
    {
        match parse_with_layout(text, ISO_LAYOUT) {
            Ok(date) => Ok(date),
            Err(_) => Err(InvalidDate),
        }
    }

    /// The first and the last day of the window around this date, as texts.
    pub fn week_texts(&self) -> (r: Result<(String, String), InvalidDate>)
        ensures
            window_texts(self@) == match r {
                Ok((first, last)) => Some((first@, last@)),
                Err(_) => None,
            },
    {
        match self.week() {
            Some((first, last)) => Ok((first.to_text(), last.to_text())),
            None => Err(InvalidDate),
        }
    }
}

/// The inclusive window of thirteen days around `anchor_date`: the texts
/// of the day six days before it and of the day six days after it.
///
/// `anchor_date` is read under the layout `%Y-%m-%d`. A text that reads as
/// no day of the calendar is an `InvalidDate`, and so is one whose window
/// would leave the supported years.
pub fn compute_week(anchor_date: &str) -> (r: Result<(String, String), InvalidDate>)
    ensures
        week_texts(anchor_date@) == match r {
            Ok((first, last)) => Some((first@, last@)),
            Err(_) => None,
        },
{
    match CalendarDate::parse(anchor_date) {
        Ok(anchor) => anchor.week_texts(),
        Err(e) => Err(e),
    }
}

} // verus!
