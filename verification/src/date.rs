//! Calendar dates, the month keys that label report buckets, and the calls
//! into `chrono` that read and write them.

use vstd::prelude::*;
use vstd::string::*;
use chrono::DateTime;
use chrono::Datelike;
use chrono::Duration;
use chrono::TimeZone;
use chrono::UTC;
use crate::money::digit_char;

verus! {

/// Whether `year` has a 29th of February in the Gregorian calendar.
pub open spec fn is_leap_year(year: int) -> bool {
    (year % 4 == 0 && year % 100 != 0) || year % 400 == 0
}

/// The number of days of the month `month` of `year`.
pub open spec fn days_in_month(year: int, month: int) -> int {
    if month == 2 {
        if is_leap_year(year) {
            29
        } else {
            28
        }
    } else if month == 4 || month == 6 || month == 9 || month == 11 {
        30
    } else {
        31
    }
}

/// The dates that this library handles: days of the Gregorian calendar in
/// the years that four digits can write.
pub open spec fn is_calendar_date(year: int, month: int, day: int) -> bool {
    &&& 0 <= year <= 9999
    &&& 1 <= month <= 12
    &&& 1 <= day <= days_in_month(year, month)
}

/// A date as plain numbers.
pub struct DateView {
    pub year: int,
    pub month: int,
    pub day: int,
}

impl DateView {
    /// Whether the numbers are a calendar date.
    pub open spec fn is_valid(self) -> bool {
        is_calendar_date(self.year, self.month, self.day)
    }

    /// Months counted from January of the year zero.
    pub open spec fn month_index(self) -> int {
        self.year * 12 + (self.month - 1)
    }

    /// The first day of the following month; none after the last month of
    /// the year 9999.
    pub open spec fn next_month_start(self) -> Option<DateView> {
        if self.month < 12 {
            Some(DateView { year: self.year, month: self.month + 1, day: 1 })
        } else if self.year < 9999 {
            Some(DateView { year: self.year + 1, month: 1, day: 1 })
        } else {
            None
        }
    }

    /// Whether `self` is an earlier day than `other`.
    pub open spec fn is_before(self, other: DateView) -> bool {
        self.year < other.year || (self.year == other.year && (self.month < other.month || (
        self.month == other.month && self.day < other.day)))
    }
}

/// A calendar date without a time of day. Every value is a valid date.
#[derive(Debug, Clone, Copy, PartialEq, Eq, Structural)]
pub struct Date {
    year: i32,
    month: u32,
    day: u32,
}

impl View for Date {
    type V = DateView;

    closed spec fn view(&self) -> DateView {
        DateView { year: self.year as int, month: self.month as int, day: self.day as int }
    }
}

/// Tells whether `year` has a 29th of February.
fn leap_year(year: i32) -> (r: bool)
    requires
        0 <= year,
    ensures
        r == is_leap_year(year as int),
{
    (year % 4 == 0 && year % 100 != 0) || year % 400 == 0
}

/// The number of days of the month `month` of `year`.
fn month_length(year: i32, month: u32) -> (r: u32)
    requires
        0 <= year,
    ensures
        r == days_in_month(year as int, month as int),
{
    if month == 2 {
        if leap_year(year) {
            29
        } else {
            28
        }
    } else if month == 4 || month == 6 || month == 9 || month == 11 {
        30
    } else {
        31
    }
}

impl Date {
    #[verifier::type_invariant]
    spec fn well_formed(self) -> bool {
        is_calendar_date(self.year as int, self.month as int, self.day as int)
    }

    /// The date with the given year, month and day, where there is one.
    pub fn new(year: i32, month: u32, day: u32) -> (r: Option<Date>)
        ensures
            r is Some <==> is_calendar_date(year as int, month as int, day as int),
            r matches Some(d) ==> d@ == (DateView {
                year: year as int,
                month: month as int,
                day: day as int,
            }),
    {
        if 0 <= year && year <= 9999 && 1 <= month && month <= 12 && 1 <= day && day
            <= month_length(year, month) {
            Some(Date { year, month, day })
        } else {
            None
        }
    }

    /// The year, from 0 to 9999.
    pub fn year(&self) -> (r: i32)
        ensures
            r == self@.year,
            self@.is_valid(),
    {
        proof {
            use_type_invariant(self);
        }
        self.year
    }

    /// The month, from 1 to 12.
    pub fn month(&self) -> (r: u32)
        ensures
            r == self@.month,
            self@.is_valid(),
    {
        proof {
            use_type_invariant(self);
        }
        self.month
    }

    /// The day of the month, from 1.
    pub fn day(&self) -> (r: u32)
        ensures
            r == self@.day,
            self@.is_valid(),
    {
        proof {
            use_type_invariant(self);
        }
        self.day
    }

    /// Months counted from January of the year zero.
    pub fn month_number(&self) -> (r: i64)
        ensures
            r == self@.month_index(),
            0 <= r <= 9999 * 12 + 11,
            self@.is_valid(),
    {
        proof {
            use_type_invariant(self);
        }
        let year: i64 = self.year as i64;
        let month: i64 = self.month as i64;
        year * 12 + (month - 1)
    }

    /// Tells whether `self` is an earlier day than `other`.
    pub fn is_before(&self, other: &Date) -> (r: bool)
        ensures
            r == self@.is_before(other@),
    {
        self.year < other.year || (self.year == other.year && (self.month < other.month || (
        self.month == other.month && self.day < other.day)))
    }

    /// The first day of the month of `self`.
    pub fn first_of_month(&self) -> (r: Date)
        ensures
            r@ == (DateView { year: self@.year, month: self@.month, day: 1 }),
            r@.is_valid(),
    {
        proof {
            use_type_invariant(self);
        }
        Date { year: self.year, month: self.month, day: 1 }
    }

    /// The first day of the month after that of `self`; none after the last
    /// month of the year 9999.
    pub fn first_of_next_month(&self) -> (r: Option<Date>)
        ensures
            r is Some <==> self@.next_month_start() is Some,
            r matches Some(d) ==> Some(d@) == self@.next_month_start(),
            self@.month_index() < 9999 * 12 + 11 <==> r is Some,
            r matches Some(d) ==> d@.day == 1 && d@.month_index() == self@.month_index() + 1
                && d@.is_valid(),
    {
        proof {
            use_type_invariant(self);
        }
        if self.month < 12 {
            Some(Date { year: self.year, month: self.month + 1, day: 1 })
        } else if self.year < 9999 {
            Some(Date { year: self.year + 1, month: 1, day: 1 })
        } else {
            None
        }
    }
}

/// The date that `chrono` reads from an RFC 3339 date and time text, as
/// year, month and day; none where it rejects the text.
pub uninterp spec fn rfc3339_date(text: Seq<char>) -> Option<(i32, u32, u32)>;

/// The day that lies `days` days before the given one according to `chrono`,
/// as year, month and day; none where `chrono` has no such day.
pub uninterp spec fn date_minus_days(year: i32, month: u32, day: u32, days: u16) -> Option<
    (i32, u32, u32),
>;

/// The label of a month: the month in two digits, a hyphen, and the year in
/// four digits, such as `01-2015`.
pub open spec fn month_key_text(year: int, month: int) -> Seq<char> {
    seq![
        digit_char((month / 10) as nat),
        digit_char((month % 10) as nat),
        '-',
        digit_char((year / 1000) as nat),
        digit_char(((year / 100) % 10) as nat),
        digit_char(((year / 10) % 10) as nat),
        digit_char((year % 10) as nat),
    ]
}

/// Calls `chrono::DateTime::parse_from_rfc3339` and takes the date of the
/// moment it returns, moved to UTC. The contract only gives that result its
/// name: it is a function of the text alone.
#[verifier::external_body]
fn parse_rfc3339_date(text: &str) -> (r: Option<(i32, u32, u32)>)
    ensures
        r == rfc3339_date(text@),
{
    match DateTime::parse_from_rfc3339(text) {
        Ok(moment) => {
            let day = moment.date().with_timezone(&UTC);
            Some((day.year(), day.month(), day.day()))
        },
        Err(_) => None,
    }
}

/// Calls `chrono::Date::format` with the pattern `%m-%Y`. For a year from 0
/// to 9999 `chrono` writes the month zero-padded to two digits and the year
/// zero-padded to four, which is what the contract states.
#[verifier::external_body]
fn format_month_year(year: i32, month: u32, day: u32) -> (r: String)
    requires
        is_calendar_date(year as int, month as int, day as int),
    ensures
        r@ == month_key_text(year as int, month as int),
{
    UTC.ymd(year, month, day).format("%m-%Y").to_string()
}

/// Calls `chrono::Date::checked_sub` with a `chrono::Duration` of `days`
/// whole days. The contract only gives the result its name.
#[verifier::external_body]
fn subtract_days(year: i32, month: u32, day: u32, days: u16) -> (r: Option<(i32, u32, u32)>)
    requires
        is_calendar_date(year as int, month as int, day as int),
    ensures
        r == date_minus_days(year, month, day, days),
{
    match UTC.ymd(year, month, day).checked_sub(Duration::days(days.into())) {
        Some(earlier) => Some((earlier.year(), earlier.month(), earlier.day())),
        None => None,
    }
}

/// The date of a checked triple of year, month and day.
pub open spec fn date_of_fields(fields: Option<(i32, u32, u32)>) -> Option<DateView> {
    match fields {
        Some((year, month, day)) => if is_calendar_date(year as int, month as int, day as int) {
            Some(DateView { year: year as int, month: month as int, day: day as int })
        } else {
            None
        },
        None => None,
    }
}

/// The date that a `YYYY-MM-DD` text stands for: what `chrono` reads from
/// the text followed by midnight UTC, where that is a date of this library.
pub open spec fn date_of_text(text: Seq<char>) -> Option<DateView> {
    date_of_fields(rfc3339_date(text + "T00:00:00-00:00"@))
}

/// The day that lies `days` days before `date`, where it is a date of this
/// library.
pub open spec fn days_before(date: DateView, days: u16) -> Option<DateView> {
    date_of_fields(date_minus_days(date.year as i32, date.month as u32, date.day as u32, days))
}

/// Wraps a checked triple into a date.
fn date_from_fields(fields: Option<(i32, u32, u32)>) -> (r: Option<Date>)
    ensures
        r is Some <==> date_of_fields(fields) is Some,
        r matches Some(d) ==> Some(d@) == date_of_fields(fields),
{
    match fields {
        Some((year, month, day)) => Date::new(year, month, day),
        None => None,
    }
}

/// Reads a date written as `YYYY-MM-DD`, taken as midnight UTC.
pub fn generate_utc_date_from_date_str(d: &str) -> (r: Option<Date>)
    ensures
        r is Some <==> date_of_text(d@) is Some,
        r matches Some(date) ==> Some(date@) == date_of_text(d@),
{
    let full = String::from_str(d).concat("T00:00:00-00:00");
    date_from_fields(parse_rfc3339_date(full.as_str()))
}

impl Date {
    /// The label of the month of `self`, such as `01-2015`.
    pub fn month_key(&self) -> (r: String)
        ensures
            r@ == month_key_text(self@.year, self@.month),
    {
        proof {
            use_type_invariant(self);
        }
        format_month_year(self.year, self.month, self.day)
    }

    /// The day that lies `days` days before `self`.
    pub fn minus_days(&self, days: u16) -> (r: Option<Date>)
        ensures
            r is Some <==> days_before(self@, days) is Some,
            r matches Some(date) ==> Some(date@) == days_before(self@, days),
    {
        proof {
            use_type_invariant(self);
        }
        date_from_fields(subtract_days(self.year, self.month, self.day, days))
    }
}

} // verus!
