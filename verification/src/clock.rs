use vstd::prelude::*;

use crate::text::{decimal, digit_char};

verus! {

/// A date and a time of day, as a calendar and a clock on the wall show them.
#[derive(Clone, Copy, Debug, PartialEq, Eq, Structural)]
pub struct CivilTime {
    pub year: i32,
    pub month: u32,
    pub day: u32,
    pub hour: u32,
    pub minute: u32,
    pub second: u32,
}

/// Whether a year has a leap day.
pub open spec fn is_leap_year(year: int) -> bool {
    year % 4 == 0 && (year % 100 != 0 || year % 400 == 0)
}

/// The number of days in a month.
pub open spec fn days_in_month(year: int, month: int) -> int {
    if month == 2 {
        if is_leap_year(year) {
            29
        } else {
            28
        }
    } else if month == 4 || month == 6 || month == 9 || month == 11 {
        30
    } else {
        31
    }
}

/// A number in two digits.
pub open spec fn two_digits(n: int) -> Seq<char> {
    seq![digit_char(n / 10 % 10), digit_char(n % 10)]
}

/// A number in four digits, or more where it takes more.
pub open spec fn four_digits(n: int) -> Seq<char> {
    if n < 10000 {
        two_digits(n / 100) + two_digits(n % 100)
    } else {
        decimal(n as nat)
    }
}

/// A year in four digits, with a sign where it has more or lies before year
/// zero.
pub open spec fn year_text(year: int) -> Seq<char> {
    if year < 0 {
        seq!['-'] + four_digits(-year)
    } else if year > 9999 {
        seq!['+'] + four_digits(year)
    } else {
        four_digits(year)
    }
}

impl CivilTime {
    /// Whether the calendar has the day and the clock the time.
    pub open spec fn exists_on_calendar(self) -> bool {
        &&& -262143 <= self.year <= 262142
        &&& 1 <= self.month <= 12
        &&& 1 <= self.day <= days_in_month(self.year as int, self.month as int)
        &&& self.hour < 24
        &&& self.minute < 60
        &&& self.second < 60
    }

    /// The date and the time, as in `2024-03-01 08:05:09`.
    pub open spec fn timestamp(self) -> Seq<char> {
        year_text(self.year as int) + seq!['-'] + two_digits(self.month as int) + seq!['-']
            + two_digits(self.day as int) + seq![' '] + two_digits(self.hour as int) + seq![':']
            + two_digits(self.minute as int) + seq![':'] + two_digits(self.second as int)
    }

    /// Writes the date and the time, if they exist.
    pub fn to_text(self) -> (text: Option<String>)
        ensures
            text is Some <==> self.exists_on_calendar(),
            text matches Some(t) ==> t@ == self.timestamp(),
    {
        format_civil_time(self, "%Y-%m-%d %H:%M:%S")
    }
}

/// Has `chrono::NaiveDateTime::format` write a date and a time.
///
/// What is claimed: `NaiveDate::from_ymd_opt` and `and_hms_opt` accept the days of
/// the proleptic Gregorian calendar from year -262143 to year 262142 and the
/// times of a day without leap seconds, and nothing else; and in this format the
/// year takes four digits, with a sign outside 0 to 9999, and all other numbers
/// take two.
#[verifier::external_body]
fn format_civil_time(time: CivilTime, format: &str) -> (text: Option<String>)
    requires
        format@ == "%Y-%m-%d %H:%M:%S"@,
    ensures
        text is Some <==> time.exists_on_calendar(),
        text matches Some(t) ==> t@ == time.timestamp(),
{
    let date = chrono::NaiveDate::from_ymd_opt(time.year, time.month, time.day)?;
    let moment = date.and_hms_opt(time.hour, time.minute, time.second)?;
    Some(moment.format(format).to_string())
}

} // verus!
