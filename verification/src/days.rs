//! What the layout needs to know of dates, obtained from `chrono`.
//!
//! Each trusted item below calls one `chrono` function on plain values, converting the
//! arguments into `chrono::NaiveDate` and the answer back into plain values. Their
//! contracts state what `chrono`'s documentation and source give: `NaiveDate` is the
//! proleptic Gregorian calendar of [`crate::gregorian`], over the years
//! `MIN_YEAR..=MAX_YEAR`.
use chrono::Datelike;
use vstd::prelude::*;
use crate::gregorian::{MIN_YEAR, MAX_YEAR, days_in_month, is_supported_date, weekday_index, day_number};

verus! {

/// A day of the week.
#[derive(Clone, Copy, Debug, PartialEq, Eq, Structural)]
pub enum DayOfWeek {
    Sunday,
    Monday,
    Tuesday,
    Wednesday,
    Thursday,
    Friday,
    Saturday,
}

impl DayOfWeek {
    /// Column of the day in a week that starts on Sunday (0 for Sunday).
    pub open spec fn index(self) -> int {
        match self {
            DayOfWeek::Sunday => 0,
            DayOfWeek::Monday => 1,
            DayOfWeek::Tuesday => 2,
            DayOfWeek::Wednesday => 3,
            DayOfWeek::Thursday => 4,
            DayOfWeek::Friday => 5,
            DayOfWeek::Saturday => 6,
        }
    }

    /// Number of the day counted from Sunday = 1 to Saturday = 7.
    pub fn number_from_sunday(&self) -> (number: u32)
        ensures
            number == self.index() + 1,
    {
        match self {
            DayOfWeek::Sunday => 1,
            DayOfWeek::Monday => 2,
            DayOfWeek::Tuesday => 3,
            DayOfWeek::Wednesday => 4,
            DayOfWeek::Thursday => 5,
            DayOfWeek::Friday => 6,
            DayOfWeek::Saturday => 7,
        }
    }
}

/// English name of `month` (1 = January, ..., 12 = December).
pub open spec fn month_name(month: int) -> Seq<char> {
    if month == 1 { "January"@ }
    else if month == 2 { "February"@ }
    else if month == 3 { "March"@ }
    else if month == 4 { "April"@ }
    else if month == 5 { "May"@ }
    else if month == 6 { "June"@ }
    else if month == 7 { "July"@ }
    else if month == 8 { "August"@ }
    else if month == 9 { "September"@ }
    else if month == 10 { "October"@ }
    else if month == 11 { "November"@ }
    else { "December"@ }
}

/// Month names have three to nine letters.
pub proof fn lemma_month_name_len(month: int)
    ensures
        3 <= month_name(month).len() <= 9,
{
    reveal_strlit("January");
    reveal_strlit("February");
    reveal_strlit("March");
    reveal_strlit("April");
    reveal_strlit("May");
    reveal_strlit("June");
    reveal_strlit("July");
    reveal_strlit("August");
    reveal_strlit("September");
    reveal_strlit("October");
    reveal_strlit("November");
    reveal_strlit("December");
}

/// The date that `chrono::NaiveDate::checked_add_months` gives for `(year, month, day)` plus
/// `months` months: the same day in the target month, clamped to that month's last day;
/// `None` when the month count exceeds `i32::MAX`, when the month index overflows `i32`,
/// or when the target year is out of range. Zero months gives the date back.
pub open spec fn months_later(year: int, month: int, day: int, months: int) -> Option<(int, int, int)> {
    if months == 0 {
        Some((year, month, day))
    } else if months > i32::MAX || year * 12 + month - 1 + months > i32::MAX {
        None
    } else {
        let total = year * 12 + month - 1 + months;
        let new_year = total / 12;
        let new_month = total % 12 + 1;
        let last = days_in_month(new_year, new_month);
        if MIN_YEAR <= new_year <= MAX_YEAR {
            Some((new_year, new_month, if day > last { last } else { day }))
        } else {
            None
        }
    }
}

/// `chrono::Month::try_from(u8)` followed by `chrono::Month::name`: for a month number in
/// `1..=12`, the English name of the month.
#[verifier::external_body]
pub(crate) fn chrono_month_name(month: u8) -> (name: String)
    requires
        1 <= month <= 12,
    ensures
        name@ == month_name(month as int),
{
    match chrono::Month::try_from(month) {
        Ok(m) => m.name().to_string(),
        Err(_) => String::new(),
    }
}

/// `chrono::Datelike::weekday` of the date `(year, month, day)`: the day of the week that
/// the proleptic Gregorian calendar gives it.
#[verifier::external_body]
pub(crate) fn chrono_weekday(year: i32, month: u32, day: u32) -> (weekday: DayOfWeek)
    requires
        is_supported_date(year as int, month as int, day as int),
    ensures
        weekday.index() == weekday_index(year as int, month as int, day as int),
{
    match chrono::NaiveDate::from_ymd_opt(year, month, day).unwrap().weekday() {
        chrono::Weekday::Sun => DayOfWeek::Sunday,
        chrono::Weekday::Mon => DayOfWeek::Monday,
        chrono::Weekday::Tue => DayOfWeek::Tuesday,
        chrono::Weekday::Wed => DayOfWeek::Wednesday,
        chrono::Weekday::Thu => DayOfWeek::Thursday,
        chrono::Weekday::Fri => DayOfWeek::Friday,
        chrono::Weekday::Sat => DayOfWeek::Saturday,
    }
}

/// `chrono::NaiveDate::checked_add_months` on the date `(year, month, day)`: the date
/// `months` months later, as `months_later` states.
#[verifier::external_body]
pub(crate) fn chrono_checked_add_months(year: i32, month: u32, day: u32, months: u32) -> (later: Option<(i32, u32, u32)>)
    requires
        is_supported_date(year as int, month as int, day as int),
    ensures
        match months_later(year as int, month as int, day as int, months as int) {
            Some((y, m, d)) => later == Some((y as i32, m as u32, d as u32)),
            None => later is None,
        },
{
    let date = chrono::NaiveDate::from_ymd_opt(year, month, day).unwrap();
    date.checked_add_months(chrono::Months::new(months)).map(|d| (d.year(), d.month(), d.day()))
}

/// `chrono::NaiveDate::signed_duration_since` of two dates, taken in whole days by
/// `chrono::TimeDelta::num_days`: how many days the first date lies after the second.
#[verifier::external_body]
pub(crate) fn chrono_days_since(
    year: i32,
    month: u32,
    day: u32,
    since_year: i32,
    since_month: u32,
    since_day: u32,
) -> (days: i64)
    requires
        is_supported_date(year as int, month as int, day as int),
        is_supported_date(since_year as int, since_month as int, since_day as int),
    ensures
        days == day_number(year as int, month as int, day as int)
            - day_number(since_year as int, since_month as int, since_day as int),
{
    let date = chrono::NaiveDate::from_ymd_opt(year, month, day).unwrap();
    let since = chrono::NaiveDate::from_ymd_opt(since_year, since_month, since_day).unwrap();
    date.signed_duration_since(since).num_days()
}

} // verus!
