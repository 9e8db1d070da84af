//! The proleptic Gregorian calendar, as plain arithmetic.
//!
//! Years are numbered astronomically (year 0 exists and is a leap year), which is the
//! numbering used by the date library this crate relies on. Days are counted from
//! 1 January of year 1, which is day 1 and a Monday.
use vstd::prelude::*;

verus! {

/// Smallest year the date library accepts.
pub const MIN_YEAR: i32 = -262143;

/// Largest year the date library accepts.
pub const MAX_YEAR: i32 = 262142;

/// A year is a leap year when it is divisible by 4, except centuries not divisible by 400.
pub open spec fn is_leap_year(year: int) -> bool {
    year % 4 == 0 && (year % 100 != 0 || year % 400 == 0)
}

/// Number of days of `month` (1..=12) in `year`.
pub open spec fn days_in_month(year: int, month: int) -> int {
    if month == 2 {
        if is_leap_year(year) { 29 } else { 28 }
    } else if month == 4 || month == 6 || month == 9 || month == 11 {
        30
    } else {
        31
    }
}

/// `(year, month, day)` names a day of the calendar.
pub open spec fn is_valid_date(year: int, month: int, day: int) -> bool {
    1 <= month <= 12 && 1 <= day <= days_in_month(year, month)
}

/// `(year, month, day)` names a day that the date library can represent.
pub open spec fn is_supported_date(year: int, month: int, day: int) -> bool {
    MIN_YEAR <= year <= MAX_YEAR && is_valid_date(year, month, day)
}

/// Days of all years before `year` (counted from year 1; negative before it).
pub open spec fn days_before_year(year: int) -> int {
    365 * (year - 1) + (year - 1) / 4 - (year - 1) / 100 + (year - 1) / 400
}

/// Days of the months before `month` in `year`.
pub open spec fn days_before_month(year: int, month: int) -> int {
    let common: int = if month <= 1 { 0 }
        else if month == 2 { 31 }
        else if month == 3 { 59 }
        else if month == 4 { 90 }
        else if month == 5 { 120 }
        else if month == 6 { 151 }
        else if month == 7 { 181 }
        else if month == 8 { 212 }
        else if month == 9 { 243 }
        else if month == 10 { 273 }
        else if month == 11 { 304 }
        else { 334 };
    if month > 2 && is_leap_year(year) { common + 1 } else { common }
}

/// Position of a day on the time line: 1 January of year 1 is day 1.
pub open spec fn day_number(year: int, month: int, day: int) -> int {
    days_before_year(year) + days_before_month(year, month) + day
}

/// Day of the week counted from Sunday: 0 for Sunday, 1 for Monday, ..., 6 for Saturday.
pub open spec fn weekday_index(year: int, month: int, day: int) -> int {
    day_number(year, month, day) % 7
}

/// Column of the first day of `month` in a week that starts on Sunday.
pub open spec fn first_weekday(year: int, month: int) -> int {
    weekday_index(year, month, 1)
}

/// The month that follows `(year, month)`.
pub open spec fn next_month(year: int, month: int) -> (int, int) {
    if month == 12 { (year + 1, 1) } else { (year, month + 1) }
}

/// The month that precedes `(year, month)`.
pub open spec fn previous_month(year: int, month: int) -> (int, int) {
    if month == 1 { (year - 1, 12) } else { (year, month - 1) }
}

/// Every day of `(year, month)` and the first day of the month after it can be represented
/// by the date library, so the month can be laid out.
pub open spec fn is_supported_month(year: int, month: int) -> bool {
    &&& 1 <= month <= 12
    &&& MIN_YEAR <= year <= MAX_YEAR
    &&& !(year == MAX_YEAR && month == 12)
}

/// A year has 366 days when it is a leap year, 365 otherwise.
pub proof fn lemma_year_length(year: int)
    ensures
        days_before_year(year + 1) - days_before_year(year) == if is_leap_year(year) { 366int } else { 365int },
{
}

/// The first day of the next month comes `days_in_month` days after the first day of a month.
pub proof fn lemma_month_length(year: int, month: int)
    requires
        1 <= month <= 12,
    ensures
        day_number(next_month(year, month).0, next_month(year, month).1, 1)
            - day_number(year, month, 1) == days_in_month(year, month),
{
    if month == 12 {
        lemma_year_length(year);
    }
}

/// Consecutive days of a month fall on consecutive columns of the week, wrapping after Saturday.
pub proof fn lemma_weekday_of_day(year: int, month: int, day: int)
    ensures
        weekday_index(year, month, day) == (first_weekday(year, month) + day - 1) % 7,
{
    let base = day_number(year, month, 1);
    assert(day_number(year, month, day) == base + (day - 1));
    vstd::arithmetic::div_mod::lemma_add_mod_noop(base, day - 1, 7);
    vstd::arithmetic::div_mod::lemma_mod_twice(day - 1, 7);
    vstd::arithmetic::div_mod::lemma_add_mod_noop(base % 7, day - 1, 7);
    vstd::arithmetic::div_mod::lemma_mod_twice(base, 7);
}

} // verus!
