//! Calendar configuration and the layout of months, quarters and years as text lines.
use vstd::prelude::*;
use crate::days::{DayOfWeek, month_name, chrono_month_name, chrono_weekday, chrono_checked_add_months, chrono_days_since};
use crate::gregorian::{days_in_month, first_weekday, is_supported_month, lemma_month_length, lemma_weekday_of_day, next_month, previous_month, MAX_YEAR, MIN_YEAR};
use crate::text::{centered, centered_string, decimal, decimal_string, joined, join_strings, right_aligned, right_aligned_string, signed_decimal, signed_decimal_string, spaces, spaces_string};

verus! {

/// Calendar display length
#[allow(non_camel_case_types)]
#[derive(PartialEq, Eq, Structural, Debug)]
pub enum CalendarLength {
    /// Single month
    MONTH,
    /// Year quarter (trimester)
    QUARTER,
    /// Whole year
    YEAR,
}

/// Calendar configuration
#[derive(PartialEq, Eq, Structural, Debug)]
pub struct Calendar {
    /// Date's year
    year: i32,
    /// Date's month
    month: u32,
    /// Calendar display length
    length: CalendarLength,
}

// ---------------------------------------------------------------------------------------
// The month grid: weeks of seven days, Sunday first, 0 where no day of the month falls.
// ---------------------------------------------------------------------------------------

/// The number in row `week`, column `column` of the grid of a month of `days` days whose
/// first day falls in column `offset`: the day that falls there, or 0.
pub open spec fn grid_cell(offset: int, days: int, week: int, column: int) -> u32 {
    let day = 7 * week + column - offset + 1;
    if 1 <= day <= days { day as u32 } else { 0 }
}

/// Row `week` of that grid.
pub open spec fn grid_row(offset: int, days: int, week: int) -> Seq<u32> {
    Seq::new(7, |column: int| grid_cell(offset, days, week, column))
}

/// The grid of a month of `days` days starting in column `offset`: as many rows as it takes
/// to reach the last day.
pub open spec fn grid(offset: int, days: int) -> Seq<Seq<u32>> {
    Seq::new(((days - 1 + offset) / 7 + 1) as nat, |week: int| grid_row(offset, days, week))
}

/// The grid of `month` of `year`.
pub open spec fn month_grid(year: int, month: int) -> Seq<Seq<u32>> {
    grid(first_weekday(year, month), days_in_month(year, month))
}

/// Row `week` holding only the days before `next_day`.
spec fn partial_row(offset: int, week: int, next_day: int) -> Seq<u32> {
    Seq::new(7, |column: int| {
        let day = 7 * week + column - offset + 1;
        if 1 <= day < next_day { day as u32 } else { 0 }
    })
}

/// Row of the grid in which `day` falls.
spec fn row_of(offset: int, day: int) -> int {
    (day - 1 + offset) / 7
}

/// The row being filled while days before `next_day` have been placed.
spec fn current_row(offset: int, next_day: int) -> int {
    if next_day <= 1 { 0 } else { row_of(offset, next_day - 1) }
}

/// Where `day` lands when the days before it fill the grid from column `offset`: a Sunday
/// after the first day opens the row after the current one, right after a filled Saturday;
/// any other day stays in the current row; a Sunday first day means the grid starts in
/// column 0.
proof fn lemma_place_day(offset: int, day: int)
    requires
        0 <= offset < 7,
        1 <= day,
    ensures
        ((offset + day - 1) % 7 == 0 && day >= 2) ==> row_of(offset, day) == current_row(offset, day) + 1
            && 7 * current_row(offset, day) + 6 - offset + 1 == day - 1,
        !((offset + day - 1) % 7 == 0 && day >= 2) ==> row_of(offset, day) == current_row(offset, day),
        ((offset + day - 1) % 7 == 0 && day < 2) ==> offset == 0,
        7 * row_of(offset, day) + (offset + day - 1) % 7 - offset + 1 == day,
        day >= 2 ==> 7 * current_row(offset, day) + 6 - offset + 1 >= day - 1,
{
}

// ---------------------------------------------------------------------------------------
// The text of the layout.
// ---------------------------------------------------------------------------------------

/// The two characters that show a grid number: blank for 0, else the day right-aligned.
pub open spec fn day_cell(day: u32) -> Seq<char> {
    if day == 0 { spaces(2) } else { right_aligned(decimal(day as nat), 2) }
}

/// One week as a line: its cells separated by single spaces.
pub open spec fn week_line(week: Seq<u32>) -> Seq<char> {
    joined(Seq::new(week.len(), |i: int| day_cell(week[i])), " "@)
}

/// One line per week.
pub open spec fn week_lines(weeks: Seq<Seq<u32>>) -> Seq<Seq<char>> {
    Seq::new(weeks.len(), |i: int| week_line(weeks[i]))
}

/// Title of a month: its name, followed by the year when `show_year` holds.
pub open spec fn month_title(year: int, month: int, show_year: bool) -> Seq<char> {
    if show_year { month_name(month) + " "@ + signed_decimal(year) } else { month_name(month) }
}

/// The line that names the days of the week.
pub open spec fn weekday_header() -> Seq<char> {
    "Su Mo Tu We Th Fr Sa"@
}

/// A month: its title centered on 20 columns, the weekday header, then one line per week.
pub open spec fn month_lines(year: int, month: int, show_year: bool) -> Seq<Seq<char>> {
    seq![centered(month_title(year, month, show_year), 20), weekday_header()]
        + week_lines(month_grid(year, month))
}

/// Line `i` of months shown side by side: line `i` of each month, or 20 blanks where a month
/// has fewer lines, separated by three spaces.
pub open spec fn trimester_line(months: Seq<Seq<Seq<char>>>, i: int) -> Seq<char> {
    joined(
        Seq::new(months.len(), |j: int| if i < months[j].len() { months[j][i] } else { spaces(20) }),
        "   "@,
    )
}

/// Months shown side by side: always eight lines.
pub open spec fn trimester_lines(months: Seq<Seq<Seq<char>>>) -> Seq<Seq<char>> {
    Seq::new(8, |i: int| trimester_line(months, i))
}

/// The lines of the month before, the month itself and the month after; the years are shown
/// when the three months do not all fall in one year.
pub open spec fn quarter_months(year: int, month: int) -> Seq<Seq<Seq<char>>> {
    let show_year = month == 1 || month == 12;
    let previous = previous_month(year, month);
    let next = next_month(year, month);
    seq![
        month_lines(previous.0, previous.1, show_year),
        month_lines(year, month, show_year),
        month_lines(next.0, next.1, show_year),
    ]
}

/// The three months of quarter `quarter` (0..=3) of `year`, without the year.
pub open spec fn year_quarter(year: int, quarter: int) -> Seq<Seq<Seq<char>>> {
    seq![
        month_lines(year, 3 * quarter + 1, false),
        month_lines(year, 3 * quarter + 2, false),
        month_lines(year, 3 * quarter + 3, false),
    ]
}

/// The lines of the first `count` quarters of `year`, one after the other.
pub open spec fn quarters_lines(year: int, count: int) -> Seq<Seq<char>>
    decreases count,
{
    if count <= 0 {
        Seq::empty()
    } else {
        quarters_lines(year, count - 1) + trimester_lines(year_quarter(year, count - 1))
    }
}

/// A whole year: the year centered on 66 columns, a blank line of 66 columns, then the four
/// quarters.
pub open spec fn year_lines(year: int) -> Seq<Seq<char>> {
    seq![centered(signed_decimal(year), 66), spaces(66)] + quarters_lines(year, 4)
}

/// The length chosen by the command-line switches: year over quarter over month; a month
/// when none is set.
pub open spec fn chosen_length(show_year: bool, show_quarter: bool, show_month: bool) -> CalendarLength {
    if show_year {
        CalendarLength::YEAR
    } else if show_quarter {
        CalendarLength::QUARTER
    } else {
        CalendarLength::MONTH
    }
}

/// Picks the display length from the command-line switches: `show_year` wins over
/// `show_quarter`, which wins over `show_month`; a month when none is set.
pub fn parse_length(show_year: bool, show_quarter: bool, show_month: bool) -> (length: CalendarLength)
    ensures
        length == chosen_length(show_year, show_quarter, show_month),
        show_year ==> length == CalendarLength::YEAR,
        !show_year && show_quarter ==> length == CalendarLength::QUARTER,
        !show_year && !show_quarter ==> length == CalendarLength::MONTH,
{
    if show_year {
        CalendarLength::YEAR
    } else if show_quarter {
        CalendarLength::QUARTER
    } else if show_month {
        CalendarLength::MONTH
    } else {
        CalendarLength::MONTH
    }
}

/// Whether every day of `month` of `year`, and the first day of the month after, can be
/// represented by the date library.
fn supported_month(year: i32, month: u32) -> (supported: bool)
    ensures
        supported == is_supported_month(year as int, month as int),
{
    1 <= month && month <= 12 && MIN_YEAR <= year && year <= MAX_YEAR && !(year == MAX_YEAR && month == 12)
}

impl Calendar {
    /// The year of the calendar.
    pub closed spec fn spec_year(self) -> int {
        self.year as int
    }

    /// The month of the calendar.
    pub closed spec fn spec_month(self) -> int {
        self.month as int
    }

    /// The display length of the calendar.
    pub closed spec fn spec_length(self) -> CalendarLength {
        self.length
    }

    /// The calendar can be laid out: every month it shows can be laid out.
    pub open spec fn is_displayable(self) -> bool {
        match self.spec_length() {
            CalendarLength::MONTH => is_supported_month(self.spec_year(), self.spec_month()),
            CalendarLength::QUARTER => {
                let previous = previous_month(self.spec_year(), self.spec_month());
                let next = next_month(self.spec_year(), self.spec_month());
                &&& is_supported_month(self.spec_year(), self.spec_month())
                &&& is_supported_month(previous.0, previous.1)
                &&& is_supported_month(next.0, next.1)
            },
            CalendarLength::YEAR => is_supported_month(self.spec_year(), 12),
        }
    }

    /// The lines that the calendar shows.
    pub open spec fn display_lines(self) -> Seq<Seq<char>> {
        match self.spec_length() {
            CalendarLength::MONTH => month_lines(self.spec_year(), self.spec_month(), true),
            CalendarLength::QUARTER => trimester_lines(quarter_months(self.spec_year(), self.spec_month())),
            CalendarLength::YEAR => year_lines(self.spec_year()),
        }
    }
}

impl Calendar {
    /// Creates a calendar with the given date and default display length (month)
    ///
    /// * `year` - Date's year
    /// * `month` - Date's month
    pub fn new(year: i32, month: u32) -> (calendar: Calendar)
        ensures
            calendar.spec_year() == year,
            calendar.spec_month() == month,
            calendar.spec_length() == CalendarLength::MONTH,
    {
        let length = CalendarLength::MONTH;
        Calendar { year, month, length }
    }

    /// Define calendar's display length.
    /// Returns self instance.
    ///
    /// * `length` - Calendar's display length
    pub fn with_length(self, length: CalendarLength) -> (calendar: Calendar)
        ensures
            calendar.spec_year() == self.spec_year(),
            calendar.spec_month() == self.spec_month(),
            calendar.spec_length() == length,
    {
        let mut calendar = self;
        calendar.length = length;
        calendar
    }

    /// Whether the calendar can be laid out (`is_displayable`): `to_string` asks for it.
    pub fn can_display(&self) -> (displayable: bool)
        ensures
            displayable == self.is_displayable(),
    {
        match self.length {
            CalendarLength::MONTH => supported_month(self.year, self.month),
            CalendarLength::QUARTER => {
                if !supported_month(self.year, self.month) {
                    false
                } else {
                    let previous_ok = if self.month == 1 { supported_month(self.year - 1, 12) } else { supported_month(self.year, self.month - 1) };
                    let next_ok = if self.month == 12 { supported_month(self.year + 1, 1) } else { supported_month(self.year, self.month + 1) };
                    previous_ok && next_ok
                }
            },
            CalendarLength::YEAR => supported_month(self.year, 12),
        }
    }

    /// Number of days of `month` in `year`.
    pub fn get_days_in_month(year: i32, month: u32) -> (days: u32)
        requires
            is_supported_month(year as int, month as int),
        ensures
            days == days_in_month(year as int, month as int),
    {
        let end = chrono_checked_add_months(year, month, 1, 1);
        let (end_year, end_month, end_day) = end.unwrap();
        proof {
            lemma_month_length(year as int, month as int);
        }
        let days = chrono_days_since(end_year, end_month, end_day, year, month, 1);
        days as u32
    }

    /// The weeks of `month` of `year`, Sunday first: each week holds seven numbers, the day
    /// of the month that falls on that day of the week, or 0.
    pub fn get_month_weeks(year: i32, month: u32) -> (month_weeks: Vec<Vec<u32>>)
        requires
            is_supported_month(year as int, month as int),
        ensures
            month_weeks.deep_view() == month_grid(year as int, month as int),
            month_weeks@.len() == (first_weekday(year as int, month as int) + days_in_month(year as int, month as int) - 1) / 7 + 1,
    {
        let ghost offset = first_weekday(year as int, month as int);
        let mut month_weeks: Vec<Vec<u32>> = Vec::new();
        let mut week: Vec<u32> = vec![0, 0, 0, 0, 0, 0, 0];
        let days = Self::get_days_in_month(year, month);
        let ghost n = days as int;
        assert(week@ =~= partial_row(offset, 0, 1));
        let mut day: u32 = 1;
        while day <= days
            invariant
                is_supported_month(year as int, month as int),
                offset == first_weekday(year as int, month as int),
                0 <= offset < 7,
                n == days,
                n == days_in_month(year as int, month as int),
                28 <= n <= 31,
                1 <= day <= n + 1,
                month_weeks@.len() == current_row(offset, day as int),
                forall|r: int| 0 <= r < month_weeks@.len() ==> #[trigger] month_weeks@[r]@ == grid_row(offset, n, r),
                week@ == partial_row(offset, current_row(offset, day as int), day as int),
            decreases days + 1 - day,
        {
            let weekday = chrono_weekday(year, month, day);
            proof {
                lemma_weekday_of_day(year as int, month as int, day as int);
                lemma_place_day(offset, day as int);
            }
            let ghost k = current_row(offset, day as int);
            if weekday == DayOfWeek::Sunday && week[6] != 0 {
                assert(week@ =~= grid_row(offset, n, k));
                month_weeks.push(week);
                week = vec![0, 0, 0, 0, 0, 0, 0];
            }
            let index: usize = (weekday.number_from_sunday() - 1) as usize;
            week.set(index, day);
            assert(week@ =~= partial_row(offset, current_row(offset, day + 1), day + 1));
            day = day + 1;
        }
        let ghost k = current_row(offset, day as int);
        assert(k >= 3);
        assert(week@ =~= grid_row(offset, n, k));
        let last = month_weeks.len() - 1;
        assert(month_weeks@[last as int]@ == grid_row(offset, n, k - 1));
        assert(week@[0] != month_weeks@[last as int]@[0]);
        let same = month_weeks[last] == week;
        assert(!same);
        if !same {
            month_weeks.push(week);
        }
        assert(month_weeks@.len() == month_grid(year as int, month as int).len());
        assert forall|r: int| 0 <= r < month_weeks@.len() implies
            #[trigger] month_weeks.deep_view()[r] == month_grid(year as int, month as int)[r] by {
            assert(month_weeks@[r]@ == grid_row(offset, n, r));
            assert(month_weeks.deep_view()[r] =~= month_weeks@[r]@);
        }
        assert(month_weeks.deep_view() =~= month_grid(year as int, month as int));
        proof {
            crate::laws::month_grid_holds_each_day_once(year as int, month as int);
        }
        month_weeks
    }
    /// One line per week: each day right-aligned on two columns (blank for 0), separated
    /// by single spaces.
    pub fn format_weeks(weeks: Vec<Vec<u32>>) -> (lines: Vec<String>)
        ensures
            lines.deep_view() == week_lines(weeks.deep_view()),
    {
        let mut lines: Vec<String> = Vec::new();
        let mut w: usize = 0;
        while w < weeks.len()
            invariant
                w <= weeks.len(),
                lines@.len() == w,
                forall|i: int| 0 <= i < w ==> #[trigger] lines@[i]@ == week_line(weeks@[i]@),
            decreases weeks.len() - w,
        {
            let week = &weeks[w];
            let mut days: Vec<String> = Vec::new();
            let mut i: usize = 0;
            while i < week.len()
                invariant
                    i <= week.len(),
                    days@.len() == i,
                    forall|j: int| 0 <= j < i ==> #[trigger] days@[j]@ == day_cell(week@[j]),
                decreases week.len() - i,
            {
                let day = week[i];
                let cell = if day == 0 {
                    proof { reveal_strlit("  "); }
                    let blank = String::from_str("  ");
                    assert(blank@ =~= spaces(2));
                    blank
                } else {
                    right_aligned_string(decimal_string(day as u64), 2)
                };
                days.push(cell);
                i = i + 1;
            }
            let line = join_strings(&days, " ");
            assert(days.deep_view() =~= Seq::new(week@.len(), |j: int| day_cell(week@[j])));
            lines.push(line);
            w = w + 1;
        }
        assert forall|i: int| 0 <= i < lines@.len() implies
            #[trigger] lines.deep_view()[i] == week_lines(weeks.deep_view())[i] by {
            assert(weeks.deep_view()[i] =~= weeks@[i]@);
        }
        assert(lines.deep_view() =~= week_lines(weeks.deep_view()));
        lines
    }
    /// The lines of `month` of `year`: the title (the month's name, with the year when
    /// `show_year` holds) centered on 20 columns, the weekday header, then one line per week.
    pub fn format_month(year: i32, month: u32, show_year: bool) -> (lines: Vec<String>)
        requires
            is_supported_month(year as int, month as int),
        ensures
            lines.deep_view() == month_lines(year as int, month as int, show_year),
            lines@.len() == 2 + (first_weekday(year as int, month as int) + days_in_month(year as int, month as int) - 1) / 7 + 1,
            lines@[0]@ == centered(
                if show_year { month_name(month as int) + " "@ + signed_decimal(year as int) } else { month_name(month as int) },
                20,
            ),
            lines@[1]@ == "Su Mo Tu We Th Fr Sa"@,
    {
        let mut month_name = chrono_month_name(month as u8);
        if show_year {
            month_name.append(" ");
            let year_text = signed_decimal_string(year);
            month_name.append(year_text.as_str());
        }
        let mut weeks = Self::format_weeks(Self::get_month_weeks(year, month));
        let mut lines: Vec<String> = Vec::new();
        lines.push(centered_string(month_name, 20));
        lines.push(String::from_str("Su Mo Tu We Th Fr Sa"));
        lines.append(&mut weeks);
        assert(lines.deep_view() =~= month_lines(year as int, month as int, show_year));
        proof {
            crate::laws::month_shows_each_day_under_its_weekday(year as int, month as int, show_year);
            assert(lines@[0]@ == lines.deep_view()[0]);
            assert(lines@[1]@ == lines.deep_view()[1]);
        }
        lines
    }

    /// Months side by side: eight lines, line `i` joining line `i` of each month (or 20
    /// blanks where a month has fewer lines) with three spaces.
    pub fn format_trimester(trimester: Vec<Vec<String>>) -> (lines: Vec<String>)
        ensures
            lines.deep_view() == trimester_lines(trimester.deep_view()),
    {
        let ghost months = trimester.deep_view();
        let mut lines: Vec<String> = Vec::new();
        let mut i: usize = 0;
        while i < 8
            invariant
                i <= 8,
                months == trimester.deep_view(),
                lines@.len() == i,
                forall|k: int| 0 <= k < i ==> #[trigger] lines@[k]@ == trimester_line(months, k),
            decreases 8 - i,
        {
            let mut line: Vec<String> = Vec::new();
            let mut j: usize = 0;
            while j < trimester.len()
                invariant
                    i < 8,
                    j <= trimester.len(),
                    months == trimester.deep_view(),
                    line@.len() == j,
                    forall|k: int| 0 <= k < j ==> #[trigger] line@[k]@
                        == (if i < months[k].len() { months[k][i as int] } else { spaces(20) }),
                decreases trimester.len() - j,
            {
                let month = &trimester[j];
                assert(months[j as int] =~= month.deep_view());
                if i < month.len() {
                    line.push(month[i].clone());
                } else {
                    line.push(spaces_string(20));
                }
                j = j + 1;
            }
            let joined_line = join_strings(&line, "   ");
            assert(line.deep_view() =~= Seq::new(months.len(),
                |k: int| if i < months[k].len() { months[k][i as int] } else { spaces(20) }));
            lines.push(joined_line);
            i = i + 1;
        }
        assert(lines.deep_view() =~= trimester_lines(months));
        lines
    }

    /// The month before `month`, `month` itself and the month after, each as
    /// `format_month` lays it out; the years are shown when `month` is January or December.
    pub fn get_trimester(year: i32, month: u32) -> (trimester: Vec<Vec<String>>)
        requires
            is_supported_month(year as int, month as int),
            is_supported_month(previous_month(year as int, month as int).0, previous_month(year as int, month as int).1),
            is_supported_month(next_month(year as int, month as int).0, next_month(year as int, month as int).1),
        ensures
            trimester.deep_view() == quarter_months(year as int, month as int),
            trimester.deep_view() == seq![
                month_lines(
                    if month == 1 { year - 1 } else { year as int },
                    if month == 1 { 12 } else { month - 1 },
                    month == 1 || month == 12,
                ),
                month_lines(year as int, month as int, month == 1 || month == 12),
                month_lines(
                    if month == 12 { year + 1 } else { year as int },
                    if month == 12 { 1 } else { month + 1 },
                    month == 1 || month == 12,
                ),
            ],
    {
        let show_year = month == 1 || month == 12;

        let previous_month = if month == 1 {
            Self::format_month(year - 1, 12, show_year)
        } else {
            Self::format_month(year, month - 1, show_year)
        };
        let current_month = Self::format_month(year, month, show_year);
        let next_month = if month == 12 {
            Self::format_month(year + 1, 1, show_year)
        } else {
            Self::format_month(year, month + 1, show_year)
        };

        let mut trimester: Vec<Vec<String>> = Vec::new();
        trimester.push(previous_month);
        trimester.push(current_month);
        trimester.push(next_month);
        assert(trimester.deep_view() =~= quarter_months(year as int, month as int));
        proof {
            crate::laws::quarter_shows_previous_current_next(year as int, month as int);
        }
        trimester
    }
    /// A whole year: the year centered on 66 columns, a blank line, then the four quarters
    /// January-March, April-June, July-September and October-December side by side.
    pub fn format_year(year: i32) -> (lines: Vec<String>)
        requires
            is_supported_month(year as int, 12),
        ensures
            lines.deep_view() == year_lines(year as int),
            lines@.len() == 34,
            forall|k: int| 2 <= k < 34 ==> #[trigger] lines.deep_view()[k] == crate::laws::side_by_side(
                month_lines(year as int, 3 * ((k - 2) / 8) + 1, false),
                month_lines(year as int, 3 * ((k - 2) / 8) + 2, false),
                month_lines(year as int, 3 * ((k - 2) / 8) + 3, false),
                (k - 2) % 8,
            ),
    {
        let mut lines: Vec<String> = Vec::new();
        lines.push(centered_string(signed_decimal_string(year), 66));
        lines.push(spaces_string(66));
        let ghost header = lines.deep_view();
        let mut month: u32 = 1;
        let mut quarter: usize = 0;
        while quarter < 4
            invariant
                is_supported_month(year as int, 12),
                quarter <= 4,
                month == 3 * quarter + 1,
                header == seq![centered(signed_decimal(year as int), 66), spaces(66)],
                lines.deep_view() == header + quarters_lines(year as int, quarter as int),
            decreases 4 - quarter,
        {
            let mut months: Vec<Vec<String>> = Vec::new();
            let mut i: u32 = 0;
            while i < 3
                invariant
                    is_supported_month(year as int, 12),
                    quarter < 4,
                    month == 3 * quarter + 1,
                    i <= 3,
                    months.deep_view() == year_quarter(year as int, quarter as int).take(i as int),
                decreases 3 - i,
            {
                let ghost before = months.deep_view();
                let month_text = Self::format_month(year, month + i, false);
                let ghost added = month_text.deep_view();
                months.push(month_text);
                assert(months.deep_view() =~= before.push(added));
                assert(year_quarter(year as int, quarter as int)[i as int] == added);
                assert(months.deep_view() =~= year_quarter(year as int, quarter as int).take(i + 1));
                i = i + 1;
            }
            assert(year_quarter(year as int, quarter as int).take(3) =~= year_quarter(year as int, quarter as int));
            let ghost before = lines.deep_view();
            let mut quarter_lines = Self::format_trimester(months);
            let ghost added = quarter_lines.deep_view();
            lines.append(&mut quarter_lines);
            assert(lines.deep_view() =~= before + added);
            assert(quarters_lines(year as int, quarter + 1)
                == quarters_lines(year as int, quarter as int) + trimester_lines(year_quarter(year as int, quarter as int)));
            assert(lines.deep_view() =~= header + quarters_lines(year as int, quarter + 1));
            month = month + 3;
            quarter = quarter + 1;
        }
        proof {
            crate::laws::year_shows_months_in_calendar_order(year as int);
        }
        lines
    }

    /// The calendar as text: its lines, as `display_lines` states, separated by newlines.
    pub fn to_string(&self) -> (text: String)
        requires
            self.is_displayable(),
        ensures
            text@ == joined(self.display_lines(), "\n"@),
    {
        let lines = match self.length {
            CalendarLength::MONTH => Self::format_month(self.year, self.month, true),
            CalendarLength::QUARTER => {
                let trimester = Self::get_trimester(self.year, self.month);
                Self::format_trimester(trimester)
            },
            CalendarLength::YEAR => Self::format_year(self.year),
        };
        join_strings(&lines, "\n")
    }
}

} // verus!
