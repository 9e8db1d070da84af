//! Properties of the layout that span several functions.
use vstd::prelude::*;
use crate::calendar::{
    Calendar, CalendarLength, quarter_months, chosen_length,
    day_cell, grid_row, month_grid, month_lines, month_title, trimester_lines,
    quarters_lines, week_line, week_lines, weekday_header, year_lines, year_quarter,
};
use crate::days::{lemma_month_name_len, month_name};
use crate::gregorian::{days_before_year, is_leap_year, days_in_month, first_weekday, is_supported_month, lemma_weekday_of_day, weekday_index};
use crate::text::{centered, decimal, joined, lemma_decimal_len, lemma_joined_len, right_aligned, signed_decimal, spaces};

verus! {

/// The grid of a month has four to six weeks of seven days, and no week without a day of the
/// month: exactly as many rows as it takes to reach the last day from the column of the
/// first; the first week holds day 1, every later week starts (on Sunday) with a day. Each day of the month stands exactly once in it: day `d` in the column of its day
/// of the week, in the row reached by reading the days in order from the first one; every
/// other cell is blank (0).
pub proof fn month_grid_holds_each_day_once(year: int, month: int)
    requires
        1 <= month <= 12,
    ensures
        4 <= month_grid(year, month).len() <= 6,
        month_grid(year, month).len() == (first_weekday(year, month) + days_in_month(year, month) - 1) / 7 + 1,
        month_grid(year, month)[0][first_weekday(year, month)] == 1,
        forall|r: int| 1 <= r < month_grid(year, month).len() ==> #[trigger] month_grid(year, month)[r][0] != 0,
        forall|r: int| 0 <= r < month_grid(year, month).len() ==> #[trigger] month_grid(year, month)[r].len() == 7,
        forall|d: int| 1 <= d <= days_in_month(year, month) ==>
            #[trigger] month_grid(year, month)[(d - 1 + first_weekday(year, month)) / 7][weekday_index(year, month, d)] == d,
        forall|r: int, c: int| 0 <= r < month_grid(year, month).len() && 0 <= c < 7
            && #[trigger] month_grid(year, month)[r][c] != 0 ==> {
                let d = month_grid(year, month)[r][c] as int;
                &&& 1 <= d <= days_in_month(year, month)
                &&& r == (d - 1 + first_weekday(year, month)) / 7
                &&& c == weekday_index(year, month, d)
            },
{
    let offset = first_weekday(year, month);
    let n = days_in_month(year, month);
    assert(0 <= offset < 7);
    assert(month_grid(year, month)[0] == grid_row(offset, n, 0));
    assert forall|r: int| 1 <= r < month_grid(year, month).len() implies #[trigger] month_grid(year, month)[r][0] != 0 by {
        assert(month_grid(year, month)[r] == grid_row(offset, n, r));
    }
    assert(month_grid(year, month).len() == (offset + n - 1) / 7 + 1);
    assert forall|d: int| 1 <= d <= n implies
        #[trigger] month_grid(year, month)[(d - 1 + offset) / 7][weekday_index(year, month, d)] == d by {
        lemma_weekday_of_day(year, month, d);
        assert(month_grid(year, month)[(d - 1 + offset) / 7] == grid_row(offset, n, (d - 1 + offset) / 7));
    }
    assert forall|r: int, c: int| 0 <= r < month_grid(year, month).len() && 0 <= c < 7
        && #[trigger] month_grid(year, month)[r][c] != 0 implies {
            let d = month_grid(year, month)[r][c] as int;
            &&& 1 <= d <= n
            &&& r == (d - 1 + offset) / 7
            &&& c == weekday_index(year, month, d)
        } by {
        let d = month_grid(year, month)[r][c] as int;
        assert(month_grid(year, month)[r] == grid_row(offset, n, r));
        lemma_weekday_of_day(year, month, d);
    }
}

/// A day cell is two columns wide for the days of a month.
proof fn lemma_day_cell_len(day: u32)
    requires
        day <= 31,
    ensures
        day_cell(day).len() == 2,
{
    lemma_decimal_len(day as nat);
}

/// A week line of a month is 20 columns wide.
proof fn lemma_week_line_len(week: Seq<u32>)
    requires
        week.len() == 7,
        forall|i: int| 0 <= i < 7 ==> #[trigger] week[i] <= 31,
    ensures
        week_line(week).len() == 20,
{
    let cells = Seq::new(week.len(), |i: int| day_cell(week[i]));
    assert forall|i: int| 0 <= i < cells.len() implies #[trigger] cells[i].len() == 2 by {
        lemma_day_cell_len(week[i]);
    }
    reveal_strlit(" ");
    lemma_joined_len(cells, " "@, 2);
}

/// A text no longer than `width`, centered on `width` columns, is exactly `width` wide.
proof fn lemma_centered_len(s: Seq<char>, width: int)
    requires
        s.len() <= width,
    ensures
        centered(s, width).len() == width,
{
}

/// Every line of a month is 20 columns wide, and a month takes six to eight lines, so that
/// months shown side by side (eight lines) lose none of their lines.
pub proof fn month_lines_are_20_wide(year: int, month: int, show_year: bool)
    requires
        is_supported_month(year, month),
    ensures
        6 <= month_lines(year, month, show_year).len() <= 8,
        forall|i: int| 0 <= i < month_lines(year, month, show_year).len() ==>
            (#[trigger] month_lines(year, month, show_year)[i]).len() == 20,
{
    let lines = month_lines(year, month, show_year);
    let grid = month_grid(year, month);
    month_grid_holds_each_day_once(year, month);
    lemma_month_name_len(month);
    let magnitude: int = if year < 0 { -year } else { year };
    lemma_decimal_len(magnitude as nat);
    reveal_strlit(" ");
    assert(month_title(year, month, show_year).len() <= 20);
    lemma_centered_len(month_title(year, month, show_year), 20);
    reveal_strlit("Su Mo Tu We Th Fr Sa");
    assert(weekday_header().len() == 20);
    assert forall|i: int| 0 <= i < lines.len() implies (#[trigger] lines[i]).len() == 20 by {
        if i >= 2 {
            let r = i - 2;
            assert(grid[r] == grid_row(first_weekday(year, month), days_in_month(year, month), r));
            assert forall|c: int| 0 <= c < 7 implies #[trigger] grid[r][c] <= 31 by {}
            lemma_week_line_len(grid[r]);
            assert(lines[i] == week_lines(grid)[r]);
        }
    }
}

/// Months of 20-column lines shown three side by side give eight lines of 66 columns.
pub proof fn trimester_lines_are_66_wide(months: Seq<Seq<Seq<char>>>)
    requires
        months.len() == 3,
        forall|j: int, i: int| 0 <= j < 3 && 0 <= i < months[j].len() ==> (#[trigger] months[j][i]).len() == 20,
    ensures
        trimester_lines(months).len() == 8,
        forall|i: int| 0 <= i < 8 ==> (#[trigger] trimester_lines(months)[i]).len() == 66,
{
    assert forall|i: int| 0 <= i < 8 implies (#[trigger] trimester_lines(months)[i]).len() == 66 by {
        let parts = Seq::new(months.len(), |j: int| if i < months[j].len() { months[j][i] } else { spaces(20) });
        assert forall|j: int| 0 <= j < parts.len() implies #[trigger] parts[j].len() == 20 by {}
        reveal_strlit("   ");
        lemma_joined_len(parts, "   "@, 20);
        assert(trimester_lines(months)[i] == joined(parts, "   "@));
    }
}

/// The lines of the first `count` quarters of a year: eight per quarter, 66 columns wide.
proof fn lemma_quarters_lines(year: int, count: int)
    requires
        is_supported_month(year, 12),
        0 <= count <= 4,
    ensures
        quarters_lines(year, count).len() == 8 * count,
        forall|i: int| 0 <= i < 8 * count ==> (#[trigger] quarters_lines(year, count)[i]).len() == 66,
    decreases count,
{
    if count > 0 {
        lemma_quarters_lines(year, count - 1);
        let months = year_quarter(year, count - 1);
        month_lines_are_20_wide(year, 3 * (count - 1) + 1, false);
        month_lines_are_20_wide(year, 3 * (count - 1) + 2, false);
        month_lines_are_20_wide(year, 3 * (count - 1) + 3, false);
        trimester_lines_are_66_wide(months);
        let all = quarters_lines(year, count);
        assert forall|i: int| 0 <= i < 8 * count implies (#[trigger] all[i]).len() == 66 by {
            if i >= 8 * (count - 1) {
                assert(all[i] == trimester_lines(months)[i - 8 * (count - 1)]);
            } else {
                assert(all[i] == quarters_lines(year, count - 1)[i]);
            }
        }
    }
}

/// A year takes 34 lines, all 66 columns wide: the centered year, a blank line, and four
/// quarters of eight lines.
pub proof fn year_lines_are_66_wide(year: int)
    requires
        is_supported_month(year, 12),
    ensures
        year_lines(year).len() == 34,
        forall|i: int| 0 <= i < 34 ==> (#[trigger] year_lines(year)[i]).len() == 66,
{
    lemma_quarters_lines(year, 4);
    let magnitude: int = if year < 0 { -year } else { year };
    lemma_decimal_len(magnitude as nat);
    lemma_centered_len(signed_decimal(year), 66);
    let lines = year_lines(year);
    assert forall|i: int| 0 <= i < 34 implies (#[trigger] lines[i]).len() == 66 by {
        if i >= 2 {
            assert(lines[i] == quarters_lines(year, 4)[i - 2]);
        }
    }
}

/// What a calendar shows has a fixed shape: a month is six to eight lines of 20 columns,
/// a quarter eight lines of 66 columns, a year 34 lines of 66 columns.
pub proof fn displayed_lines_have_fixed_width(calendar: Calendar)
    requires
        calendar.is_displayable(),
    ensures
        calendar.spec_length() == CalendarLength::MONTH ==> {
            &&& 6 <= calendar.display_lines().len() <= 8
            &&& forall|i: int| 0 <= i < calendar.display_lines().len() ==> (#[trigger] calendar.display_lines()[i]).len() == 20
        },
        calendar.spec_length() == CalendarLength::QUARTER ==> {
            &&& calendar.display_lines().len() == 8
            &&& forall|i: int| 0 <= i < 8 ==> (#[trigger] calendar.display_lines()[i]).len() == 66
        },
        calendar.spec_length() == CalendarLength::YEAR ==> {
            &&& calendar.display_lines().len() == 34
            &&& forall|i: int| 0 <= i < 34 ==> (#[trigger] calendar.display_lines()[i]).len() == 66
        },
{
    let year = calendar.spec_year();
    let month = calendar.spec_month();
    match calendar.spec_length() {
        CalendarLength::MONTH => {
            month_lines_are_20_wide(year, month, true);
        },
        CalendarLength::QUARTER => {
            let show_year = month == 1 || month == 12;
            let previous = crate::gregorian::previous_month(year, month);
            let next = crate::gregorian::next_month(year, month);
            month_lines_are_20_wide(previous.0, previous.1, show_year);
            month_lines_are_20_wide(year, month, show_year);
            month_lines_are_20_wide(next.0, next.1, show_year);
            trimester_lines_are_66_wide(quarter_months(year, month));
        },
        CalendarLength::YEAR => {
            year_lines_are_66_wide(year);
        },
    }
}

/// The switches pick the length by priority: the year switch wins over all; otherwise the
/// quarter switch; otherwise a single month, whether or not its switch is set.
pub proof fn switches_pick_length_by_priority(show_year: bool, show_quarter: bool, show_month: bool)
    ensures
        show_year ==> chosen_length(show_year, show_quarter, show_month) == CalendarLength::YEAR,
        !show_year && show_quarter ==> chosen_length(show_year, show_quarter, show_month) == CalendarLength::QUARTER,
        !show_year && !show_quarter ==> chosen_length(show_year, show_quarter, show_month) == CalendarLength::MONTH,
{
}

/// In a text of two-character parts joined by a one-character separator, part `c` occupies
/// columns `3c` and `3c + 1`.
proof fn lemma_joined_columns(parts: Seq<Seq<char>>, sep: Seq<char>, c: int)
    requires
        sep.len() == 1,
        forall|i: int| 0 <= i < parts.len() ==> #[trigger] parts[i].len() == 2,
        0 <= c < parts.len(),
    ensures
        joined(parts, sep).subrange(3 * c, 3 * c + 2) == parts[c],
        c < parts.len() - 1 ==> joined(parts, sep)[3 * c + 2] == sep[0],
    decreases parts.len(),
{
    let n = parts.len() as int;
    if n == 1 {
        assert(joined(parts, sep) == parts[0]);
        assert(parts[0].subrange(0, 2) =~= parts[0]);
    } else {
        let front = parts.drop_last();
        assert forall|i: int| 0 <= i < front.len() implies #[trigger] front[i].len() == 2 by {
            assert(front[i] == parts[i]);
        }
        lemma_joined_len(front, sep, 2);
        assert(joined(parts, sep) == joined(front, sep) + sep + parts.last());
        if c == n - 1 {
            assert(joined(parts, sep).subrange(3 * c, 3 * c + 2) =~= parts.last());
        } else {
            lemma_joined_columns(front, sep, c);
            assert(joined(parts, sep).subrange(3 * c, 3 * c + 2) =~= joined(front, sep).subrange(3 * c, 3 * c + 2));
            if c < n - 2 {
                assert(joined(parts, sep)[3 * c + 2] == joined(front, sep)[3 * c + 2]);
            } else {
                assert(joined(parts, sep)[3 * c + 2] == sep[0]);
            }
        }
    }
}

/// A month is laid out as its title (the month's name, followed by the year when
/// `show_year` holds) centered on 20 columns, the header `Su Mo Tu We Th Fr Sa`, and one line
/// per week of its grid. Each day `d` of the month is written right-aligned in columns
/// `3w` and `3w + 1` of the line of its week, where `w` is its day of the week (0 for Sunday):
/// right under the header's label for that day.
pub proof fn month_shows_each_day_under_its_weekday(year: int, month: int, show_year: bool)
    requires
        is_supported_month(year, month),
    ensures
        month_lines(year, month, show_year).len()
            == 2 + (first_weekday(year, month) + days_in_month(year, month) - 1) / 7 + 1,
        month_lines(year, month, show_year)[0] == centered(
            if show_year { month_name(month) + " "@ + signed_decimal(year) } else { month_name(month) },
            20,
        ),
        month_lines(year, month, show_year)[1] == "Su Mo Tu We Th Fr Sa"@,
        forall|d: int| #![trigger weekday_index(year, month, d)] 1 <= d <= days_in_month(year, month) ==>
            month_lines(year, month, show_year)[2 + (d - 1 + first_weekday(year, month)) / 7].subrange(
                3 * weekday_index(year, month, d),
                3 * weekday_index(year, month, d) + 2,
            ) == right_aligned(decimal(d as nat), 2),
{
    month_grid_holds_each_day_once(year, month);
    let grid = month_grid(year, month);
    let lines = month_lines(year, month, show_year);
    assert forall|d: int| #![trigger weekday_index(year, month, d)] 1 <= d <= days_in_month(year, month) implies
        lines[2 + (d - 1 + first_weekday(year, month)) / 7].subrange(
            3 * weekday_index(year, month, d),
            3 * weekday_index(year, month, d) + 2,
        ) == right_aligned(decimal(d as nat), 2) by {
        let r = (d - 1 + first_weekday(year, month)) / 7;
        let w = weekday_index(year, month, d);
        assert(grid[r][w] == d);
        let week = grid[r];
        let cells = Seq::new(week.len(), |i: int| day_cell(week[i]));
        assert forall|i: int| 0 <= i < cells.len() implies #[trigger] cells[i].len() == 2 by {
            assert(week == grid_row(first_weekday(year, month), days_in_month(year, month), r));
            lemma_day_cell_len(week[i]);
        }
        reveal_strlit(" ");
        lemma_joined_columns(cells, " "@, w);
        assert(lines[2 + r] == week_line(week));
    }
}

/// Columns `3c` and `3c + 1` of a line: where the `c`-th day of a week line is written.
pub open spec fn column_text(line: Seq<char>, c: int) -> Seq<char> {
    line.subrange(3 * c, 3 * c + 2)
}

/// What a week line shows for the day number `day` of a month of `days` days: the day
/// right-aligned on two columns, or two blanks when no day of the month falls there.
pub open spec fn cell_text(day: int, days: int) -> Seq<char> {
    if 1 <= day <= days { right_aligned(decimal(day as nat), 2) } else { spaces(2) }
}

/// The week lines of a month, cell by cell: line `2 + r` is 20 columns of seven cells
/// separated by single spaces; cell `c` shows day `7r + c - first_weekday + 1` when that is a
/// day of the month, else two blanks. Column `c` thus holds Sundays for `c = 0`, Mondays for
/// `c = 1`, and so on, matching the header.
pub proof fn month_week_lines_cell_by_cell(year: int, month: int, show_year: bool)
    requires
        is_supported_month(year, month),
    ensures
        forall|k: int, c: int| 2 <= k < month_lines(year, month, show_year).len() && 0 <= c < 7 ==>
            #[trigger] column_text(month_lines(year, month, show_year)[k], c)
                == cell_text(7 * (k - 2) + c - first_weekday(year, month) + 1, days_in_month(year, month)),
        forall|k: int, c: int| 2 <= k < month_lines(year, month, show_year).len() && 0 <= c < 6 ==>
            #[trigger] month_lines(year, month, show_year)[k][3 * c + 2] == ' ',
        forall|k: int| 0 <= k < month_lines(year, month, show_year).len() ==>
            (#[trigger] month_lines(year, month, show_year)[k]).len() == 20,
{
    month_lines_are_20_wide(year, month, show_year);
    month_grid_holds_each_day_once(year, month);
    let grid = month_grid(year, month);
    let lines = month_lines(year, month, show_year);
    let fw = first_weekday(year, month);
    let n = days_in_month(year, month);
    reveal_strlit(" ");
    assert forall|k: int, c: int| 2 <= k < lines.len() && 0 <= c < 7 implies
        #[trigger] column_text(lines[k], c) == cell_text(7 * (k - 2) + c - fw + 1, n)
        && (c < 6 ==> lines[k][3 * c + 2] == ' ') by {
        let r = k - 2;
        let week = grid[r];
        assert(week == grid_row(fw, n, r));
        let cells = Seq::new(week.len(), |i: int| day_cell(week[i]));
        assert forall|i: int| 0 <= i < cells.len() implies #[trigger] cells[i].len() == 2 by {
            lemma_day_cell_len(week[i]);
        }
        lemma_joined_columns(cells, " "@, c);
        assert(lines[k] == week_line(week));
        assert(" "@[0] == ' ');
    }
    assert forall|k: int, c: int| 2 <= k < lines.len() && 0 <= c < 6 implies
        #[trigger] lines[k][3 * c + 2] == ' ' by {
        assert(column_text(lines[k], c) == cell_text(7 * (k - 2) + c - fw + 1, n));
    }
}

/// Line `i` of a month's lines, or 20 blanks past its last line.
pub open spec fn line_or_blank(lines: Seq<Seq<char>>, i: int) -> Seq<char> {
    if 0 <= i < lines.len() { lines[i] } else { spaces(20) }
}

/// Line `i` of three months shown side by side, left to right, three spaces apart.
pub open spec fn side_by_side(left: Seq<Seq<char>>, middle: Seq<Seq<char>>, right: Seq<Seq<char>>, i: int) -> Seq<char> {
    joined(seq![line_or_blank(left, i), line_or_blank(middle, i), line_or_blank(right, i)], "   "@)
}

/// Eight lines of three months side by side are those of `side_by_side`.
proof fn lemma_three_side_by_side(months: Seq<Seq<Seq<char>>>, i: int)
    requires
        months.len() == 3,
        0 <= i < 8,
    ensures
        trimester_lines(months)[i] == side_by_side(months[0], months[1], months[2], i),
{
    let parts = Seq::new(months.len(), |j: int| if i < months[j].len() { months[j][i] } else { spaces(20) });
    assert(parts =~= seq![line_or_blank(months[0], i), line_or_blank(months[1], i), line_or_blank(months[2], i)]);
}

/// Line `8 * quarter + i` of the first `count` quarters is line `i` of quarter `quarter`.
proof fn lemma_quarters_index(year: int, count: int, quarter: int, i: int)
    requires
        0 <= quarter < count,
        0 <= i < 8,
    ensures
        quarters_lines(year, count).len() == 8 * count,
        quarters_lines(year, count)[8 * quarter + i] == trimester_lines(year_quarter(year, quarter))[i],
    decreases count,
{
    let last = trimester_lines(year_quarter(year, count - 1));
    assert(quarters_lines(year, count) == quarters_lines(year, count - 1) + last);
    assert(last.len() == 8);
    if count == 1 {
        assert(quarters_lines(year, 0) == Seq::<Seq<char>>::empty());
    } else if quarter < count - 1 {
        lemma_quarters_index(year, count - 1, quarter, i);
    } else {
        lemma_quarters_index(year, count - 1, 0, 0);
    }
}

/// A year is laid out as the year centered on 66 columns, a blank line of 66 columns, then
/// four rows of eight lines: row `q` shows months `3q + 1`, `3q + 2` and `3q + 3` of the year
/// side by side, left to right in calendar order (January, February, March first), each
/// laid out without the year.
pub proof fn year_shows_months_in_calendar_order(year: int)
    requires
        is_supported_month(year, 12),
    ensures
        year_lines(year).len() == 34,
        year_lines(year)[0] == centered(signed_decimal(year), 66),
        year_lines(year)[1] == spaces(66),
        forall|k: int| 2 <= k < 34 ==> #[trigger] year_lines(year)[k] == side_by_side(
            month_lines(year, 3 * ((k - 2) / 8) + 1, false),
            month_lines(year, 3 * ((k - 2) / 8) + 2, false),
            month_lines(year, 3 * ((k - 2) / 8) + 3, false),
            (k - 2) % 8,
        ),
{
    lemma_quarters_lines(year, 4);
    assert forall|k: int| 2 <= k < 34 implies #[trigger] year_lines(year)[k] == side_by_side(
        month_lines(year, 3 * ((k - 2) / 8) + 1, false),
        month_lines(year, 3 * ((k - 2) / 8) + 2, false),
        month_lines(year, 3 * ((k - 2) / 8) + 3, false),
        (k - 2) % 8,
    ) by {
        let q = (k - 2) / 8;
        let i = (k - 2) % 8;
        lemma_quarters_index(year, 4, q, i);
        assert(year_lines(year)[k] == quarters_lines(year, 4)[8 * q + i]);
        lemma_three_side_by_side(year_quarter(year, q), i);
    }
}

/// A quarter shows, left to right, the month before `month`, `month` itself and the month
/// after (across the year boundary for January and December), with the years written
/// exactly when the three months do not all fall in one year, i.e. for January and December.
pub proof fn quarter_shows_previous_current_next(year: int, month: int)
    requires
        1 <= month <= 12,
    ensures
        quarter_months(year, month) == seq![
            month_lines(if month == 1 { year - 1 } else { year }, if month == 1 { 12 } else { month - 1 }, month == 1 || month == 12),
            month_lines(year, month, month == 1 || month == 12),
            month_lines(if month == 12 { year + 1 } else { year }, if month == 12 { 1 } else { month + 1 }, month == 1 || month == 12),
        ],
        trimester_lines(quarter_months(year, month)).len() == 8,
        forall|i: int| 0 <= i < 8 ==> #[trigger] trimester_lines(quarter_months(year, month))[i] == side_by_side(
            month_lines(if month == 1 { year - 1 } else { year }, if month == 1 { 12 } else { month - 1 }, month == 1 || month == 12),
            month_lines(year, month, month == 1 || month == 12),
            month_lines(if month == 12 { year + 1 } else { year }, if month == 12 { 1 } else { month + 1 }, month == 1 || month == 12),
            i,
        ),
{
    assert forall|i: int| 0 <= i < 8 implies #[trigger] trimester_lines(quarter_months(year, month))[i] == side_by_side(
        month_lines(if month == 1 { year - 1 } else { year }, if month == 1 { 12 } else { month - 1 }, month == 1 || month == 12),
        month_lines(year, month, month == 1 || month == 12),
        month_lines(if month == 12 { year + 1 } else { year }, if month == 12 { 1 } else { month + 1 }, month == 1 || month == 12),
        i,
    ) by {
        lemma_three_side_by_side(quarter_months(year, month), i);
    }
}

/// What a calendar shows is the layout its length asks for: its month with the year for
/// MONTH; the month before, the month and the month after side by side for QUARTER; the whole
/// year for YEAR.
pub proof fn display_shows_the_chosen_layout(calendar: Calendar)
    requires
        calendar.is_displayable(),
    ensures
        calendar.spec_length() == CalendarLength::MONTH ==>
            calendar.display_lines() == month_lines(calendar.spec_year(), calendar.spec_month(), true),
        calendar.spec_length() == CalendarLength::YEAR ==> calendar.display_lines() == year_lines(calendar.spec_year()),
        calendar.spec_length() == CalendarLength::QUARTER ==> {
            let year = calendar.spec_year();
            let month = calendar.spec_month();
            &&& calendar.display_lines().len() == 8
            &&& forall|i: int| 0 <= i < 8 ==> #[trigger] calendar.display_lines()[i] == side_by_side(
                month_lines(if month == 1 { year - 1 } else { year }, if month == 1 { 12 } else { month - 1 }, month == 1 || month == 12),
                month_lines(year, month, month == 1 || month == 12),
                month_lines(if month == 12 { year + 1 } else { year }, if month == 12 { 1 } else { month + 1 }, month == 1 || month == 12),
                i,
            )
        },
{
    if calendar.spec_length() == CalendarLength::QUARTER {
        quarter_shows_previous_current_next(calendar.spec_year(), calendar.spec_month());
    }
}

/// The twelve months of a year add up to the year's length: 366 days in a leap year, 365
/// otherwise, and February alone absorbs the leap day.
pub proof fn months_add_up_to_the_year(year: int)
    ensures
        days_in_month(year, 1) + days_in_month(year, 2) + days_in_month(year, 3) + days_in_month(year, 4)
            + days_in_month(year, 5) + days_in_month(year, 6) + days_in_month(year, 7) + days_in_month(year, 8)
            + days_in_month(year, 9) + days_in_month(year, 10) + days_in_month(year, 11) + days_in_month(year, 12)
            == days_before_year(year + 1) - days_before_year(year),
        days_before_year(year + 1) - days_before_year(year) == if is_leap_year(year) { 366int } else { 365int },
        days_in_month(year, 2) == if is_leap_year(year) { 29int } else { 28int },
        forall|m: int| 1 <= m <= 12 && m != 2 ==> 30 <= #[trigger] days_in_month(year, m) <= 31,
{
    crate::gregorian::lemma_year_length(year);
}

} // verus!
