# cal

A terminal calendar library: it lays out a month, the three months around a date, or a
whole year as lines of text, Sunday first.

- `src/gregorian.rs`: the proleptic Gregorian calendar as arithmetic (leap years, month
  lengths, day numbers, days of the week).
- `src/days.rs`: the calls into `chrono` (month names, days of the week, month arithmetic,
  day differences), with their contracts.
- `src/text.rs`: decimal numbers, padding, centering and joining of text.
- `src/calendar.rs`: `Calendar`, `CalendarLength`, the month grid and the text layout.
- `src/laws.rs`: properties that span several functions (each day once in its weekday
  column; fixed line widths of months, quarters and years).
- `app/main.rs`: the command line program.
