//! State of the fake-time picker: the selected date and time, and the month
//! the calendar shows.

use vstd::prelude::*;
use crate::calendar::{
    add_days_to_date, add_days_to_datetime, date_plus_days, datetime_plus_days, days_delta_in_range,
    hms_is_valid, is_valid_hms, is_valid_ymd, weekday_from_sunday, weekday_of, ymd_is_valid,
};
use crate::clock::{MAX_YEAR, MIN_YEAR};
use crate::text::{padded_decimal, push_char, push_padded_decimal};

verus! {

/// `year` clamped into the picker's range of years.
pub open spec fn spec_clamp_year(year: i32) -> i32 {
    if year < MIN_YEAR {
        MIN_YEAR
    } else if year > MAX_YEAR {
        MAX_YEAR
    } else {
        year
    }
}

/// Clamps a year into `MIN_YEAR..=MAX_YEAR`.
pub fn clamp_year(year: i32) -> (y: i32)
    ensures
        y == spec_clamp_year(year),
{
    if year < MIN_YEAR {
        MIN_YEAR
    } else if year > MAX_YEAR {
        MAX_YEAR
    } else {
        year
    }
}

/// The selected fake date and time, and the month shown by the calendar.
#[derive(Clone, Copy, Debug, PartialEq, Eq, Structural)]
pub struct DatePicker {
    pub fake_year: i32,
    pub fake_month: u32,
    pub fake_day: u32,
    pub fake_hour: u32,
    pub fake_minute: u32,
    pub fake_second: u32,
    /// Year of the month being browsed; independent of the selection.
    pub view_year: i32,
    /// Month being browsed (1..=12).
    pub view_month: u32,
}

/// Whether a browsed month lies in the picker's range.
pub open spec fn view_in_range(year: i32, month: u32) -> bool {
    MIN_YEAR <= year <= MAX_YEAR && 1 <= month <= 12
}

/// The month before `(year, month)`.
pub open spec fn spec_prev_month(year: int, month: int) -> (int, int) {
    if month == 1 {
        (year - 1, 12)
    } else {
        (year, month - 1)
    }
}

/// The month after `(year, month)`.
pub open spec fn spec_next_month(year: int, month: int) -> (int, int) {
    if month == 12 {
        (year + 1, 1)
    } else {
        (year, month + 1)
    }
}

impl DatePicker {
    /// A picker showing the given date and time, browsing its month.
    pub fn new(year: i32, month: u32, day: u32, hour: u32, minute: u32, second: u32) -> (p: Self)
        ensures
            p == (DatePicker {
                fake_year: year,
                fake_month: month,
                fake_day: day,
                fake_hour: hour,
                fake_minute: minute,
                fake_second: second,
                view_year: year,
                view_month: month,
            }),
    {
        DatePicker {
            fake_year: year,
            fake_month: month,
            fake_day: day,
            fake_hour: hour,
            fake_minute: minute,
            fake_second: second,
            view_year: year,
            view_month: month,
        }
    }

    /// Browses the month of the selected date (done when the picker opens).
    pub fn sync_view(&mut self)
        ensures
            *final(self) == (DatePicker { view_year: old(self).fake_year, view_month: old(self).fake_month, ..*old(self) }),
    {
        self.view_year = self.fake_year;
        self.view_month = self.fake_month;
    }

    /// Whether the calendar may go back a month: not before January of
    /// `MIN_YEAR`.
    pub fn can_prev(&self) -> (b: bool)
        ensures
            b == (self.view_year > MIN_YEAR || self.view_month > 1),
    {
        self.view_year > MIN_YEAR || self.view_month > 1
    }

    /// Whether the calendar may go forward a month: not past December of
    /// `MAX_YEAR`.
    pub fn can_next(&self) -> (b: bool)
        ensures
            b == (self.view_year < MAX_YEAR || self.view_month < 12),
    {
        self.view_year < MAX_YEAR || self.view_month < 12
    }

    /// Browses the previous month.
    pub fn prev_month(&mut self)
        requires
            old(self).view_year > MIN_YEAR || old(self).view_month > 1,
            old(self).view_month >= 1,
        ensures
            (final(self).view_year as int, final(self).view_month as int)
                == spec_prev_month(old(self).view_year as int, old(self).view_month as int),
            *final(self) == (DatePicker { view_year: final(self).view_year, view_month: final(self).view_month, ..*old(self) }),
    {
        if self.view_month == 1 {
            self.view_year = self.view_year - 1;
            self.view_month = 12;
        } else {
            self.view_month = self.view_month - 1;
        }
    }

    /// Browses the next month.
    pub fn next_month(&mut self)
        requires
            old(self).view_year < MAX_YEAR || old(self).view_month < 12,
            old(self).view_month < u32::MAX,
        ensures
            (final(self).view_year as int, final(self).view_month as int)
                == spec_next_month(old(self).view_year as int, old(self).view_month as int),
            *final(self) == (DatePicker { view_year: final(self).view_year, view_month: final(self).view_month, ..*old(self) }),
    {
        if self.view_month == 12 {
            self.view_year = self.view_year + 1;
            self.view_month = 1;
        } else {
            self.view_month = self.view_month + 1;
        }
    }

    /// Sets the time of day to 00:00:00, keeping the date.
    pub fn set_midnight(&mut self)
        ensures
            *final(self) == (DatePicker { fake_hour: 0, fake_minute: 0, fake_second: 0, ..*old(self) }),
    {
        self.fake_hour = 0;
        self.fake_minute = 0;
        self.fake_second = 0;
    }

    /// Sets the time of day to 12:00:00, keeping the date.
    pub fn set_noon(&mut self)
        ensures
            *final(self) == (DatePicker { fake_hour: 12, fake_minute: 0, fake_second: 0, ..*old(self) }),
    {
        self.fake_hour = 12;
        self.fake_minute = 0;
        self.fake_second = 0;
    }

    /// Selects the given date and time and browses its month ("Now").
    pub fn set_now(&mut self, year: i32, month: u32, day: u32, hour: u32, minute: u32, second: u32)
        ensures
            *final(self) == DatePicker::spec_new(year, month, day, hour, minute, second),
    {
        *self = DatePicker::new(year, month, day, hour, minute, second);
    }

    /// The picker state that `new` builds.
    pub open spec fn spec_new(year: i32, month: u32, day: u32, hour: u32, minute: u32, second: u32) -> DatePicker {
        DatePicker {
            fake_year: year,
            fake_month: month,
            fake_day: day,
            fake_hour: hour,
            fake_minute: minute,
            fake_second: second,
            view_year: year,
            view_month: month,
        }
    }

    /// Whether a calendar cell's date lies in the browsed month.
    pub fn cell_in_month(&self, year: i32, month: u32) -> (b: bool)
        ensures
            b == (month == self.view_month && year == self.view_year),
    {
        month == self.view_month && year == self.view_year
    }

    /// Whether a calendar cell's date is the selected date.
    pub fn cell_is_selected(&self, year: i32, month: u32, day: u32) -> (b: bool)
        ensures
            b == (year == self.fake_year && month == self.fake_month && day == self.fake_day),
    {
        year == self.fake_year && month == self.fake_month && day == self.fake_day
    }

    /// Selects the date of a clicked calendar cell, its year clamped into the
    /// picker's range; a cell outside the browsed month also moves the view
    /// to that cell's month.
    pub fn click_cell(&mut self, year: i32, month: u32, day: u32)
        ensures
            ({
                let y = spec_clamp_year(year);
                let in_month = month == old(self).view_month && year == old(self).view_year;
                *final(self) == (DatePicker {
                    fake_year: y,
                    fake_month: month,
                    fake_day: day,
                    view_year: if in_month { old(self).view_year } else { y },
                    view_month: if in_month { old(self).view_month } else { month },
                    ..*old(self)
                })
            }),
    {
        let in_month = self.cell_in_month(year, month);
        let y = clamp_year(year);
        self.fake_year = y;
        self.fake_month = month;
        self.fake_day = day;
        if !in_month {
            self.view_year = y;
            self.view_month = month;
        }
    }

    /// Selects a date reached by shifting whole days, its year clamped into
    /// the picker's range, keeping the time and browsing its month.
    pub fn set_shifted_date(&mut self, year: i32, month: u32, day: u32)
        ensures
            ({
                let y = spec_clamp_year(year);
                *final(self) == (DatePicker {
                    fake_year: y,
                    fake_month: month,
                    fake_day: day,
                    view_year: y,
                    view_month: month,
                    ..*old(self)
                })
            }),
    {
        let y = clamp_year(year);
        self.fake_year = y;
        self.fake_month = month;
        self.fake_day = day;
        self.view_year = y;
        self.view_month = month;
    }
}

/// A year as `{:04}` writes it: zero-padded to four characters, a minus
/// sign counting as one.
pub open spec fn spec_year_text(year: i32) -> Seq<char> {
    if year < 0 {
        "-"@ + padded_decimal((-year) as nat, 3)
    } else {
        padded_decimal(year as nat, 4)
    }
}

/// The picked date and time as the top bar shows them:
/// "YYYY-MM-DD hh:mm:ss".
pub open spec fn spec_fields_label(p: DatePicker) -> Seq<char> {
    spec_year_text(p.fake_year) + "-"@ + padded_decimal(p.fake_month as nat, 2) + "-"@
        + padded_decimal(p.fake_day as nat, 2) + " "@ + padded_decimal(p.fake_hour as nat, 2) + ":"@
        + padded_decimal(p.fake_minute as nat, 2) + ":"@ + padded_decimal(p.fake_second as nat, 2)
}

impl DatePicker {
    /// The picked date and time as "YYYY-MM-DD hh:mm:ss".
    pub fn fields_label(&self) -> (s: String)
        ensures
            s@ == spec_fields_label(*self),
    {
        proof {
            reveal_strlit("-");
            reveal_strlit(" ");
            reveal_strlit(":");
        }
        let mut s = String::new();
        if self.fake_year < 0 {
            push_char(&mut s, '-');
            let magnitude: u64 = (0i64 - self.fake_year as i64) as u64;
            push_padded_decimal(&mut s, magnitude, 3);
        } else {
            push_padded_decimal(&mut s, self.fake_year as u64, 4);
        }
        push_char(&mut s, '-');
        push_padded_decimal(&mut s, self.fake_month as u64, 2);
        push_char(&mut s, '-');
        push_padded_decimal(&mut s, self.fake_day as u64, 2);
        push_char(&mut s, ' ');
        push_padded_decimal(&mut s, self.fake_hour as u64, 2);
        push_char(&mut s, ':');
        push_padded_decimal(&mut s, self.fake_minute as u64, 2);
        push_char(&mut s, ':');
        push_padded_decimal(&mut s, self.fake_second as u64, 2);
        assert(s@ =~= spec_fields_label(*self));
        s
    }
}

/// Whether the picked fields form a valid date and a valid time of day.
pub open spec fn spec_fields_valid(p: DatePicker) -> bool {
    is_valid_ymd(p.fake_year, p.fake_month, p.fake_day) && is_valid_hms(p.fake_hour, p.fake_minute, p.fake_second)
}

/// What shifting the picked date by whole days did.
#[derive(Clone, Copy, Debug, PartialEq, Eq, Structural)]
pub enum ShiftOutcome {
    /// The picked fields are not a valid date and time; nothing changed.
    InvalidFields,
    /// The shifted date lies outside chrono's range; nothing changed.
    OutOfRange,
    /// The shifted date is selected and browsed.
    Shifted,
}

/// One cell of the 6x7 calendar grid: its date, and how it is drawn.
#[derive(Clone, Copy, Debug, PartialEq, Eq, Structural)]
pub struct CalendarCell {
    pub year: i32,
    pub month: u32,
    pub day: u32,
    /// The date lies in the browsed month (else it is dimmed).
    pub in_month: bool,
    /// The date is the selected date (filled).
    pub is_selected: bool,
    /// The date is today (outlined).
    pub is_today: bool,
}

/// The date the grid is laid out from: the first of the browsed month, or
/// 2000-01-01 when that is no valid date.
pub open spec fn spec_grid_first(year: i32, month: u32) -> (i32, u32, u32) {
    if is_valid_ymd(year, month, 1) {
        (year, month, 1)
    } else {
        (2000, 1, 1)
    }
}

/// Date of grid cell `index` (row-major, rows starting on Sunday): the grid's
/// first date moved by the cell's offset from that date's weekday, or the
/// first date itself when the move leaves chrono's range.
pub open spec fn spec_grid_date(year: i32, month: u32, index: int) -> (i32, u32, u32) {
    let first = spec_grid_first(year, month);
    let offset = index - weekday_from_sunday(first.0, first.1, first.2);
    match date_plus_days(first.0, first.1, first.2, offset as i64) {
        Some(date) => date,
        None => first,
    }
}

/// Grid cell `index` for the picker's browsed month, selection and `today`.
pub open spec fn spec_calendar_cell(p: DatePicker, today: (i32, u32, u32), index: int) -> CalendarCell {
    let (y, m, d) = spec_grid_date(p.view_year, p.view_month, index);
    CalendarCell {
        year: y,
        month: m,
        day: d,
        in_month: m == p.view_month && y == p.view_year,
        is_selected: y == p.fake_year && m == p.fake_month && d == p.fake_day,
        is_today: y == today.0 && m == today.1 && d == today.2,
    }
}

impl DatePicker {
    /// Whether the picked fields form a valid date and time of day.
    pub fn picked_is_valid(&self) -> (b: bool)
        ensures
            b == spec_fields_valid(*self),
    {
        ymd_is_valid(self.fake_year, self.fake_month, self.fake_day)
            && hms_is_valid(self.fake_hour, self.fake_minute, self.fake_second)
    }

    /// Moves the picked date by whole days ("-1d" / "+1d"): the year is
    /// clamped into the picker's range, the time kept, and the new month
    /// browsed. Invalid fields, or a date outside chrono's range, change
    /// nothing.
    pub fn shift_day(&mut self, days: i64) -> (o: ShiftOutcome)
        requires
            days_delta_in_range(days),
        ensures
            !spec_fields_valid(*old(self)) ==> o == ShiftOutcome::InvalidFields && *final(self) == *old(self),
            spec_fields_valid(*old(self)) ==> match datetime_plus_days(
                old(self).fake_year,
                old(self).fake_month,
                old(self).fake_day,
                old(self).fake_hour,
                old(self).fake_minute,
                old(self).fake_second,
                days,
            ) {
                None => o == ShiftOutcome::OutOfRange && *final(self) == *old(self),
                Some((y, m, d)) => o == ShiftOutcome::Shifted && *final(self) == (DatePicker {
                    fake_year: spec_clamp_year(y),
                    fake_month: m,
                    fake_day: d,
                    view_year: spec_clamp_year(y),
                    view_month: m,
                    ..*old(self)
                }),
            },
    {
        if !self.picked_is_valid() {
            return ShiftOutcome::InvalidFields;
        }
        match add_days_to_datetime(
            self.fake_year,
            self.fake_month,
            self.fake_day,
            self.fake_hour,
            self.fake_minute,
            self.fake_second,
            days,
        ) {
            None => ShiftOutcome::OutOfRange,
            Some((y, m, d)) => {
                self.set_shifted_date(y, m, d);
                ShiftOutcome::Shifted
            },
        }
    }

    /// The 42 cells of the calendar grid for the browsed month, row by row;
    /// `today` is the current local date.
    pub fn calendar_cells(&self, today_year: i32, today_month: u32, today_day: u32) -> (cells: Vec<CalendarCell>)
        ensures
            cells@.len() == 42,
            forall|i: int| 0 <= i < 42 ==> #[trigger] cells@[i] == spec_calendar_cell(
                *self,
                (today_year, today_month, today_day),
                i,
            ),
            forall|i: int|
                0 <= i < 42 ==> {
                    &&& (#[trigger] cells@[i]).is_selected == (cells@[i].year == self.fake_year
                        && cells@[i].month == self.fake_month && cells@[i].day == self.fake_day)
                    &&& cells@[i].is_today == (cells@[i].year == today_year && cells@[i].month == today_month
                        && cells@[i].day == today_day)
                    &&& cells@[i].in_month == (cells@[i].year == self.view_year
                        && cells@[i].month == self.view_month)
                },
    {
        let ghost today = (today_year, today_month, today_day);
        let first_valid = ymd_is_valid(self.view_year, self.view_month, 1);
        let (fy, fm, fd): (i32, u32, u32) = if first_valid {
            (self.view_year, self.view_month, 1)
        } else {
            (2000, 1, 1)
        };
        assert((fy, fm, fd) == spec_grid_first(self.view_year, self.view_month));
        let first_weekday = weekday_of(fy, fm, fd);
        let mut cells: Vec<CalendarCell> = Vec::new();
        let mut row: i32 = 0;
        while row < 6
            invariant
                0 <= row <= 6,
                cells@.len() == row * 7,
                today == (today_year, today_month, today_day),
                (fy, fm, fd) == spec_grid_first(self.view_year, self.view_month),
                is_valid_ymd(fy, fm, fd),
                first_weekday == weekday_from_sunday(fy, fm, fd),
                first_weekday < 7,
                forall|i: int| 0 <= i < row * 7 ==> #[trigger] cells@[i] == spec_calendar_cell(*self, today, i),
            decreases 6 - row,
        {
            let mut col: i32 = 0;
            while col < 7
                invariant
                    0 <= row < 6,
                    0 <= col <= 7,
                    cells@.len() == row * 7 + col,
                    today == (today_year, today_month, today_day),
                    (fy, fm, fd) == spec_grid_first(self.view_year, self.view_month),
                    is_valid_ymd(fy, fm, fd),
                    first_weekday == weekday_from_sunday(fy, fm, fd),
                    first_weekday < 7,
                    forall|i: int| 0 <= i < row * 7 + col ==> #[trigger] cells@[i] == spec_calendar_cell(*self, today, i),
                decreases 7 - col,
            {
                let offset = cell_day_offset(row, col, first_weekday as i32);
                let (y, m, d): (i32, u32, u32) = match add_days_to_date(fy, fm, fd, offset as i64) {
                    Some(date) => date,
                    None => (fy, fm, fd),
                };
                let cell = CalendarCell {
                    year: y,
                    month: m,
                    day: d,
                    in_month: self.cell_in_month(y, m),
                    is_selected: self.cell_is_selected(y, m, d),
                    is_today: y == today_year && m == today_month && d == today_day,
                };
                let ghost before = cells@;
                cells.push(cell);
                assert forall|i: int| 0 <= i < row * 7 + col + 1 implies #[trigger] cells@[i] == spec_calendar_cell(
                    *self,
                    today,
                    i,
                ) by {
                    if i < row * 7 + col {
                        assert(cells@[i] == before[i]);
                    }
                }
                col = col + 1;
            }
            row = row + 1;
        }
        cells
    }
}

/// Day offset, from the first of the browsed month, of the calendar cell in
/// `row` and `col` of the 6x7 grid whose first row starts on Sunday, given
/// the weekday (0 = Sunday) of the first of the month.
pub fn cell_day_offset(row: i32, col: i32, first_weekday: i32) -> (offset: i32)
    requires
        0 <= row < 6,
        0 <= col < 7,
        0 <= first_weekday < 7,
    ensures
        offset == row * 7 + col - first_weekday,
{
    row * 7 + col - first_weekday
}

/// How a calendar cell is drawn follows from its date alone: it is filled
/// exactly when its full date (year, month and day) is the selected date,
/// outlined exactly when its full date is today, and dimmed exactly when it
/// lies outside the browsed month of the browsed year.
pub proof fn lemma_calendar_cell_marks(p: DatePicker, today: (i32, u32, u32), index: int)
    ensures
        ({
            let c = spec_calendar_cell(p, today, index);
            &&& c.is_selected == (c.year == p.fake_year && c.month == p.fake_month && c.day == p.fake_day)
            &&& c.is_today == (c.year == today.0 && c.month == today.1 && c.day == today.2)
            &&& c.in_month == (c.year == p.view_year && c.month == p.view_month)
        }),
{
}

/// Going back a month undoes going forward a month, and the reverse.
pub proof fn lemma_month_steps_inverse(year: int, month: int)
    requires
        1 <= month <= 12,
    ensures
        ({
            let (ny, nm) = spec_next_month(year, month);
            spec_prev_month(ny, nm) == (year, month)
        }),
        ({
            let (py, pm) = spec_prev_month(year, month);
            spec_next_month(py, pm) == (year, month)
        }),
{
}

/// Browsing never leaves the picker's range: a step allowed by `can_prev`
/// or `can_next` from a month in range lands in range.
pub proof fn lemma_month_steps_stay_in_range(year: i32, month: u32)
    requires
        view_in_range(year, month),
    ensures
        (year > MIN_YEAR || month > 1) ==> {
            let (py, pm) = spec_prev_month(year as int, month as int);
            MIN_YEAR <= py <= MAX_YEAR && 1 <= pm <= 12
        },
        (year < MAX_YEAR || month < 12) ==> {
            let (ny, nm) = spec_next_month(year as int, month as int);
            MIN_YEAR <= ny <= MAX_YEAR && 1 <= nm <= 12
        },
{
}

} // verus!
