use vstd::prelude::*;

use crate::ace::text::{i32_text, int_text, u32_text};
use crate::clock::{
    day_of_era, days_before_month, days_before_year, days_in_month, is_leap_year, month_number,
    valid_date, weekday_number, year_in_range, CalDate, Month,
};

use crate::ace::date::{local_resolution, LocalResolution};

verus! {

/// The offset of a day's midnight: the one instant the local time zone gives it, if one.
pub open spec fn midnight_offset(res: LocalResolution) -> Option<i32> {
    match res {
        LocalResolution::Single(o) => Some(o),
        _ => None,
    }
}

/// The offset of a day's midnight, as `midnight_offset` says.
fn midnight_offset_of(res: &LocalResolution) -> (r: Option<i32>)
    ensures
        r == midnight_offset(*res),
{
    match res {
        LocalResolution::Single(o) => Some(*o),
        _ => None,
    }
}

/// An event shown on a day of the calendar.
#[derive(Debug)]
pub struct CalendarEvent {
    pub title: String,
    /// The event starts at midnight of this day.
    pub from: CalDate,
    /// The event ends this many hours after it starts.
    pub hours: u32,
}

/// A day of the calendar grid.
#[derive(Debug)]
pub struct CalendarDay {
    pub date: CalDate,
    pub events: Vec<CalendarEvent>,
    /// Whether the day belongs to the month shown.
    pub is_current_month: bool,
    /// The UTC offset, in seconds, of the day's midnight in the local time zone; `None`
    /// where the zone gives that midnight no single instant.
    pub offset: Option<i32>,
}

/// A month shown as six whole weeks, Monday first.
#[derive(Debug)]
pub struct Calendar {
    pub days: Vec<CalendarDay>,
}

/// The mathematical content of a [`CalendarEvent`].
pub struct EventV {
    pub title: Seq<char>,
    pub from: CalDate,
    pub hours: u32,
}

/// The mathematical content of a [`CalendarDay`].
pub struct DayV {
    pub date: CalDate,
    pub events: Seq<EventV>,
    pub is_current_month: bool,
}

/// The mathematical content of an event.
pub open spec fn event_view(e: CalendarEvent) -> EventV {
    EventV { title: e.title@, from: e.from, hours: e.hours }
}

/// The mathematical content of a day.
pub open spec fn day_view(d: CalendarDay) -> DayV {
    DayV {
        date: d.date,
        events: d.events@.map_values(|e: CalendarEvent| event_view(e)),
        is_current_month: d.is_current_month,
    }
}

/// The title of an event: `Event on {year}-{month}-{day}`.
pub open spec fn spec_event_title(year: int, month: int, day: int) -> Seq<char> {
    "Event on "@ + int_text(year) + "-"@ + int_text(month) + "-"@ + int_text(day)
}

/// An event of four hours that starts at midnight of `date`.
pub open spec fn spec_event(title: Seq<char>, date: CalDate) -> EventV {
    EventV { title, from: date, hours: 4 }
}

/// Where the first of the month stands in its week, Monday being 0.
pub open spec fn first_weekday(m: Month, year: int) -> int {
    weekday_number(year, month_number(m) as int, 1)
}

/// The `k`-th cell of the calendar of month `m` of `year`: first the last days of the
/// previous month that share the first week, then the days of the month, then the first
/// days of the next month up to six weeks. Every day carries two events of four hours; the
/// titles name the year shown and, but for the first event of a day of the next month,
/// the month shown.
pub open spec fn calendar_day(m: Month, year: int, k: int) -> DayV {
    let mn = month_number(m) as int;
    let offset = first_weekday(m, year);
    let n = days_in_month(mn, year);
    if k < offset {
        let pm = if mn == 1 { 12 } else { mn - 1 };
        let d = days_in_month(pm, year) - offset + 1 + k;
        let date = CalDate {
            year: (if mn == 1 { year - 1 } else { year }) as i32,
            month: pm as u32,
            day: d as u32,
        };
        let t = spec_event_title(year, mn, d);
        DayV { date, events: seq![spec_event(t, date), spec_event(t, date)], is_current_month: false }
    } else if k < offset + n {
        let d = k - offset + 1;
        let date = CalDate { year: year as i32, month: mn as u32, day: d as u32 };
        let t = spec_event_title(year, mn, d);
        DayV { date, events: seq![spec_event(t, date), spec_event(t, date)], is_current_month: true }
    } else {
        let nm = if mn == 12 { 1 } else { mn + 1 };
        let d = k - offset - n + 1;
        let date = CalDate {
            year: (if mn == 12 { year + 1 } else { year }) as i32,
            month: nm as u32,
            day: d as u32,
        };
        DayV {
            date,
            events: seq![
                spec_event(spec_event_title(year, nm, d), date),
                spec_event(spec_event_title(year, mn, d), date),
            ],
            is_current_month: false,
        }
    }
}

/// The years for which the calendar of month `m` can be made: every day shown lies in a
/// year that `chrono::NaiveDate` can hold.
pub open spec fn calendar_in_range(m: Month, year: int) -> bool {
    &&& year_in_range(year)
    &&& (month_number(m) == 1 && first_weekday(m, year) > 0 ==> year_in_range(year - 1))
    &&& (month_number(m) == 12 ==> year_in_range(year + 1))
}

/// The title of an event: `Event on {year}-{month}-{day}`.
fn event_title(year: i32, month: u32, day: u32) -> (r: String)
    ensures
        r@ == spec_event_title(year as int, month as int, day as int),
{
    let mut t = String::from_str("Event on ");
    t.append(i32_text(year).as_str());
    t.append("-");
    t.append(u32_text(month).as_str());
    t.append("-");
    t.append(u32_text(day).as_str());
    t
}

/// A day with two events of four hours, titled `first` and `second`.
fn make_day(date: CalDate, first: String, second: String, is_current_month: bool, offset: Option<i32>) -> (r:
    CalendarDay)
    ensures
        r.offset == offset,
        day_view(r) == (DayV {
            date,
            events: seq![spec_event(first@, date), spec_event(second@, date)],
            is_current_month,
        }),
{
    let mut events: Vec<CalendarEvent> = Vec::new();
    events.push(CalendarEvent { title: first, from: date, hours: 4 });
    events.push(CalendarEvent { title: second, from: date, hours: 4 });
    let r = CalendarDay { date, events, is_current_month, offset };
    assert(day_view(r).events =~= seq![spec_event(first@, date), spec_event(second@, date)]);
    r
}

/// The day of the Common Era of a calendar date.
pub open spec fn date_day_of_era(d: CalDate) -> int {
    day_of_era(d.year as int, d.month as int, d.day as int)
}

/// A year has 365 days, and one more when it is a leap year.
proof fn lemma_year_length(y: int)
    ensures
        days_before_year(y + 1) == days_before_year(y) + 365 + (if is_leap_year(y) { 1int } else { 0int }),
{
    assert(y / 4 - (y - 1) / 4 == (if y % 4 == 0 { 1int } else { 0int }));
    assert(y / 100 - (y - 1) / 100 == (if y % 100 == 0 { 1int } else { 0int }));
    assert(y / 400 - (y - 1) / 400 == (if y % 400 == 0 { 1int } else { 0int }));
    assert(y % 400 == 0 ==> y % 100 == 0 && y % 4 == 0);
    assert(y % 100 == 0 ==> y % 4 == 0);
}

/// The day after the last of a month is the first of the next month.
proof fn lemma_month_boundary(y: int, m: int)
    requires
        1 <= m <= 12,
    ensures
        day_of_era(y, m, days_in_month(m, y)) + 1 == (if m == 12 {
            day_of_era(y + 1, 1, 1)
        } else {
            day_of_era(y, m + 1, 1)
        }),
{
    if m == 12 {
        lemma_year_length(y);
    }
}

/// Every cell of the calendar of a month in range is a date.
pub proof fn lemma_calendar_days_valid(m: Month, year: int, k: int)
    requires
        calendar_in_range(m, year),
        0 <= k < 42,
    ensures
        valid_date(
            calendar_day(m, year, k).date.year as int,
            calendar_day(m, year, k).date.month as int,
            calendar_day(m, year, k).date.day as int,
        ),
{
    let mn = month_number(m) as int;
    assert(0 <= first_weekday(m, year) < 7);
}

/// Each cell of the calendar is the day after the cell before it.
pub proof fn lemma_calendar_consecutive(m: Month, year: int, k: int)
    requires
        calendar_in_range(m, year),
        0 <= k < 41,
    ensures
        date_day_of_era(calendar_day(m, year, k + 1).date) == date_day_of_era(calendar_day(m, year, k).date) + 1,
{
    let mn = month_number(m) as int;
    let offset = first_weekday(m, year);
    let n = days_in_month(mn, year);
    assert(0 <= offset < 7);
    if k + 1 == offset {
        let pm = if mn == 1 { 12 } else { mn - 1 };
        let py = if mn == 1 { year - 1 } else { year };
        assert(days_in_month(pm, year) == days_in_month(pm, py));
        lemma_month_boundary(py, pm);
    } else if k + 1 == offset + n {
        lemma_month_boundary(year, mn);
    }
}

/// A number less its remainder modulo 7 is a multiple of 7.
proof fn lemma_mod7_floor(x: int)
    ensures
        (x - x % 7) % 7 == 0,
{
}

/// The first cell of the calendar lies as many days before the first of the month as the
/// first of the month is days after a Monday.
proof fn lemma_first_cell(m: Month, year: int)
    requires
        calendar_in_range(m, year),
    ensures
        date_day_of_era(calendar_day(m, year, 0).date) == day_of_era(year, month_number(m) as int, 1) - first_weekday(m, year),
{
    let mn = month_number(m) as int;
    let offset = first_weekday(m, year);
    assert(0 <= offset < 7);
    if offset > 0 {
        let pm = if mn == 1 { 12 } else { mn - 1 };
        let py = if mn == 1 { year - 1 } else { year };
        assert(days_in_month(pm, year) == days_in_month(pm, py));
        lemma_month_boundary(py, pm);
    }
}

/// The calendar starts on a Monday.
pub proof fn lemma_calendar_starts_monday(m: Month, year: int)
    requires
        calendar_in_range(m, year),
    ensures
        weekday_number(
            calendar_day(m, year, 0).date.year as int,
            calendar_day(m, year, 0).date.month as int,
            calendar_day(m, year, 0).date.day as int,
        ) == 0,
{
    let first = day_of_era(year, month_number(m) as int, 1);
    lemma_first_cell(m, year);
    lemma_mod7_floor(first - 1);
}

impl Calendar {
    /// The calendar of `month` of `year`, where every day it shows is a date that
    /// `chrono::NaiveDate` can hold; `None` otherwise.
    pub fn try_new(month: Month, year: i32) -> (r: Option<Calendar>)
        ensures
            r is Some <==> calendar_in_range(month, year as int),
            r matches Some(c) ==> c.days@.len() == 42 && forall|k: int|
                0 <= k < 42 ==> day_view(#[trigger] c.days@[k]) == calendar_day(month, year as int, k),
    {
        if year < -262143 || year > 262142 {
            return None;
        }
        let mn = month.number_from_month();
        if mn == 12 && year == 262142 {
            return None;
        }
        if mn == 1 && year == -262143 {
            let first = CalDate { year, month: 1, day: 1 };
            if crate::clock::weekday_offset_of(&first) > 0 {
                return None;
            }
        }
        Some(Calendar::new(month, year))
    }

    /// The calendar of `month` of `year`, 42 days, Monday first, given how the local time
    /// zone resolves the midnight of each day shown, in order.
    pub fn from_resolutions(month: Month, year: i32, res: &Vec<LocalResolution>) -> (r: Calendar)
        requires
            calendar_in_range(month, year as int),
            res@.len() == 42,
        ensures
            r.days@.len() == 42,
            forall|k: int| 0 <= k < 42 ==> day_view(#[trigger] r.days@[k]) == calendar_day(month, year as int, k),
            forall|k: int| 0 <= k < 42 ==> (#[trigger] r.days@[k]).offset == midnight_offset(res@[k]),
    {
        let mn = month.number_from_month();
        let num_days = month.num_days(year).unwrap() as u32;
        let mut days: Vec<CalendarDay> = Vec::new();
        let first = CalDate { year, month: mn, day: 1 };
        let weekday_offset = crate::clock::weekday_offset_of(&first);
        let last_month = month.pred();
        let last_month_num_days = last_month.num_days(year).unwrap() as u32;
        let year_offset: i32 = if mn == 1 { -1 } else { 0 };
        let ghost offset = weekday_offset as int;

        let mut i = last_month_num_days - weekday_offset + 1;
        while i <= last_month_num_days
            invariant
                mn == month_number(month),
                offset == first_weekday(month, year as int),
                0 <= offset < 7,
                num_days == days_in_month(mn as int, year as int),
                last_month_num_days == days_in_month(month_number(last_month) as int, year as int),
                month_number(last_month) == (if mn == 1 { 12 } else { mn - 1 }),
                year_offset == (if mn == 1 { -1int } else { 0int }),
                calendar_in_range(month, year as int),
                last_month_num_days - offset + 1 <= i <= last_month_num_days + 1,
                days@.len() == i - (last_month_num_days - offset + 1),
                forall|k: int| 0 <= k < days@.len() ==> day_view(#[trigger] days@[k]) == calendar_day(month, year as int, k),
                res@.len() == 42,
                forall|k: int| 0 <= k < days@.len() ==> (#[trigger] days@[k]).offset == midnight_offset(res@[k]),
            decreases last_month_num_days + 1 - i,
        {
            let date = CalDate { year: year + year_offset, month: last_month.number_from_month(), day: i };
            let ghost k = days@.len() as int;
            let offset = midnight_offset_of(&res[days.len()]);
            let day = make_day(date, event_title(year, mn, i), event_title(year, mn, i), false, offset);
            days.push(day);
            assert(day_view(days@[k]) == calendar_day(month, year as int, k));
            i = i + 1;
        }

        let mut day: u32 = 1;
        while day <= num_days
            invariant
                mn == month_number(month),
                offset == first_weekday(month, year as int),
                0 <= offset < 7,
                num_days == days_in_month(mn as int, year as int),
                1 <= day <= num_days + 1,
                days@.len() == offset + day - 1,
                forall|k: int| 0 <= k < days@.len() ==> day_view(#[trigger] days@[k]) == calendar_day(month, year as int, k),
                res@.len() == 42,
                forall|k: int| 0 <= k < days@.len() ==> (#[trigger] days@[k]).offset == midnight_offset(res@[k]),
            decreases num_days + 1 - day,
        {
            let date = CalDate { year, month: mn, day };
            let ghost k = days@.len() as int;
            let offset = midnight_offset_of(&res[days.len()]);
            let d = make_day(date, event_title(year, mn, day), event_title(year, mn, day), true, offset);
            days.push(d);
            assert(day_view(days@[k]) == calendar_day(month, year as int, k));
            day = day + 1;
        }

        let next_month_offset = 6 * 7 - (weekday_offset + num_days);
        let next_month = month.succ();
        let next_year_offset: i32 = if mn == 12 { 1 } else { 0 };
        let mut i: u32 = 1;
        while i <= next_month_offset
            invariant
                mn == month_number(month),
                offset == first_weekday(month, year as int),
                0 <= offset < 7,
                num_days == days_in_month(mn as int, year as int),
                next_month_offset == 42 - (offset + num_days),
                month_number(next_month) == (if mn == 12 { 1 } else { mn + 1 }),
                next_year_offset == (if mn == 12 { 1int } else { 0int }),
                calendar_in_range(month, year as int),
                1 <= i <= next_month_offset + 1,
                days@.len() == offset + num_days + i - 1,
                forall|k: int| 0 <= k < days@.len() ==> day_view(#[trigger] days@[k]) == calendar_day(month, year as int, k),
                res@.len() == 42,
                forall|k: int| 0 <= k < days@.len() ==> (#[trigger] days@[k]).offset == midnight_offset(res@[k]),
            decreases next_month_offset + 1 - i,
        {
            let date = CalDate { year: year + next_year_offset, month: next_month.number_from_month(), day: i };
            let ghost k = days@.len() as int;
            let offset = midnight_offset_of(&res[days.len()]);
            let d = make_day(
                date,
                event_title(year, next_month.number_from_month(), i),
                event_title(year, mn, i),
                false,
                offset,
            );
            days.push(d);
            assert(day_view(days@[k]) == calendar_day(month, year as int, k));
            i = i + 1;
        }
        Calendar { days }
    }

    /// The calendar of `month` of `year`: 42 days, Monday first, each with the offset of its
    /// local midnight as the machine's time zone gives it.
    pub fn new(month: Month, year: i32) -> (r: Calendar)
        requires
            calendar_in_range(month, year as int),
        ensures
            r.days@.len() == 42,
            forall|k: int| 0 <= k < 42 ==> day_view(#[trigger] r.days@[k]) == calendar_day(month, year as int, k),
    {
        let mut gaps: Vec<LocalResolution> = Vec::new();
        while gaps.len() < 42
            invariant
                gaps@.len() <= 42,
            decreases 42 - gaps@.len(),
        {
            gaps.push(LocalResolution::Gap);
        }
        let draft = Calendar::from_resolutions(month, year, &gaps);
        let mut res: Vec<LocalResolution> = Vec::new();
        let mut k: usize = 0;
        while k < 42
            invariant
                k <= 42,
                res@.len() == k,
                draft.days@.len() == 42,
            decreases 42 - k,
        {
            let d = draft.days[k].date;
            res.push(local_resolution(d.year, d.month, d.day, 0, 0, 0, 0));
            k = k + 1;
        }
        Calendar::from_resolutions(month, year, &res)
    }
}

} // verus!
