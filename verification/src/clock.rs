use chrono::Datelike;
use vstd::prelude::*;

verus! {

/// A date and time of day in the local time zone, with the UTC offset that the zone had
/// at that moment.
#[derive(Debug, PartialEq, Eq, Clone, Copy, Structural)]
pub struct LocalDateTime {
    pub year: i32,
    pub month: u32,
    pub day: u32,
    pub hour: u32,
    pub minute: u32,
    pub second: u32,
    /// Nanoseconds into the second; a leap second counts 1_000_000_000 and more.
    pub nanosecond: u32,
    /// Seconds east of UTC.
    pub offset: i32,
}

/// Whether `dt` is a moment that `chrono` can hold: a valid date, a time of day (a leap
/// second only at the end of a minute), and an offset of less than a day.
pub open spec fn valid_local(dt: LocalDateTime) -> bool {
    &&& valid_date(dt.year as int, dt.month as int, dt.day as int)
    &&& dt.hour < 24
    &&& dt.minute < 60
    &&& dt.second < 60
    &&& dt.nanosecond < 2_000_000_000
    &&& (dt.nanosecond >= 1_000_000_000 ==> dt.second == 59)
    &&& -86400 < dt.offset < 86400
}

/// Whether the UTC moment of `dt` (its wall-clock time less its offset) still falls on a
/// date that `chrono::NaiveDate` can hold. For a valid `dt` the offset moves the moment by at
/// most a day, so only the first day of the earliest year and the last day of the latest
/// year can leave the range.
pub open spec fn utc_in_range(dt: LocalDateTime) -> bool {
    let secs = dt.hour * 3600 + dt.minute * 60 + dt.second - dt.offset;
    &&& !(dt.year == -262143 && dt.month == 1 && dt.day == 1 && secs < 0)
    &&& !(dt.year == 262142 && dt.month == 12 && dt.day == 31 && secs >= 86400)
}

impl LocalDateTime {
    /// Whether the UTC moment of this date still falls on a date that `chrono` can hold.
    pub fn in_utc_range(&self) -> (r: bool)
        requires
            valid_local(*self),
        ensures
            r == utc_in_range(*self),
    {
        let secs: i64 = self.hour as i64 * 3600 + self.minute as i64 * 60 + self.second as i64 - self.offset as i64;
        !(self.year == -262143 && self.month == 1 && self.day == 1 && secs < 0) && !(self.year == 262142
            && self.month == 12 && self.day == 31 && secs >= 86400)
    }

    /// Whether this is a moment that `chrono` can hold.
    pub fn is_valid(&self) -> (r: bool)
        ensures
            r == valid_local(*self),
    {
        if self.year < -262143 || self.year > 262142 || self.hour >= 24 || self.minute >= 60
            || self.second >= 60 || self.offset <= -86400 || self.offset >= 86400
            || self.nanosecond >= 2_000_000_000 || (self.nanosecond >= 1_000_000_000 && self.second != 59) {
            return false;
        }
        match Month::from_number(self.month) {
            None => false,
            Some(m) => match m.num_days(self.year) {
                Some(n) => 1 <= self.day && self.day <= n as u32,
                None => false,
            },
        }
    }
}

/// The months of the year.
#[derive(Debug, PartialEq, Eq, Clone, Copy, Structural)]
pub enum Month {
    January,
    February,
    March,
    April,
    May,
    June,
    July,
    August,
    September,
    October,
    November,
    December,
}

/// The number of a month, January being 1.
pub open spec fn month_number(m: Month) -> u32 {
    match m {
        Month::January => 1,
        Month::February => 2,
        Month::March => 3,
        Month::April => 4,
        Month::May => 5,
        Month::June => 6,
        Month::July => 7,
        Month::August => 8,
        Month::September => 9,
        Month::October => 10,
        Month::November => 11,
        Month::December => 12,
    }
}

impl Month {
    /// The number of this month, January being 1.
    pub fn number_from_month(&self) -> (r: u32)
        ensures
            r == month_number(*self),
            1 <= r <= 12,
    {
        match self {
            Month::January => 1,
            Month::February => 2,
            Month::March => 3,
            Month::April => 4,
            Month::May => 5,
            Month::June => 6,
            Month::July => 7,
            Month::August => 8,
            Month::September => 9,
            Month::October => 10,
            Month::November => 11,
            Month::December => 12,
        }
    }

    /// The month numbered `n`, January being 1; `None` outside 1 to 12.
    pub fn from_number(n: u32) -> (r: Option<Month>)
        ensures
            match r {
                Some(m) => 1 <= n <= 12 && month_number(m) == n,
                None => n < 1 || n > 12,
            },
    {
        if n == 1 {
            Some(Month::January)
        } else if n == 2 {
            Some(Month::February)
        } else if n == 3 {
            Some(Month::March)
        } else if n == 4 {
            Some(Month::April)
        } else if n == 5 {
            Some(Month::May)
        } else if n == 6 {
            Some(Month::June)
        } else if n == 7 {
            Some(Month::July)
        } else if n == 8 {
            Some(Month::August)
        } else if n == 9 {
            Some(Month::September)
        } else if n == 10 {
            Some(Month::October)
        } else if n == 11 {
            Some(Month::November)
        } else if n == 12 {
            Some(Month::December)
        } else {
            None
        }
    }

    /// The month before this one; December comes before January.
    pub fn pred(&self) -> (r: Month)
        ensures
            month_number(r) == (if month_number(*self) == 1 { 12 } else { month_number(*self) - 1 }),
    {
        match self {
            Month::January => Month::December,
            Month::February => Month::January,
            Month::March => Month::February,
            Month::April => Month::March,
            Month::May => Month::April,
            Month::June => Month::May,
            Month::July => Month::June,
            Month::August => Month::July,
            Month::September => Month::August,
            Month::October => Month::September,
            Month::November => Month::October,
            Month::December => Month::November,
        }
    }

    /// The month after this one; January comes after December.
    pub fn succ(&self) -> (r: Month)
        ensures
            month_number(r) == (if month_number(*self) == 12 { 1 } else { month_number(*self) + 1 }),
    {
        match self {
            Month::January => Month::February,
            Month::February => Month::March,
            Month::March => Month::April,
            Month::April => Month::May,
            Month::May => Month::June,
            Month::June => Month::July,
            Month::July => Month::August,
            Month::August => Month::September,
            Month::September => Month::October,
            Month::October => Month::November,
            Month::November => Month::December,
            Month::December => Month::January,
        }
    }
}

/// The years that `chrono::NaiveDate` can hold.
pub open spec fn year_in_range(year: int) -> bool {
    -262143 <= year <= 262142
}

/// Whether a year of the proleptic Gregorian calendar is a leap year.
pub open spec fn is_leap_year(year: int) -> bool {
    (year % 4 == 0 && year % 100 != 0) || year % 400 == 0
}

/// The number of days of month `m` (1 to 12) in `year`.
pub open spec fn days_in_month(m: int, year: int) -> int {
    if m == 2 {
        if is_leap_year(year) { 29 } else { 28 }
    } else if m == 4 || m == 6 || m == 9 || m == 11 {
        30
    } else {
        31
    }
}

/// What `chrono::Month::num_days` gives: the length of the month, but for February only
/// in years that `chrono::NaiveDate` can hold.
pub open spec fn chrono_num_days(m: int, year: int) -> Option<u8> {
    if m == 2 && !year_in_range(year) {
        None
    } else {
        Some(days_in_month(m, year) as u8)
    }
}

/// `chrono::Month::num_days(year)` on the month numbered `month`.
#[verifier::external_body]
fn month_num_days(month: u32, year: i32) -> (r: Option<u8>)
    requires
        1 <= month <= 12,
    ensures
        r == chrono_num_days(month as int, year as int),
{
    match chrono::Month::try_from(month as u8) {
        Ok(m) => m.num_days(year),
        Err(_) => None,
    }
}

impl Month {
    /// The number of days of this month in `year`; for February `None` outside the years
    /// that `chrono::NaiveDate` can hold.
    pub fn num_days(&self, year: i32) -> (r: Option<u8>)
        ensures
            r == chrono_num_days(month_number(*self) as int, year as int),
    {
        month_num_days(self.number_from_month(), year)
    }
}

/// Whether `(year, month, day)` is a date that `chrono::NaiveDate` can hold.
pub open spec fn valid_date(year: int, month: int, day: int) -> bool {
    year_in_range(year) && 1 <= month <= 12 && 1 <= day <= days_in_month(month, year)
}

/// The days before January 1 of `year`, counted from January 1 of year 1.
pub open spec fn days_before_year(year: int) -> int {
    365 * (year - 1) + (year - 1) / 4 - (year - 1) / 100 + (year - 1) / 400
}

/// The days of `year` before the first of month `m`.
pub open spec fn days_before_month(m: int, year: int) -> int {
    let common: int = if m == 1 { 0 } else if m == 2 { 31 } else if m == 3 { 59 } else if m == 4 { 90 }
        else if m == 5 { 120 } else if m == 6 { 151 } else if m == 7 { 181 } else if m == 8 { 212 }
        else if m == 9 { 243 } else if m == 10 { 273 } else if m == 11 { 304 } else { 334 };
    common + (if m > 2 && is_leap_year(year) { 1int } else { 0int })
}

/// The day of the Common Era: January 1 of year 1 is day 1.
pub open spec fn day_of_era(year: int, month: int, day: int) -> int {
    days_before_year(year) + days_before_month(month, year) + day
}

/// Days since the last Monday (Monday is 0): January 1 of year 1 was a Monday.
pub open spec fn weekday_number(year: int, month: int, day: int) -> int {
    (day_of_era(year, month, day) - 1) % 7
}

/// The days of a year before a month are those of the months before it: none before
/// January, each month adds its length, and the whole year has 365 days, or 366 in a leap
/// year; the next year starts that many days later.
pub proof fn lemma_days_before_month(m: int, year: int)
    requires
        1 <= m <= 12,
    ensures
        days_before_month(1, year) == 0,
        m < 12 ==> days_before_month(m + 1, year) == days_before_month(m, year) + days_in_month(m, year),
        days_before_month(12, year) + days_in_month(12, year) == (if is_leap_year(year) { 366int } else { 365int }),
        days_before_year(year + 1) == days_before_year(year) + (if is_leap_year(year) { 366int } else { 365int }),
{
    let y = year - 1;
    assert((y + 1) / 4 == y / 4 + (if (y + 1) % 4 == 0 { 1int } else { 0int })) by (nonlinear_arith);
    assert((y + 1) / 100 == y / 100 + (if (y + 1) % 100 == 0 { 1int } else { 0int })) by (nonlinear_arith);
    assert((y + 1) / 400 == y / 400 + (if (y + 1) % 400 == 0 { 1int } else { 0int })) by (nonlinear_arith);
}

/// The next day: the following day of the month, else the first of the next month, else
/// January 1 of the next year.
pub open spec fn next_date(year: int, month: int, day: int) -> (int, int, int) {
    if day < days_in_month(month, year) {
        (year, month, day + 1)
    } else if month < 12 {
        (year, month + 1, 1)
    } else {
        (year + 1, 1, 1)
    }
}

/// Days follow each other: the day after a date is one day later in the era, and falls on
/// the next day of the week (Sunday, 6, is followed by Monday, 0).
pub proof fn lemma_next_day(year: int, month: int, day: int)
    requires
        1 <= month <= 12,
        1 <= day <= days_in_month(month, year),
    ensures
        ({
            let (y, m, d) = next_date(year, month, day);
            &&& day_of_era(y, m, d) == day_of_era(year, month, day) + 1
            &&& weekday_number(y, m, d) == (weekday_number(year, month, day) + 1) % 7
        }),
{
    lemma_days_before_month(month, year);
    let e = day_of_era(year, month, day);
    assert((e + 1 - 1) % 7 == ((e - 1) % 7 + 1) % 7) by (nonlinear_arith);
}

/// `chrono::NaiveDate::weekday().num_days_from_monday()` on a valid date.
#[verifier::external_body]
fn weekday_from_monday(year: i32, month: u32, day: u32) -> (r: u32)
    requires
        valid_date(year as int, month as int, day as int),
    ensures
        r == weekday_number(year as int, month as int, day as int),
{
    match chrono::NaiveDate::from_ymd_opt(year, month, day) {
        Some(d) => d.weekday().num_days_from_monday(),
        None => 0,
    }
}

/// Where the first of the month stands in its week for a day in range, Monday being 0.
pub fn weekday_offset_of(d: &CalDate) -> (r: u32)
    requires
        valid_date(d.year as int, d.month as int, d.day as int),
    ensures
        r == weekday_number(d.year as int, d.month as int, d.day as int),
        r < 7,
{
    weekday_from_monday(d.year, d.month, d.day)
}

/// The days of the week.
#[derive(Debug, PartialEq, Eq, Clone, Copy, Structural)]
pub enum Weekday {
    Mon,
    Tue,
    Wed,
    Thu,
    Fri,
    Sat,
    Sun,
}

/// The day of the week that is `n` days after a Monday (for `n` below 7).
pub open spec fn weekday_of_number(n: int) -> Weekday {
    if n == 0 {
        Weekday::Mon
    } else if n == 1 {
        Weekday::Tue
    } else if n == 2 {
        Weekday::Wed
    } else if n == 3 {
        Weekday::Thu
    } else if n == 4 {
        Weekday::Fri
    } else if n == 5 {
        Weekday::Sat
    } else {
        Weekday::Sun
    }
}

/// A day of the calendar.
#[derive(Debug, PartialEq, Eq, Clone, Copy, Structural)]
pub struct CalDate {
    pub year: i32,
    pub month: u32,
    pub day: u32,
}

impl CalDate {
    /// The year.
    pub fn year(&self) -> (r: i32)
        ensures
            r == self.year,
    {
        self.year
    }

    /// The month, January being 1.
    pub fn month(&self) -> (r: u32)
        ensures
            r == self.month,
    {
        self.month
    }

    /// The day of the month.
    pub fn day(&self) -> (r: u32)
        ensures
            r == self.day,
    {
        self.day
    }

    /// The day of the week.
    pub fn weekday(&self) -> (r: Weekday)
        requires
            valid_date(self.year as int, self.month as int, self.day as int),
        ensures
            r == weekday_of_number(weekday_number(self.year as int, self.month as int, self.day as int)),
    {
        let n = weekday_from_monday(self.year, self.month, self.day);
        if n == 0 {
            Weekday::Mon
        } else if n == 1 {
            Weekday::Tue
        } else if n == 2 {
            Weekday::Wed
        } else if n == 3 {
            Weekday::Thu
        } else if n == 4 {
            Weekday::Fri
        } else if n == 5 {
            Weekday::Sat
        } else {
            Weekday::Sun
        }
    }
}

} // verus!
