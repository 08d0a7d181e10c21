use vstd::prelude::*;

use chrono::{Datelike, Offset, Timelike};

use crate::clock::LocalDateTime;

verus! {

/// The year, month and day that `chrono::NaiveDate::parse_from_str` reads from `text`
/// with the format `fmt`, or `None` where it fails.
pub uninterp spec fn chrono_date_parse(text: Seq<char>, fmt: Seq<char>) -> Option<(i32, u32, u32)>;

/// The hour, minute, second and nanosecond that `chrono::NaiveTime::parse_from_str` reads
/// from `text` with the format `fmt`, or `None` where it fails.
pub uninterp spec fn chrono_time_parse(text: Seq<char>, fmt: Seq<char>) -> Option<(u32, u32, u32, u32)>;

/// The date and time of day that `chrono::NaiveDateTime::parse_from_str` reads from
/// `text` with the format `fmt`, or `None` where it fails.
pub uninterp spec fn chrono_datetime_parse(text: Seq<char>, fmt: Seq<char>) -> Option<
    (i32, u32, u32, u32, u32, u32, u32),
>;

/// `chrono::NaiveDate::parse_from_str(text, fmt)`, read back as year, month and day.
#[verifier::external_body]
fn date_parse(text: &str, fmt: &str) -> (r: Option<(i32, u32, u32)>)
    ensures
        r == chrono_date_parse(text@, fmt@),
{
    match chrono::NaiveDate::parse_from_str(text, fmt) {
        Ok(d) => Some((d.year(), d.month(), d.day())),
        Err(_) => None,
    }
}

/// `chrono::NaiveTime::parse_from_str(text, fmt)`, read back as hour, minute, second and
/// nanosecond.
#[verifier::external_body]
fn time_parse(text: &str, fmt: &str) -> (r: Option<(u32, u32, u32, u32)>)
    ensures
        r == chrono_time_parse(text@, fmt@),
{
    match chrono::NaiveTime::parse_from_str(text, fmt) {
        Ok(t) => Some((t.hour(), t.minute(), t.second(), t.nanosecond())),
        Err(_) => None,
    }
}

/// `chrono::NaiveDateTime::parse_from_str(text, fmt)`, read back as its seven fields.
#[verifier::external_body]
fn datetime_parse(text: &str, fmt: &str) -> (r: Option<(i32, u32, u32, u32, u32, u32, u32)>)
    ensures
        r == chrono_datetime_parse(text@, fmt@),
{
    match chrono::NaiveDateTime::parse_from_str(text, fmt) {
        Ok(d) => Some((d.year(), d.month(), d.day(), d.hour(), d.minute(), d.second(), d.nanosecond())),
        Err(_) => None,
    }
}

/// How the local time zone maps a wall-clock time: to one instant, to two (a fold,
/// earliest first), or to none (a gap). Each instant is given by its UTC offset in seconds.
#[derive(Debug, Clone, Copy)]
pub enum LocalResolution {
    Single(i32),
    Ambiguous(i32, i32),
    Gap,
}

/// `chrono::NaiveDateTime::and_local_timezone(chrono::Local)` on the given wall-clock time,
/// each resulting instant read back as its UTC offset. The answer depends on the time zone
/// of the machine, so nothing is stated of it; a date that is not valid maps to a gap.
#[verifier::external_body]
pub(crate) fn local_resolution(year: i32, month: u32, day: u32, hour: u32, minute: u32, second: u32, nano: u32) -> (r:
    LocalResolution) {
    let date = chrono::NaiveDate::from_ymd_opt(year, month, day);
    let time = chrono::NaiveTime::from_hms_nano_opt(hour, minute, second, nano);
    let (Some(date), Some(time)) = (date, time) else { return LocalResolution::Gap };
    match date.and_time(time).and_local_timezone(chrono::Local) {
        chrono::MappedLocalTime::Single(t) => LocalResolution::Single(t.offset().fix().local_minus_utc()),
        chrono::MappedLocalTime::Ambiguous(a, b) => LocalResolution::Ambiguous(
            a.offset().fix().local_minus_utc(),
            b.offset().fix().local_minus_utc(),
        ),
        chrono::MappedLocalTime::None => LocalResolution::Gap,
    }
}

/// The wall-clock fields of a date, without its offset.
pub type Wall = (i32, u32, u32, u32, u32, u32, u32);

/// The wall-clock fields of a date.
pub open spec fn wall_of(d: LocalDateTime) -> Wall {
    (d.year, d.month, d.day, d.hour, d.minute, d.second, d.nanosecond)
}

/// The wall-clock time written in `s`: the first of the formats `%Y-%m-%d` (at midnight),
/// `%H:%M` and `%H:%M:%S` (on 1970-01-01), `%Y-%m-%d %H:%M` and `%Y-%m-%d %H:%M:%S` that
/// reads it.
pub open spec fn spec_wall_time(s: Seq<char>) -> Option<Wall> {
    if let Some((y, m, d)) = chrono_date_parse(s, "%Y-%m-%d"@) {
        Some((y, m, d, 0u32, 0u32, 0u32, 0u32))
    } else if let Some((h, mi, sec, n)) = chrono_time_parse(s, "%H:%M"@) {
        Some((1970i32, 1u32, 1u32, h, mi, sec, n))
    } else if let Some((h, mi, sec, n)) = chrono_time_parse(s, "%H:%M:%S"@) {
        Some((1970i32, 1u32, 1u32, h, mi, sec, n))
    } else if let Some(w) = chrono_datetime_parse(s, "%Y-%m-%d %H:%M"@) {
        Some(w)
    } else if let Some(w) = chrono_datetime_parse(s, "%Y-%m-%d %H:%M:%S"@) {
        Some(w)
    } else {
        None
    }
}

/// The date at wall-clock time `w` as the local time zone resolves it: the only instant,
/// the earliest of two, or none in a gap.
pub open spec fn spec_resolve(w: Wall, res: LocalResolution) -> Option<LocalDateTime> {
    let date = |offset: i32| LocalDateTime {
        year: w.0,
        month: w.1,
        day: w.2,
        hour: w.3,
        minute: w.4,
        second: w.5,
        nanosecond: w.6,
        offset,
    };
    match res {
        LocalResolution::Single(o) => Some(date(o)),
        LocalResolution::Ambiguous(o, _) => Some(date(o)),
        LocalResolution::Gap => None,
    }
}

/// Whether `o` is an outcome that reading `s` as a local date can have: nothing where no
/// format reads it, else the wall-clock time that was read, or nothing where the local time
/// zone has no such time.
pub open spec fn date_outcome(s: Seq<char>, o: Option<LocalDateTime>) -> bool {
    match spec_wall_time(s) {
        None => o is None,
        Some(w) => o is None || (o matches Some(d) && wall_of(d) == w),
    }
}

/// Every one of the five formats is read: a text has a wall-clock time exactly when one of
/// them reads it, and then it is what the first of them that reads it gives: a date alone
/// at its midnight, a time alone on 1970-01-01, a date with a time as read. So
/// `2026-07-04 17:32:10`, which only `%Y-%m-%d %H:%M:%S` reads, has the time that format
/// reads.
pub proof fn lemma_wall_time_formats(s: Seq<char>)
    ensures
        spec_wall_time(s) is Some <==> (chrono_date_parse(s, "%Y-%m-%d"@) is Some || chrono_time_parse(
            s,
            "%H:%M"@,
        ) is Some || chrono_time_parse(s, "%H:%M:%S"@) is Some || chrono_datetime_parse(s, "%Y-%m-%d %H:%M"@) is Some
            || chrono_datetime_parse(s, "%Y-%m-%d %H:%M:%S"@) is Some),
        chrono_date_parse(s, "%Y-%m-%d"@) matches Some((y, m, d)) ==> spec_wall_time(s) == Some(
            (y, m, d, 0u32, 0u32, 0u32, 0u32),
        ),
        chrono_date_parse(s, "%Y-%m-%d"@) is None ==> (chrono_time_parse(s, "%H:%M"@) matches Some((h, mi, sec, n))
            ==> spec_wall_time(s) == Some((1970i32, 1u32, 1u32, h, mi, sec, n))),
        chrono_date_parse(s, "%Y-%m-%d"@) is None && chrono_time_parse(s, "%H:%M"@) is None ==> (chrono_time_parse(
            s,
            "%H:%M:%S"@,
        ) matches Some((h, mi, sec, n)) ==> spec_wall_time(s) == Some((1970i32, 1u32, 1u32, h, mi, sec, n))),
        chrono_date_parse(s, "%Y-%m-%d"@) is None && chrono_time_parse(s, "%H:%M"@) is None && chrono_time_parse(
            s,
            "%H:%M:%S"@,
        ) is None ==> (chrono_datetime_parse(s, "%Y-%m-%d %H:%M"@) matches Some(w) ==> spec_wall_time(s) == Some(w)),
        chrono_date_parse(s, "%Y-%m-%d"@) is None && chrono_time_parse(s, "%H:%M"@) is None && chrono_time_parse(
            s,
            "%H:%M:%S"@,
        ) is None && chrono_datetime_parse(s, "%Y-%m-%d %H:%M"@) is None ==> (chrono_datetime_parse(
            s,
            "%Y-%m-%d %H:%M:%S"@,
        ) matches Some(w) ==> spec_wall_time(s) == Some(w)),
{
}

/// Reading a date in the local time zone gives one whenever a format reads the text and
/// the time zone has that wall-clock time: the earliest instant at that time.
pub proof fn lemma_parsed_date_resolves(s: Seq<char>, res: LocalResolution)
    requires
        spec_wall_time(s) is Some,
        !(res is Gap),
    ensures
        spec_resolve(spec_wall_time(s)->0, res) matches Some(d) && wall_of(d) == spec_wall_time(s)->0
            && date_outcome(s, Some(d)),
{
}

/// Resolves wall-clock time `w` in the local time zone: the only instant, or the earliest
/// of two in a fold, or nothing in a gap.
pub fn unwrap_local_time(w: Wall, res: LocalResolution) -> (r: Option<LocalDateTime>)
    ensures
        r == spec_resolve(w, res),
{
    let offset = match res {
        LocalResolution::Single(o) => o,
        LocalResolution::Ambiguous(o, _) => o,
        LocalResolution::Gap => {
            return None;
        },
    };
    Some(
        LocalDateTime {
            year: w.0,
            month: w.1,
            day: w.2,
            hour: w.3,
            minute: w.4,
            second: w.5,
            nanosecond: w.6,
            offset,
        },
    )
}

/// The wall-clock time written in `s`, in the first format that reads it.
pub fn wall_time(s: &str) -> (r: Option<Wall>)
    ensures
        r == spec_wall_time(s@),
{
    if let Some((y, m, d)) = date_parse(s, "%Y-%m-%d") {
        return Some((y, m, d, 0, 0, 0, 0));
    }
    if let Some((h, mi, sec, n)) = time_parse(s, "%H:%M") {
        return Some((1970, 1, 1, h, mi, sec, n));
    }
    if let Some((h, mi, sec, n)) = time_parse(s, "%H:%M:%S") {
        return Some((1970, 1, 1, h, mi, sec, n));
    }
    if let Some(w) = datetime_parse(s, "%Y-%m-%d %H:%M") {
        return Some(w);
    }
    if let Some(w) = datetime_parse(s, "%Y-%m-%d %H:%M:%S") {
        return Some(w);
    }
    None
}

/// Reads a local date such as `2026-09-28`, `17:32` or `2026-07-04 17:32`: a date alone
/// stands for its midnight, a time alone for that time on 1970-01-01. `None` where no format
/// reads `s`, or where the local time zone skips that time.
pub fn parse_date(s: &str) -> (r: Option<LocalDateTime>)
    ensures
        date_outcome(s@, r),
        spec_wall_time(s@) is None ==> r is None,
{
    match wall_time(s) {
        None => None,
        Some(w) => unwrap_local_time(w, local_resolution(w.0, w.1, w.2, w.3, w.4, w.5, w.6)),
    }
}

} // verus!
