use atlas::ace::date::LocalResolution;
use atlas::clock::{LocalDateTime, Month, Weekday};
use atlas::templates::calendar::Calendar;

#[test]
fn test_calendar_jan_2026() {
    let calendar = Calendar::new(Month::January, 2026);
    assert_eq!(calendar.days.len(), 42); // 6 weeks * 7 days
    println!("Calendar days:");
    for day in &calendar.days {
        println!("{}-{}-{}", day.date.year(), day.date.month(), day.date.day());
    }
    assert_eq!(calendar.days[0].date.day(), 29); // Last days of December 2025
    assert_eq!(calendar.days[0].date.weekday(), Weekday::Mon);
    assert_eq!(calendar.days[0].date.month(), 12);
    assert_eq!(calendar.days[0].date.year(), 2025);
    assert_eq!(calendar.days[2].date.day(), 31); // Last day of December 2025
    assert_eq!(calendar.days[2].date.weekday(), Weekday::Wed);
    assert_eq!(calendar.days[2].date.month(), 12);
    assert_eq!(calendar.days[2].date.year(), 2025);
    assert_eq!(calendar.days[3].date.day(), 1); // First day of January 2026
    assert_eq!(calendar.days[3].date.weekday(), Weekday::Thu);
    assert_eq!(calendar.days[3].date.month(), 1);
    assert_eq!(calendar.days[3].date.year(), 2026);
}

#[test]
fn test_calendar_feb_2026() {
    let calendar = Calendar::new(Month::February, 2026);
    assert_eq!(calendar.days.len(), 42); // 6 weeks * 7 days
    println!("Calendar days:");
    for day in &calendar.days {
        println!("{}-{}-{}", day.date.year(), day.date.month(), day.date.day());
    }
    assert_eq!(calendar.days[0].date.day(), 26); // Last days of January 2026
    assert_eq!(calendar.days[0].date.weekday(), Weekday::Mon);
    assert_eq!(calendar.days[0].date.month(), 1);
    assert_eq!(calendar.days[0].date.year(), 2026);
    assert_eq!(calendar.days[5].date.day(), 31); // Last day of January 2026
    assert_eq!(calendar.days[5].date.weekday(), Weekday::Sat);
    assert_eq!(calendar.days[5].date.month(), 1);
    assert_eq!(calendar.days[5].date.year(), 2026);
    assert_eq!(calendar.days[6].date.day(), 1); // First day of February 2026
    assert_eq!(calendar.days[6].date.weekday(), Weekday::Sun);
    assert_eq!(calendar.days[6].date.month(), 2);
    assert_eq!(calendar.days[6].date.year(), 2026);
    assert_eq!(calendar.days.last().unwrap().date.day(), 8); // Beginning of March 2026
    assert_eq!(calendar.days.last().unwrap().date.weekday(), Weekday::Sun);
    assert_eq!(calendar.days.last().unwrap().date.month(), 3);
    assert_eq!(calendar.days.last().unwrap().date.year(), 2026);
}

#[test]
fn calendar_days_are_consecutive_and_start_on_monday() {
    for (month, year) in [(Month::March, 2024), (Month::December, 2025), (Month::June, 2026)] {
        let calendar = Calendar::new(month, year);
        assert_eq!(calendar.days.len(), 42);
        assert_eq!(calendar.days[0].date.weekday(), Weekday::Mon);
        let current = calendar.days.iter().filter(|d| d.is_current_month).count();
        let expected = month.num_days(year).unwrap() as usize;
        assert_eq!(current, expected);
    }
}

#[test]
fn calendar_december_rolls_into_next_year() {
    let calendar = Calendar::new(Month::December, 2025);
    let last = calendar.days.last().unwrap();
    assert_eq!((last.date.year(), last.date.month()), (2026, 1));
    assert!(!last.is_current_month);
}

#[test]
fn calendar_event_titles() {
    let calendar = Calendar::new(Month::February, 2026);
    let first = &calendar.days[0];
    assert_eq!(first.events.len(), 2);
    assert_eq!(first.events[0].title, "Event on 2026-2-26");
    assert_eq!(first.events[0].hours, 4);
    let last = calendar.days.last().unwrap();
    assert_eq!(last.events[0].title, "Event on 2026-3-8");
    assert_eq!(last.events[1].title, "Event on 2026-2-8");
}

#[test]
fn month_lengths() {
    assert_eq!(Month::February.num_days(2024), Some(29));
    assert_eq!(Month::February.num_days(2023), Some(28));
    assert_eq!(Month::April.num_days(2023), Some(30));
    assert_eq!(Month::February.num_days(1_000_000), None);
}

#[test]
fn calendar_range_and_months() {
    assert!(Calendar::try_new(Month::May, 2026).is_some());
    assert!(Calendar::try_new(Month::May, 300_000).is_none());
    assert!(Calendar::try_new(Month::December, 262_142).is_none());
    assert_eq!(Month::from_number(3), Some(Month::March));
    assert_eq!(Month::from_number(0), None);
    assert_eq!(Month::from_number(13), None);
}

#[test]
fn local_date_time_validity() {
    let ok = LocalDateTime { year: 2024, month: 2, day: 29, hour: 23, minute: 59, second: 59, nanosecond: 0, offset: -3600 };
    assert!(ok.is_valid());
    assert!(!LocalDateTime { year: 2023, ..ok }.is_valid());
    assert!(!LocalDateTime { hour: 24, ..ok }.is_valid());
    assert!(!LocalDateTime { month: 13, ..ok }.is_valid());
    assert!(!LocalDateTime { offset: 86_400, ..ok }.is_valid());
}

#[test]
fn calendar_midnight_offsets() {
    let mut res = vec![LocalResolution::Single(3600); 42];
    res[5] = LocalResolution::Gap;
    res[6] = LocalResolution::Ambiguous(7200, 3600);
    let cal = Calendar::from_resolutions(Month::March, 2026, &res);
    assert_eq!(cal.days.len(), 42);
    assert_eq!(cal.days[0].offset, Some(3600));
    assert_eq!(cal.days[5].offset, None);
    assert_eq!(cal.days[6].offset, None);
    assert_eq!(cal.days[0].date.day(), 23);
}
