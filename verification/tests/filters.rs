use atlas::clock::LocalDateTime;
use atlas::filters::{
    choose_rand, format_date, format_date_query, format_date_time, format_month, format_time,
    human_time_since, markdown, owner_icon_url, strip_headers, time_since, urldecode, urlencode,
};

fn at(year: i32, month: u32, day: u32, hour: u32, minute: u32) -> LocalDateTime {
    LocalDateTime { year, month, day, hour, minute, second: 0, nanosecond: 0, offset: 3600 }
}

#[test]
fn human_time_since_units() {
    assert_eq!(human_time_since(0), "just now");
    assert_eq!(human_time_since(4), "just now");
    assert_eq!(human_time_since(-4), "just now");
    assert_eq!(human_time_since(5), "5 seconds ago");
    assert_eq!(human_time_since(61), "1 minute ago");
    assert_eq!(human_time_since(7200), "2 hours ago");
    assert_eq!(human_time_since(86400), "1 day ago");
    assert_eq!(human_time_since(14 * 86400), "2 weeks ago");
    assert_eq!(human_time_since(35 * 86400), "1 month ago");
    assert_eq!(human_time_since(800 * 86400), "2 years ago");
    assert_eq!(human_time_since(-3600), "in 1 hour");
    assert_eq!(human_time_since(-90), "in 1 minute");
}

#[test]
fn time_since_is_relative_to_now() {
    let long_ago = at(2000, 1, 1, 12, 0);
    assert!(time_since(&long_ago).ends_with("years ago"));
    let far_ahead = at(2999, 1, 1, 12, 0);
    assert!(time_since(&far_ahead).starts_with("in "));
}

#[test]
fn filter_date_formats() {
    let d = at(2026, 7, 4, 9, 5);
    assert_eq!(format_time(&d), "09:05");
    assert_eq!(format_date(&d), "2026-07-04");
    assert_eq!(format_date_time(&d), "2026-07-04 09:05");
    assert_eq!(format_month(&d), "July 2026");
    assert_eq!(format_date(&at(987, 12, 31, 0, 0)), "0987-12-31");
    assert_eq!(format_date(&at(12345, 1, 2, 0, 0)), "+12345-01-02");
    assert_eq!(format_month(&at(-44, 3, 15, 0, 0)), "March -0044");
}

#[test]
fn date_query_is_rfc3339() {
    assert_eq!(format_date_query(&at(2026, 7, 4, 9, 5)), "2026-07-04T09:05:00+01:00");
}

#[test]
fn url_encoding() {
    assert_eq!(urlencode("a b&c=ö~"), "a%20b%26c%3D%C3%B6~");
    assert_eq!(urlencode("plain-text_1.0"), "plain-text_1.0");
    assert_eq!(urldecode("a%20b%26c"), Some("a b&c".to_string()));
    assert_eq!(urldecode("100%"), Some("100%".to_string()));
    assert_eq!(urldecode("%FF"), None);
}

#[test]
fn markdown_renders_links() {
    let html = markdown("**hi** https://datasektionen.se");
    assert!(html.contains("<strong>hi</strong>"));
    assert!(html.contains("<a href=\"https://datasektionen.se\">"));
}

#[test]
fn strip_headers_keeps_header_text() {
    assert_eq!(strip_headers("# Title\nbody"), "Title\nbody");
    assert_eq!(strip_headers("## This \n text"), "This \n text");
    assert_eq!(strip_headers("\n\nplain\n\n"), "plain");
}

#[test]
fn owner_icon() {
    assert_eq!(
        owner_icon_url("anyone"),
        "https://dsekt-assets.s3.eu-west-1.amazonaws.com/shield-color-white-delta.png"
    );
}

#[test]
fn choose_rand_picks_a_line() {
    assert_eq!(choose_rand(""), "");
    assert_eq!(choose_rand("  only  "), "only");
    for _ in 0..20 {
        let c = choose_rand("\n one\ntwo\nthree \n");
        assert!(c == "one" || c == "two" || c == "three", "{c}");
    }
}

#[test]
fn date_query_rounds_offset_to_minutes() {
    let d = LocalDateTime { year: 2026, month: 1, day: 2, hour: 3, minute: 4, second: 5, nanosecond: 0, offset: -(5 * 3600 + 30 * 60 + 45) };
    assert_eq!(format_date_query(&d), "2026-01-02T03:04:05-05:31");
    let d = LocalDateTime { offset: -(5 * 3600 + 30 * 60 + 15), ..d };
    assert_eq!(format_date_query(&d), "2026-01-02T03:04:05-05:30");
}

#[test]
fn utc_range_edges() {
    let last = LocalDateTime { year: 262142, month: 12, day: 31, hour: 23, minute: 59, second: 59, nanosecond: 0, offset: -1 };
    assert!(last.is_valid());
    assert!(!last.in_utc_range());
    assert!(LocalDateTime { offset: 0, ..last }.in_utc_range());
    let first = LocalDateTime { year: -262143, month: 1, day: 1, hour: 0, minute: 0, second: 0, nanosecond: 0, offset: 60 };
    assert!(!first.in_utc_range());
    assert!(at(2026, 7, 4, 9, 5).in_utc_range());
}

#[test]
fn fractions_of_a_second() {
    let d = LocalDateTime { nanosecond: 250_000_000, ..at(2026, 7, 4, 9, 5) };
    assert_eq!(format_date_query(&d), "2026-07-04T09:05:00.250+01:00");
    let d = LocalDateTime { nanosecond: 1_500, ..at(2026, 7, 4, 9, 5) };
    assert_eq!(format_date_query(&d), "2026-07-04T09:05:00.000001500+01:00");
    let leap = LocalDateTime { second: 59, nanosecond: 1_000_000_000, ..at(2016, 12, 31, 23, 59) };
    assert!(leap.is_valid());
    assert_eq!(format_date_query(&leap), "2016-12-31T23:59:60+01:00");
    assert!(!LocalDateTime { second: 58, ..leap }.is_valid());
}
