use vstd::prelude::*;

use crate::ace::text::{
    chars_of, i64_text, int_text, nat_digits, split_seq, split_text, string_from_chars, trim_seq, trim_text,
};
use vstd::string::StringSliceAdditionalSpecFns;
use crate::ace::display::{fraction_text, pad2, shown_nano, shown_second};
use crate::clock::{days_in_month, utc_in_range, valid_local, LocalDateTime};
use crate::config::hex_digit_value;

verus! {

/// The absolute value of `x`.
pub open spec fn abs(x: int) -> int {
    if x < 0 {
        -x
    } else {
        x
    }
}

/// `n` units, the unit's name taking an `s` unless `n` is one.
pub open spec fn count_text(n: int, unit: Seq<char>) -> Seq<char> {
    int_text(n) + " "@ + unit + (if n == 1 { ""@ } else { "s"@ })
}

/// How long `s` seconds (at least 0) is, in the largest unit that fits: below five seconds
/// it is "just now"; a month is thirty days and a year 365.
pub open spec fn human_span(s: int) -> Seq<char> {
    if s < 5 {
        "just now"@
    } else if s < 60 {
        count_text(s, "second"@)
    } else if s < 3600 {
        count_text(s / 60, "minute"@)
    } else if s < 86400 {
        count_text(s / 3600, "hour"@)
    } else if s < 7 * 86400 {
        count_text(s / 86400, "day"@)
    } else if s < 30 * 86400 {
        count_text(s / 604800int, "week"@)
    } else if s < 365 * 86400 {
        count_text(s / 2592000int, "month"@)
    } else {
        count_text(s / 31536000int, "year"@)
    }
}

/// How long ago a moment `seconds` in the past was: "just now", "N units ago", or for a
/// moment in the future (negative `seconds`) "in N units".
pub open spec fn spec_time_since(seconds: int) -> Seq<char> {
    let s = abs(seconds);
    if s < 5 {
        "just now"@
    } else if seconds < 0 {
        "in "@ + human_span(s)
    } else {
        human_span(s) + " ago"@
    }
}

/// `n` units as text.
fn count_string(n: i64, unit: &str) -> (r: String)
    ensures
        r@ == count_text(n as int, unit@),
{
    let mut r = i64_text(n);
    r.append(" ");
    r.append(unit);
    if n != 1 {
        r.append("s");
    } else {
        proof {
            reveal_strlit("");
            assert(r@ =~= r@ + ""@);
        }
    }
    r
}

/// How long a span of `s` seconds is.
fn human_span_text(s: i64) -> (r: String)
    requires
        s >= 0,
    ensures
        r@ == human_span(s as int),
{
    if s < 5 {
        String::from_str("just now")
    } else if s < 60 {
        count_string(s, "second")
    } else if s < 3600 {
        count_string(s / 60, "minute")
    } else if s < 86400 {
        count_string(s / 3600, "hour")
    } else if s < 7 * 86400 {
        count_string(s / 86400, "day")
    } else if s < 30 * 86400 {
        count_string(s / (7 * 86400), "week")
    } else if s < 365 * 86400 {
        count_string(s / (30 * 86400), "month")
    } else {
        count_string(s / (365 * 86400), "year")
    }
}

/// A moment in the future and one in the past at the same distance read as the same span:
/// "in" before it for the one, "ago" after it for the other.
pub proof fn lemma_time_since_symmetric(seconds: int)
    requires
        seconds >= 5,
    ensures
        spec_time_since(seconds) == human_span(seconds) + " ago"@,
        spec_time_since(-seconds) == "in "@ + human_span(seconds),
{
}

/// How long ago a moment `seconds` in the past was (in the future when negative).
pub fn human_time_since(seconds: i64) -> (r: String)
    requires
        seconds > i64::MIN,
    ensures
        r@ == spec_time_since(seconds as int),
{
    let s = if seconds < 0 {
        -seconds
    } else {
        seconds
    };
    if s < 5 {
        String::from_str("just now")
    } else if seconds < 0 {
        let h = human_span_text(s);
        let mut r = String::from_str("in ");
        r.append(h.as_str());
        r
    } else {
        let mut r = human_span_text(s);
        r.append(" ago");
        r
    }
}

/// `chrono::Local::now().signed_duration_since(value).num_seconds()`: the whole seconds
/// from `value` to the present, which depend on the clock. A `TimeDelta` holds at most
/// `i64::MAX` milliseconds either way, so the result is within that many seconds / 1000.
/// Building the moment fails, and unwrapping panics, only where its UTC moment leaves the
/// range of dates, which `requires` rules out.
#[verifier::external_body]
fn seconds_since(value: LocalDateTime) -> (r: i64)
    requires
        valid_local(value),
        utc_in_range(value),
    ensures
        -9223372036854775 <= r <= 9223372036854775,
{
    let offset = chrono::FixedOffset::east_opt(value.offset).unwrap();
    let naive = chrono::NaiveDate::from_ymd_opt(value.year, value.month, value.day).unwrap()
        .and_hms_nano_opt(value.hour, value.minute, value.second, value.nanosecond).unwrap();
    let then = chrono::TimeZone::from_local_datetime(&offset, &naive).unwrap();
    chrono::Local::now().signed_duration_since(then).num_seconds()
}

/// How long ago `value` was, or how long until it comes: "just now", "3 hours ago",
/// "in 2 days".
pub fn time_since(value: &LocalDateTime) -> (r: String)
    requires
        valid_local(*value),
        utc_in_range(*value),
    ensures
        exists|s: int| -9223372036854775 <= s <= 9223372036854775 && r@ == spec_time_since(s),
{
    let s = seconds_since(*value);
    human_time_since(s)
}

/// The character of decimal digit `d`.
pub open spec fn digit_of(d: int) -> char {
    (('0' as int) + d) as char
}

/// A number below 100 as two digits.
pub open spec fn two_digits(v: int) -> Seq<char> {
    seq![digit_of(v / 10), digit_of(v % 10)]
}

/// `s` with zeros in front, up to `n` characters.
pub open spec fn zero_pad(s: Seq<char>, n: int) -> Seq<char> {
    if s.len() < n {
        Seq::new((n - s.len()) as nat, |i: int| '0') + s
    } else {
        s
    }
}

/// How `chrono` writes a year for `%Y`: four digits at least, with a sign outside the
/// years 0 to 9999.
pub open spec fn year_text(y: int) -> Seq<char> {
    if 0 <= y <= 9999 {
        zero_pad(nat_digits(y as nat), 4)
    } else if y < 0 {
        seq!['-'] + zero_pad(nat_digits((-y) as nat), 4)
    } else {
        seq!['+'] + zero_pad(nat_digits(y as nat), 4)
    }
}

/// The English name of month `m` (1 to 12).
pub open spec fn month_name(m: int) -> Seq<char> {
    if m == 1 {
        "January"@
    } else if m == 2 {
        "February"@
    } else if m == 3 {
        "March"@
    } else if m == 4 {
        "April"@
    } else if m == 5 {
        "May"@
    } else if m == 6 {
        "June"@
    } else if m == 7 {
        "July"@
    } else if m == 8 {
        "August"@
    } else if m == 9 {
        "September"@
    } else if m == 10 {
        "October"@
    } else if m == 11 {
        "November"@
    } else {
        "December"@
    }
}

/// The English names of the months, in order from January to December, as `%B` writes
/// them.
pub open spec fn english_month_names() -> Seq<Seq<char>> {
    seq![
        "January"@,
        "February"@,
        "March"@,
        "April"@,
        "May"@,
        "June"@,
        "July"@,
        "August"@,
        "September"@,
        "October"@,
        "November"@,
        "December"@,
    ]
}

/// Month `m` is called by its English name: 1 January, 2 February, and so on to 12
/// December; and `%B %Y` begins with it.
pub proof fn lemma_month_names(m: int, dt: LocalDateTime)
    requires
        1 <= m <= 12,
        1 <= dt.month <= 12,
    ensures
        month_name(m) == english_month_names()[m - 1],
        spec_format_month(dt) == english_month_names()[dt.month - 1] + " "@ + year_text(dt.year as int),
{
}

/// No two months have the same name.
pub proof fn lemma_month_names_distinct(a: int, b: int)
    requires
        1 <= a <= 12,
        1 <= b <= 12,
        a != b,
    ensures
        month_name(a) != month_name(b),
{
    reveal_strlit("January");
    reveal_strlit("February");
    reveal_strlit("March");
    reveal_strlit("April");
    reveal_strlit("May");
    reveal_strlit("June");
    reveal_strlit("July");
    reveal_strlit("August");
    reveal_strlit("September");
    reveal_strlit("October");
    reveal_strlit("November");
    reveal_strlit("December");
    assert(month_name(a)[0] != month_name(b)[0] || month_name(a)[1] != month_name(b)[1] || month_name(a)[2]
        != month_name(b)[2] || month_name(a).len() != month_name(b).len());
}

/// The months of 30 days are April, June, September and November, and only February is
/// shorter, whatever the year.
pub proof fn lemma_month_lengths_by_name(m: int, year: int)
    requires
        1 <= m <= 12,
    ensures
        days_in_month(m, year) == 30 <==> (month_name(m) == "April"@ || month_name(m) == "June"@ || month_name(m)
            == "September"@ || month_name(m) == "November"@),
        days_in_month(m, year) < 30 <==> month_name(m) == "February"@,
{
    if month_name(m) == "April"@ && m != 4 {
        lemma_month_names_distinct(m, 4);
    }
    if month_name(m) == "June"@ && m != 6 {
        lemma_month_names_distinct(m, 6);
    }
    if month_name(m) == "September"@ && m != 9 {
        lemma_month_names_distinct(m, 9);
    }
    if month_name(m) == "November"@ && m != 11 {
        lemma_month_names_distinct(m, 11);
    }
    if month_name(m) == "February"@ && m != 2 {
        lemma_month_names_distinct(m, 2);
    }
}

/// `%H:%M`.
pub open spec fn spec_format_time(dt: LocalDateTime) -> Seq<char> {
    two_digits(dt.hour as int) + ":"@ + two_digits(dt.minute as int)
}

/// `%Y-%m-%d`.
pub open spec fn spec_format_date(dt: LocalDateTime) -> Seq<char> {
    year_text(dt.year as int) + "-"@ + two_digits(dt.month as int) + "-"@ + two_digits(dt.day as int)
}

/// `%Y-%m-%d %H:%M`.
pub open spec fn spec_format_date_time(dt: LocalDateTime) -> Seq<char> {
    spec_format_date(dt) + " "@ + spec_format_time(dt)
}

/// `%B %Y`.
pub open spec fn spec_format_month(dt: LocalDateTime) -> Seq<char> {
    month_name(dt.month as int) + " "@ + year_text(dt.year as int)
}

/// The character of decimal digit `d`.
fn digit_char(d: u32) -> (r: char)
    requires
        d < 10,
    ensures
        r == digit_of(d as int),
{
    if d == 0 {
        '0'
    } else if d == 1 {
        '1'
    } else if d == 2 {
        '2'
    } else if d == 3 {
        '3'
    } else if d == 4 {
        '4'
    } else if d == 5 {
        '5'
    } else if d == 6 {
        '6'
    } else if d == 7 {
        '7'
    } else if d == 8 {
        '8'
    } else {
        '9'
    }
}

/// Appends `v` (below 100) as two digits.
fn push_two_digits(out: &mut Vec<char>, v: u32)
    requires
        v < 100,
    ensures
        final(out)@ == old(out)@ + two_digits(v as int),
{
    out.push(digit_char(v / 10));
    out.push(digit_char(v % 10));
    assert(out@ =~= old(out)@ + two_digits(v as int));
}

/// Appends the characters of `s`.
pub(crate) fn push_str_chars(out: &mut Vec<char>, s: &str)
    ensures
        final(out)@ == old(out)@ + s@,
{
    let mut cs = chars_of(s);
    out.append(&mut cs);
}

/// Appends `y` as `%Y` writes it.
pub(crate) fn push_year(out: &mut Vec<char>, y: i32)
    ensures
        final(out)@ == old(out)@ + year_text(y as int),
{
    let ghost start = out@;
    let a: i64 = if y < 0 {
        -(y as i64)
    } else {
        y as i64
    };
    if y > 9999 {
        out.push('+');
    } else if y < 0 {
        out.push('-');
    }
    let ghost signed = out@;
    let digits = chars_of(i64_text(a).as_str());
    assert(digits@ == nat_digits(a as nat));
    let mut k: usize = digits.len();
    while k < 4
        invariant
            digits@.len() <= k <= 4 || (k == digits@.len() && k >= 4),
            out@ == signed + Seq::new((k - digits@.len()) as nat, |i: int| '0'),
        decreases 4 - k,
    {
        out.push('0');
        k = k + 1;
        assert(out@ =~= signed + Seq::new((k - digits@.len()) as nat, |i: int| '0'));
    }
    let ghost padded = out@;
    let mut d = digits;
    out.append(&mut d);
    proof {
        let n: nat = if 0 <= y { y as nat } else { (-y) as nat };
        assert(a == n);
        assert(zero_pad(nat_digits(n), 4) =~= Seq::new((k - nat_digits(n).len()) as nat, |i: int| '0')
            + nat_digits(n));
        assert(out@ =~= start + year_text(y as int));
    }
}

/// The month name of a month number (1 to 12).
fn month_name_text(m: u32) -> (r: &'static str)
    requires
        1 <= m <= 12,
    ensures
        r@ == month_name(m as int),
{
    if m == 1 {
        "January"
    } else if m == 2 {
        "February"
    } else if m == 3 {
        "March"
    } else if m == 4 {
        "April"
    } else if m == 5 {
        "May"
    } else if m == 6 {
        "June"
    } else if m == 7 {
        "July"
    } else if m == 8 {
        "August"
    } else if m == 9 {
        "September"
    } else if m == 10 {
        "October"
    } else if m == 11 {
        "November"
    } else {
        "December"
    }
}

/// The time of day of `value`, as `%H:%M`.
pub fn format_time(value: &LocalDateTime) -> (r: String)
    requires
        valid_local(*value),
    ensures
        r@ == spec_format_time(*value),
{
    let mut out: Vec<char> = Vec::new();
    push_two_digits(&mut out, value.hour);
    out.push(':');
    push_two_digits(&mut out, value.minute);
    proof {
        reveal_strlit(":");
    }
    assert(out@ =~= spec_format_time(*value));
    string_from_chars(out.as_slice())
}

/// Appends the date of `value` as `%Y-%m-%d`.
fn push_date(out: &mut Vec<char>, value: &LocalDateTime)
    requires
        valid_local(*value),
    ensures
        final(out)@ == old(out)@ + spec_format_date(*value),
{
    push_year(out, value.year);
    out.push('-');
    push_two_digits(out, value.month);
    out.push('-');
    push_two_digits(out, value.day);
    proof {
        reveal_strlit("-");
    }
    assert(out@ =~= old(out)@ + spec_format_date(*value));
}

/// The date of `value`, as `%Y-%m-%d`.
pub fn format_date(value: &LocalDateTime) -> (r: String)
    requires
        valid_local(*value),
    ensures
        r@ == spec_format_date(*value),
{
    let mut out: Vec<char> = Vec::new();
    push_date(&mut out, value);
    assert(out@ =~= spec_format_date(*value));
    string_from_chars(out.as_slice())
}

/// The date and time of day of `value`, as `%Y-%m-%d %H:%M`.
pub fn format_date_time(value: &LocalDateTime) -> (r: String)
    requires
        valid_local(*value),
    ensures
        r@ == spec_format_date_time(*value),
{
    let mut out: Vec<char> = Vec::new();
    push_date(&mut out, value);
    out.push(' ');
    push_two_digits(&mut out, value.hour);
    out.push(':');
    push_two_digits(&mut out, value.minute);
    proof {
        reveal_strlit(":");
        reveal_strlit(" ");
    }
    assert(out@ =~= spec_format_date_time(*value));
    string_from_chars(out.as_slice())
}

/// The month and year of `value`, as `%B %Y`.
pub fn format_month(value: &LocalDateTime) -> (r: String)
    requires
        valid_local(*value),
    ensures
        r@ == spec_format_month(*value),
{
    let mut out: Vec<char> = Vec::new();
    push_str_chars(&mut out, month_name_text(value.month));
    out.push(' ');
    push_year(&mut out, value.year);
    proof {
        reveal_strlit(" ");
    }
    assert(out@ =~= spec_format_month(*value));
    string_from_chars(out.as_slice())
}

/// How `chrono`'s RFC 3339 text writes a UTC offset of `o` seconds: sign, hours and
/// minutes, the seconds rounded to the nearest minute.
pub open spec fn rfc3339_offset(o: int) -> Seq<char> {
    let minutes = (abs(o) + 30) / 60;
    (if o < 0 { "-"@ } else { "+"@ }) + pad2((minutes / 60) as nat) + ":"@ + pad2((minutes % 60) as nat)
}

/// What `chrono::DateTime::to_rfc3339` writes for a moment with these fields and offset:
/// `%Y-%m-%dT%H:%M:%S`, the fraction of a second where there is one, and the offset.
pub open spec fn rfc3339_text(
    year: int,
    month: int,
    day: int,
    hour: int,
    minute: int,
    second: int,
    nanosecond: int,
    offset: int,
) -> Seq<char> {
    year_text(year) + "-"@ + pad2(month as nat) + "-"@ + pad2(day as nat) + "T"@ + pad2(hour as nat) + ":"@ + pad2(
        minute as nat,
    ) + ":"@ + pad2(shown_second(second, nanosecond) as nat) + fraction_text(shown_nano(nanosecond))
        + rfc3339_offset(offset)
}

/// `chrono::DateTime::<FixedOffset>::to_rfc3339` on the moment `value`: the date, `T`, the
/// time of day and the offset rounded to minutes, as `rfc3339_text` says. Building the moment fails only where its UTC moment leaves the range of
/// dates, which `requires` rules out.
#[verifier::external_body]
fn rfc3339(value: LocalDateTime) -> (r: String)
    requires
        valid_local(value),
        utc_in_range(value),
    ensures
        r@ == rfc3339_text(
            value.year as int,
            value.month as int,
            value.day as int,
            value.hour as int,
            value.minute as int,
            value.second as int,
            value.nanosecond as int,
            value.offset as int,
        ),
{
    let offset = chrono::FixedOffset::east_opt(value.offset).unwrap();
    let naive = chrono::NaiveDate::from_ymd_opt(value.year, value.month, value.day).unwrap()
        .and_hms_nano_opt(value.hour, value.minute, value.second, value.nanosecond).unwrap();
    chrono::TimeZone::from_local_datetime(&offset, &naive).unwrap().to_rfc3339()
}

/// `value` as RFC 3339 text, for use in a query string.
pub fn format_date_query(value: &LocalDateTime) -> (r: String)
    requires
        valid_local(*value),
        utc_in_range(*value),
    ensures
        r@ == rfc3339_text(
            value.year as int,
            value.month as int,
            value.day as int,
            value.hour as int,
            value.minute as int,
            value.second as int,
            value.nanosecond as int,
            value.offset as int,
        ),
{
    rfc3339(*value)
}

/// Whether `urlencoding` leaves byte `b` as it is: ASCII letters and digits, `-`, `.`, `_`
/// and `~`.
pub open spec fn url_safe(b: u8) -> bool {
    ||| 48 <= b <= 57
    ||| 65 <= b <= 90
    ||| 97 <= b <= 122
    ||| b == 45 || b == 46 || b == 95 || b == 126
}

/// The upper-case hexadecimal digit of `d` (below 16).
pub open spec fn hex_upper(d: int) -> char {
    if d < 10 {
        (48 + d) as char
    } else {
        (55 + d) as char
    }
}

/// A percent-encoded byte reads back: the two digits after `%` are hexadecimal digits whose
/// values, high half first, make the byte.
pub proof fn lemma_hex_digits_read_back(b: u8)
    ensures
        hex_digit_value(hex_upper(b as int / 16)) == Some(b as int / 16),
        hex_digit_value(hex_upper(b as int % 16)) == Some(b as int % 16),
        (b as int / 16) * 16 + b as int % 16 == b,
{
    let hi = b as int / 16;
    let lo = b as int % 16;
    assert(0 <= hi < 16 && 0 <= lo < 16);
    if hi < 10 {
        assert(((48 + hi) as char) as int == 48 + hi);
    } else {
        assert(((55 + hi) as char) as int == 55 + hi);
    }
    if lo < 10 {
        assert(((48 + lo) as char) as int == 48 + lo);
    } else {
        assert(((55 + lo) as char) as int == 55 + lo);
    }
}

/// Bytes percent-encoded: each byte that is not safe becomes `%` and two upper-case
/// hexadecimal digits.
pub open spec fn url_encoded(bytes: Seq<u8>) -> Seq<char>
    decreases bytes.len(),
{
    if bytes.len() == 0 {
        Seq::empty()
    } else {
        let b = bytes.last();
        url_encoded(bytes.drop_last()) + (if url_safe(b) {
            seq![b as char]
        } else {
            seq!['%', hex_upper(b as int / 16), hex_upper(b as int % 16)]
        })
    }
}

/// `urlencoding::encode`: percent-encodes every byte of the UTF-8 text but ASCII letters,
/// digits, `-`, `_`, `.` and `~`, with upper-case hexadecimal digits.
#[verifier::external_body]
fn url_encode(value: &str) -> (r: String)
    ensures
        r@ == url_encoded(value.spec_bytes()),
{
    urlencoding::encode(value).into_owned()
}

/// `value` percent-encoded for use in a URL.
pub fn urlencode(value: &str) -> (r: String)
    ensures
        r@ == url_encoded(value.spec_bytes()),
{
    url_encode(value)
}

/// What `urlencoding::decode` gives for `text`: the text with its `%XX` escapes decoded,
/// or `None` where the decoded bytes are not UTF-8.
pub uninterp spec fn percent_decoded(text: Seq<char>) -> Option<Seq<char>>;

/// `urlencoding::decode`: decodes the `%XX` escapes of `value`; fails where the bytes that
/// come out are not UTF-8. The decoded text is named, not stated.
#[verifier::external_body]
fn url_decode(value: &str) -> (r: Option<String>)
    ensures
        match r {
            Some(s) => percent_decoded(value@) == Some(s@),
            None => percent_decoded(value@) is None,
        },
{
    match urlencoding::decode(value) {
        Ok(s) => Some(s.into_owned()),
        Err(_) => None,
    }
}

/// `value` with its percent escapes decoded; `None` where the result is not UTF-8 text.
pub fn urldecode(value: &str) -> (r: Option<String>)
    ensures
        match r {
            Some(s) => percent_decoded(value@) == Some(s@),
            None => percent_decoded(value@) is None,
        },
{
    url_decode(value)
}

/// What `comrak::markdown_to_html` renders for `text` with the autolink extension on and
/// every other option at its default.
pub uninterp spec fn markdown_html(text: Seq<char>) -> Seq<char>;

/// `comrak::markdown_to_html` with the autolink extension: the HTML of Markdown `text`.
#[verifier::external_body]
fn render_markdown(text: &str) -> (r: String)
    ensures
        r@ == markdown_html(text@),
{
    let mut options = comrak::Options::default();
    options.extension.autolink = true;
    comrak::markdown_to_html(text, &options)
}

/// The HTML of Markdown `value`, with bare links made into links.
pub fn markdown(value: &str) -> (r: String)
    ensures
        r@ == markdown_html(value@),
{
    render_markdown(value)
}

/// What the multi-line pattern `^\s*#+\s*(.*)$`, replaced everywhere by its group, leaves
/// of `text`: the text of each header line without its marks.
pub uninterp spec fn header_marks_removed(text: Seq<char>) -> Seq<char>;

/// `regex::Regex::replace_all` with the header pattern, which compiles, and `$1`.
#[verifier::external_body]
fn remove_header_marks(text: &str) -> (r: String)
    ensures
        r@ == header_marks_removed(text@),
{
    let re = regex::Regex::new(r"(?m)^\s*#+\s*(.*)$").unwrap();
    re.replace_all(text, "$1").into_owned()
}

/// `s` without the characters `c` at its start.
pub open spec fn trim_start_char(s: Seq<char>, c: char) -> Seq<char>
    decreases s.len(),
{
    if s.len() > 0 && s[0] == c {
        trim_start_char(s.drop_first(), c)
    } else {
        s
    }
}

/// `s` without the characters `c` at its end.
pub open spec fn trim_end_char(s: Seq<char>, c: char) -> Seq<char>
    decreases s.len(),
{
    if s.len() > 0 && s.last() == c {
        trim_end_char(s.drop_last(), c)
    } else {
        s
    }
}

/// `s` without line breaks at either end.
pub open spec fn trim_newlines(s: Seq<char>) -> Seq<char> {
    trim_end_char(trim_start_char(s, '\n'), '\n')
}

/// The characters of `s` from `i` on, without the characters `c` at their start.
proof fn lemma_trim_start_step(s: Seq<char>, c: char, i: int)
    requires
        0 <= i < s.len(),
        s[i] == c,
    ensures
        trim_start_char(s.subrange(i, s.len() as int), c) == trim_start_char(s.subrange(i + 1, s.len() as int), c),
{
    assert(s.subrange(i, s.len() as int).drop_first() =~= s.subrange(i + 1, s.len() as int));
}

/// The text of `s` without line breaks at either end.
fn strip_newlines(s: &str) -> (r: String)
    ensures
        r@ == trim_newlines(s@),
{
    let cs = chars_of(s);
    let n = cs.len();
    let mut i: usize = 0;
    assert(cs@.subrange(0, n as int) =~= cs@);
    while i < n && cs[i] == '\n'
        invariant
            cs@ == s@,
            n == cs@.len(),
            i <= n,
            trim_start_char(cs@.subrange(i as int, n as int), '\n') == trim_start_char(cs@, '\n'),
        decreases n - i,
    {
        proof {
            lemma_trim_start_step(cs@, '\n', i as int);
        }
        i = i + 1;
    }
    let ghost front = cs@.subrange(i as int, n as int);
    assert(trim_start_char(front, '\n') == front) by {
        if front.len() > 0 {
            assert(front[0] == cs@[i as int]);
        }
    }
    let mut j: usize = n;
    while j > i && cs[j - 1] == '\n'
        invariant
            i <= j <= n,
            n == cs@.len(),
            front == cs@.subrange(i as int, n as int),
            trim_end_char(cs@.subrange(i as int, j as int), '\n') == trim_end_char(front, '\n'),
        decreases j,
    {
        assert(cs@.subrange(i as int, j as int).drop_last() =~= cs@.subrange(i as int, j - 1));
        j = j - 1;
    }
    let ghost kept = cs@.subrange(i as int, j as int);
    assert(trim_end_char(kept, '\n') == kept) by {
        if kept.len() > 0 {
            assert(kept.last() == cs@[j - 1]);
        }
    }
    let mut out: Vec<char> = Vec::new();
    let mut k: usize = i;
    while k < j
        invariant
            i <= k <= j <= n,
            n == cs@.len(),
            out@ == cs@.subrange(i as int, k as int),
        decreases j - k,
    {
        out.push(cs[k]);
        k = k + 1;
        assert(out@ =~= cs@.subrange(i as int, k as int));
    }
    string_from_chars(out.as_slice())
}

/// Markdown `value` with its header lines made plain text: "# Title" becomes "Title";
/// line breaks at either end are dropped.
pub fn strip_headers(value: &str) -> (r: String)
    ensures
        r@ == trim_newlines(header_marks_removed(value@)),
{
    let replaced = remove_header_marks(value);
    strip_newlines(replaced.as_str())
}

/// The icon shown for the owner of an event or a post; every owner has the same.
pub fn owner_icon_url(value: &str) -> (r: String)
    ensures
        r@ == "https://dsekt-assets.s3.eu-west-1.amazonaws.com/shield-color-white-delta.png"@,
{
    String::from_str("https://dsekt-assets.s3.eu-west-1.amazonaws.com/shield-color-white-delta.png")
}

/// `rand::seq::IteratorRandom::choose` over the pieces, with the thread-local generator:
/// one of them at random, `None` only when there is none.
#[verifier::external_body]
fn pick_piece(pieces: &[String]) -> (r: Option<&String>)
    ensures
        r is None <==> pieces@.len() == 0,
        r matches Some(p) ==> pieces@.contains(*p),
{
    rand::seq::IteratorRandom::choose(pieces.iter(), &mut rand::rng())
}

/// One line of `value`, picked at random after the text is trimmed; empty for empty text.
pub fn choose_rand(value: &str) -> (r: String)
    ensures
        value@.len() == 0 ==> r@ == Seq::<char>::empty(),
        value@.len() > 0 ==> split_seq(trim_seq(value@), '\n').contains(r@),
{
    if value.is_empty() {
        return String::new();
    }
    let pieces = split_text(trim_text(value), '\n');
    let slice = pieces.as_slice();
    match pick_piece(slice) {
        Some(p) => {
            let r = p.clone();
            proof {
                let i = choose|i: int| 0 <= i < slice@.len() && slice@[i] == *p;
                assert(pieces@.map_values(|q: String| q@)[i] == r@);
            }
            r
        },
        None => {
            proof {
                crate::ace::text::lemma_split_nonempty(trim_seq(value@), '\n');
                assert(pieces@.map_values(|q: String| q@).len() >= 1);
            }
            String::new()
        },
    }
}

} // verus!
