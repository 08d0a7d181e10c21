use vstd::prelude::*;

use crate::ace::display::duration_text;
use crate::ace::text::{
    chars_of, decimal_value, digit_value, int_text, is_digit, nat_digits, spec_is_digit, string_from_chars,
};
use crate::ace::types::{Duration, DurationError, DurationErrorV};

verus! {

/// Whether a character takes one byte in UTF-8.
pub open spec fn spec_is_ascii(c: char) -> bool {
    (c as u32) < 128
}

/// How reading the number of a chunk ends: at an index where the unit begins, at the end
/// of the input (no unit follows), or on input that the reader does not take (`Panic`).
pub enum NumberScan {
    Stop(int),
    AtEnd,
    Panic,
}

/// Extends the number that starts at `start` over `s[pos]` while the digits read so far
/// still form an `i32`.
pub open spec fn scan_number(s: Seq<char>, start: int, pos: int) -> NumberScan
    decreases s.len() - pos,
{
    if pos < 0 || pos >= s.len() {
        NumberScan::AtEnd
    } else if !spec_is_ascii(s[pos]) {
        NumberScan::Panic
    } else if spec_is_digit(s[pos]) && decimal_value(s.subrange(start, pos + 1)) <= i32::MAX {
        if pos + 1 >= s.len() {
            NumberScan::AtEnd
        } else {
            scan_number(s, start, pos + 1)
        }
    } else {
        NumberScan::Stop(pos)
    }
}

/// Extends a unit from `pos` up to the next digit or the end; `None` on input that the
/// reader does not take (a character that takes more than one byte).
pub open spec fn scan_unit(s: Seq<char>, pos: int) -> Option<int>
    decreases s.len() - pos,
{
    if pos < 0 || pos >= s.len() {
        Some(s.len() as int)
    } else if !spec_is_ascii(s[pos]) {
        None
    } else if spec_is_digit(s[pos]) {
        Some(pos)
    } else if pos + 1 >= s.len() {
        Some(s.len() as int)
    } else {
        scan_unit(s, pos + 1)
    }
}

/// One chunk of a duration, such as `4w`: its count, its unit and where the next
/// chunk starts.
pub enum ChunkStep {
    Chunk(int, Seq<char>, int),
    Fail(DurationErrorV),
    Panic,
}

/// Reading the chunk that starts at `start`.
pub open spec fn spec_chunk(s: Seq<char>, start: int) -> ChunkStep {
    match scan_number(s, start, start) {
        NumberScan::Panic => ChunkStep::Panic,
        NumberScan::AtEnd => ChunkStep::Fail(DurationErrorV::MissingUnit),
        NumberScan::Stop(p) => if p == start {
            ChunkStep::Panic
        } else {
            match scan_unit(s, p) {
                None => ChunkStep::Panic,
                Some(q) => if q == p {
                    ChunkStep::Fail(DurationErrorV::MissingUnit)
                } else {
                    ChunkStep::Chunk(decimal_value(s.subrange(start, p)), s.subrange(p, q), q)
                },
            }
        },
    }
}

proof fn lemma_scan_unit_bounds(s: Seq<char>, pos: int)
    requires
        0 <= pos,
    ensures
        scan_unit(s, pos) matches Some(q) ==> (pos <= q <= s.len() || pos >= s.len() && q == s.len()),
    decreases s.len() - pos,
{
    if 0 <= pos < s.len() && spec_is_ascii(s[pos]) && !spec_is_digit(s[pos]) && pos + 1 < s.len() {
        lemma_scan_unit_bounds(s, pos + 1);
    }
}

proof fn lemma_scan_number_bounds(s: Seq<char>, start: int, pos: int)
    requires
        0 <= pos,
    ensures
        scan_number(s, start, pos) matches NumberScan::Stop(p) ==> pos <= p < s.len(),
    decreases s.len() - pos,
{
    if 0 <= pos < s.len() && spec_is_ascii(s[pos]) && spec_is_digit(s[pos]) && decimal_value(
        s.subrange(start, pos + 1),
    ) <= i32::MAX && pos + 1 < s.len() {
        lemma_scan_number_bounds(s, start, pos + 1);
    }
}

/// A chunk read from `start` ends after `start` and no later than the end of the input.
pub proof fn lemma_chunk_bounds(s: Seq<char>, start: int)
    requires
        0 <= start < s.len(),
    ensures
        spec_chunk(s, start) matches ChunkStep::Chunk(_, _, next) ==> start < next <= s.len(),
{
    lemma_scan_number_bounds(s, start, start);
    if let NumberScan::Stop(p) = scan_number(s, start, start) {
        lemma_scan_unit_bounds(s, p);
    }
}

/// The months, days and milliseconds of one of each unit.
pub open spec fn unit_amount(u: Seq<char>) -> Option<(int, int, int)> {
    if u == seq!['Y'] {
        Some((0, 365, 0))
    } else if u == seq!['M'] {
        Some((1, 0, 0))
    } else if u == seq!['w'] {
        Some((0, 7, 0))
    } else if u == seq!['d'] {
        Some((0, 1, 0))
    } else if u == seq!['h'] {
        Some((0, 0, 3600000))
    } else if u == seq!['m'] {
        Some((0, 0, 60000))
    } else if u == seq!['s'] {
        Some((0, 0, 1000))
    } else if u == seq!['m', 's'] {
        Some((0, 0, 1))
    } else {
        None
    }
}

/// Whether months, days and milliseconds fit their integer types.
pub open spec fn fits(m: int, d: int, ms: int) -> bool {
    i32::MIN <= m <= i32::MAX && i32::MIN <= d <= i32::MAX && i64::MIN <= ms <= i64::MAX
}

/// The outcome of reading a whole duration.
pub enum DurationOutcome {
    Done(Duration),
    Fail(DurationErrorV),
    Panic,
}

/// Reading the chunks from `pos` on, adding each to the running sum `(m, d, ms)`.
pub open spec fn spec_duration_from(s: Seq<char>, pos: int, m: int, d: int, ms: int) -> DurationOutcome
    decreases s.len() - pos,
{
    if pos < 0 || pos >= s.len() {
        if fits(m, d, ms) {
            DurationOutcome::Done(Duration { months: m as i32, days: d as i32, ms: ms as i64 })
        } else {
            DurationOutcome::Panic
        }
    } else {
        match spec_chunk(s, pos) {
            ChunkStep::Panic => DurationOutcome::Panic,
            ChunkStep::Fail(e) => DurationOutcome::Fail(e),
            ChunkStep::Chunk(n, u, next) => match unit_amount(u) {
                None => DurationOutcome::Fail(DurationErrorV::InvalidUnit(u)),
                Some((um, ud, ums)) => {
                    let (pm, pd, pms) = (um * n, ud * n, ums * n);
                    if !fits(pm, pd, pms) || !fits(m + pm, d + pd, ms + pms) {
                        DurationOutcome::Panic
                    } else {
                        proof {
                            lemma_chunk_bounds(s, pos);
                        }
                        spec_duration_from(s, next, m + pm, d + pd, ms + pms)
                    }
                },
            },
        }
    }
}

/// Reading a duration such as `1w2d3h5m`: the sum of its chunks.
pub open spec fn spec_parse_duration(s: Seq<char>) -> DurationOutcome {
    spec_duration_from(s, 0, 0, 0, 0)
}

/// The value of a decimal digit.
fn digit_of(c: char) -> (r: i64)
    requires
        spec_is_digit(c),
    ensures
        r == digit_value(c),
        0 <= r <= 9,
{
    (c as u32 - '0' as u32) as i64
}

/// Months, days and milliseconds, summed separately.
#[derive(Clone, Copy)]
struct DurImpl(i32, i32, i64);

impl DurImpl {
    fn plus(self, other: Self) -> (r: Self)
        requires
            fits(self.0 + other.0, self.1 + other.1, self.2 + other.2),
        ensures
            r.0 == self.0 + other.0,
            r.1 == self.1 + other.1,
            r.2 == self.2 + other.2,
    {
        DurImpl(self.0 + other.0, self.1 + other.1, self.2 + other.2)
    }

    fn times(self, other: i32) -> (r: Self)
        requires
            fits(self.0 * other, self.1 * other, self.2 * other),
        ensures
            r.0 == self.0 * other,
            r.1 == self.1 * other,
            r.2 == self.2 * other,
    {
        DurImpl(self.0 * other, self.1 * other, self.2 * (other as i64))
    }

    fn to_duration(self) -> (r: Duration)
        ensures
            r == (Duration { months: self.0, days: self.1, ms: self.2 }),
    {
        Duration { months: self.0, days: self.1, ms: self.2 }
    }
}

/// A count and a unit.
struct UnitValue(i32, Vec<char>);

/// Splits a duration into chunks of a count and a unit.
struct UnitParser {
    s: Vec<char>,
    pos: usize,
}

impl UnitParser {
    fn new(s: &str) -> (r: UnitParser)
        ensures
            r.s@ == s@,
            r.pos == 0,
    {
        UnitParser { s: chars_of(s), pos: 0 }
    }

    /// The next chunk, `None` at the end.
    fn next(&mut self) -> (r: Option<Result<UnitValue, DurationError>>)
        requires
            old(self).pos <= old(self).s@.len(),
            old(self).pos < old(self).s@.len() ==> !(spec_chunk(old(self).s@, old(self).pos as int) is Panic),
        ensures
            final(self).s@ == old(self).s@,
            final(self).pos <= final(self).s@.len(),
            old(self).pos >= old(self).s@.len() ==> r is None && final(self).pos == old(self).pos,
            old(self).pos < old(self).s@.len() ==> match spec_chunk(old(self).s@, old(self).pos as int) {
                ChunkStep::Chunk(n, u, next) => r matches Some(Ok(uv)) && uv.0 == n && uv.1@ == u
                    && final(self).pos == next,
                ChunkStep::Fail(e) => r matches Some(Err(e2)) && e2@ == e,
                ChunkStep::Panic => false,
            },
    {
        if self.pos >= self.s.len() {
            return None;
        }
        let ghost s = self.s@;
        let n = self.s.len();
        let start = self.pos;
        let mut value: i32 = 0;
        loop
            invariant
                self.s@ == s,
                s == old(self).s@,
                n == s.len(),
                start == old(self).pos,
                start <= self.pos < s.len(),
                !(spec_chunk(s, start as int) is Panic),
                scan_number(s, start as int, start as int) == scan_number(s, start as int, self.pos as int),
                forall|k: int| start <= k < self.pos ==> spec_is_digit(#[trigger] s[k]),
                value == decimal_value(s.subrange(start as int, self.pos as int)),
                value >= 0,
            ensures
                start <= self.pos < s.len(),
                scan_number(s, start as int, start as int) == NumberScan::Stop(self.pos as int),
                value == decimal_value(s.subrange(start as int, self.pos as int)),
            decreases s.len() - self.pos,
        {
            let c = self.s[self.pos];
            assert(s.subrange(start as int, self.pos + 1).drop_last() =~= s.subrange(start as int, self.pos as int));
            if !is_digit(c) {
                break;
            }
            let next_value: i64 = value as i64 * 10 + digit_of(c);
            assert(s.subrange(start as int, self.pos + 1).last() == c);
            if next_value > i32::MAX as i64 {
                break;
            }
            value = next_value as i32;
            self.pos = self.pos + 1;
            if self.pos >= n {
                return Some(Err(DurationError::MissingUnit));
            }
        }
        let number_end = self.pos;
        if number_end == start {
            return None;
        }
        let ghost q = scan_unit(s, number_end as int)->0;
        loop
            invariant
                self.s@ == s,
                s == old(self).s@,
                number_end <= self.pos <= s.len(),
                scan_unit(s, number_end as int) == (if self.pos < s.len() {
                    scan_unit(s, self.pos as int)
                } else {
                    Some(s.len() as int)
                }),
                scan_unit(s, number_end as int) is Some,
            ensures
                self.pos == scan_unit(s, number_end as int)->0,
            decreases s.len() - self.pos,
        {
            if self.pos >= self.s.len() || is_digit(self.s[self.pos]) {
                break;
            }
            self.pos = self.pos + 1;
        }
        if self.pos == number_end {
            Some(Err(DurationError::MissingUnit))
        } else {
            let mut unit: Vec<char> = Vec::new();
            let mut k = number_end;
            while k < self.pos
                invariant
                    self.s@ == s,
                    number_end <= k <= self.pos <= s.len(),
                    unit@ == s.subrange(number_end as int, k as int),
                decreases self.pos - k,
            {
                unit.push(self.s[k]);
                k = k + 1;
                assert(unit@ =~= s.subrange(number_end as int, k as int));
            }
            Some(Ok(UnitValue(value, unit)))
        }
    }
}

/// The amount of one of the named unit.
fn find_unit(unit: &Vec<char>) -> (r: Result<DurImpl, DurationError>)
    ensures
        match unit_amount(unit@) {
            Some((m, d, ms)) => r matches Ok(v) && v.0 == m && v.1 == d && v.2 == ms,
            None => r matches Err(e) && e@ == DurationErrorV::InvalidUnit(unit@),
        },
{
    let ghost u = unit@;
    if unit.len() == 1 {
        let c = unit[0];
        assert(c == 'Y' ==> u =~= seq!['Y']);
        assert(c == 'M' ==> u =~= seq!['M']);
        assert(c == 'w' ==> u =~= seq!['w']);
        assert(c == 'd' ==> u =~= seq!['d']);
        assert(c == 'h' ==> u =~= seq!['h']);
        assert(c == 'm' ==> u =~= seq!['m']);
        assert(c == 's' ==> u =~= seq!['s']);
        assert(u =~= seq![c]);
        if c == 'Y' {
            return Ok(DurImpl(0, 365, 0));
        } else if c == 'M' {
            return Ok(DurImpl(1, 0, 0));
        } else if c == 'w' {
            return Ok(DurImpl(0, 7, 0));
        } else if c == 'd' {
            return Ok(DurImpl(0, 1, 0));
        } else if c == 'h' {
            return Ok(DurImpl(0, 0, 3600000));
        } else if c == 'm' {
            return Ok(DurImpl(0, 0, 60000));
        } else if c == 's' {
            return Ok(DurImpl(0, 0, 1000));
        }
    } else if unit.len() == 2 && unit[0] == 'm' && unit[1] == 's' {
        assert(u =~= seq!['m', 's']);
        return Ok(DurImpl(0, 0, 1));
    }
    assert(unit.len() == 2 ==> (u == seq!['m', 's'] ==> u[0] == 'm' && u[1] == 's'));
    Err(DurationError::InvalidUnit(string_from_chars(unit.as_slice())))
}

/// Reads a duration such as `1w2d3h5m`: counts, each followed by one of the units `Y`
/// (365 days), `M` (a month), `w` (7 days), `d` (a day), `h`, `m`, `s` and `ms`, summed
/// into months, days and milliseconds.
pub fn parse_duration(s: &str) -> (r: Result<Duration, DurationError>)
    requires
        !(spec_parse_duration(s@) is Panic),
    ensures
        match spec_parse_duration(s@) {
            DurationOutcome::Done(d) => r == Ok::<Duration, DurationError>(d),
            DurationOutcome::Fail(e) => r matches Err(e2) && e2@ == e,
            DurationOutcome::Panic => false,
        },
{
    let mut sum = DurImpl(0, 0, 0);
    let mut parser = UnitParser::new(s);
    loop
        invariant
            parser.s@ == s@,
            parser.pos <= parser.s@.len(),
            spec_parse_duration(s@) == spec_duration_from(s@, parser.pos as int, sum.0 as int, sum.1 as int, sum.2 as int),
            !(spec_parse_duration(s@) is Panic),
        ensures
            parser.pos >= s@.len(),
        decreases parser.s@.len() - parser.pos,
    {
        let ghost pos = parser.pos as int;
        proof {
            if pos < s@.len() {
                lemma_chunk_bounds(s@, pos);
            }
        }
        match parser.next() {
            None => {
                break;
            },
            Some(Err(e)) => {
                return Err(e);
            },
            Some(Ok(uv)) => {
                let unit = match find_unit(&uv.1) {
                    Ok(unit) => unit,
                    Err(e) => {
                        return Err(e);
                    },
                };
                sum = sum.plus(unit.times(uv.0));
            },
        }
    }
    Ok(sum.to_duration())
}

/// Reading a number within `a` reads the same once text follows `a`.
proof fn lemma_number_prefix(a: Seq<char>, b: Seq<char>, start: int, pos: int)
    requires
        0 <= start <= pos < a.len(),
        scan_number(a, start, pos) is Stop,
    ensures
        scan_number(a + b, start, pos) == scan_number(a, start, pos),
    decreases a.len() - pos,
{
    let s = a + b;
    assert(s[pos] == a[pos]);
    assert(s.subrange(start, pos + 1) =~= a.subrange(start, pos + 1));
    if spec_is_ascii(a[pos]) && spec_is_digit(a[pos]) && decimal_value(a.subrange(start, pos + 1)) <= i32::MAX {
        lemma_number_prefix(a, b, start, pos + 1);
    }
}

/// Reading a unit within `a` reads the same once text that starts with a digit follows.
proof fn lemma_unit_prefix(a: Seq<char>, b: Seq<char>, pos: int)
    requires
        0 <= pos < a.len(),
        b.len() == 0 || spec_is_digit(b[0]),
        scan_unit(a, pos) is Some,
    ensures
        scan_unit(a + b, pos) == scan_unit(a, pos),
    decreases a.len() - pos,
{
    let s = a + b;
    assert(s[pos] == a[pos]);
    if spec_is_ascii(a[pos]) && !spec_is_digit(a[pos]) {
        if pos + 1 >= a.len() {
            if b.len() > 0 {
                assert(s[a.len() as int] == b[0]);
                assert(scan_unit(s, a.len() as int) == Some(a.len() as int));
            } else {
                assert(s =~= a);
            }
        } else {
            lemma_unit_prefix(a, b, pos + 1);
        }
    }
}

/// The digits a number is read from.
proof fn lemma_number_digits(s: Seq<char>, start: int, pos: int)
    requires
        0 <= start <= pos,
        forall|i: int| start <= i < pos ==> spec_is_digit(#[trigger] s[i]),
    ensures
        scan_number(s, start, pos) matches NumberScan::Stop(p) ==> forall|i: int|
            start <= i < p ==> spec_is_digit(#[trigger] s[i]),
    decreases s.len() - pos,
{
    if 0 <= pos < s.len() && spec_is_ascii(s[pos]) && spec_is_digit(s[pos]) && decimal_value(
        s.subrange(start, pos + 1),
    ) <= i32::MAX && pos + 1 < s.len() {
        lemma_number_digits(s, start, pos + 1);
    }
}

/// A chunk read within `a` reads the same once text that starts with a digit follows, and
/// its count is not negative.
proof fn lemma_chunk_prefix(a: Seq<char>, b: Seq<char>, pos: int)
    requires
        0 <= pos < a.len(),
        b.len() == 0 || spec_is_digit(b[0]),
        spec_chunk(a, pos) is Chunk,
    ensures
        spec_chunk(a + b, pos) == spec_chunk(a, pos),
        spec_chunk(a, pos) matches ChunkStep::Chunk(n, _, next) ==> n >= 0 && pos < next <= a.len(),
{
    lemma_chunk_bounds(a, pos);
    lemma_number_prefix(a, b, pos, pos);
    lemma_number_digits(a, pos, pos);
    if let NumberScan::Stop(p) = scan_number(a, pos, pos) {
        lemma_scan_number_bounds(a, pos, pos);
        lemma_unit_prefix(a, b, p);
        lemma_scan_unit_bounds(a, p);
        let q = scan_unit(a, p)->0;
        assert((a + b).subrange(pos, p) =~= a.subrange(pos, p));
        assert((a + b).subrange(p, q) =~= a.subrange(p, q));
        crate::ace::lexer::lemma_decimal_nonneg(a.subrange(pos, p));
    }
}

/// A number scan of `b`, moved `k` characters on.
pub open spec fn shift_scan(n: NumberScan, k: int) -> NumberScan {
    match n {
        NumberScan::Stop(p) => NumberScan::Stop(p + k),
        NumberScan::AtEnd => NumberScan::AtEnd,
        NumberScan::Panic => NumberScan::Panic,
    }
}

/// Reading a number in `b` after `a` reads as in `b` alone, moved by the length of `a`.
proof fn lemma_number_suffix(a: Seq<char>, b: Seq<char>, start: int, pos: int)
    requires
        0 <= start <= pos,
    ensures
        scan_number(a + b, a.len() + start, a.len() + pos) == shift_scan(scan_number(b, start, pos), a.len() as int),
    decreases b.len() - pos,
{
    let s = a + b;
    let k = a.len() as int;
    if pos < b.len() {
        assert(s[k + pos] == b[pos]);
        assert(s.subrange(k + start, k + pos + 1) =~= b.subrange(start, pos + 1));
        if spec_is_ascii(b[pos]) && spec_is_digit(b[pos]) && decimal_value(b.subrange(start, pos + 1)) <= i32::MAX
            && pos + 1 < b.len() {
            lemma_number_suffix(a, b, start, pos + 1);
        }
    }
}

/// Reading a unit in `b` after `a` reads as in `b` alone, moved by the length of `a`.
proof fn lemma_unit_suffix(a: Seq<char>, b: Seq<char>, pos: int)
    requires
        0 <= pos,
    ensures
        scan_unit(a + b, a.len() + pos) == (match scan_unit(b, pos) {
            Some(q) => Some(q + a.len()),
            None => None,
        }),
    decreases b.len() - pos,
{
    let s = a + b;
    let k = a.len() as int;
    if pos < b.len() {
        assert(s[k + pos] == b[pos]);
        if spec_is_ascii(b[pos]) && !spec_is_digit(b[pos]) && pos + 1 < b.len() {
            lemma_unit_suffix(a, b, pos + 1);
        }
    }
}

/// A chunk of `b` read after `a`: the same count and unit, the next chunk moved by the
/// length of `a`.
proof fn lemma_chunk_suffix(a: Seq<char>, b: Seq<char>, pos: int)
    requires
        0 <= pos < b.len(),
    ensures
        spec_chunk(a + b, a.len() + pos) == (match spec_chunk(b, pos) {
            ChunkStep::Chunk(n, u, next) => ChunkStep::Chunk(n, u, next + a.len()),
            other => other,
        }),
{
    let s = a + b;
    let k = a.len() as int;
    lemma_number_suffix(a, b, pos, pos);
    if let NumberScan::Stop(p) = scan_number(b, pos, pos) {
        lemma_scan_number_bounds(b, pos, pos);
        lemma_unit_suffix(a, b, p);
        if let Some(q) = scan_unit(b, p) {
            lemma_scan_unit_bounds(b, p);
            assert(s.subrange(k + pos, k + p) =~= b.subrange(pos, p));
            assert(s.subrange(k + p, k + q) =~= b.subrange(p, q));
        }
    }
}

/// The count of a chunk is not negative.
proof fn lemma_chunk_count(s: Seq<char>, pos: int)
    requires
        0 <= pos < s.len(),
    ensures
        spec_chunk(s, pos) matches ChunkStep::Chunk(n, _, next) ==> n >= 0 && pos < next <= s.len(),
{
    lemma_chunk_bounds(s, pos);
    lemma_number_digits(s, pos, pos);
    if let NumberScan::Stop(p) = scan_number(s, pos, pos) {
        lemma_scan_number_bounds(s, pos, pos);
        crate::ace::lexer::lemma_decimal_nonneg(s.subrange(pos, p));
    }
}

/// Reading a duration only adds to the running sum: every unit counts for nothing less than
/// zero.
proof fn lemma_duration_grows(s: Seq<char>, pos: int, m: int, d: int, ms: int)
    requires
        0 <= pos,
        spec_duration_from(s, pos, m, d, ms) is Done,
    ensures
        ({
            let y = spec_duration_from(s, pos, m, d, ms)->Done_0;
            m <= y.months && d <= y.days && ms <= y.ms
        }),
    decreases s.len() - pos,
{
    if pos < s.len() {
        lemma_chunk_count(s, pos);
        if let ChunkStep::Chunk(n, u, next) = spec_chunk(s, pos) {
            if let Some((um, ud, ums)) = unit_amount(u) {
                assert(um * n >= 0 && ud * n >= 0 && ums * n >= 0) by (nonlinear_arith)
                    requires
                        um >= 0,
                        ud >= 0,
                        ums >= 0,
                        n >= 0,
                ;
                lemma_duration_grows(s, next, m + um * n, d + ud * n, ms + ums * n);
            }
        }
    }
}

/// Reading `a` within `a + b` (with `b` empty or starting with a digit) leaves the running
/// sum that reading `a` alone ends with.
proof fn lemma_duration_prefix(a: Seq<char>, b: Seq<char>, pos: int, m: int, d: int, ms: int)
    requires
        0 <= pos <= a.len(),
        b.len() == 0 || spec_is_digit(b[0]),
        spec_duration_from(a, pos, m, d, ms) is Done,
    ensures
        ({
            let x = spec_duration_from(a, pos, m, d, ms)->Done_0;
            spec_duration_from(a + b, pos, m, d, ms) == spec_duration_from(
                a + b,
                a.len() as int,
                x.months as int,
                x.days as int,
                x.ms as int,
            )
        }),
    decreases a.len() - pos,
{
    if pos < a.len() {
        lemma_chunk_prefix(a, b, pos);
        if let ChunkStep::Chunk(n, u, next) = spec_chunk(a, pos) {
            if let Some((um, ud, ums)) = unit_amount(u) {
                lemma_duration_prefix(a, b, next, m + um * n, d + ud * n, ms + ums * n);
            }
        }
    }
}

/// Reading `b` after `a`, from a running sum larger by `(mx, dx, msx)`, ends larger by as
/// much, where that end still fits.
proof fn lemma_duration_suffix(
    a: Seq<char>,
    b: Seq<char>,
    pos: int,
    m: int,
    d: int,
    ms: int,
    mx: int,
    dx: int,
    msx: int,
)
    requires
        0 <= pos <= b.len(),
        0 <= mx && 0 <= dx && 0 <= msx,
        spec_duration_from(b, pos, m, d, ms) is Done,
        ({
            let y = spec_duration_from(b, pos, m, d, ms)->Done_0;
            fits(y.months + mx, y.days + dx, y.ms + msx)
        }),
    ensures
        ({
            let y = spec_duration_from(b, pos, m, d, ms)->Done_0;
            spec_duration_from(a + b, a.len() + pos, m + mx, d + dx, ms + msx) == DurationOutcome::Done(
                Duration {
                    months: (y.months + mx) as i32,
                    days: (y.days + dx) as i32,
                    ms: (y.ms + msx) as i64,
                },
            )
        }),
    decreases b.len() - pos,
{
    let k = a.len() as int;
    if pos < b.len() {
        lemma_chunk_suffix(a, b, pos);
        lemma_chunk_count(b, pos);
        if let ChunkStep::Chunk(n, u, next) = spec_chunk(b, pos) {
            if let Some((um, ud, ums)) = unit_amount(u) {
                lemma_duration_grows(b, next, m + um * n, d + ud * n, ms + ums * n);
                lemma_duration_suffix(a, b, next, m + um * n, d + ud * n, ms + ums * n, mx, dx, msx);
                assert(m + mx + um * n == m + um * n + mx);
                assert(d + dx + ud * n == d + ud * n + dx);
                assert(ms + msx + ums * n == ms + ums * n + msx);
            }
        }
    } else {
        assert(k + pos == (a + b).len());
    }
}

/// Durations add up: reading `a` followed by `b` (empty or starting with a digit) gives the
/// sum of reading each alone, where that sum fits.
pub proof fn lemma_duration_concat(a: Seq<char>, b: Seq<char>)
    requires
        spec_parse_duration(a) is Done,
        spec_parse_duration(b) is Done,
        b.len() == 0 || spec_is_digit(b[0]),
        ({
            let x = spec_parse_duration(a)->Done_0;
            let y = spec_parse_duration(b)->Done_0;
            fits(x.months + y.months, x.days + y.days, x.ms + y.ms)
        }),
    ensures
        ({
            let x = spec_parse_duration(a)->Done_0;
            let y = spec_parse_duration(b)->Done_0;
            spec_parse_duration(a + b) == DurationOutcome::Done(
                Duration {
                    months: (x.months + y.months) as i32,
                    days: (x.days + y.days) as i32,
                    ms: (x.ms + y.ms) as i64,
                },
            )
        }),
{
    let x = spec_parse_duration(a)->Done_0;
    let y = spec_parse_duration(b)->Done_0;
    lemma_duration_grows(a, 0, 0, 0, 0);
    lemma_duration_prefix(a, b, 0, 0, 0, 0);
    lemma_duration_suffix(a, b, 0, 0, 0, 0, x.months as int, x.days as int, x.ms as int);
    assert(a.len() + 0 == a.len());
}

/// Reading the digits `t` within `t + u`, where `u` starts with a letter, stops where `u`
/// begins.
proof fn lemma_number_run(t: Seq<char>, u: Seq<char>, pos: int)
    requires
        0 <= pos <= t.len(),
        forall|i: int| 0 <= i < t.len() ==> spec_is_digit(#[trigger] t[i]),
        decimal_value(t) <= i32::MAX,
        u.len() > 0,
        spec_is_ascii(u[0]),
        !spec_is_digit(u[0]),
    ensures
        scan_number(t + u, 0, pos) == NumberScan::Stop(t.len() as int),
    decreases t.len() - pos,
{
    let s = t + u;
    if pos < t.len() {
        assert(s[pos] == t[pos]);
        assert(spec_is_ascii(s[pos]));
        assert(s.subrange(0, pos + 1) =~= t.take(pos + 1));
        crate::ace::lexer::lemma_decimal_prefix(t, pos + 1);
        lemma_number_run(t, u, pos + 1);
    } else {
        assert(s[pos] == u[0]);
    }
}

/// Reading a unit of letters only runs to the end of the text.
proof fn lemma_unit_run(t: Seq<char>, u: Seq<char>, pos: int)
    requires
        t.len() <= pos < t.len() + u.len(),
        forall|i: int| 0 <= i < u.len() ==> spec_is_ascii(#[trigger] u[i]) && !spec_is_digit(u[i]),
    ensures
        scan_unit(t + u, pos) == Some((t + u).len() as int),
    decreases t.len() + u.len() - pos,
{
    let s = t + u;
    assert(s[pos] == u[pos - t.len()]);
    if pos + 1 < s.len() {
        lemma_unit_run(t, u, pos + 1);
    }
}

/// A duration of one chunk, a count `t` and a unit `u` of letters: the count times the
/// amount of the unit, where that fits.
proof fn lemma_one_chunk(t: Seq<char>, u: Seq<char>)
    requires
        t.len() > 0,
        forall|i: int| 0 <= i < t.len() ==> spec_is_digit(#[trigger] t[i]),
        decimal_value(t) <= i32::MAX,
        u.len() > 0,
        forall|i: int| 0 <= i < u.len() ==> spec_is_ascii(#[trigger] u[i]) && !spec_is_digit(u[i]),
    ensures
        ({
            let n = decimal_value(t);
            spec_parse_duration(t + u) == match unit_amount(u) {
                None => DurationOutcome::Fail(DurationErrorV::InvalidUnit(u)),
                Some((um, ud, ums)) => if fits(um * n, ud * n, ums * n) {
                    DurationOutcome::Done(
                        Duration { months: (um * n) as i32, days: (ud * n) as i32, ms: (ums * n) as i64 },
                    )
                } else {
                    DurationOutcome::Panic
                },
            }
        }),
{
    let s = t + u;
    let k = t.len() as int;
    assert(spec_is_ascii(u[0]) && !spec_is_digit(u[0]));
    lemma_number_run(t, u, 0);
    lemma_unit_run(t, u, k);
    assert(s.subrange(0, k) =~= t);
    assert(s.subrange(k, s.len() as int) =~= u);
    crate::ace::lexer::lemma_decimal_nonneg(t);
    let n = decimal_value(t);
    assert(spec_chunk(s, 0) == ChunkStep::Chunk(n, u, s.len() as int));
    if let Some((um, ud, ums)) = unit_amount(u) {
        if fits(um * n, ud * n, ums * n) {
            assert(spec_duration_from(s, s.len() as int, 0 + um * n, 0 + ud * n, 0 + ums * n) == DurationOutcome::Done(
                Duration { months: (um * n) as i32, days: (ud * n) as i32, ms: (ums * n) as i64 },
            ));
        }
    }
}

/// The amounts of the units by name, and a chunk of one of them.
proof fn lemma_named_unit(t: Seq<char>, u: Seq<char>)
    requires
        t.len() > 0,
        forall|i: int| 0 <= i < t.len() ==> spec_is_digit(#[trigger] t[i]),
        decimal_value(t) <= i32::MAX,
        u == seq!['m', 's'] || u == seq!['s'] || u == seq!['m'] || u == seq!['h'] || u == seq!['d']
            || u == seq!['w'] || u == seq!['M'] || u == seq!['Y'],
    ensures
        unit_amount(seq!['Y']) == Some((0int, 365int, 0int)),
        unit_amount(seq!['M']) == Some((1int, 0int, 0int)),
        unit_amount(seq!['w']) == Some((0int, 7int, 0int)),
        unit_amount(seq!['d']) == Some((0int, 1int, 0int)),
        unit_amount(seq!['h']) == Some((0int, 0int, 3600000int)),
        unit_amount(seq!['m']) == Some((0int, 0int, 60000int)),
        unit_amount(seq!['s']) == Some((0int, 0int, 1000int)),
        unit_amount(seq!['m', 's']) == Some((0int, 0int, 1int)),
        ({
            let n = decimal_value(t);
            spec_parse_duration(t + u) == match unit_amount(u) {
                None => DurationOutcome::Fail(DurationErrorV::InvalidUnit(u)),
                Some((um, ud, ums)) => if fits(um * n, ud * n, ums * n) {
                    DurationOutcome::Done(
                        Duration { months: (um * n) as i32, days: (ud * n) as i32, ms: (ums * n) as i64 },
                    )
                } else {
                    DurationOutcome::Panic
                },
            }
        }),
{
    assert(seq!['Y'][0] == 'Y' && seq!['M'][0] == 'M' && seq!['w'][0] == 'w' && seq!['d'][0] == 'd');
    assert(seq!['h'][0] == 'h' && seq!['m'][0] == 'm' && seq!['s'][0] == 's');
    assert(seq!['m', 's'][0] == 'm' && seq!['m', 's'][1] == 's' && seq!['m', 's'].len() == 2);
    assert(u.len() > 0);
    assert(forall|i: int| 0 <= i < u.len() ==> spec_is_ascii(#[trigger] u[i]) && !spec_is_digit(u[i]));
    lemma_one_chunk(t, u);
}

/// Each unit is as long as its name says: `Y` a year of 365 days, `M` a month, `w` a week
/// of 7 days, `d` a day, `h` an hour of 3 600 000 milliseconds, `m` a minute of 60 000,
/// `s` a second of 1 000 and `ms` a millisecond; a count `n` of one unit reads as `n`
/// times that (for a week or a year, where the days fit an `i32`). So `30s` is 30 000
/// milliseconds.
pub proof fn lemma_unit_lengths(t: Seq<char>)
    requires
        t.len() > 0,
        forall|i: int| 0 <= i < t.len() ==> spec_is_digit(#[trigger] t[i]),
        decimal_value(t) <= i32::MAX,
    ensures
        spec_parse_duration(t + seq!['m', 's']) == DurationOutcome::Done(
            Duration { months: 0, days: 0, ms: decimal_value(t) as i64 },
        ),
        spec_parse_duration(t + seq!['s']) == DurationOutcome::Done(
            Duration { months: 0, days: 0, ms: (1000 * decimal_value(t)) as i64 },
        ),
        spec_parse_duration(t + seq!['m']) == DurationOutcome::Done(
            Duration { months: 0, days: 0, ms: (60 * 1000 * decimal_value(t)) as i64 },
        ),
        spec_parse_duration(t + seq!['h']) == DurationOutcome::Done(
            Duration { months: 0, days: 0, ms: (60 * 60 * 1000 * decimal_value(t)) as i64 },
        ),
        spec_parse_duration(t + seq!['d']) == DurationOutcome::Done(
            Duration { months: 0, days: decimal_value(t) as i32, ms: 0 },
        ),
        7 * decimal_value(t) <= i32::MAX ==> spec_parse_duration(t + seq!['w']) == DurationOutcome::Done(
            Duration { months: 0, days: (7 * decimal_value(t)) as i32, ms: 0 },
        ),
        spec_parse_duration(t + seq!['M']) == DurationOutcome::Done(
            Duration { months: decimal_value(t) as i32, days: 0, ms: 0 },
        ),
        365 * decimal_value(t) <= i32::MAX ==> spec_parse_duration(t + seq!['Y']) == DurationOutcome::Done(
            Duration { months: 0, days: (365 * decimal_value(t)) as i32, ms: 0 },
        ),
{
    crate::ace::lexer::lemma_decimal_nonneg(t);
    let n = decimal_value(t);
    lemma_named_unit(t, seq!['m', 's']);
    assert(unit_amount(seq!['m', 's']) == Some((0int, 0int, 1int)));
    assert(fits(0 * n, 0 * n, 1 * n));
    assert((0 * n) as i32 == 0i32);
    lemma_named_unit(t, seq!['s']);
    assert(unit_amount(seq!['s']) == Some((0int, 0int, 1000int)));
    assert(fits(0 * n, 0 * n, 1000 * n));
    assert((0 * n) as i32 == 0i32);
    lemma_named_unit(t, seq!['m']);
    assert(unit_amount(seq!['m']) == Some((0int, 0int, 60000int)));
    assert(fits(0 * n, 0 * n, 60000 * n));
    assert((0 * n) as i32 == 0i32);
    lemma_named_unit(t, seq!['h']);
    assert(unit_amount(seq!['h']) == Some((0int, 0int, 3600000int)));
    assert(fits(0 * n, 0 * n, 3600000 * n));
    assert((0 * n) as i32 == 0i32);
    lemma_named_unit(t, seq!['d']);
    assert(unit_amount(seq!['d']) == Some((0int, 1int, 0int)));
    assert(fits(0 * n, 1 * n, 0 * n));
    assert((0 * n) as i32 == 0i32);
    if 7 * n <= i32::MAX {
        lemma_named_unit(t, seq!['w']);
        assert(unit_amount(seq!['w']) == Some((0int, 7int, 0int)));
        assert(fits(0 * n, 7 * n, 0 * n));
        assert((0 * n) as i32 == 0i32);
    }
    lemma_named_unit(t, seq!['M']);
    assert(unit_amount(seq!['M']) == Some((1int, 0int, 0int)));
    assert(fits(1 * n, 0 * n, 0 * n));
    assert((1 * n) as i32 == n as i32);
    if 365 * n <= i32::MAX {
        lemma_named_unit(t, seq!['Y']);
        assert(unit_amount(seq!['Y']) == Some((0int, 365int, 0int)));
        assert(fits(0 * n, 365 * n, 0 * n));
        assert((0 * n) as i32 == 0i32);
    }
}

/// The decimal digits of a natural number are digits, and read back as the number.
proof fn lemma_nat_digits_value(n: nat)
    ensures
        nat_digits(n).len() > 0,
        forall|i: int| 0 <= i < nat_digits(n).len() ==> spec_is_digit(#[trigger] nat_digits(n)[i]),
        decimal_value(nat_digits(n)) == n,
    decreases n,
{
    if n >= 10 {
        lemma_nat_digits_value(n / 10);
        let t = nat_digits(n);
        assert(t.drop_last() =~= nat_digits(n / 10));
        assert(t.last() == ((('0' as int) + n % 10) as char));
        assert(((('0' as int) + n % 10) as char) as int == ('0' as int) + n % 10);
        assert(decimal_value(t) == 10 * decimal_value(t.drop_last()) + digit_value(t.last()));
        assert(10 * (n / 10) + n % 10 == n);
    } else {
        let t = nat_digits(n);
        assert(t.drop_last() =~= Seq::<char>::empty());
        assert(decimal_value(t.drop_last()) == 0);
        assert(((('0' as int) + n) as char) as int == ('0' as int) + n);
    }
}

/// Counts written in decimal followed by one unit each, as `lemma_unit_lengths` reads them.
proof fn lemma_written_chunks(m: nat, d: nat, ms: nat)
    requires
        m <= i32::MAX,
        d <= i32::MAX,
        ms <= i32::MAX,
    ensures
        spec_parse_duration(nat_digits(m) + seq!['M']) == DurationOutcome::Done(
            Duration { months: m as i32, days: 0, ms: 0 },
        ),
        spec_parse_duration(nat_digits(d) + seq!['d']) == DurationOutcome::Done(
            Duration { months: 0, days: d as i32, ms: 0 },
        ),
        spec_parse_duration(nat_digits(ms) + seq!['m', 's']) == DurationOutcome::Done(
            Duration { months: 0, days: 0, ms: ms as i64 },
        ),
{
    lemma_nat_digits_value(m);
    lemma_unit_lengths(nat_digits(m));
    lemma_nat_digits_value(d);
    lemma_unit_lengths(nat_digits(d));
    lemma_nat_digits_value(ms);
    lemma_unit_lengths(nat_digits(ms));
}

/// A duration written out reads back as itself, where its months, days and milliseconds are
/// not negative and the milliseconds fit an `i32` (the widest count of one chunk): reading
/// `3M10d500ms` gives 3 months, 10 days and 500 milliseconds.
pub proof fn lemma_duration_text_reads_back(d: Duration)
    requires
        d.months >= 0,
        d.days >= 0,
        0 <= d.ms <= i32::MAX,
    ensures
        spec_parse_duration(duration_text(d)) == DurationOutcome::Done(d),
{
    reveal_strlit("M");
    reveal_strlit("d");
    reveal_strlit("ms");
    let a = nat_digits(d.months as nat) + seq!['M'];
    let b = nat_digits(d.days as nat) + seq!['d'];
    let c = nat_digits(d.ms as nat) + seq!['m', 's'];
    lemma_written_chunks(d.months as nat, d.days as nat, d.ms as nat);
    lemma_nat_digits_value(d.months as nat);
    lemma_nat_digits_value(d.days as nat);
    lemma_nat_digits_value(d.ms as nat);
    assert(c[0] == nat_digits(d.ms as nat)[0]);
    lemma_duration_concat(b, c);
    assert((b + c)[0] == nat_digits(d.days as nat)[0]);
    lemma_duration_concat(a, b + c);
    assert(duration_text(d) =~= a + (b + c));
}

} // verus!
