use vstd::prelude::*;

use crate::ace::text::{i32_text, i64_text, int_text, nat_digits, u32_text, usize_text};
use crate::ace::ast::{meta_of, AceAst, AceAstMeta, AceBinop, AceUnop, AstV};
use crate::ace::types::{
    AceError, AceTokenKind, AceType, AceValue, Duration, DurationError, DurationErrorV, ErrorV, KindV,
    LexError, ParseError, ParseErrorV, Span, ValueV,
};
use crate::clock::LocalDateTime;
use crate::filters::{abs, year_text, zero_pad};

verus! {

/// A number written with two digits at least.
pub open spec fn pad2(v: nat) -> Seq<char> {
    zero_pad(nat_digits(v), 2)
}

/// How `chrono` writes a UTC offset of `o` seconds: sign, hours and minutes, and the
/// seconds only when there are some.
pub open spec fn offset_text(o: int) -> Seq<char> {
    let a = abs(o);
    (if o < 0 { "-"@ } else { "+"@ }) + pad2((a / 3600) as nat) + ":"@ + pad2(((a / 60) % 60) as nat) + (if a
        % 60 == 0 {
        ""@
    } else {
        ":"@ + pad2((a % 60) as nat)
    })
}

/// The second that `chrono` writes for a time: a leap second (nanoseconds from
/// 1_000_000_000 on) is written as the next second, 60.
pub open spec fn shown_second(second: int, nano: int) -> int {
    if nano >= 1_000_000_000 {
        second + 1
    } else {
        second
    }
}

/// The nanoseconds that `chrono` writes for a time, a leap second taken off.
pub open spec fn shown_nano(nano: int) -> int {
    if nano >= 1_000_000_000 {
        nano - 1_000_000_000
    } else {
        nano
    }
}

/// How `chrono` writes a fraction of `n` nanoseconds: nothing for none, else a dot and
/// 3, 6 or 9 digits, the fewest that hold it.
pub open spec fn fraction_text(n: int) -> Seq<char> {
    if n == 0 {
        ""@
    } else if n % 1_000_000 == 0 {
        "."@ + zero_pad(nat_digits((n / 1_000_000) as nat), 3)
    } else if n % 1000 == 0 {
        "."@ + zero_pad(nat_digits((n / 1000) as nat), 6)
    } else {
        "."@ + zero_pad(nat_digits(n as nat), 9)
    }
}

/// How `chrono` displays a local date and time: date, time of day with its fraction of a
/// second, then the offset.
pub open spec fn date_display(dt: LocalDateTime) -> Seq<char> {
    year_text(dt.year as int) + "-"@ + pad2(dt.month as nat) + "-"@ + pad2(dt.day as nat) + " "@ + pad2(
        dt.hour as nat,
    ) + ":"@ + pad2(dt.minute as nat) + ":"@ + pad2(shown_second(dt.second as int, dt.nanosecond as int) as nat)
        + fraction_text(shown_nano(dt.nanosecond as int)) + " "@ + offset_text(dt.offset as int)
}

/// How a duration is written: months, days and milliseconds.
pub open spec fn duration_text(d: Duration) -> Seq<char> {
    int_text(d.months as int) + "M"@ + int_text(d.days as int) + "d"@ + int_text(d.ms as int) + "ms"@
}

/// How a value is written: strings quoted, dates in brackets.
pub open spec fn value_text(v: ValueV) -> Seq<char> {
    match v {
        ValueV::Str(s) => "\""@ + s + "\""@,
        ValueV::Int(i) => int_text(i as int),
        ValueV::Dur(d) => duration_text(d),
        ValueV::Date(dt) => "["@ + date_display(dt) + "]"@,
    }
}

/// How a token kind is written.
pub open spec fn kind_text(k: KindV) -> Seq<char> {
    match k {
        KindV::Ident(s) => s,
        KindV::Literal(v) => value_text(v),
        KindV::Date(s) => "["@ + s + "]"@,
        KindV::Duration(s) => s,
        KindV::ParenL => "("@,
        KindV::ParenR => ")"@,
        KindV::Not => "!"@,
        KindV::Plus => "+"@,
        KindV::Minus => "-"@,
        KindV::And => "&&"@,
        KindV::Or => "||"@,
        KindV::Lt => "<"@,
        KindV::Gt => ">"@,
        KindV::Leq => "<="@,
        KindV::Geq => ">="@,
        KindV::Eq => "=="@,
        KindV::Neq => "!="@,
        KindV::Glob => "~"@,
        KindV::Nglob => "!~"@,
        KindV::Dot => "."@,
        KindV::Unknown => "(unknown)"@,
        KindV::Eof => "(eof)"@,
    }
}

/// How a span is written: `start--end`.
pub open spec fn span_text(s: Span) -> Seq<char> {
    int_text(s.start as int) + "--"@ + int_text(s.end as int)
}

/// How a duration error reads.
pub open spec fn duration_error_text(e: DurationErrorV) -> Seq<char> {
    match e {
        DurationErrorV::MissingUnit => "Missing last unit"@,
        DurationErrorV::InvalidUnit(u) => "No such unit '"@ + u + "'"@,
    }
}

/// The digits of `v`, at least two.
proof fn lemma_nat_digits_nonempty(v: nat)
    ensures
        nat_digits(v).len() >= 1,
        v >= 10 ==> nat_digits(v).len() >= 2,
    decreases v,
{
    if v >= 10 {
        lemma_nat_digits_nonempty(v / 10);
    }
}

/// `v` with two digits at least.
fn pad2_text(v: u32) -> (r: String)
    ensures
        r@ == pad2(v as nat),
{
    let d = u32_text(v);
    proof {
        lemma_nat_digits_nonempty(v as nat);
    }
    if v < 10 {
        let mut r = String::from_str("0");
        r.append(d.as_str());
        proof {
            reveal_strlit("0");
            assert(Seq::new(1, |i: int| '0') =~= "0"@);
        }
        r
    } else {
        d
    }
}

/// How `chrono` writes a UTC offset of `o` seconds.
pub fn offset_string(o: i32) -> (r: String)
    ensures
        r@ == offset_text(o as int),
{
    let a: u32 = if o < 0 {
        (-(o as i64)) as u32
    } else {
        o as u32
    };
    let mut r = String::from_str(if o < 0 { "-" } else { "+" });
    r.append(pad2_text(a / 3600).as_str());
    r.append(":");
    r.append(pad2_text((a / 60) % 60).as_str());
    if a % 60 != 0 {
        r.append(":");
        r.append(pad2_text(a % 60).as_str());
    } else {
        proof {
            reveal_strlit("");
            assert(r@ =~= r@ + ""@);
        }
    }
    r
}

/// How `chrono` displays the local date and time `dt`.
pub fn date_display_string(dt: &LocalDateTime) -> (r: String)
    ensures
        r@ == date_display(*dt),
{
    let mut out: Vec<char> = Vec::new();
    crate::filters::push_year(&mut out, dt.year);
    let mut r = crate::ace::text::string_from_chars(out.as_slice());
    r.append("-");
    r.append(pad2_text(dt.month).as_str());
    r.append("-");
    r.append(pad2_text(dt.day).as_str());
    r.append(" ");
    r.append(pad2_text(dt.hour).as_str());
    r.append(":");
    r.append(pad2_text(dt.minute).as_str());
    r.append(":");
    r.append(second_and_fraction(dt.second, dt.nanosecond).as_str());
    r.append(" ");
    r.append(offset_string(dt.offset).as_str());
    r
}

/// `v` (not negative) with zeros in front, up to `width` digits.
pub fn padded_text(v: i64, width: usize) -> (r: String)
    requires
        v >= 0,
    ensures
        r@ == zero_pad(nat_digits(v as nat), width as int),
{
    let d = i64_text(v);
    assert(d@ == nat_digits(v as nat));
    let n = d.unicode_len();
    let mut zeros: Vec<char> = Vec::new();
    if n < width {
        let mut k: usize = 0;
        while k < width - n
            invariant
                n < width,
                k <= width - n,
                zeros@ == Seq::new(k as nat, |i: int| '0'),
            decreases width - n - k,
        {
            zeros.push('0');
            k = k + 1;
            assert(zeros@ =~= Seq::new(k as nat, |i: int| '0'));
        }
    }
    let mut r = crate::ace::text::string_from_chars(zeros.as_slice());
    r.append(d.as_str());
    assert(r@ =~= zero_pad(nat_digits(v as nat), width as int));
    r
}

/// The second of a time with its fraction, as `chrono` writes them.
fn second_and_fraction(second: u32, nano: u32) -> (r: String)
    ensures
        r@ == pad2(shown_second(second as int, nano as int) as nat) + fraction_text(shown_nano(nano as int)),
{
    let (sec, n): (i64, i64) = if nano >= 1_000_000_000 {
        (second as i64 + 1, nano as i64 - 1_000_000_000)
    } else {
        (second as i64, nano as i64)
    };
    let mut r = padded_text(sec, 2);
    if n == 0 {
        proof {
            reveal_strlit("");
            assert(r@ =~= r@ + ""@);
        }
    } else if n % 1_000_000 == 0 {
        r.append(".");
        r.append(padded_text(n / 1_000_000, 3).as_str());
    } else if n % 1000 == 0 {
        r.append(".");
        r.append(padded_text(n / 1000, 6).as_str());
    } else {
        r.append(".");
        r.append(padded_text(n, 9).as_str());
    }
    r
}

impl Duration {
    /// How this duration is written: months, days and milliseconds, as `1M2d300ms`.
    pub fn text(&self) -> (r: String)
        ensures
            r@ == duration_text(*self),
    {
        let mut r = i32_text(self.months);
        r.append("M");
        r.append(i32_text(self.days).as_str());
        r.append("d");
        r.append(i64_text(self.ms).as_str());
        r.append("ms");
        r
    }
}

impl AceValue {
    /// How this value is written: strings quoted, dates in brackets.
    pub fn text(&self) -> (r: String)
        ensures
            r@ == value_text(self@),
    {
        match self {
            AceValue::AceString(s) => {
                let mut r = String::from_str("\"");
                r.append(s.as_str());
                r.append("\"");
                r
            },
            AceValue::AceInt(i) => i64_text(*i),
            AceValue::AceDuration(d) => d.text(),
            AceValue::AceDate(dt) => {
                let mut r = String::from_str("[");
                r.append(date_display_string(dt).as_str());
                r.append("]");
                r
            },
        }
    }
}

impl AceTokenKind {
    /// How this token kind is written.
    pub fn text(&self) -> (r: String)
        ensures
            r@ == kind_text(self@),
    {
        match self {
            AceTokenKind::Ident(s) => s.clone(),
            AceTokenKind::Literal(v) => v.text(),
            AceTokenKind::Date(s) => {
                let mut r = String::from_str("[");
                r.append(s.as_str());
                r.append("]");
                r
            },
            AceTokenKind::Duration(s) => s.clone(),
            AceTokenKind::ParenL => String::from_str("("),
            AceTokenKind::ParenR => String::from_str(")"),
            AceTokenKind::Not => String::from_str("!"),
            AceTokenKind::Plus => String::from_str("+"),
            AceTokenKind::Minus => String::from_str("-"),
            AceTokenKind::And => String::from_str("&&"),
            AceTokenKind::Or => String::from_str("||"),
            AceTokenKind::Lt => String::from_str("<"),
            AceTokenKind::Gt => String::from_str(">"),
            AceTokenKind::Leq => String::from_str("<="),
            AceTokenKind::Geq => String::from_str(">="),
            AceTokenKind::Eq => String::from_str("=="),
            AceTokenKind::Neq => String::from_str("!="),
            AceTokenKind::Glob => String::from_str("~"),
            AceTokenKind::Nglob => String::from_str("!~"),
            AceTokenKind::Dot => String::from_str("."),
            AceTokenKind::Unknown => String::from_str("(unknown)"),
            AceTokenKind::Eof => String::from_str("(eof)"),
        }
    }
}

impl Span {
    /// How this span is written: `start--end`.
    pub fn text(&self) -> (r: String)
        ensures
            r@ == span_text(*self),
    {
        let mut r = usize_text(self.start);
        r.append("--");
        r.append(usize_text(self.end).as_str());
        r
    }
}

impl DurationError {
    /// How this error reads.
    pub fn message(&self) -> (r: String)
        ensures
            r@ == duration_error_text(self@),
    {
        match self {
            DurationError::MissingUnit => String::from_str("Missing last unit"),
            DurationError::InvalidUnit(u) => {
                let mut r = String::from_str("No such unit '");
                r.append(u.as_str());
                r.append("'");
                r
            },
        }
    }
}

/// How a lexing error reads.
pub open spec fn lex_error_text(e: LexError) -> Seq<char> {
    match e {
        LexError::ReachedEof(c) => "Reached EOF while searching for '"@ + seq![c] + "'"@,
    }
}

/// How a parsing error reads.
pub open spec fn parse_error_text(e: ParseErrorV) -> Seq<char> {
    match e {
        ParseErrorV::Eof => "Premature EOF"@,
        ParseErrorV::Expected(want, got, sp) => "Expected '"@ + kind_text(want) + "', but found '"@ + kind_text(got)
            + "' at "@ + span_text(sp),
        ParseErrorV::Primary(got, sp) => "Expected primary expression, but found '"@ + kind_text(got) + "' at "@
            + span_text(sp),
        ParseErrorV::Date(d, sp) => "Failed to parse the date '"@ + d + "' at "@ + span_text(sp),
        ParseErrorV::Duration(de, sp) => "Failed to parse the duration at "@ + span_text(sp) + ": "@
            + duration_error_text(de),
        ParseErrorV::Identifier(id, sp) => "Unknown identifier '"@ + id + "' at "@ + span_text(sp),
    }
}

/// How an error of the expression language reads.
pub open spec fn error_text(e: ErrorV) -> Seq<char> {
    match e {
        ErrorV::Lex(l) => "Error during the lexing process: "@ + lex_error_text(l),
        ErrorV::Parse(p) => "Error during the parsing process: "@ + parse_error_text(p),
    }
}

impl LexError {
    /// How this error reads.
    pub fn message(&self) -> (r: String)
        ensures
            r@ == lex_error_text(*self),
    {
        match self {
            LexError::ReachedEof(c) => {
                let mut r = String::from_str("Reached EOF while searching for '");
                let mut cs: Vec<char> = Vec::new();
                cs.push(*c);
                r.append(crate::ace::text::string_from_chars(cs.as_slice()).as_str());
                r.append("'");
                assert(cs@ =~= seq![*c]);
                r
            },
        }
    }
}

impl ParseError {
    /// How this error reads.
    pub fn message(&self) -> (r: String)
        ensures
            r@ == parse_error_text(self@),
    {
        match self {
            ParseError::Eof => String::from_str("Premature EOF"),
            ParseError::Expected(want, got, sp) => {
                let mut r = String::from_str("Expected '");
                r.append(want.text().as_str());
                r.append("', but found '");
                r.append(got.text().as_str());
                r.append("' at ");
                r.append(sp.text().as_str());
                r
            },
            ParseError::Primary(got, sp) => {
                let mut r = String::from_str("Expected primary expression, but found '");
                r.append(got.text().as_str());
                r.append("' at ");
                r.append(sp.text().as_str());
                r
            },
            ParseError::Date(d, sp) => {
                let mut r = String::from_str("Failed to parse the date '");
                r.append(d.as_str());
                r.append("' at ");
                r.append(sp.text().as_str());
                r
            },
            ParseError::Duration(de, sp) => {
                let mut r = String::from_str("Failed to parse the duration at ");
                r.append(sp.text().as_str());
                r.append(": ");
                r.append(de.message().as_str());
                r
            },
            ParseError::Identifier(id, sp) => {
                let mut r = String::from_str("Unknown identifier '");
                r.append(id.as_str());
                r.append("' at ");
                r.append(sp.text().as_str());
                r
            },
        }
    }
}

impl AceError {
    /// How this error reads.
    pub fn message(&self) -> (r: String)
        ensures
            r@ == error_text(self@),
    {
        match self {
            AceError::Lex(l) => {
                let mut r = String::from_str("Error during the lexing process: ");
                r.append(l.message().as_str());
                r
            },
            AceError::Parse(p) => {
                let mut r = String::from_str("Error during the parsing process: ");
                r.append(p.message().as_str());
                r
            },
        }
    }
}

/// How a unary operator is written.
pub open spec fn unop_text(op: AceUnop) -> Seq<char> {
    match op {
        AceUnop::Not => "!"@,
        AceUnop::Neg => "-"@,
    }
}

/// How a binary operator is written.
pub open spec fn binop_text(op: AceBinop) -> Seq<char> {
    match op {
        AceBinop::Dot => "."@,
        AceBinop::Add => "+"@,
        AceBinop::Sub => "-"@,
        AceBinop::Lt => "<"@,
        AceBinop::Gt => ">"@,
        AceBinop::Leq => "<="@,
        AceBinop::Geq => ">="@,
        AceBinop::Eq => "=="@,
        AceBinop::Neq => "!="@,
        AceBinop::Glob => "~"@,
        AceBinop::Nglob => "!~"@,
        AceBinop::And => "&&"@,
        AceBinop::Or => "||"@,
    }
}

/// The name of a type, as `Debug` writes it.
pub open spec fn ace_type_text(t: AceType) -> Seq<char> {
    match t {
        AceType::Unknown => "Unknown"@,
        AceType::AceString => "AceString"@,
        AceType::AceInt => "AceInt"@,
        AceType::AceDuration => "AceDuration"@,
        AceType::AceDate => "AceDate"@,
    }
}

/// How the meta data of an expression is written: its span and its type.
pub open spec fn meta_text(m: AceAstMeta) -> Seq<char> {
    span_text(m.span) + ", "@ + ace_type_text(m.typ)
}

/// Two spaces for each level of nesting.
pub open spec fn indent_text(n: nat) -> Seq<char> {
    Seq::new(2 * n, |i: int| ' ')
}

/// How deep a tree is nested.
pub open spec fn depth(a: AstV) -> nat
    decreases a,
{
    match a {
        AstV::Identifier(..) => 0,
        AstV::Literal(..) => 0,
        AstV::UnaryExpr(_, _, b) => 1 + depth(*b),
        AstV::BinaryExpr(_, _, l, r) => 1 + (if depth(*l) > depth(*r) { depth(*l) } else { depth(*r) }),
    }
}

/// A tree written one node per line, children indented one level below their parent.
pub open spec fn pretty(a: AstV, n: nat) -> Seq<char>
    decreases a,
{
    match a {
        AstV::Identifier(m, s) => indent_text(n) + s + " ("@ + meta_text(m) + ")\n"@,
        AstV::Literal(m, v) => indent_text(n) + value_text(v) + " ("@ + meta_text(m) + ")\n"@,
        AstV::UnaryExpr(m, op, b) => indent_text(n) + "un:"@ + unop_text(op) + " ("@ + meta_text(m) + ")\n"@
            + pretty(*b, n + 1),
        AstV::BinaryExpr(m, op, l, r) => indent_text(n) + "bin:"@ + binop_text(op) + " ("@ + meta_text(m)
            + ")\n"@ + pretty(*l, n + 1) + pretty(*r, n + 1),
    }
}

impl AceUnop {
    /// How this operator is written.
    pub fn text(&self) -> (r: &'static str)
        ensures
            r@ == unop_text(*self),
    {
        match self {
            AceUnop::Not => "!",
            AceUnop::Neg => "-",
        }
    }
}

impl AceBinop {
    /// How this operator is written.
    pub fn text(&self) -> (r: &'static str)
        ensures
            r@ == binop_text(*self),
    {
        match self {
            AceBinop::Dot => ".",
            AceBinop::Add => "+",
            AceBinop::Sub => "-",
            AceBinop::Lt => "<",
            AceBinop::Gt => ">",
            AceBinop::Leq => "<=",
            AceBinop::Geq => ">=",
            AceBinop::Eq => "==",
            AceBinop::Neq => "!=",
            AceBinop::Glob => "~",
            AceBinop::Nglob => "!~",
            AceBinop::And => "&&",
            AceBinop::Or => "||",
        }
    }
}

impl AceAstMeta {
    /// How this meta data is written: the span, then the type.
    pub fn text(&self) -> (r: String)
        ensures
            r@ == meta_text(*self),
    {
        let mut r = self.span.text();
        r.append(", ");
        r.append(
            match self.typ {
                AceType::Unknown => "Unknown",
                AceType::AceString => "AceString",
                AceType::AceInt => "AceInt",
                AceType::AceDuration => "AceDuration",
                AceType::AceDate => "AceDate",
            },
        );
        r
    }
}

/// Appends the indentation of nesting level `n`.
fn push_indent(buf: &mut String, n: usize)
    requires
        2 * n <= usize::MAX,
    ensures
        final(buf)@ == old(buf)@ + indent_text(n as nat),
{
    let mut k: usize = 0;
    let ghost start = buf@;
    while k < n
        invariant
            k <= n,
            2 * n <= usize::MAX,
            buf@ == start + indent_text(k as nat),
        decreases n - k,
    {
        buf.append("  ");
        proof {
            reveal_strlit("  ");
            assert(start + indent_text((k + 1) as nat) =~= start + indent_text(k as nat) + "  "@);
        }
        k = k + 1;
    }
}

/// The line of a node at nesting level `n`: indentation, the node's own text, then its
/// meta data.
pub open spec fn line_text(n: nat, head: Seq<char>, m: AceAstMeta) -> Seq<char> {
    indent_text(n) + head + " ("@ + meta_text(m) + ")\n"@
}

/// Appends the line of a node: indentation, the node's own text, then its meta data.
fn push_line(buf: &mut String, n: usize, head: &str, m: &AceAstMeta)
    requires
        2 * n <= usize::MAX,
    ensures
        final(buf)@ == old(buf)@ + line_text(n as nat, head@, *m),
{
    let ghost start = buf@;
    push_indent(buf, n);
    buf.append(head);
    buf.append(" (");
    buf.append(m.text().as_str());
    buf.append(")\n");
    assert(buf@ =~= start + line_text(n as nat, head@, *m));
}

/// A tree written out is its own line, then its children written one level deeper.
proof fn lemma_pretty_unfold(a: AstV, n: nat)
    ensures
        pretty(a, n) == line_text(n, head_text(a), meta_of(a)) + match a {
            AstV::UnaryExpr(_, _, b) => pretty(*b, n + 1),
            AstV::BinaryExpr(_, _, l, r) => pretty(*l, n + 1) + pretty(*r, n + 1),
            _ => Seq::<char>::empty(),
        },
{
    match a {
        AstV::UnaryExpr(_, _, b) => {
            assert(pretty(a, n) =~= line_text(n, head_text(a), meta_of(a)) + pretty(*b, n + 1));
        },
        AstV::BinaryExpr(_, _, l, r) => {
            assert(pretty(a, n) =~= line_text(n, head_text(a), meta_of(a)) + pretty(*l, n + 1) + pretty(*r, n + 1));
        },
        _ => {
            assert(pretty(a, n) =~= line_text(n, head_text(a), meta_of(a)) + Seq::<char>::empty());
        },
    }
}

/// The text of a node on its line: an identifier's name, a literal's value, an operator.
pub open spec fn head_text(a: AstV) -> Seq<char> {
    match a {
        AstV::Identifier(_, s) => s,
        AstV::Literal(_, v) => value_text(v),
        AstV::UnaryExpr(_, op, _) => "un:"@ + unop_text(op),
        AstV::BinaryExpr(_, op, _, _) => "bin:"@ + binop_text(op),
    }
}

impl AceAst {
    /// The text of this node on its line.
    fn head(&self) -> (r: String)
        ensures
            r@ == head_text(self@),
    {
        match self {
            AceAst::Identifier(_, s) => s.clone(),
            AceAst::Literal(_, v) => v.text(),
            AceAst::UnaryExpr(_, op, _) => {
                let mut h = String::from_str("un:");
                h.append(op.text());
                h
            },
            AceAst::BinaryExpr(_, op, _, _) => {
                let mut h = String::from_str("bin:");
                h.append(op.text());
                h
            },
        }
    }

    /// Appends this tree, one node per line, at nesting level `nindent`.
    #[verifier::rlimit(40)]
    fn pp_impl(&self, buf: &mut String, nindent: usize)
        requires
            2 * (nindent + depth(self@)) <= usize::MAX,
        ensures
            final(buf)@ == old(buf)@ + pretty(self@, nindent as nat),
        decreases self,
    {
        let ghost start = buf@;
        let ghost n = nindent as nat;
        let head = self.head();
        push_line(buf, nindent, head.as_str(), self.meta());
        let ghost line = buf@;
        proof {
            lemma_pretty_unfold(self@, n);
        }
        match self {
            AceAst::UnaryExpr(_, _, body) => {
                (**body).pp_impl(buf, nindent + 1);
                assert(buf@ =~= line + pretty(body@, n + 1));
            },
            AceAst::BinaryExpr(_, _, left, right) => {
                (**left).pp_impl(buf, nindent + 1);
                let ghost mid = buf@;
                (**right).pp_impl(buf, nindent + 1);
                assert(buf@ =~= line + pretty(left@, n + 1) + pretty(right@, n + 1));
            },
            _ => {
                assert(buf@ =~= line + Seq::<char>::empty());
            },
        }
    }

    /// This tree, one node per line, children indented below their parent.
    pub fn pretty_print(&self) -> (r: String)
        requires
            2 * depth(self@) <= usize::MAX,
        ensures
            r@ == pretty(self@, 0),
    {
        let mut buf = String::new();
        self.pp_impl(&mut buf, 0);
        buf
    }
}

} // verus!
