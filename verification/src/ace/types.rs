use vstd::prelude::*;

use crate::clock::LocalDateTime;

verus! {

/// A span of time, modeled after `INTERVAL` in Postgres: whole months, whole days and
/// milliseconds are kept apart.
#[derive(Debug, PartialEq, Eq, Clone, Copy, Structural)]
pub struct Duration {
    pub months: i32,
    pub days: i32,
    pub ms: i64,
}

impl Default for Duration {
    fn default() -> (r: Self)
        ensures
            r == (Duration { months: 0, days: 0, ms: 0 }),
    {
        Duration { months: 0, days: 0, ms: 0 }
    }
}

/// The type of an expression.
#[derive(Debug, PartialEq, Eq, Clone, Copy, Structural)]
pub enum AceType {
    Unknown,
    AceString,
    AceInt,
    AceDuration,
    AceDate,
}

impl Default for AceType {
    fn default() -> (r: Self)
        ensures
            r == AceType::Unknown,
    {
        AceType::Unknown
    }
}

/// A value of the expression language.
#[derive(Debug, PartialEq, Eq, Clone)]
pub enum AceValue {
    AceString(String),
    AceInt(i64),
    AceDuration(Duration),
    AceDate(LocalDateTime),
}

/// The mathematical content of an [`AceValue`].
pub enum ValueV {
    Str(Seq<char>),
    Int(i64),
    Dur(Duration),
    Date(LocalDateTime),
}

impl View for AceValue {
    type V = ValueV;

    open spec fn view(&self) -> ValueV {
        match self {
            AceValue::AceString(s) => ValueV::Str(s@),
            AceValue::AceInt(i) => ValueV::Int(*i),
            AceValue::AceDuration(d) => ValueV::Dur(*d),
            AceValue::AceDate(d) => ValueV::Date(*d),
        }
    }
}

/// The type of a value.
pub open spec fn value_type(v: ValueV) -> AceType {
    match v {
        ValueV::Str(_) => AceType::AceString,
        ValueV::Int(_) => AceType::AceInt,
        ValueV::Dur(_) => AceType::AceDuration,
        ValueV::Date(_) => AceType::AceDate,
    }
}

impl AceValue {
    /// The type of this value.
    pub fn typ(&self) -> (r: AceType)
        ensures
            r == value_type(self@),
    {
        match self {
            AceValue::AceString(_) => AceType::AceString,
            AceValue::AceInt(_) => AceType::AceInt,
            AceValue::AceDuration(_) => AceType::AceDuration,
            AceValue::AceDate(_) => AceType::AceDate,
        }
    }

    /// A copy of this value.
    pub fn duplicate(&self) -> (r: AceValue)
        ensures
            r@ == self@,
    {
        match self {
            AceValue::AceString(s) => AceValue::AceString(s.clone()),
            AceValue::AceInt(i) => AceValue::AceInt(*i),
            AceValue::AceDuration(d) => AceValue::AceDuration(*d),
            AceValue::AceDate(d) => AceValue::AceDate(*d),
        }
    }
}

impl From<i64> for AceValue {
    fn from(v: i64) -> (r: AceValue) {
        AceValue::AceInt(v)
    }
}

impl vstd::std_specs::convert::FromSpecImpl<i64> for AceValue {
    open spec fn obeys_from_spec() -> bool {
        true
    }

    open spec fn from_spec(v: i64) -> AceValue {
        AceValue::AceInt(v)
    }
}

impl From<String> for AceValue {
    fn from(v: String) -> (r: AceValue) {
        AceValue::AceString(v)
    }
}

impl vstd::std_specs::convert::FromSpecImpl<String> for AceValue {
    open spec fn obeys_from_spec() -> bool {
        true
    }

    open spec fn from_spec(v: String) -> AceValue {
        AceValue::AceString(v)
    }
}

impl From<Duration> for AceValue {
    fn from(v: Duration) -> (r: AceValue) {
        AceValue::AceDuration(v)
    }
}

impl vstd::std_specs::convert::FromSpecImpl<Duration> for AceValue {
    open spec fn obeys_from_spec() -> bool {
        true
    }

    open spec fn from_spec(v: Duration) -> AceValue {
        AceValue::AceDuration(v)
    }
}

impl From<LocalDateTime> for AceValue {
    fn from(v: LocalDateTime) -> (r: AceValue) {
        AceValue::AceDate(v)
    }
}

impl vstd::std_specs::convert::FromSpecImpl<LocalDateTime> for AceValue {
    open spec fn obeys_from_spec() -> bool {
        true
    }

    open spec fn from_spec(v: LocalDateTime) -> AceValue {
        AceValue::AceDate(v)
    }
}


/// The kinds of tokens of the expression language.
#[derive(Debug, PartialEq, Eq, Clone)]
pub enum AceTokenKind {
    Ident(String),
    /// Literals that cannot fail: strings and integers.
    Literal(AceValue),
    /// A date, parsed later: `[2026-09-28 17:00]`.
    Date(String),
    /// A duration, parsed later: `1w2d3h5m`.
    Duration(String),
    ParenL,
    ParenR,
    Not,
    Plus,
    Minus,
    And,
    Or,
    Lt,
    Gt,
    Leq,
    Geq,
    Eq,
    Neq,
    Glob,
    Nglob,
    Dot,
    Unknown,
    Eof,
}

/// The mathematical content of an [`AceTokenKind`].
pub enum KindV {
    Ident(Seq<char>),
    Literal(ValueV),
    Date(Seq<char>),
    Duration(Seq<char>),
    ParenL,
    ParenR,
    Not,
    Plus,
    Minus,
    And,
    Or,
    Lt,
    Gt,
    Leq,
    Geq,
    Eq,
    Neq,
    Glob,
    Nglob,
    Dot,
    Unknown,
    Eof,
}

impl View for AceTokenKind {
    type V = KindV;

    open spec fn view(&self) -> KindV {
        match self {
            AceTokenKind::Ident(s) => KindV::Ident(s@),
            AceTokenKind::Literal(v) => KindV::Literal(v@),
            AceTokenKind::Date(s) => KindV::Date(s@),
            AceTokenKind::Duration(s) => KindV::Duration(s@),
            AceTokenKind::ParenL => KindV::ParenL,
            AceTokenKind::ParenR => KindV::ParenR,
            AceTokenKind::Not => KindV::Not,
            AceTokenKind::Plus => KindV::Plus,
            AceTokenKind::Minus => KindV::Minus,
            AceTokenKind::And => KindV::And,
            AceTokenKind::Or => KindV::Or,
            AceTokenKind::Lt => KindV::Lt,
            AceTokenKind::Gt => KindV::Gt,
            AceTokenKind::Leq => KindV::Leq,
            AceTokenKind::Geq => KindV::Geq,
            AceTokenKind::Eq => KindV::Eq,
            AceTokenKind::Neq => KindV::Neq,
            AceTokenKind::Glob => KindV::Glob,
            AceTokenKind::Nglob => KindV::Nglob,
            AceTokenKind::Dot => KindV::Dot,
            AceTokenKind::Unknown => KindV::Unknown,
            AceTokenKind::Eof => KindV::Eof,
        }
    }
}

/// Whether two strings hold the same characters.
pub fn same_text(a: &String, b: &String) -> (r: bool)
    ensures
        r == (a@ == b@),
{
    a.eq(b)
}

/// Whether two values are the same value.
pub fn same_value(a: &AceValue, b: &AceValue) -> (r: bool)
    ensures
        r == (a@ == b@),
{
    match (a, b) {
        (AceValue::AceString(x), AceValue::AceString(y)) => same_text(x, y),
        (AceValue::AceInt(x), AceValue::AceInt(y)) => *x == *y,
        (AceValue::AceDuration(x), AceValue::AceDuration(y)) => *x == *y,
        (AceValue::AceDate(x), AceValue::AceDate(y)) => *x == *y,
        _ => false,
    }
}

impl AceTokenKind {
    /// A copy of this token kind.
    pub fn duplicate(&self) -> (r: AceTokenKind)
        ensures
            r@ == self@,
    {
        match self {
            AceTokenKind::Ident(s) => AceTokenKind::Ident(s.clone()),
            AceTokenKind::Literal(v) => AceTokenKind::Literal(v.duplicate()),
            AceTokenKind::Date(s) => AceTokenKind::Date(s.clone()),
            AceTokenKind::Duration(s) => AceTokenKind::Duration(s.clone()),
            AceTokenKind::ParenL => AceTokenKind::ParenL,
            AceTokenKind::ParenR => AceTokenKind::ParenR,
            AceTokenKind::Not => AceTokenKind::Not,
            AceTokenKind::Plus => AceTokenKind::Plus,
            AceTokenKind::Minus => AceTokenKind::Minus,
            AceTokenKind::And => AceTokenKind::And,
            AceTokenKind::Or => AceTokenKind::Or,
            AceTokenKind::Lt => AceTokenKind::Lt,
            AceTokenKind::Gt => AceTokenKind::Gt,
            AceTokenKind::Leq => AceTokenKind::Leq,
            AceTokenKind::Geq => AceTokenKind::Geq,
            AceTokenKind::Eq => AceTokenKind::Eq,
            AceTokenKind::Neq => AceTokenKind::Neq,
            AceTokenKind::Glob => AceTokenKind::Glob,
            AceTokenKind::Nglob => AceTokenKind::Nglob,
            AceTokenKind::Dot => AceTokenKind::Dot,
            AceTokenKind::Unknown => AceTokenKind::Unknown,
            AceTokenKind::Eof => AceTokenKind::Eof,
        }
    }

    /// Whether two token kinds are the same, payload included.
    pub fn same(&self, other: &AceTokenKind) -> (r: bool)
        ensures
            r == (self@ == other@),
    {
        match (self, other) {
            (AceTokenKind::Ident(a), AceTokenKind::Ident(b)) => same_text(a, b),
            (AceTokenKind::Literal(a), AceTokenKind::Literal(b)) => same_value(a, b),
            (AceTokenKind::Date(a), AceTokenKind::Date(b)) => same_text(a, b),
            (AceTokenKind::Duration(a), AceTokenKind::Duration(b)) => same_text(a, b),
            (AceTokenKind::ParenL, AceTokenKind::ParenL) => true,
            (AceTokenKind::ParenR, AceTokenKind::ParenR) => true,
            (AceTokenKind::Not, AceTokenKind::Not) => true,
            (AceTokenKind::Plus, AceTokenKind::Plus) => true,
            (AceTokenKind::Minus, AceTokenKind::Minus) => true,
            (AceTokenKind::And, AceTokenKind::And) => true,
            (AceTokenKind::Or, AceTokenKind::Or) => true,
            (AceTokenKind::Lt, AceTokenKind::Lt) => true,
            (AceTokenKind::Gt, AceTokenKind::Gt) => true,
            (AceTokenKind::Leq, AceTokenKind::Leq) => true,
            (AceTokenKind::Geq, AceTokenKind::Geq) => true,
            (AceTokenKind::Eq, AceTokenKind::Eq) => true,
            (AceTokenKind::Neq, AceTokenKind::Neq) => true,
            (AceTokenKind::Glob, AceTokenKind::Glob) => true,
            (AceTokenKind::Nglob, AceTokenKind::Nglob) => true,
            (AceTokenKind::Dot, AceTokenKind::Dot) => true,
            (AceTokenKind::Unknown, AceTokenKind::Unknown) => true,
            (AceTokenKind::Eof, AceTokenKind::Eof) => true,
            _ => false,
        }
    }
}

/// Where a token or an expression stands in the input: `start` up to `end`, counted in
/// characters read.
#[derive(Debug, PartialEq, Eq, Clone, Copy, Structural)]
pub struct Span {
    pub start: usize,
    pub end: usize,
}

/// A token and where it stands.
#[derive(Debug, Clone)]
pub struct AceToken {
    pub kind: AceTokenKind,
    pub span: Span,
}

/// The mathematical content of an [`AceToken`].
pub struct TokenV {
    pub kind: KindV,
    pub span: Span,
}

impl View for AceToken {
    type V = TokenV;

    open spec fn view(&self) -> TokenV {
        TokenV { kind: self.kind@, span: self.span }
    }
}

impl AceToken {
    /// A token of kind `kind` from `start` to `end`.
    pub fn new(kind: AceTokenKind, start: usize, end: usize) -> (r: AceToken)
        ensures
            r.kind == kind,
            r.span == (Span { start, end }),
    {
        AceToken { kind, span: Span { start, end } }
    }

    /// A copy of this token.
    pub fn duplicate(&self) -> (r: AceToken)
        ensures
            r@ == self@,
    {
        AceToken { kind: self.kind.duplicate(), span: self.span }
    }
}

/// Errors in reading a duration.
#[derive(Debug, Clone, PartialEq, Eq)]
pub enum DurationError {
    MissingUnit,
    InvalidUnit(String),
}

/// The mathematical content of a [`DurationError`].
pub enum DurationErrorV {
    MissingUnit,
    InvalidUnit(Seq<char>),
}

impl View for DurationError {
    type V = DurationErrorV;

    open spec fn view(&self) -> DurationErrorV {
        match self {
            DurationError::MissingUnit => DurationErrorV::MissingUnit,
            DurationError::InvalidUnit(u) => DurationErrorV::InvalidUnit(u@),
        }
    }
}

/// Errors in splitting the input into tokens.
#[derive(Debug, Clone, Copy, PartialEq, Eq, Structural)]
pub enum LexError {
    /// The input ended before the given closing character.
    ReachedEof(char),
}

/// Errors in building the syntax tree.
#[derive(Debug, Clone)]
pub enum ParseError {
    Eof,
    Expected(AceTokenKind, AceTokenKind, Span),
    Primary(AceTokenKind, Span),
    Date(String, Span),
    Duration(DurationError, Span),
    Identifier(String, Span),
}

/// The mathematical content of a [`ParseError`].
pub enum ParseErrorV {
    Eof,
    Expected(KindV, KindV, Span),
    Primary(KindV, Span),
    Date(Seq<char>, Span),
    Duration(DurationErrorV, Span),
    Identifier(Seq<char>, Span),
}

impl View for ParseError {
    type V = ParseErrorV;

    open spec fn view(&self) -> ParseErrorV {
        match self {
            ParseError::Eof => ParseErrorV::Eof,
            ParseError::Expected(a, b, s) => ParseErrorV::Expected(a@, b@, *s),
            ParseError::Primary(a, s) => ParseErrorV::Primary(a@, *s),
            ParseError::Date(t, s) => ParseErrorV::Date(t@, *s),
            ParseError::Duration(e, s) => ParseErrorV::Duration(e@, *s),
            ParseError::Identifier(t, s) => ParseErrorV::Identifier(t@, *s),
        }
    }
}

/// Any error of the expression language.
#[derive(Debug, Clone)]
pub enum AceError {
    Lex(LexError),
    Parse(ParseError),
}

/// The mathematical content of an [`AceError`].
pub enum ErrorV {
    Lex(LexError),
    Parse(ParseErrorV),
}

impl View for AceError {
    type V = ErrorV;

    open spec fn view(&self) -> ErrorV {
        match self {
            AceError::Lex(e) => ErrorV::Lex(*e),
            AceError::Parse(e) => ErrorV::Parse(e@),
        }
    }
}

impl AceError {
    /// A copy of this error.
    pub fn duplicate(&self) -> (r: AceError)
        ensures
            r@ == self@,
    {
        match self {
            AceError::Lex(e) => AceError::Lex(*e),
            AceError::Parse(e) => AceError::Parse(
                match e {
                    ParseError::Eof => ParseError::Eof,
                    ParseError::Expected(a, b, s) => ParseError::Expected(
                        a.duplicate(),
                        b.duplicate(),
                        *s,
                    ),
                    ParseError::Primary(a, s) => ParseError::Primary(a.duplicate(), *s),
                    ParseError::Date(t, s) => ParseError::Date(t.clone(), *s),
                    ParseError::Duration(d, s) => ParseError::Duration(
                        match d {
                            DurationError::MissingUnit => DurationError::MissingUnit,
                            DurationError::InvalidUnit(u) => DurationError::InvalidUnit(u.clone()),
                        },
                        *s,
                    ),
                    ParseError::Identifier(t, s) => ParseError::Identifier(t.clone(), *s),
                },
            ),
        }
    }
}

/// A result of the expression language.
pub type AceResult<T> = Result<T, AceError>;

/// The mathematical content of a token read, or of the error met instead.
pub open spec fn token_result_view(r: AceResult<AceToken>) -> Result<TokenV, ErrorV> {
    match r {
        Ok(t) => Ok(t@),
        Err(e) => Err(e@),
    }
}

/// A copy of a token read.
pub fn duplicate_token_result(r: &AceResult<AceToken>) -> (out: AceResult<AceToken>)
    ensures
        token_result_view(out) == token_result_view(*r),
{
    match r {
        Ok(t) => Ok(t.duplicate()),
        Err(e) => Err(e.duplicate()),
    }
}

} // verus!
