use atlas::ace::ast::{AceAst, AceBinop, AceUnop};
use atlas::ace::date::parse_date;
use atlas::clock::LocalDateTime;
use atlas::ace::duration::parse_duration;
use atlas::ace::instance::AceInstance;
use atlas::ace::lexer::AceLexer;
use atlas::ace::parser::AceParser;
use atlas::ace::types::AceTokenKind::{
    And, Date, Dot, Geq, Glob, Gt, Ident, Leq, Literal, Minus, Neq, Nglob, Not, Or, ParenL, ParenR, Plus,
};
use atlas::ace::types::{
    AceError, AceTokenKind, AceType, AceValue, Duration, DurationError, LexError, ParseError, ValueV,
};

fn kinds(input: &str) -> Vec<AceTokenKind> {
    let mut lexer = AceLexer::lex(input);
    let mut out = Vec::new();
    while let Some(t) = lexer.next() {
        out.push(t.unwrap().kind);
    }
    out
}

struct FippelInstance;

impl AceInstance for FippelInstance {
    fn spec_constants() -> vstd::seq::Seq<(vstd::seq::Seq<char>, ValueV)> {
        unreachable!()
    }

    fn spec_fields() -> vstd::seq::Seq<(vstd::seq::Seq<char>, vstd::seq::Seq<char>)> {
        unreachable!()
    }

    fn constants() -> Vec<(String, AceValue)> {
        vec![("date".to_string(), AceValue::AceDate(parse_date("17:32").unwrap()))]
    }

    fn fields() -> Vec<(String, String)> {
        vec![
            ("fippel".to_string(), "post.fippel".to_string()),
            ("time".to_string(), "post.time".to_string()),
        ]
    }
}

struct OnlyFields;

impl AceInstance for OnlyFields {
    fn spec_constants() -> vstd::seq::Seq<(vstd::seq::Seq<char>, ValueV)> {
        unreachable!()
    }

    fn spec_fields() -> vstd::seq::Seq<(vstd::seq::Seq<char>, vstd::seq::Seq<char>)> {
        unreachable!()
    }

    fn constants() -> Vec<(String, AceValue)> {
        vec![
            ("limit".to_string(), AceValue::AceInt(3)),
            ("limit".to_string(), AceValue::AceInt(7)),
        ]
    }

    fn fields() -> Vec<(String, String)> {
        vec![("title".to_string(), "post.title".to_string())]
    }
}

#[test]
fn lex() {
    let tokens = kinds("(fippel > -65 + 4w3d) && (date == [2026-09-28]) + \"hej\"");
    assert_eq!(
        tokens,
        vec![
            ParenL,
            Ident("fippel".into()),
            Gt,
            Minus,
            Literal(65.into()),
            Plus,
            AceTokenKind::Duration("4w3d".into()),
            ParenR,
            And,
            ParenL,
            Ident("date".into()),
            AceTokenKind::Eq,
            Date("2026-09-28".into()),
            ParenR,
            Plus,
            Literal("hej".to_string().into()),
        ],
    );
}

#[test]
fn lex_fail() {
    let date_fail = AceLexer::lex("[2026").next().unwrap().err().unwrap();
    let str_fail = AceLexer::lex("\"2026").next().unwrap().err().unwrap();

    assert!(match date_fail {
        AceError::Lex(LexError::ReachedEof(c)) => c == ']',
        _ => false,
    });
    assert!(match str_fail {
        AceError::Lex(LexError::ReachedEof(c)) => c == '"',
        _ => false,
    });
}

#[test]
fn parse() {
    let out = AceParser::new(AceLexer::lex(
        "(fippel > -65 + 4w3d) && (date.time == [2026-07-04 17:32].time) + \"hej\"",
    ))
    .parse();
    assert!(out.is_ok());
}

#[test]
fn analyze() {
    let out = AceParser::new(AceLexer::lex(
        "(fippel > -65 + 4w3d) && (date.time == [2026-07-04 17:32].time) + \"hej\"",
    ))
    .parse()
    .unwrap()
    .analyze::<FippelInstance>();
    assert!(out.is_ok());
}

#[test]
fn lex_two_char_operators() {
    assert_eq!(
        kinds("a <= b >= c != d !~ e ~ f || g ! h . i"),
        vec![
            Ident("a".into()),
            Leq,
            Ident("b".into()),
            Geq,
            Ident("c".into()),
            Neq,
            Ident("d".into()),
            Nglob,
            Ident("e".into()),
            Glob,
            Ident("f".into()),
            Or,
            Ident("g".into()),
            Not,
            Ident("h".into()),
            Dot,
            Ident("i".into()),
        ]
    );
}

#[test]
fn lex_empty_input_has_no_tokens() {
    assert_eq!(kinds(""), vec![]);
    assert_eq!(kinds("   "), vec![]);
}

#[test]
fn lex_token_spans() {
    let mut lexer = AceLexer::lex("ab + 12");
    let a = lexer.next().unwrap().unwrap();
    assert_eq!((a.span.start, a.span.end), (0, 2));
    let plus = lexer.next().unwrap().unwrap();
    assert_eq!((plus.span.start, plus.span.end), (3, 4));
    let n = lexer.next().unwrap().unwrap();
    assert_eq!(n.kind, AceTokenKind::Literal(AceValue::AceInt(12)));
    assert_eq!((n.span.start, n.span.end), (5, 7));
    assert!(lexer.next().is_none());
    assert!(lexer.next().is_none());
}

#[test]
fn parse_binop_span_covers_operands() {
    let ast = AceParser::new(AceLexer::lex("a + bc")).parse().unwrap();
    match ast {
        AceAst::BinaryExpr(m, op, left, right) => {
            assert_eq!(op, AceBinop::Add);
            assert_eq!((m.span.start, m.span.end), (0, 6));
            assert!(matches!(*left, AceAst::Identifier(_, ref s) if s == "a"));
            assert!(matches!(*right, AceAst::Identifier(_, ref s) if s == "bc"));
        }
        _ => panic!("expected a binary expression"),
    }
}

#[test]
fn parse_unary_minus() {
    let ast = AceParser::new(AceLexer::lex("-5")).parse().unwrap();
    match ast {
        AceAst::UnaryExpr(_, op, body) => {
            assert_eq!(op, AceUnop::Neg);
            assert!(matches!(*body, AceAst::Literal(_, AceValue::AceInt(5))));
        }
        _ => panic!("expected a unary expression"),
    }
}

#[test]
fn parse_reports_missing_paren() {
    let out = AceParser::new(AceLexer::lex("(a + b")).parse();
    assert!(out.is_err());
}

#[test]
fn parse_reports_bad_primary() {
    let out = AceParser::new(AceLexer::lex(")")).parse();
    assert!(matches!(out, Err(AceError::Parse(ParseError::Primary(AceTokenKind::ParenR, _)))));
}

#[test]
fn analyze_types_literals_and_constants() {
    let ast = AceParser::new(AceLexer::lex("limit")).parse().unwrap();
    match ast.analyze::<OnlyFields>().unwrap() {
        AceAst::Identifier(m, s) => {
            assert_eq!(s, "limit");
            assert_eq!(m.typ, AceType::AceInt);
        }
        _ => panic!("expected an identifier"),
    }
    let ast = AceParser::new(AceLexer::lex("\"x\"")).parse().unwrap();
    match ast.analyze::<OnlyFields>().unwrap() {
        AceAst::Literal(m, _) => assert_eq!(m.typ, AceType::AceString),
        _ => panic!("expected a literal"),
    }
}

#[test]
fn analyze_rejects_unknown_identifier() {
    let ast = AceParser::new(AceLexer::lex("title + nope")).parse().unwrap();
    match ast.analyze::<OnlyFields>() {
        Err(AceError::Parse(ParseError::Identifier(name, span))) => {
            assert_eq!(name, "nope");
            assert_eq!((span.start, span.end), (8, 12));
        }
        _ => panic!("expected an unknown identifier"),
    }
}

#[test]
fn get_value_prefers_last_constant() {
    let (exists, value) = OnlyFields::get_value("limit");
    assert!(exists);
    assert_eq!(value, Some(AceValue::AceInt(7)));
    assert_eq!(OnlyFields::get_value("title"), (true, None));
    assert_eq!(OnlyFields::get_value("other"), (false, None));
}

#[test]
fn duration_weeks_and_days() {
    assert_eq!(parse_duration("4w3d"), Ok(Duration { months: 0, days: 31, ms: 0 }));
    assert_eq!(parse_duration("2M"), Ok(Duration { months: 2, days: 0, ms: 0 }));
    assert_eq!(parse_duration("1h30m"), Ok(Duration { months: 0, days: 0, ms: 5_400_000 }));
    assert_eq!(parse_duration(""), Ok(Duration::default()));
}

#[test]
fn duration_errors() {
    assert_eq!(parse_duration("12"), Err(DurationError::MissingUnit));
    assert_eq!(parse_duration("3x"), Err(DurationError::InvalidUnit("x".to_string())));
}

#[test]
fn date_formats() {
    let d = parse_date("2026-09-28").unwrap();
    assert_eq!((d.year, d.month, d.day, d.hour, d.minute), (2026, 9, 28, 0, 0));
    let t = parse_date("17:32").unwrap();
    assert_eq!((t.year, t.month, t.day, t.hour, t.minute), (1970, 1, 1, 17, 32));
    let dt = parse_date("2026-07-04 17:32").unwrap();
    assert_eq!((dt.year, dt.month, dt.day, dt.hour, dt.minute), (2026, 7, 4, 17, 32));
    assert!(parse_date("yesterday").is_none());
}

#[test]
fn error_messages() {
    let e = AceLexer::lex("[2026").next().unwrap().err().unwrap();
    assert_eq!(e.message(), "Error during the lexing process: Reached EOF while searching for ']'");
    let e = AceParser::new(AceLexer::lex(")")).parse().err().unwrap();
    assert_eq!(
        e.message(),
        "Error during the parsing process: Expected primary expression, but found ')' at 0--1"
    );
    assert_eq!(DurationError::InvalidUnit("q".into()).message(), "No such unit 'q'");
    assert_eq!(DurationError::MissingUnit.message(), "Missing last unit");
}

#[test]
fn value_texts() {
    assert_eq!(Duration { months: 1, days: -2, ms: 300 }.text(), "1M-2d300ms");
    assert_eq!(AceValue::AceString("hej".into()).text(), "\"hej\"");
    let dt = LocalDateTime { year: 2026, month: 7, day: 4, hour: 17, minute: 32, second: 0, nanosecond: 0, offset: 7200 };
    assert_eq!(AceValue::AceDate(dt).text(), "[2026-07-04 17:32:00 +02:00]");
    let west = LocalDateTime { offset: -(5 * 3600 + 30 * 60 + 15), ..dt };
    assert_eq!(AceValue::AceDate(west).text(), "[2026-07-04 17:32:00 -05:30:15]");
    assert_eq!(AceTokenKind::Nglob.text(), "!~");
    assert_eq!(AceTokenKind::Date("2026-01-01".into()).text(), "[2026-01-01]");
}

#[test]
fn pretty_print_tree() {
    let ast = AceParser::new(AceLexer::lex("title + 1")).parse().unwrap();
    let ast = ast.analyze::<OnlyFields>().unwrap();
    assert_eq!(
        ast.pretty_print(),
        "bin:+ (0--9, Unknown)\n  title (0--5, Unknown)\n  1 (8--9, AceInt)\n"
    );
    let ast = AceParser::new(AceLexer::lex("!limit")).parse().unwrap();
    assert_eq!(ast.pretty_print(), "un:! (1--6, Unknown)\n  limit (1--6, Unknown)\n");
}

#[test]
fn parse_error_variants() {
    let parse = |s: &str| AceParser::new(AceLexer::lex(s)).parse();
    assert!(matches!(parse("a +"), Err(AceError::Parse(ParseError::Eof))));
    match parse("(a b") {
        Err(AceError::Parse(ParseError::Expected(want, got, _))) => {
            assert_eq!(want, AceTokenKind::ParenR);
            assert_eq!(got, AceTokenKind::Ident("b".into()));
        }
        other => panic!("expected a missing parenthesis, got {other:?}"),
    }
    match parse("[soon]") {
        Err(AceError::Parse(ParseError::Date(text, span))) => {
            assert_eq!(text, "soon");
            assert_eq!((span.start, span.end), (0, 6));
        }
        other => panic!("expected a bad date, got {other:?}"),
    }
    match parse("4x") {
        Err(AceError::Parse(ParseError::Duration(DurationError::InvalidUnit(u), _))) => assert_eq!(u, "x"),
        other => panic!("expected a bad duration, got {other:?}"),
    }
    let e = parse("4x").err().unwrap();
    assert_eq!(
        e.message(),
        "Error during the parsing process: Failed to parse the duration at 0--2: No such unit 'x'"
    );
}

#[test]
fn durations_add_up() {
    let x = parse_duration("1w").unwrap();
    let y = parse_duration("2d3h").unwrap();
    assert_eq!(
        parse_duration("1w2d3h"),
        Ok(Duration { months: x.months + y.months, days: x.days + y.days, ms: x.ms + y.ms })
    );
}

#[test]
fn lexer_ends_within_one_more_step_than_characters() {
    let input = "a+b";
    let mut lexer = AceLexer::lex(input);
    let mut steps = 0;
    while let Some(Ok(_)) = lexer.next() {
        steps += 1;
    }
    assert!(steps + 1 <= input.chars().count() + 1);
}

#[test]
fn dates_keep_fractions_and_leap_seconds() {
    let dt = LocalDateTime { year: 2026, month: 7, day: 4, hour: 17, minute: 32, second: 5, nanosecond: 120_000, offset: 0 };
    assert_eq!(AceValue::AceDate(dt).text(), "[2026-07-04 17:32:05.000120 +00:00]");
    let t = parse_date("23:59:60").unwrap();
    assert_eq!((t.second, t.nanosecond), (59, 1_000_000_000));
}
