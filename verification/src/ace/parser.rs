use vstd::prelude::*;

use crate::ace::ast::{
    ast_result_view, spec_binop, spec_ident, spec_lit, spec_unop, AceAst, AceBinop, AceUnop, AstV,
};
use crate::ace::date::{date_outcome, parse_date};
use crate::ace::display::{binop_text, kind_text, unop_text};
use crate::ace::duration::{parse_duration, spec_parse_duration, DurationOutcome};
use crate::ace::lexer::{
    lemma_cursor_next_moves, lex_measure, sp_next_tok, sp_peek_tok, spec_cursor_next, step_moves,
    AceLexer, LexState, NextStep,
};
use crate::clock::LocalDateTime;
use crate::ace::types::{
    AceError, AceResult, AceToken, AceTokenKind, AceValue, ErrorV, KindV, ParseError,
    ParseErrorV, TokenV, ValueV,
};

verus! {

/// The outcome of parsing from a state of the token stream. `dates` lists, in order, what
/// each date literal met resolves to in the local time zone; `Done` returns those not used.
/// `Panic` is input that the parser does not take (a duration that overflows, or one with
/// a character of more than one byte), which callers rule out;
/// `Stuck` is where `dates` does not describe a run (too few entries, or an entry that
/// reading that date cannot give).
pub enum PStep {
    Done(Result<AstV, ErrorV>, LexState, Seq<Option<LocalDateTime>>),
    Panic,
    Stuck,
}

/// A state that the token stream can be in.
pub open spec fn valid_state(st: LexState) -> bool {
    0 <= st.idx <= st.text.len() && st.pos >= 0
}

/// The binary operator that a token stands for at a precedence level: 0 `||`, 1 `&&`,
/// 2 equality and globbing, 3 comparison, 4 `+` and `-`, 6 `.`.
pub open spec fn binop_at(level: int, kind: KindV) -> Option<AceBinop> {
    match kind {
        KindV::Or => if level == 0 { Some(AceBinop::Or) } else { None },
        KindV::And => if level == 1 { Some(AceBinop::And) } else { None },
        KindV::Eq => if level == 2 { Some(AceBinop::Eq) } else { None },
        KindV::Neq => if level == 2 { Some(AceBinop::Neq) } else { None },
        KindV::Glob => if level == 2 { Some(AceBinop::Glob) } else { None },
        KindV::Nglob => if level == 2 { Some(AceBinop::Nglob) } else { None },
        KindV::Lt => if level == 3 { Some(AceBinop::Lt) } else { None },
        KindV::Gt => if level == 3 { Some(AceBinop::Gt) } else { None },
        KindV::Leq => if level == 3 { Some(AceBinop::Leq) } else { None },
        KindV::Geq => if level == 3 { Some(AceBinop::Geq) } else { None },
        KindV::Plus => if level == 4 { Some(AceBinop::Add) } else { None },
        KindV::Minus => if level == 4 { Some(AceBinop::Sub) } else { None },
        KindV::Dot => if level == 6 { Some(AceBinop::Dot) } else { None },
        _ => None,
    }
}

/// The unary operator that a token stands for.
pub open spec fn unop_of(kind: KindV) -> Option<AceUnop> {
    match kind {
        KindV::Not => Some(AceUnop::Not),
        KindV::Minus => Some(AceUnop::Neg),
        _ => None,
    }
}

/// An operator token stands for the operator that is written as the token: `<` for less
/// than, `>` for greater than, `+` for addition and so on, at the one precedence level where
/// the token is a binary operator; in front of an operand, `!` for not and `-` for negation.
pub proof fn lemma_operator_is_its_token(level: int, kind: KindV)
    ensures
        binop_at(level, kind) matches Some(op) ==> binop_text(op) == kind_text(kind),
        unop_of(kind) matches Some(op) ==> unop_text(op) == kind_text(kind),
        binop_at(level, kind) is Some ==> level == binop_level(kind),
        binop_level(kind) >= 0 ==> binop_at(binop_level(kind), kind) is Some,
{
}

/// The precedence level at which a token is a binary operator: 0 `||`, 1 `&&`, 2 `==`,
/// `!=`, `~` and `!~`, 3 `<`, `>`, `<=` and `>=`, 4 `+` and `-`, 6 `.`; -1 for the others.
pub open spec fn binop_level(kind: KindV) -> int {
    match kind {
        KindV::Or => 0,
        KindV::And => 1,
        KindV::Eq | KindV::Neq | KindV::Glob | KindV::Nglob => 2,
        KindV::Lt | KindV::Gt | KindV::Leq | KindV::Geq => 3,
        KindV::Plus | KindV::Minus => 4,
        KindV::Dot => 6,
        _ => -1,
    }
}

/// Looking at the next token keeps the state valid and never increases the measure.
pub proof fn lemma_peek_facts(st: LexState)
    requires
        valid_state(st),
    ensures
        sp_peek_tok(st) matches Some((r, st1)) ==> {
            &&& valid_state(st1)
            &&& st1.text == st.text
            &&& lex_measure(st1) <= lex_measure(st)
            &&& (r matches Ok(t) ==> st1.peeked == Some(Some(r)))
        },
{
    if st.peeked is None {
        lemma_cursor_next_moves(st.text, st.idx, st.pos);
    }
}

/// Taking a token that was looked at decreases the measure by one.
pub proof fn lemma_take_facts(st: LexState)
    requires
        valid_state(st),
        st.peeked matches Some(Some(Ok(_))),
    ensures
        sp_next_tok(st) matches Some((r, st1)) && r is Ok && valid_state(st1) && st1.text == st.text
            && lex_measure(st1) == lex_measure(st) - 1 && st1.peeked is None,
{
}

/// Parsing at a precedence level: 0 `||` (lowest) up to 6 `.`, then 7 primary
/// expressions. Binary operators group to the right: `a - b - c` is `a - (b - c)`.
pub open spec fn sp_level(st: LexState, level: int, dates: Seq<Option<LocalDateTime>>) -> PStep
    decreases lex_measure(st), 8 - level, 2int,
{
    if !valid_state(st) || level < 0 || level > 7 {
        PStep::Stuck
    } else if level == 7 {
        sp_primary(st, dates)
    } else if level == 5 {
        sp_unary(st, dates)
    } else {
        match sp_level(st, level + 1, dates) {
            PStep::Done(Ok(left), st1, d1) => if valid_state(st1) && lex_measure(st1) <= lex_measure(st) {
                sp_tail(st1, level, left, d1)
            } else {
                PStep::Stuck
            },
            other => other,
        }
    }
}

/// The loop of a binary level: while the next token is an operator of `level`, take it,
/// parse the right operand at the same level and combine.
pub open spec fn sp_tail(st: LexState, level: int, left: AstV, dates: Seq<Option<LocalDateTime>>) -> PStep
    decreases lex_measure(st), 8 - level, 0int,
{
    if !valid_state(st) || level < 0 || level > 6 {
        PStep::Stuck
    } else {
        match sp_peek_tok(st) {
            None => PStep::Panic,
            Some((Err(_), st1)) => PStep::Done(Ok(left), st1, dates),
            Some((Ok(tok), st1)) => match binop_at(level, tok.kind) {
                None => PStep::Done(Ok(left), st1, dates),
                Some(op) => {
                    proof {
                        lemma_peek_facts(st);
                        lemma_take_facts(st1);
                    }
                    match sp_next_tok(st1) {
                        None => PStep::Panic,
                        Some((Err(e), st2)) => PStep::Done(Err(e), st2, dates),
                        Some((Ok(_), st2)) => match sp_level(st2, level, dates) {
                            PStep::Done(Ok(right), st3, d3) => if valid_state(st3) && lex_measure(
                                st3,
                            ) < lex_measure(st) {
                                sp_tail(st3, level, spec_binop(op, left, right), d3)
                            } else {
                                PStep::Stuck
                            },
                            other => other,
                        },
                    }
                },
            },
        }
    }
}

/// A unary level: `!` and `-` before an operand at the same level, else the next level.
pub open spec fn sp_unary(st: LexState, dates: Seq<Option<LocalDateTime>>) -> PStep
    decreases lex_measure(st), 3int, 0int,
{
    if !valid_state(st) {
        PStep::Stuck
    } else {
        proof {
            lemma_peek_facts(st);
        }
        match sp_peek_tok(st) {
            None => PStep::Panic,
            Some((Err(_), st1)) => sp_level(st1, 6, dates),
            Some((Ok(tok), st1)) => match unop_of(tok.kind) {
                None => sp_level(st1, 6, dates),
                Some(op) => {
                    proof {
                        lemma_take_facts(st1);
                    }
                    match sp_next_tok(st1) {
                        None => PStep::Panic,
                        Some((Err(e), st2)) => PStep::Done(Err(e), st2, dates),
                        Some((Ok(_), st2)) => match sp_level(st2, 5, dates) {
                            PStep::Done(Ok(body), st3, d3) => PStep::Done(
                                Ok(spec_unop(op, body)),
                                st3,
                                d3,
                            ),
                            other => other,
                        },
                    }
                },
            },
        }
    }
}

/// After the primary expression (or its error) has been found: the token looked at is
/// taken, and its error, if any, wins.
pub open spec fn sp_finish(out: Result<AstV, ErrorV>, st: LexState, dates: Seq<Option<LocalDateTime>>) -> PStep {
    match sp_next_tok(st) {
        None => PStep::Panic,
        Some((Err(e), st2)) => PStep::Done(Err(e), st2, dates),
        Some((Ok(_), st2)) => PStep::Done(out, st2, dates),
    }
}

/// What a primary token that is not `(` stands for: the value read, with the date
/// resolutions left; or `Panic` where reading a duration panics, or `Stuck` where `dates`
/// does not describe reading a date.
pub enum SimpleStep {
    Value(Result<AstV, ErrorV>, Seq<Option<LocalDateTime>>),
    Panic,
    Stuck,
}

/// The value of a primary token other than `(`: identifiers and literals as they are,
/// dates and durations read (a date takes the first resolution of `dates`), anything else
/// an error.
pub open spec fn sp_simple(tok: TokenV, dates: Seq<Option<LocalDateTime>>) -> SimpleStep {
    match tok.kind {
        KindV::Ident(s) => SimpleStep::Value(Ok(spec_ident(s, tok.span)), dates),
        KindV::Literal(v) => SimpleStep::Value(Ok(spec_lit(v, tok.span)), dates),
        KindV::Date(s) => if dates.len() == 0 || !date_outcome(s, dates[0]) {
            SimpleStep::Stuck
        } else {
            match dates[0] {
                Some(d) => SimpleStep::Value(Ok(spec_lit(ValueV::Date(d), tok.span)), dates.drop_first()),
                None => SimpleStep::Value(
                    Err(ErrorV::Parse(ParseErrorV::Date(s, tok.span))),
                    dates.drop_first(),
                ),
            }
        },
        KindV::Duration(s) => match spec_parse_duration(s) {
            DurationOutcome::Panic => SimpleStep::Panic,
            DurationOutcome::Done(d) => SimpleStep::Value(Ok(spec_lit(ValueV::Dur(d), tok.span)), dates),
            DurationOutcome::Fail(e) => SimpleStep::Value(
                Err(ErrorV::Parse(ParseErrorV::Duration(e, tok.span))),
                dates,
            ),
        },
        _ => SimpleStep::Value(Err(ErrorV::Parse(ParseErrorV::Primary(tok.kind, tok.span))), dates),
    }
}

/// An expression in parentheses, from the state `st1` where `(` has been looked at: the
/// `(` is taken, an expression parsed, and a `)` must follow; its error, if any, wins over
/// that of the expression.
pub open spec fn sp_paren(st: LexState, st1: LexState, dates: Seq<Option<LocalDateTime>>) -> PStep
    decreases lex_measure(st), 1int, 0int,
{
    if !valid_state(st) || !valid_state(st1) || lex_measure(st1) > lex_measure(st)
        || !(st1.peeked matches Some(Some(Ok(_)))) {
        PStep::Stuck
    } else {
        proof {
            lemma_take_facts(st1);
        }
        match sp_next_tok(st1) {
            None => PStep::Panic,
            Some((Err(e), st2)) => PStep::Done(Err(e), st2, dates),
            Some((Ok(_), st2)) => match sp_level(st2, 0, dates) {
                PStep::Done(out, st3, d3) => match sp_peek_tok(st3) {
                    None => PStep::Panic,
                    Some((Err(e), st4)) => PStep::Done(Err(e), st4, d3),
                    Some((Ok(t), st4)) => if t.kind == KindV::ParenR {
                        sp_finish(out, st4, d3)
                    } else {
                        PStep::Done(
                            Err(ErrorV::Parse(ParseErrorV::Expected(KindV::ParenR, t.kind, t.span))),
                            st4,
                            d3,
                        )
                    },
                },
                other => other,
            },
        }
    }
}

/// A primary expression: an identifier, a literal, a date, a duration, or an expression in
/// parentheses.
pub open spec fn sp_primary(st: LexState, dates: Seq<Option<LocalDateTime>>) -> PStep
    decreases lex_measure(st), 1int, 1int,
{
    if !valid_state(st) {
        PStep::Stuck
    } else {
        match sp_peek_tok(st) {
            None => PStep::Panic,
            Some((Err(e), st1)) => PStep::Done(Err(e), st1, dates),
            Some((Ok(tok), st1)) => if tok.kind is ParenL {
                proof {
                    lemma_peek_facts(st);
                }
                sp_paren(st, st1, dates)
            } else {
                match sp_simple(tok, dates) {
                    SimpleStep::Value(out, d) => sp_finish(out, st1, d),
                    SimpleStep::Panic => PStep::Panic,
                    SimpleStep::Stuck => PStep::Stuck,
                }
            },
        }
    }
}

/// Parsing a whole expression from a state of the token stream.
pub open spec fn sp_parse(st: LexState, dates: Seq<Option<LocalDateTime>>) -> PStep {
    sp_level(st, 0, dates)
}


/// The binary operator that a token stands for at a precedence level.
fn binop_for(level: u8, kind: &AceTokenKind) -> (r: Option<AceBinop>)
    ensures
        r == binop_at(level as int, kind@),
{
    match kind {
        AceTokenKind::Or => if level == 0 { Some(AceBinop::Or) } else { None },
        AceTokenKind::And => if level == 1 { Some(AceBinop::And) } else { None },
        AceTokenKind::Eq => if level == 2 { Some(AceBinop::Eq) } else { None },
        AceTokenKind::Neq => if level == 2 { Some(AceBinop::Neq) } else { None },
        AceTokenKind::Glob => if level == 2 { Some(AceBinop::Glob) } else { None },
        AceTokenKind::Nglob => if level == 2 { Some(AceBinop::Nglob) } else { None },
        AceTokenKind::Lt => if level == 3 { Some(AceBinop::Lt) } else { None },
        AceTokenKind::Gt => if level == 3 { Some(AceBinop::Gt) } else { None },
        AceTokenKind::Leq => if level == 3 { Some(AceBinop::Leq) } else { None },
        AceTokenKind::Geq => if level == 3 { Some(AceBinop::Geq) } else { None },
        AceTokenKind::Plus => if level == 4 { Some(AceBinop::Add) } else { None },
        AceTokenKind::Minus => if level == 4 { Some(AceBinop::Sub) } else { None },
        AceTokenKind::Dot => if level == 6 { Some(AceBinop::Dot) } else { None },
        _ => None,
    }
}

/// The unary operator that a token stands for.
fn unop_for(kind: &AceTokenKind) -> (r: Option<AceUnop>)
    ensures
        r == unop_of(kind@),
{
    match kind {
        AceTokenKind::Not => Some(AceUnop::Not),
        AceTokenKind::Minus => Some(AceUnop::Neg),
        _ => None,
    }
}

/// A recursive-descent parser over a token stream.
pub struct AceParser {
    lexer: AceLexer,
}

/// Dates met, in order, as the local time zone resolved them.
pub type DateLog = Ghost<Seq<Option<LocalDateTime>>>;

impl AceParser {
    /// The state of the token stream.
    pub closed spec fn state(&self) -> LexState {
        self.lexer.state()
    }

    /// The token stream is well formed.
    pub closed spec fn wf(&self) -> bool {
        self.lexer.wf()
    }

    /// A parser reading from `lexer`.
    pub fn new(lexer: AceLexer) -> (r: AceParser)
        ensures
            r.state() == lexer.state(),
            r.wf() == lexer.wf(),
    {
        AceParser { lexer }
    }

    /// Parses an expression: the whole input when it is well formed, else up to the first
    /// error. The date literals met are resolved in the local time zone, so the result is
    /// the one that `sp_parse` gives for some list of resolutions that reading those dates
    /// can give.
    pub fn parse(&mut self) -> (r: AceResult<AceAst>)
        requires
            old(self).wf(),
            forall|d: Seq<Option<LocalDateTime>>| !(#[trigger] sp_parse(old(self).state(), d) is Panic),
        ensures
            final(self).wf(),
            exists|log: Seq<Option<LocalDateTime>>|
                #[trigger] sp_parse(old(self).state(), log) == PStep::Done(
                    ast_result_view(r),
                    final(self).state(),
                    Seq::empty(),
                ),
    {
        proof {
            assert forall|d: Seq<Option<LocalDateTime>>| !(#[trigger] sp_level(old(self).state(), 0, d) is Panic) by {
                assert(!(sp_parse(old(self).state(), d) is Panic));
            }
        }
        let (r, Ghost(log)) = self.p_level(0);
        assert(log + Seq::<Option<LocalDateTime>>::empty() =~= log);
        assert(sp_level(old(self).state(), 0, log + Seq::<Option<LocalDateTime>>::empty()) == PStep::Done(
            ast_result_view(r),
            self.state(),
            Seq::empty(),
        ));
        assert(sp_parse(old(self).state(), log) == PStep::Done(ast_result_view(r), self.state(), Seq::empty()));
        r
    }

    fn p_level(&mut self, level: u8) -> (r: (AceResult<AceAst>, DateLog))
        requires
            old(self).wf(),
            level <= 7,
            forall|d: Seq<Option<LocalDateTime>>| !(#[trigger] sp_level(old(self).state(), level as int, d) is Panic),
        ensures
            final(self).wf(),
            final(self).state().text == old(self).state().text,
            lex_measure(final(self).state()) <= lex_measure(old(self).state()),
            forall|rest: Seq<Option<LocalDateTime>>|
                #[trigger] sp_level(old(self).state(), level as int, r.1@ + rest) == PStep::Done(
                    ast_result_view(r.0),
                    final(self).state(),
                    rest,
                ),
        decreases lex_measure(old(self).state()), 8 - level, 2int,
    {
        proof {
            self.lexer.lemma_state_bounds();
        }
        if level == 7 {
            self.p_primary()
        } else if level == 5 {
            self.p_unary()
        } else {
            self.p_binary(level)
        }
    }

    fn p_binary(&mut self, level: u8) -> (r: (AceResult<AceAst>, DateLog))
        requires
            old(self).wf(),
            level <= 6,
            level != 5,
            forall|d: Seq<Option<LocalDateTime>>| !(#[trigger] sp_level(old(self).state(), level as int, d) is Panic),
        ensures
            final(self).wf(),
            final(self).state().text == old(self).state().text,
            lex_measure(final(self).state()) <= lex_measure(old(self).state()),
            forall|rest: Seq<Option<LocalDateTime>>|
                #[trigger] sp_level(old(self).state(), level as int, r.1@ + rest) == PStep::Done(
                    ast_result_view(r.0),
                    final(self).state(),
                    rest,
                ),
        decreases lex_measure(old(self).state()), 8 - level, 0int,
    {
        let ghost st0 = self.state();
        proof {
            self.lexer.lemma_state_bounds();
            assert forall|d: Seq<Option<LocalDateTime>>| !(#[trigger] sp_level(st0, level + 1, d) is Panic) by {
                assert(!(sp_level(st0, level as int, d) is Panic));
            }
        }
        let (left0, Ghost(log1)) = self.p_level(level + 1);
        let mut left = match left0 {
            Ok(l) => l,
            Err(e) => {
                proof {
                    assert forall|rest: Seq<Option<LocalDateTime>>|
                        #[trigger] sp_level(st0, level as int, log1 + rest) == PStep::Done(
                            Err(e@),
                            self.state(),
                            rest,
                        ) by {
                        assert(sp_level(st0, level + 1, log1 + rest) == PStep::Done(Err(e@), self.state(), rest));
                    }
                }
                return (Err(e), Ghost(log1));
            },
        };
        let ghost mut log = log1;
        proof {
            self.lexer.lemma_state_bounds();
            assert forall|rest: Seq<Option<LocalDateTime>>|
                #[trigger] sp_level(st0, level as int, log + rest) == sp_tail(self.state(), level as int, left@, rest) by {
                assert(sp_level(st0, level + 1, log1 + rest) == PStep::Done(Ok(left@), self.state(), rest));
            }
        }
        loop
            invariant_except_break
                self.wf(),
                self.state().text == st0.text,
                lex_measure(self.state()) <= lex_measure(st0),
                st0 == old(self).state(),
                level <= 6,
                level != 5,
                forall|d: Seq<Option<LocalDateTime>>| !(#[trigger] sp_level(st0, level as int, d) is Panic),
                forall|rest: Seq<Option<LocalDateTime>>|
                    #[trigger] sp_level(st0, level as int, log + rest) == sp_tail(self.state(), level as int, left@, rest),
            ensures
                self.wf(),
                self.state().text == st0.text,
                lex_measure(self.state()) <= lex_measure(st0),
                forall|rest: Seq<Option<LocalDateTime>>|
                    #[trigger] sp_level(st0, level as int, log + rest) == PStep::Done(Ok(left@), self.state(), rest),
            decreases lex_measure(self.state()),
        {
            let ghost cur = self.state();
            proof {
                self.lexer.lemma_state_bounds();
                lemma_peek_facts(cur);
                assert(!(sp_level(st0, level as int, log) is Panic));
                assert(log + Seq::<Option<LocalDateTime>>::empty() =~= log);
                assert(sp_level(st0, level as int, log + Seq::<Option<LocalDateTime>>::empty()) == sp_tail(cur, level as int, left@, Seq::empty()));
            }
            let tok = match self.lexer.peek_tok() {
                Ok(t) => t,
                Err(_) => {
                    proof {
                        assert forall|rest: Seq<Option<LocalDateTime>>|
                            #[trigger] sp_level(st0, level as int, log + rest) == PStep::Done(Ok(left@), self.state(), rest) by {
                            assert(sp_level(st0, level as int, log + rest) == sp_tail(cur, level as int, left@, rest));
                        }
                    }
                    break;
                },
            };
            let ghost st1 = self.state();
            let op = match binop_for(level, &tok.kind) {
                Some(op) => op,
                None => {
                    proof {
                        assert forall|rest: Seq<Option<LocalDateTime>>|
                            #[trigger] sp_level(st0, level as int, log + rest) == PStep::Done(Ok(left@), self.state(), rest) by {
                            assert(sp_level(st0, level as int, log + rest) == sp_tail(cur, level as int, left@, rest));
                        }
                    }
                    break;
                },
            };
            proof {
                lemma_take_facts(st1);
            }
            match self.lexer.discard_tok() {
                Ok(()) => {},
                Err(e) => {
                    proof {
                        assert(false);
                    }
                    return (Err(e), Ghost(log));
                },
            }
            let ghost st2 = self.state();
            proof {
                self.lexer.lemma_state_bounds();
                assert forall|d: Seq<Option<LocalDateTime>>| !(#[trigger] sp_level(st2, level as int, d) is Panic) by {
                    assert(!(sp_level(st0, level as int, log + d) is Panic));
                    assert(sp_level(st0, level as int, log + d) == sp_tail(cur, level as int, left@, d));
                }
            }
            let (right0, Ghost(log2)) = self.p_level(level);
            let right = match right0 {
                Ok(r) => r,
                Err(e) => {
                    proof {
                        assert forall|rest: Seq<Option<LocalDateTime>>|
                            #[trigger] sp_level(st0, level as int, (log + log2) + rest) == PStep::Done(
                                Err(e@),
                                self.state(),
                                rest,
                            ) by {
                            assert((log + log2) + rest =~= log + (log2 + rest));
                            assert(sp_level(st0, level as int, log + (log2 + rest)) == sp_tail(cur, level as int, left@, log2 + rest));
                            assert(sp_level(st2, level as int, log2 + rest) == PStep::Done(Err(e@), self.state(), rest));
                        }
                    }
                    return (Err(e), Ghost(log + log2));
                },
            };
            let ghost old_left = left@;
            left = AceAst::binop(op, left, right);
            proof {
                let st3 = self.state();
                self.lexer.lemma_state_bounds();
                assert forall|rest: Seq<Option<LocalDateTime>>|
                    #[trigger] sp_level(st0, level as int, (log + log2) + rest) == sp_tail(st3, level as int, left@, rest) by {
                    assert((log + log2) + rest =~= log + (log2 + rest));
                    assert(sp_level(st0, level as int, log + (log2 + rest)) == sp_tail(cur, level as int, old_left, log2 + rest));
                    assert(sp_level(st2, level as int, log2 + rest) == PStep::Done(Ok(right@), st3, rest));
                }
                log = log + log2;
            }
        }
        (Ok(left), Ghost(log))
    }

    fn p_unary(&mut self) -> (r: (AceResult<AceAst>, DateLog))
        requires
            old(self).wf(),
            forall|d: Seq<Option<LocalDateTime>>| !(#[trigger] sp_level(old(self).state(), 5, d) is Panic),
        ensures
            final(self).wf(),
            final(self).state().text == old(self).state().text,
            lex_measure(final(self).state()) <= lex_measure(old(self).state()),
            forall|rest: Seq<Option<LocalDateTime>>|
                #[trigger] sp_level(old(self).state(), 5, r.1@ + rest) == PStep::Done(
                    ast_result_view(r.0),
                    final(self).state(),
                    rest,
                ),
        decreases lex_measure(old(self).state()), 3int, 0int,
    {
        let ghost st0 = self.state();
        proof {
            self.lexer.lemma_state_bounds();
            lemma_peek_facts(st0);
            assert(!(sp_level(st0, 5, Seq::empty()) is Panic));
            assert(sp_level(st0, 5, Seq::empty()) == sp_unary(st0, Seq::empty()));
        }
        let tok = match self.lexer.peek_tok() {
            Ok(t) => t,
            Err(_) => {
                let ghost st1 = self.state();
                proof {
                    assert forall|d: Seq<Option<LocalDateTime>>| !(#[trigger] sp_level(self.state(), 6, d) is Panic) by {
                        assert(!(sp_level(st0, 5, d) is Panic));
                        assert(sp_level(st0, 5, d) == sp_unary(st0, d));
                    }
                }
                let (r, Ghost(log)) = self.p_level(6);
                proof {
                    assert forall|rest: Seq<Option<LocalDateTime>>|
                        #[trigger] sp_level(st0, 5, log + rest) == PStep::Done(ast_result_view(r), self.state(), rest) by {
                        assert(sp_level(st0, 5, log + rest) == sp_unary(st0, log + rest));
                        assert(sp_level(st1, 6, log + rest) == PStep::Done(ast_result_view(r), self.state(), rest));
                    }
                }
                return (r, Ghost(log));
            },
        };
        let ghost st1 = self.state();
        let op = match unop_for(&tok.kind) {
            Some(op) => op,
            None => {
                proof {
                    assert forall|d: Seq<Option<LocalDateTime>>| !(#[trigger] sp_level(st1, 6, d) is Panic) by {
                        assert(!(sp_level(st0, 5, d) is Panic));
                        assert(sp_level(st0, 5, d) == sp_unary(st0, d));
                    }
                }
                let (r, Ghost(log)) = self.p_level(6);
                proof {
                    assert forall|rest: Seq<Option<LocalDateTime>>|
                        #[trigger] sp_level(st0, 5, log + rest) == PStep::Done(ast_result_view(r), self.state(), rest) by {
                        assert(sp_level(st0, 5, log + rest) == sp_unary(st0, log + rest));
                        assert(sp_level(st1, 6, log + rest) == PStep::Done(ast_result_view(r), self.state(), rest));
                    }
                }
                return (r, Ghost(log));
            },
        };
        proof {
            lemma_take_facts(st1);
        }
        match self.lexer.discard_tok() {
            Ok(()) => {},
            Err(e) => {
                proof {
                    assert(false);
                }
                return (Err(e), Ghost(Seq::empty()));
            },
        }
        let ghost st2 = self.state();
        proof {
            assert forall|d: Seq<Option<LocalDateTime>>| !(#[trigger] sp_level(st2, 5, d) is Panic) by {
                assert(!(sp_level(st0, 5, d) is Panic));
                assert(sp_level(st0, 5, d) == sp_unary(st0, d));
            }
        }
        let (body0, Ghost(log)) = self.p_level(5);
        let r = match body0 {
            Ok(b) => Ok(AceAst::unop(op, b)),
            Err(e) => Err(e),
        };
        proof {
            assert forall|rest: Seq<Option<LocalDateTime>>|
                #[trigger] sp_level(st0, 5, log + rest) == PStep::Done(ast_result_view(r), self.state(), rest) by {
                assert(sp_level(st0, 5, log + rest) == sp_unary(st0, log + rest));
                assert(sp_level(st2, 5, log + rest) == PStep::Done(ast_result_view(body0), self.state(), rest));
            }
        }
        (r, Ghost(log))
    }

    fn simple_primary(tok: AceToken) -> (r: (AceResult<AceAst>, DateLog))
        requires
            !(tok@.kind is ParenL),
            !(sp_simple(tok@, Seq::empty()) is Panic),
        ensures
            forall|rest: Seq<Option<LocalDateTime>>|
                #[trigger] sp_simple(tok@, r.1@ + rest) == SimpleStep::Value(ast_result_view(r.0), rest),
    {
        let span = tok.span;
        match tok.kind {
            AceTokenKind::Ident(s) => {
                let r = Ok(AceAst::ident(s, span));
                proof {
                    assert forall|rest: Seq<Option<LocalDateTime>>|
                        #[trigger] sp_simple(tok@, Seq::empty() + rest) == SimpleStep::Value(ast_result_view(r), rest) by {
                        assert(Seq::<Option<LocalDateTime>>::empty() + rest =~= rest);
                    }
                }
                (r, Ghost(Seq::empty()))
            },
            AceTokenKind::Literal(v) => {
                let r = Ok(AceAst::lit(v, span));
                proof {
                    assert forall|rest: Seq<Option<LocalDateTime>>|
                        #[trigger] sp_simple(tok@, Seq::empty() + rest) == SimpleStep::Value(ast_result_view(r), rest) by {
                        assert(Seq::<Option<LocalDateTime>>::empty() + rest =~= rest);
                    }
                }
                (r, Ghost(Seq::empty()))
            },
            AceTokenKind::Date(s) => {
                let d = parse_date(s.as_str());
                let ghost text = s@;
                let r = match d {
                    Some(date) => Ok(AceAst::lit(AceValue::AceDate(date), span)),
                    None => Err(AceError::Parse(ParseError::Date(s, span))),
                };
                proof {
                    assert forall|rest: Seq<Option<LocalDateTime>>|
                        #[trigger] sp_simple(tok@, Seq::empty().push(d) + rest) == SimpleStep::Value(ast_result_view(r), rest) by {
                        let dates = Seq::empty().push(d) + rest;
                        assert(dates[0] == d);
                        assert(dates.drop_first() =~= rest);
                    }
                }
                (r, Ghost(Seq::empty().push(d)))
            },
            AceTokenKind::Duration(s) => {
                let r = match parse_duration(s.as_str()) {
                    Ok(dur) => Ok(AceAst::lit(AceValue::AceDuration(dur), span)),
                    Err(err) => Err(AceError::Parse(ParseError::Duration(err, span))),
                };
                proof {
                    assert forall|rest: Seq<Option<LocalDateTime>>|
                        #[trigger] sp_simple(tok@, Seq::empty() + rest) == SimpleStep::Value(ast_result_view(r), rest) by {
                        assert(Seq::<Option<LocalDateTime>>::empty() + rest =~= rest);
                    }
                }
                (r, Ghost(Seq::empty()))
            },
            other => {
                let r = Err(AceError::Parse(ParseError::Primary(other, span)));
                proof {
                    assert forall|rest: Seq<Option<LocalDateTime>>|
                        #[trigger] sp_simple(tok@, Seq::empty() + rest) == SimpleStep::Value(ast_result_view(r), rest) by {
                        assert(Seq::<Option<LocalDateTime>>::empty() + rest =~= rest);
                    }
                }
                (r, Ghost(Seq::empty()))
            },
        }
    }

    fn p_paren(&mut self, Ghost(st0): Ghost<LexState>) -> (r: (AceResult<AceAst>, DateLog))
        requires
            old(self).wf(),
            valid_state(st0),
            old(self).state().text == st0.text,
            lex_measure(old(self).state()) <= lex_measure(st0),
            old(self).state().peeked matches Some(Some(Ok(_))),
            forall|d: Seq<Option<LocalDateTime>>| !(#[trigger] sp_paren(st0, old(self).state(), d) is Panic),
        ensures
            final(self).wf(),
            final(self).state().text == old(self).state().text,
            lex_measure(final(self).state()) <= lex_measure(old(self).state()),
            forall|rest: Seq<Option<LocalDateTime>>|
                #[trigger] sp_paren(st0, old(self).state(), r.1@ + rest) == PStep::Done(
                    ast_result_view(r.0),
                    final(self).state(),
                    rest,
                ),
        decreases lex_measure(st0), 1int, 0int,
    {
        let ghost st1 = self.state();
        proof {
            self.lexer.lemma_state_bounds();
            lemma_take_facts(st1);
        }
        match self.lexer.discard_tok() {
            Ok(()) => {},
            Err(e) => {
                proof {
                    assert(false);
                }
                return (Err(e), Ghost(Seq::empty()));
            },
        }
        let ghost st2 = self.state();
        proof {
            self.lexer.lemma_state_bounds();
            assert forall|d: Seq<Option<LocalDateTime>>| !(#[trigger] sp_level(st2, 0, d) is Panic) by {
                assert(!(sp_paren(st0, st1, d) is Panic));
            }
        }
        let (out, Ghost(log)) = self.p_level(0);
        let ghost st3 = self.state();
        proof {
            self.lexer.lemma_state_bounds();
            assert(log + Seq::<Option<LocalDateTime>>::empty() =~= log);
            assert(sp_level(st2, 0, log + Seq::<Option<LocalDateTime>>::empty()) == PStep::Done(ast_result_view(out), st3, Seq::empty()));
            assert(!(sp_paren(st0, st1, log) is Panic));
            lemma_peek_facts(st3);
        }
        match self.lexer.eat_tok(AceTokenKind::ParenR) {
            Ok(()) => {},
            Err(e) => {
                proof {
                    assert forall|rest: Seq<Option<LocalDateTime>>|
                        #[trigger] sp_paren(st0, st1, log + rest) == PStep::Done(Err(e@), self.state(), rest) by {
                        assert(sp_level(st2, 0, log + rest) == PStep::Done(ast_result_view(out), st3, rest));
                    }
                }
                return (Err(e), Ghost(log));
            },
        }
        let ghost st4 = self.state();
        proof {
            self.lexer.lemma_state_bounds();
            lemma_take_facts(st4);
        }
        let r = match self.lexer.discard_tok() {
            Ok(()) => out,
            Err(e) => Err(e),
        };
        proof {
            assert forall|rest: Seq<Option<LocalDateTime>>|
                #[trigger] sp_paren(st0, st1, log + rest) == PStep::Done(ast_result_view(r), self.state(), rest) by {
                assert(sp_level(st2, 0, log + rest) == PStep::Done(ast_result_view(out), st3, rest));
            }
        }
        (r, Ghost(log))
    }

    fn p_primary(&mut self) -> (r: (AceResult<AceAst>, DateLog))
        requires
            old(self).wf(),
            forall|d: Seq<Option<LocalDateTime>>| !(#[trigger] sp_level(old(self).state(), 7, d) is Panic),
        ensures
            final(self).wf(),
            final(self).state().text == old(self).state().text,
            lex_measure(final(self).state()) <= lex_measure(old(self).state()),
            forall|rest: Seq<Option<LocalDateTime>>|
                #[trigger] sp_level(old(self).state(), 7, r.1@ + rest) == PStep::Done(
                    ast_result_view(r.0),
                    final(self).state(),
                    rest,
                ),
        decreases lex_measure(old(self).state()), 1int, 1int,
    {
        let ghost st0 = self.state();
        proof {
            self.lexer.lemma_state_bounds();
            lemma_peek_facts(st0);
            assert(!(sp_level(st0, 7, Seq::empty()) is Panic));
            assert(sp_level(st0, 7, Seq::empty()) == sp_primary(st0, Seq::empty()));
        }
        let tok = match self.lexer.peek_tok() {
            Ok(t) => t,
            Err(e) => {
                proof {
                    assert forall|rest: Seq<Option<LocalDateTime>>|
                        #[trigger] sp_level(st0, 7, Seq::empty() + rest) == PStep::Done(Err(e@), self.state(), rest) by {
                        assert(Seq::<Option<LocalDateTime>>::empty() + rest =~= rest);
                        assert(sp_level(st0, 7, rest) == sp_primary(st0, rest));
                    }
                }
                return (Err(e), Ghost(Seq::empty()));
            },
        };
        let ghost st1 = self.state();
        if let AceTokenKind::ParenL = tok.kind {
            proof {
                assert forall|d: Seq<Option<LocalDateTime>>| !(#[trigger] sp_paren(st0, st1, d) is Panic) by {
                    assert(!(sp_level(st0, 7, d) is Panic));
                    assert(sp_level(st0, 7, d) == sp_primary(st0, d));
                }
            }
            let ghost tv = tok@;
            assert(sp_peek_tok(st0) == Some((Ok::<TokenV, ErrorV>(tv), st1)));
            assert(tv.kind is ParenL);
            let (r, Ghost(log)) = self.p_paren(Ghost(st0));
            let ghost st5 = self.state();
            proof {
                assert forall|rest: Seq<Option<LocalDateTime>>|
                    #[trigger] sp_level(st0, 7, log + rest) == PStep::Done(ast_result_view(r), st5, rest) by {
                    assert(sp_paren(st0, st1, log + rest) == PStep::Done(ast_result_view(r), st5, rest));
                    assert(sp_primary(st0, log + rest) == sp_paren(st0, st1, log + rest));
                    assert(sp_level(st0, 7, log + rest) == sp_primary(st0, log + rest));
                }
            }
            return (r, Ghost(log));
        }
        proof {
            assert(sp_primary(st0, Seq::empty()) is Panic <== sp_simple(tok@, Seq::empty()) is Panic);
            lemma_take_facts(st1);
        }
        let ghost tv = tok@;
        assert(sp_peek_tok(st0) == Some((Ok::<TokenV, ErrorV>(tv), st1)));
        assert(!(tv.kind is ParenL));
        let (out, Ghost(log)) = Self::simple_primary(tok);
        let r = match self.lexer.discard_tok() {
            Ok(()) => out,
            Err(e) => Err(e),
        };
        let ghost st5 = self.state();
        proof {
            assert(sp_next_tok(st1) matches Some((Ok(_), st)) && st == st5);
            assert forall|rest: Seq<Option<LocalDateTime>>|
                #[trigger] sp_level(st0, 7, log + rest) == PStep::Done(ast_result_view(r), st5, rest) by {
                assert(sp_simple(tv, log + rest) == SimpleStep::Value(ast_result_view(out), rest));
                assert(sp_finish(ast_result_view(out), st1, rest) == PStep::Done(ast_result_view(r), st5, rest));
                assert(sp_primary(st0, log + rest) == PStep::Done(ast_result_view(r), st5, rest));
                assert(sp_level(st0, 7, log + rest) == sp_primary(st0, log + rest));
            }
        }
        (r, Ghost(log))
    }
}

} // verus!
