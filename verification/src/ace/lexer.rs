use vstd::prelude::*;

use crate::ace::text::{
    chars_of, decimal_value, is_alnum, is_alpha, is_white_space, spec_is_alnum, spec_is_alpha,
    spec_is_digit, spec_is_white_space, string_from_chars,
};
use crate::ace::display::kind_text;
use crate::ace::types::{
    duplicate_token_result, token_result_view, AceError, AceResult, AceToken, AceTokenKind,
    AceValue, ErrorV, KindV, LexError, ParseError, ParseErrorV, Span, TokenV, ValueV,
};

verus! {

/// The first index at or after `i` that does not hold white space (or the end).
pub open spec fn ws_end(s: Seq<char>, i: int) -> int
    decreases s.len() - i,
{
    if 0 <= i < s.len() && spec_is_white_space(s[i]) {
        ws_end(s, i + 1)
    } else {
        i
    }
}

/// The first index at or after `i` that does not hold an ASCII letter or digit (or the end).
pub open spec fn alnum_end(s: Seq<char>, i: int) -> int
    decreases s.len() - i,
{
    if 0 <= i < s.len() && spec_is_alnum(s[i]) {
        alnum_end(s, i + 1)
    } else {
        i
    }
}

/// The first index at or after `i` that holds `t` (or the end).
pub open spec fn find_char(s: Seq<char>, i: int, t: char) -> int
    decreases s.len() - i,
{
    if 0 <= i < s.len() && s[i] != t {
        find_char(s, i + 1, t)
    } else {
        i
    }
}

/// Whether some character of `t` is an ASCII letter.
pub open spec fn has_alpha(t: Seq<char>) -> bool {
    exists|k: int| 0 <= k < t.len() && spec_is_alpha(#[trigger] t[k])
}

/// The kind paired with `c` in the first pair at or after index `i` whose character is `c`.
pub open spec fn first_match(pairs: Seq<(char, AceTokenKind)>, i: int, c: char) -> Option<KindV>
    decreases pairs.len() - i,
{
    if i < 0 || i >= pairs.len() {
        None
    } else if pairs[i].0 == c {
        Some(pairs[i].1@)
    } else {
        first_match(pairs, i + 1, c)
    }
}

/// What reading one token does: the token (or error) read, then the new index into the
/// characters and the new position; or `Overflow` where an integer literal does not fit.
pub enum LexStep {
    Step(Result<TokenV, ErrorV>, int, int),
    Overflow,
}

/// A token of kind `kind` that starts at position `start` and leaves the cursor at
/// index `i` and position `p`.
pub open spec fn tok_step(kind: KindV, start: int, i: int, p: int) -> LexStep {
    LexStep::Step(Ok(TokenV { kind, span: Span { start: start as usize, end: p as usize } }), i, p)
}

/// A token that is `one` alone, or `two` when the next character is `c2`.
pub open spec fn one_or_two_step(
    s: Seq<char>,
    i1: int,
    start: int,
    one: KindV,
    c2: char,
    two: KindV,
) -> LexStep {
    if i1 < s.len() && s[i1] == c2 {
        tok_step(two, start, i1 + 1, start + 2)
    } else {
        tok_step(one, start, i1, start + 1)
    }
}

/// Reading a token that starts exactly at index `i0`, position `p0`.
pub open spec fn spec_token_at(s: Seq<char>, i0: int, p0: int) -> LexStep {
    if i0 >= s.len() {
        tok_step(KindV::Eof, p0, i0, p0 + 1)
    } else {
        let c = s[i0];
        let i1 = i0 + 1;
        let p1 = p0 + 1;
        if c == '(' {
            tok_step(KindV::ParenL, p0, i1, p1)
        } else if c == ')' {
            tok_step(KindV::ParenR, p0, i1, p1)
        } else if c == '+' {
            tok_step(KindV::Plus, p0, i1, p1)
        } else if c == '-' {
            tok_step(KindV::Minus, p0, i1, p1)
        } else if c == '~' {
            tok_step(KindV::Glob, p0, i1, p1)
        } else if c == '.' {
            tok_step(KindV::Dot, p0, i1, p1)
        } else if c == '!' {
            if i1 < s.len() && s[i1] == '=' {
                tok_step(KindV::Neq, p0, i1 + 1, p1 + 1)
            } else if i1 < s.len() && s[i1] == '~' {
                tok_step(KindV::Nglob, p0, i1 + 1, p1 + 1)
            } else {
                tok_step(KindV::Not, p0, i1, p1)
            }
        } else if c == '=' {
            one_or_two_step(s, i1, p0, KindV::Unknown, '=', KindV::Eq)
        } else if c == '&' {
            one_or_two_step(s, i1, p0, KindV::Unknown, '&', KindV::And)
        } else if c == '|' {
            one_or_two_step(s, i1, p0, KindV::Unknown, '|', KindV::Or)
        } else if c == '<' {
            one_or_two_step(s, i1, p0, KindV::Lt, '=', KindV::Leq)
        } else if c == '>' {
            one_or_two_step(s, i1, p0, KindV::Gt, '=', KindV::Geq)
        } else if c == '[' || c == '"' {
            let close = if c == '[' { ']' } else { '"' };
            let j = find_char(s, i1, close);
            if j < s.len() {
                let body = s.subrange(i1, j);
                let kind = if c == '[' { KindV::Date(body) } else { KindV::Literal(ValueV::Str(body)) };
                tok_step(kind, p0, j + 1, p1 + (j + 1 - i1))
            } else {
                LexStep::Step(
                    Err(ErrorV::Lex(LexError::ReachedEof(close))),
                    s.len() as int,
                    p1 + (s.len() - i1) + 1,
                )
            }
        } else if spec_is_alpha(c) {
            let j = alnum_end(s, i1);
            tok_step(KindV::Ident(s.subrange(i0, j)), p0, j, p1 + (j - i1))
        } else if '1' <= c && c <= '9' {
            let j = alnum_end(s, i1);
            let t = s.subrange(i0, j);
            if has_alpha(t) {
                tok_step(KindV::Duration(t), p0, j, p1 + (j - i1))
            } else if decimal_value(t) <= i64::MAX {
                tok_step(KindV::Literal(ValueV::Int(decimal_value(t) as i64)), p0, j, p1 + (j - i1))
            } else {
                LexStep::Overflow
            }
        } else {
            tok_step(KindV::Unknown, p0, i1, p1)
        }
    }
}

/// Reading the next token: white space is skipped first.
pub open spec fn spec_next_token(s: Seq<char>, idx: int, pos: int) -> LexStep {
    let i0 = ws_end(s, idx);
    spec_token_at(s, i0, pos + (i0 - idx))
}

/// Whether a token kind is an operator or a parenthesis: a kind with a fixed text.
pub open spec fn is_symbol(k: KindV) -> bool {
    match k {
        KindV::ParenL | KindV::ParenR | KindV::Not | KindV::Plus | KindV::Minus | KindV::And | KindV::Or
        | KindV::Lt | KindV::Gt | KindV::Leq | KindV::Geq | KindV::Eq | KindV::Neq | KindV::Glob
        | KindV::Nglob | KindV::Dot => true,
        _ => false,
    }
}

/// An operator or a parenthesis written out is read back as itself: lexing its text gives
/// one token of that kind that spans the whole text.
pub proof fn lemma_symbol_reads_back(k: KindV)
    requires
        is_symbol(k),
    ensures
        spec_next_token(kind_text(k), 0, 0) == tok_step(k, 0, kind_text(k).len() as int, kind_text(k).len() as int),
{
    reveal_strlit("(");
    reveal_strlit(")");
    reveal_strlit("!");
    reveal_strlit("+");
    reveal_strlit("-");
    reveal_strlit("&&");
    reveal_strlit("||");
    reveal_strlit("<");
    reveal_strlit(">");
    reveal_strlit("<=");
    reveal_strlit(">=");
    reveal_strlit("==");
    reveal_strlit("!=");
    reveal_strlit("~");
    reveal_strlit("!~");
    reveal_strlit(".");
    let s = kind_text(k);
    assert(!spec_is_white_space(s[0]));
    assert(ws_end(s, 0) == 0);
}

/// What the token iterator does: the item produced (`None` at the end of the input),
/// then the new index and position; or `Overflow` where an integer literal does not fit.
pub enum NextStep {
    Item(Option<Result<TokenV, ErrorV>>, int, int),
    Overflow,
}

/// The mathematical content of an item of the token iterator.
pub open spec fn item_view(o: Option<AceResult<AceToken>>) -> Option<Result<TokenV, ErrorV>> {
    match o {
        Some(r) => Some(token_result_view(r)),
        None => None,
    }
}

/// One step of the token iterator: the end-of-input token ends the iteration.
pub open spec fn spec_cursor_next(s: Seq<char>, idx: int, pos: int) -> NextStep {
    match spec_next_token(s, idx, pos) {
        LexStep::Overflow => NextStep::Overflow,
        LexStep::Step(r, i, p) => match r {
            Ok(t) => if t.kind is Eof {
                NextStep::Item(None, i, p)
            } else {
                NextStep::Item(Some(Ok(t)), i, p)
            },
            Err(e) => NextStep::Item(Some(Err(e)), i, p),
        },
    }
}

/// How a step of the iterator moves the cursor: a token moves the index forward and keeps
/// `position - index` fixed; the end of input or an error leaves the index at the end and
/// makes `position - index` one larger.
pub open spec fn step_moves(s: Seq<char>, idx: int, pos: int, step: NextStep) -> bool {
    match step {
        NextStep::Item(item, i, p) => {
            &&& idx <= i <= s.len()
            &&& (item matches Some(Ok(_)) ==> i > idx && p - i == pos - idx)
            &&& (!(item matches Some(Ok(_))) ==> i == s.len() && p - i == pos - idx + 1)
        },
        NextStep::Overflow => true,
    }
}

proof fn lemma_find_char_bounds(s: Seq<char>, i: int, t: char)
    requires
        0 <= i <= s.len(),
    ensures
        i <= find_char(s, i, t) <= s.len(),
    decreases s.len() - i,
{
    if i < s.len() && s[i] != t {
        lemma_find_char_bounds(s, i + 1, t);
    }
}

proof fn lemma_alnum_end_bounds(s: Seq<char>, i: int)
    requires
        0 <= i <= s.len(),
    ensures
        i <= alnum_end(s, i) <= s.len(),
    decreases s.len() - i,
{
    if i < s.len() && spec_is_alnum(s[i]) {
        lemma_alnum_end_bounds(s, i + 1);
    }
}

proof fn lemma_ws_end_bounds(s: Seq<char>, i: int)
    requires
        0 <= i <= s.len(),
    ensures
        i <= ws_end(s, i) <= s.len(),
    decreases s.len() - i,
{
    if i < s.len() && spec_is_white_space(s[i]) {
        lemma_ws_end_bounds(s, i + 1);
    }
}

/// Whether the next `k` steps of the token iterator from index `idx` and position `pos`
/// all give a token.
pub open spec fn all_tokens(s: Seq<char>, idx: int, pos: int, k: nat) -> bool
    decreases k,
{
    if k == 0 {
        true
    } else {
        match spec_cursor_next(s, idx, pos) {
            NextStep::Item(Some(Ok(_)), i, p) => all_tokens(s, i, p, (k - 1) as nat),
            _ => false,
        }
    }
}

/// The token iterator over `s` ends, fails or overflows within one step more than there are
/// characters left: each token takes at least one character.
pub proof fn lemma_iterator_ends(s: Seq<char>, idx: int, pos: int)
    requires
        0 <= idx <= s.len(),
    ensures
        !all_tokens(s, idx, pos, (s.len() - idx + 1) as nat),
    decreases s.len() - idx,
{
    lemma_cursor_next_moves(s, idx, pos);
    if let NextStep::Item(Some(Ok(_)), i, p) = spec_cursor_next(s, idx, pos) {
        lemma_iterator_ends(s, i, p);
        if all_tokens(s, idx, pos, (s.len() - idx + 1) as nat) {
            lemma_all_tokens_shorter(s, i, p, (s.len() - i + 1) as nat, (s.len() - idx) as nat);
        }
    }
}

/// Fewer steps than a run of tokens are tokens too.
proof fn lemma_all_tokens_shorter(s: Seq<char>, idx: int, pos: int, k: nat, j: nat)
    requires
        k <= j,
        all_tokens(s, idx, pos, j),
    ensures
        all_tokens(s, idx, pos, k),
    decreases k,
{
    if k > 0 {
        if let NextStep::Item(Some(Ok(_)), i, p) = spec_cursor_next(s, idx, pos) {
            lemma_all_tokens_shorter(s, i, p, (k - 1) as nat, (j - 1) as nat);
        }
    }
}

/// Once the input is used up, every further step ends the iteration again and leaves the
/// index where it is.
pub proof fn lemma_end_is_sticky(s: Seq<char>, pos: int)
    ensures
        spec_cursor_next(s, s.len() as int, pos) == NextStep::Item(None, s.len() as int, pos + 1),
{
}

/// Every step of the token iterator moves the cursor as `step_moves` says.
pub proof fn lemma_cursor_next_moves(s: Seq<char>, idx: int, pos: int)
    requires
        0 <= idx <= s.len(),
    ensures
        step_moves(s, idx, pos, spec_cursor_next(s, idx, pos)),
{
    lemma_ws_end_bounds(s, idx);
    let i0 = ws_end(s, idx);
    if i0 < s.len() {
        lemma_find_char_bounds(s, i0 + 1, ']');
        lemma_find_char_bounds(s, i0 + 1, '"');
        lemma_alnum_end_bounds(s, i0 + 1);
    }
}

proof fn lemma_ws_end_skip(s: Seq<char>, i: int, j: int)
    requires
        0 <= i <= j <= s.len(),
        forall|k: int| i <= k < j ==> spec_is_white_space(#[trigger] s[k]),
    ensures
        ws_end(s, i) == ws_end(s, j),
    decreases j - i,
{
    if i < j {
        lemma_ws_end_skip(s, i + 1, j);
    }
}

proof fn lemma_alnum_end_skip(s: Seq<char>, i: int, j: int)
    requires
        0 <= i <= j <= s.len(),
        forall|k: int| i <= k < j ==> spec_is_alnum(#[trigger] s[k]),
    ensures
        alnum_end(s, i) == alnum_end(s, j),
    decreases j - i,
{
    if i < j {
        lemma_alnum_end_skip(s, i + 1, j);
    }
}

proof fn lemma_find_char_skip(s: Seq<char>, i: int, j: int, t: char)
    requires
        0 <= i <= j <= s.len(),
        forall|k: int| i <= k < j ==> #[trigger] s[k] != t,
    ensures
        find_char(s, i, t) == find_char(s, j, t),
    decreases j - i,
{
    if i < j {
        lemma_find_char_skip(s, i + 1, j, t);
    }
}

proof fn lemma_alnum_in_run(s: Seq<char>, i: int, j: int, k: int)
    requires
        0 <= i <= k < j <= s.len(),
        alnum_end(s, i) == j,
    ensures
        spec_is_alnum(s[k]),
    decreases k - i,
{
    if i < k {
        if !spec_is_alnum(s[i]) {
            assert(alnum_end(s, i) == i);
        }
        lemma_alnum_in_run(s, i + 1, j, k);
    } else {
        if !spec_is_alnum(s[i]) {
            assert(alnum_end(s, i) == i);
        }
    }
}

pub(crate) proof fn lemma_decimal_prefix(s: Seq<char>, k: int)
    requires
        0 <= k <= s.len(),
        forall|m: int| 0 <= m < s.len() ==> spec_is_digit(#[trigger] s[m]),
    ensures
        0 <= decimal_value(s.take(k)) <= decimal_value(s),
    decreases s.len() - k,
{
    if k < s.len() {
        lemma_decimal_prefix(s, k + 1);
        assert(s.take(k + 1).drop_last() =~= s.take(k));
    } else {
        assert(s.take(k) =~= s);
        lemma_decimal_nonneg(s);
    }
}

pub(crate) proof fn lemma_decimal_nonneg(s: Seq<char>)
    requires
        forall|m: int| 0 <= m < s.len() ==> spec_is_digit(#[trigger] s[m]),
    ensures
        0 <= decimal_value(s),
    decreases s.len(),
{
    if s.len() > 0 {
        lemma_decimal_nonneg(s.drop_last());
    }
}

/// The value of a nonempty run of decimal digits that fits in an `i64`.
fn digits_value(d: &Vec<char>) -> (r: i64)
    requires
        forall|m: int| 0 <= m < d@.len() ==> spec_is_digit(#[trigger] d@[m]),
        decimal_value(d@) <= i64::MAX,
    ensures
        r == decimal_value(d@),
{
    let mut v: i64 = 0;
    let mut k: usize = 0;
    while k < d.len()
        invariant
            k <= d@.len(),
            forall|m: int| 0 <= m < d@.len() ==> spec_is_digit(#[trigger] d@[m]),
            decimal_value(d@) <= i64::MAX,
            v == decimal_value(d@.take(k as int)),
        decreases d@.len() - k,
    {
        proof {
            lemma_decimal_prefix(d@, k + 1);
            assert(d@.take(k + 1).drop_last() =~= d@.take(k as int));
        }
        let digit = (d[k] as u32 - '0' as u32) as i64;
        v = v * 10 + digit;
        k = k + 1;
    }
    proof {
        assert(d@.take(k as int) =~= d@);
    }
    v
}

/// Reads characters one at a time and groups them into tokens.
pub struct Cursor {
    chars: Vec<char>,
    idx: usize,
    pos: usize,
}

impl Cursor {
    /// The characters of the input.
    pub closed spec fn text(&self) -> Seq<char> {
        self.chars@
    }

    /// How many characters have been read.
    pub closed spec fn index(&self) -> int {
        self.idx as int
    }

    /// The position: the number of reads made, including reads past the end.
    pub closed spec fn position(&self) -> int {
        self.pos as int
    }

    /// The index never passes the end of the input.
    pub closed spec fn wf(&self) -> bool {
        self.idx <= self.chars@.len()
    }

    /// How many more reads the position can count: one per unread character and one more.
    pub open spec fn has_room(&self) -> bool {
        self.position() + (self.text().len() - self.index()) + 1 <= usize::MAX
    }

    /// A cursor at the start of `input`.
    pub fn new(input: &str) -> (r: Cursor)
        ensures
            r.wf(),
            r.text() == input@,
            r.index() == 0,
            r.position() == 0,
    {
        Cursor { chars: chars_of(input), idx: 0, pos: 0 }
    }

    /// Reads one character; past the end there is none, but the read still counts.
    fn nextc(&mut self) -> (r: Option<char>)
        requires
            old(self).wf(),
            old(self).position() < usize::MAX,
        ensures
            final(self).wf(),
            final(self).text() == old(self).text(),
            final(self).position() == old(self).position() + 1,
            old(self).index() < old(self).text().len() ==> r == Some(old(self).text()[old(self).index()])
                && final(self).index() == old(self).index() + 1,
            old(self).index() >= old(self).text().len() ==> r is None && final(self).index()
                == old(self).index(),
    {
        self.pos = self.pos + 1;
        if self.idx < self.chars.len() {
            let c = self.chars[self.idx];
            self.idx = self.idx + 1;
            Some(c)
        } else {
            None
        }
    }

    /// Reads one character and drops it.
    fn eatc(&mut self)
        requires
            old(self).wf(),
            old(self).position() < usize::MAX,
        ensures
            final(self).wf(),
            final(self).text() == old(self).text(),
            final(self).position() == old(self).position() + 1,
            old(self).index() < old(self).text().len() ==> final(self).index() == old(self).index()
                + 1,
            old(self).index() >= old(self).text().len() ==> final(self).index() == old(self).index(),
    {
        let _ = self.nextc();
    }

    /// The next character, without reading it.
    fn peekc(&self) -> (r: Option<char>)
        requires
            self.wf(),
        ensures
            self.index() < self.text().len() ==> r == Some(self.text()[self.index()]),
            self.index() >= self.text().len() ==> r is None,
    {
        if self.idx < self.chars.len() {
            Some(self.chars[self.idx])
        } else {
            None
        }
    }

    /// A token of one character, or of two when the next character and its kind are among
    /// `two_kinds` (the first that matches counts).
    fn one_or_two_token(
        &mut self,
        one_kind: AceTokenKind,
        two_kinds: &[(char, AceTokenKind)],
    ) -> (r: AceTokenKind)
        requires
            old(self).wf(),
            old(self).has_room(),
        ensures
            final(self).wf(),
            final(self).text() == old(self).text(),
            ({
                let s = old(self).text();
                let i = old(self).index();
                if i < s.len() && first_match(two_kinds@, 0, s[i]) is Some {
                    &&& r@ == first_match(two_kinds@, 0, s[i])->0
                    &&& final(self).index() == i + 1
                    &&& final(self).position() == old(self).position() + 1
                } else {
                    &&& r == one_kind
                    &&& final(self).index() == i
                    &&& final(self).position() == old(self).position()
                }
            }),
    {
        let long_kind = match self.peekc() {
            Some(n) => {
                let mut found: Option<AceTokenKind> = None;
                let mut k: usize = 0;
                while k < two_kinds.len()
                    invariant_except_break
                        found is None,
                    invariant
                        k <= two_kinds@.len(),
                        first_match(two_kinds@, 0, n) == first_match(two_kinds@, k as int, n),
                    ensures
                        found matches Some(f) ==> first_match(two_kinds@, 0, n) == Some(f@),
                        found is None ==> first_match(two_kinds@, 0, n) is None,
                    decreases two_kinds@.len() - k,
                {
                    if two_kinds[k].0 == n {
                        found = Some(two_kinds[k].1.duplicate());
                        break;
                    }
                    k = k + 1;
                }
                found
            },
            None => None,
        };
        match long_kind {
            Some(long_kind) => {
                self.eatc();
                long_kind
            },
            None => one_kind,
        }
    }

    /// Reads the characters of a word (letters and digits) that continues `buf`.
    fn read_word(&mut self, buf: &mut Vec<char>) -> (has_letter: bool)
        requires
            old(self).wf(),
            old(self).has_room(),
            old(self).index() >= old(buf)@.len(),
            old(buf)@ == old(self).text().subrange(
                old(self).index() - old(buf)@.len(),
                old(self).index(),
            ),
        ensures
            final(self).wf(),
            final(self).text() == old(self).text(),
            final(self).index() == alnum_end(old(self).text(), old(self).index()),
            old(self).index() <= final(self).index() <= old(self).text().len(),
            final(self).position() == old(self).position() + (final(self).index() - old(self).index()),
            final(buf)@ == old(self).text().subrange(
                old(self).index() - old(buf)@.len(),
                final(self).index(),
            ),
            has_letter == has_alpha(old(self).text().subrange(old(self).index(), final(self).index())),
    {
        let ghost s = self.text();
        let ghost i1 = self.index();
        let ghost p1 = self.position();
        let ghost start = self.index() - buf@.len();
        let mut has_letter = false;
        loop
            invariant
                self.wf(),
                self.text() == s,
                s == old(self).text(),
                i1 == old(self).index(),
                p1 == old(self).position(),
                start == old(self).index() - old(buf)@.len(),
                0 <= start <= i1 <= self.index() <= s.len(),
                self.position() == p1 + (self.index() - i1),
                p1 + (s.len() - i1) + 1 <= usize::MAX,
                buf@ == s.subrange(start, self.index()),
                forall|k: int| i1 <= k < self.index() ==> spec_is_alnum(#[trigger] s[k]),
                has_letter == has_alpha(s.subrange(i1, self.index())),
            ensures
                self.index() == s.len() || !spec_is_alnum(s[self.index()]),
            decreases s.len() - self.index(),
        {
            let n = match self.peekc() {
                Some(n) => n,
                None => {
                    break;
                },
            };
            if !is_alnum(n) {
                break;
            }
            let ghost before = s.subrange(i1, self.index());
            buf.push(n);
            self.eatc();
            proof {
                let after = s.subrange(i1, self.index());
                assert(after =~= before.push(n));
                if spec_is_alpha(n) {
                    assert(after[after.len() - 1] == n);
                } else if has_alpha(after) {
                    let w = choose|w: int| 0 <= w < after.len() && spec_is_alpha(#[trigger] after[w]);
                    assert(before[w] == after[w]);
                }
                if has_alpha(before) {
                    let w = choose|w: int| 0 <= w < before.len() && spec_is_alpha(#[trigger] before[w]);
                    assert(before[w] == after[w]);
                }
            }
            has_letter = has_letter || is_alpha(n);
            assert(buf@ =~= s.subrange(start, self.index()));
        }
        proof {
            lemma_alnum_end_skip(s, i1, self.index());
        }
        has_letter
    }

    fn next_token_impl(&mut self) -> (r: AceResult<AceToken>)
        requires
            old(self).wf(),
            old(self).has_room(),
            !(spec_token_at(old(self).text(), old(self).index(), old(self).position()) is Overflow),
        ensures
            final(self).wf(),
            final(self).text() == old(self).text(),
            spec_token_at(old(self).text(), old(self).index(), old(self).position())
                == LexStep::Step(token_result_view(r), final(self).index(), final(self).position()),
    {
        let ghost s = self.text();
        let pos_before = self.pos;
        let kind = match self.nextc() {
            None => AceTokenKind::Eof,
            Some(c) => {
                if c == '(' {
                    AceTokenKind::ParenL
                } else if c == ')' {
                    AceTokenKind::ParenR
                } else if c == '+' {
                    AceTokenKind::Plus
                } else if c == '-' {
                    AceTokenKind::Minus
                } else if c == '~' {
                    AceTokenKind::Glob
                } else if c == '.' {
                    AceTokenKind::Dot
                } else if c == '!' {
                    proof {
                        reveal_with_fuel(first_match, 3);
                    }
                    self.one_or_two_token(
                        AceTokenKind::Not,
                        &[('=', AceTokenKind::Neq), ('~', AceTokenKind::Nglob)],
                    )
                } else if c == '=' {
                    proof {
                        reveal_with_fuel(first_match, 2);
                    }
                    self.one_or_two_token(AceTokenKind::Unknown, &[('=', AceTokenKind::Eq)])
                } else if c == '&' {
                    proof {
                        reveal_with_fuel(first_match, 2);
                    }
                    self.one_or_two_token(AceTokenKind::Unknown, &[('&', AceTokenKind::And)])
                } else if c == '|' {
                    proof {
                        reveal_with_fuel(first_match, 2);
                    }
                    self.one_or_two_token(AceTokenKind::Unknown, &[('|', AceTokenKind::Or)])
                } else if c == '<' {
                    proof {
                        reveal_with_fuel(first_match, 2);
                    }
                    self.one_or_two_token(AceTokenKind::Lt, &[('=', AceTokenKind::Leq)])
                } else if c == '>' {
                    proof {
                        reveal_with_fuel(first_match, 2);
                    }
                    self.one_or_two_token(AceTokenKind::Gt, &[('=', AceTokenKind::Geq)])
                } else if c == '[' {
                    match self.read_until(']') {
                        Ok(body) => AceTokenKind::Date(body),
                        Err(e) => {
                            return Err(e);
                        },
                    }
                } else if c == '"' {
                    match self.read_until('"') {
                        Ok(body) => AceTokenKind::Literal(AceValue::AceString(body)),
                        Err(e) => {
                            return Err(e);
                        },
                    }
                } else if is_alpha(c) {
                    let mut buf: Vec<char> = Vec::new();
                    buf.push(c);
                    assert(buf@ =~= self.text().subrange(self.index() - 1, self.index()));
                    let _ = self.read_word(&mut buf);
                    AceTokenKind::Ident(string_from_chars(buf.as_slice()))
                } else if '1' <= c && c <= '9' {
                    let mut buf: Vec<char> = Vec::new();
                    buf.push(c);
                    assert(buf@ =~= self.text().subrange(self.index() - 1, self.index()));
                    let duration = self.read_word(&mut buf);
                    proof {
                        let t = buf@;
                        assert(t == s.subrange(old(self).index(), self.index()));
                        assert(t.len() >= 1);
                        let rest = s.subrange(old(self).index() + 1, self.index());
                        assert(rest =~= t.drop_first());
                        if has_alpha(t) {
                            let w = choose|w: int| 0 <= w < t.len() && spec_is_alpha(#[trigger] t[w]);
                            assert(w > 0);
                            assert(rest[w - 1] == t[w]);
                        }
                        if has_alpha(rest) {
                            let w = choose|w: int| 0 <= w < rest.len() && spec_is_alpha(#[trigger] rest[w]);
                            assert(rest[w] == t[w + 1]);
                        }
                        if !duration {
                            assert forall|m: int| 0 <= m < t.len() implies spec_is_digit(#[trigger] t[m]) by {
                                if m > 0 {
                                    assert(rest[m - 1] == t[m]);
                                    assert(!spec_is_alpha(rest[m - 1]));
                                    lemma_alnum_in_run(s, old(self).index() + 1, self.index(), old(self).index() + m);
                                }
                            }
                        }
                    }
                    if duration {
                        AceTokenKind::Duration(string_from_chars(buf.as_slice()))
                    } else {
                        AceTokenKind::Literal(AceValue::AceInt(digits_value(&buf)))
                    }
                } else {
                    AceTokenKind::Unknown
                }
            },
        };
        Ok(AceToken::new(kind, pos_before, self.pos))
    }

    /// Reads the next token, skipping white space before it.
    pub fn next_token(&mut self) -> (r: AceResult<AceToken>)
        requires
            old(self).wf(),
            old(self).has_room(),
            !(spec_next_token(old(self).text(), old(self).index(), old(self).position()) is Overflow),
        ensures
            final(self).wf(),
            final(self).text() == old(self).text(),
            spec_next_token(old(self).text(), old(self).index(), old(self).position())
                == LexStep::Step(token_result_view(r), final(self).index(), final(self).position()),
    {
        let ghost s = self.text();
        let ghost i0 = self.index();
        let ghost p0 = self.position();
        loop
            invariant
                self.wf(),
                self.text() == s,
                s == old(self).text(),
                i0 == old(self).index(),
                p0 == old(self).position(),
                i0 <= self.index() <= s.len(),
                self.position() == p0 + (self.index() - i0),
                p0 + (s.len() - i0) + 1 <= usize::MAX,
                forall|k: int| i0 <= k < self.index() ==> spec_is_white_space(#[trigger] s[k]),
            ensures
                self.index() == s.len() || !spec_is_white_space(s[self.index()]),
            decreases s.len() - self.index(),
        {
            let c = match self.peekc() {
                Some(c) => c,
                None => {
                    break;
                },
            };
            if is_white_space(c) {
                self.eatc();
            } else {
                break;
            }
        }
        proof {
            lemma_ws_end_skip(s, i0, self.index());
        }
        self.next_token_impl()
    }

    /// The next token, `None` at the end of the input.
    pub fn next(&mut self) -> (r: Option<AceResult<AceToken>>)
        requires
            old(self).wf(),
            old(self).has_room(),
            !(spec_cursor_next(old(self).text(), old(self).index(), old(self).position()) is Overflow),
        ensures
            final(self).wf(),
            final(self).text() == old(self).text(),
            spec_cursor_next(old(self).text(), old(self).index(), old(self).position())
                == NextStep::Item(item_view(r), final(self).index(), final(self).position()),
    {
        let token = self.next_token();
        match token {
            Err(e) => Some(Err(e)),
            Ok(t) => {
                if let AceTokenKind::Eof = t.kind {
                    None
                } else {
                    Some(Ok(t))
                }
            },
        }
    }

    fn read_until(&mut self, target: char) -> (r: AceResult<String>)
        requires
            old(self).wf(),
            old(self).has_room(),
        ensures
            final(self).wf(),
            final(self).text() == old(self).text(),
            ({
                let s = old(self).text();
                let j = find_char(s, old(self).index(), target);
                if j < s.len() {
                    &&& r matches Ok(body) && body@ == s.subrange(old(self).index(), j)
                    &&& final(self).index() == j + 1
                    &&& final(self).position() == old(self).position() + (j + 1 - old(self).index())
                } else {
                    &&& r matches Err(e) && e@ == ErrorV::Lex(LexError::ReachedEof(target))
                    &&& final(self).index() == s.len()
                    &&& final(self).position() == old(self).position() + (s.len() - old(self).index()) + 1
                }
            }),
    {
        let ghost s = self.text();
        let ghost i0 = self.index();
        let ghost p0 = self.position();
        let mut buf: Vec<char> = Vec::new();
        loop
            invariant
                self.wf(),
                self.text() == s,
                s == old(self).text(),
                i0 == old(self).index(),
                p0 == old(self).position(),
                s.len() == self.chars@.len(),
                i0 <= self.index() <= s.len(),
                self.position() == p0 + (self.index() - i0),
                p0 + (s.len() - i0) + 1 <= usize::MAX,
                buf@ == s.subrange(i0, self.index()),
                forall|k: int| i0 <= k < self.index() ==> #[trigger] s[k] != target,
            decreases s.len() - self.index(),
        {
            let c = self.nextc();
            match c {
                Some(c) => {
                    if c == target {
                        proof {
                            lemma_find_char_skip(s, i0, self.index() - 1, target);
                        }
                        return Ok(string_from_chars(buf.as_slice()));
                    }
                    buf.push(c);
                    assert(buf@ =~= s.subrange(i0, self.index()));
                },
                None => {
                    proof {
                        lemma_find_char_skip(s, i0, s.len() as int, target);
                    }
                    return Err(AceError::Lex(LexError::ReachedEof(target)));
                },
            }
        }
    }
}

} // verus!

verus! {

/// The state of a token stream with one token of lookahead: the input, the cursor's
/// index and position, and the item looked at but not yet taken.
pub struct LexState {
    pub text: Seq<char>,
    pub idx: int,
    pub pos: int,
    pub peeked: Option<Option<Result<TokenV, ErrorV>>>,
}

/// Whether a looked-at item still counts one read of the position: nothing looked at
/// yet, or a token.
pub open spec fn pending_read(peeked: Option<Option<Result<TokenV, ErrorV>>>) -> int {
    match peeked {
        None => 1,
        Some(Some(Ok(_))) => 1,
        _ => 0,
    }
}

/// The reads that the position may still have to count.
pub open spec fn room_needed(st: LexState) -> int {
    st.pos + (st.text.len() - st.idx) + pending_read(st.peeked)
}

/// Making sure an item has been looked at; `None` where an integer literal does not fit.
pub open spec fn sp_fill(st: LexState) -> Option<LexState> {
    if st.peeked is Some {
        Some(st)
    } else {
        match spec_cursor_next(st.text, st.idx, st.pos) {
            NextStep::Overflow => None,
            NextStep::Item(item, i, p) => Some(LexState { idx: i, pos: p, peeked: Some(item), ..st }),
        }
    }
}

/// Looking at the next token without taking it: the end of input reads as `ParseError::Eof`.
pub open spec fn sp_peek_tok(st: LexState) -> Option<(Result<TokenV, ErrorV>, LexState)> {
    match sp_fill(st) {
        None => None,
        Some(st2) => match st2.peeked {
            Some(Some(r)) => Some((r, st2)),
            _ => Some((Err(ErrorV::Parse(ParseErrorV::Eof)), st2)),
        },
    }
}

/// Taking the next item of the stream.
pub open spec fn sp_next(st: LexState) -> Option<(Option<Result<TokenV, ErrorV>>, LexState)> {
    match st.peeked {
        Some(v) => Some((v, LexState { peeked: None, ..st })),
        None => match spec_cursor_next(st.text, st.idx, st.pos) {
            NextStep::Overflow => None,
            NextStep::Item(item, i, p) => Some((item, LexState { idx: i, pos: p, ..st })),
        },
    }
}

/// Taking the next token: the end of input reads as `ParseError::Eof`.
pub open spec fn sp_next_tok(st: LexState) -> Option<(Result<TokenV, ErrorV>, LexState)> {
    match sp_next(st) {
        None => None,
        Some((Some(r), st2)) => Some((r, st2)),
        Some((None, st2)) => Some((Err(ErrorV::Parse(ParseErrorV::Eof)), st2)),
    }
}

/// Looking at the next token takes nothing from the stream: the state that looking leaves
/// (the state `peek_tok`, `expect_tok` and `eat_tok` leave) gives the same next item, and
/// then the same state, as the state before.
pub proof fn lemma_peek_takes_nothing(st: LexState)
    requires
        sp_peek_tok(st) is Some,
    ensures
        sp_next((sp_peek_tok(st)->0).1) == sp_next(st),
{
}

/// A measure that looking ahead never increases and taking a token always decreases.
pub open spec fn lex_measure(st: LexState) -> int {
    2 * (st.text.len() - st.idx) + (if st.peeked matches Some(Some(Ok(_))) { 1int } else { 0int })
}

/// A stream of tokens with one token of lookahead.
pub struct AceLexer {
    cursor: Cursor,
    peeked: Option<Option<AceResult<AceToken>>>,
}

/// The mathematical content of a looked-at item.
pub open spec fn peeked_view(p: Option<Option<AceResult<AceToken>>>) -> Option<
    Option<Result<TokenV, ErrorV>>,
> {
    match p {
        None => None,
        Some(o) => Some(item_view(o)),
    }
}

impl AceLexer {
    /// The state of the stream.
    pub closed spec fn state(&self) -> LexState {
        LexState {
            text: self.cursor.text(),
            idx: self.cursor.index(),
            pos: self.cursor.position(),
            peeked: peeked_view(self.peeked),
        }
    }

    /// The cursor is well formed and the position cannot overflow.
    pub closed spec fn wf(&self) -> bool {
        &&& self.cursor.wf()
        &&& room_needed(self.state()) <= usize::MAX
    }

    /// A token stream over `input`.
    pub fn lex(input: &str) -> (r: AceLexer)
        requires
            input@.len() < usize::MAX,
        ensures
            r.wf(),
            r.state() == (LexState { text: input@, idx: 0, pos: 0, peeked: None }),
    {
        AceLexer { cursor: Cursor::new(input), peeked: None }
    }

    /// The index of a well-formed stream lies within its input.
    pub proof fn lemma_state_bounds(&self)
        requires
            self.wf(),
        ensures
            0 <= self.state().idx <= self.state().text.len(),
            self.state().pos >= 0,
    {
    }

    /// Makes sure the next item has been looked at.
    fn fill(&mut self)
        requires
            old(self).wf(),
            sp_fill(old(self).state()) is Some,
        ensures
            final(self).wf(),
            sp_fill(old(self).state()) == Some(final(self).state()),
            final(self).peeked is Some,
    {
        if self.peeked.is_none() {
            proof {
                lemma_cursor_next_moves(self.cursor.text(), self.cursor.index(), self.cursor.position());
            }
            let item = self.cursor.next();
            self.peeked = Some(item);
        }
    }

    /// Takes the next item of the stream.
    pub fn next(&mut self) -> (r: Option<AceResult<AceToken>>)
        requires
            old(self).wf(),
            sp_next(old(self).state()) is Some,
            old(self).state().peeked matches Some(Some(Ok(_))) || room_needed(old(self).state()) + 1 <= usize::MAX,
        ensures
            final(self).wf(),
            sp_next(old(self).state()) == Some((item_view(r), final(self).state())),
    {
        match self.peeked.take() {
            Some(v) => v,
            None => {
                proof {
                    lemma_cursor_next_moves(self.cursor.text(), self.cursor.index(), self.cursor.position());
                }
                self.cursor.next()
            },
        }
    }

    /// Takes the next token; the end of input is `ParseError::Eof`.
    pub fn next_tok(&mut self) -> (r: AceResult<AceToken>)
        requires
            old(self).wf(),
            sp_next(old(self).state()) is Some,
            old(self).state().peeked matches Some(Some(Ok(_))) || room_needed(old(self).state()) + 1 <= usize::MAX,
        ensures
            final(self).wf(),
            sp_next_tok(old(self).state()) == Some((token_result_view(r), final(self).state())),
    {
        match self.next() {
            Some(t) => t,
            None => Err(AceError::Parse(ParseError::Eof)),
        }
    }

    /// Looks at the next token without taking it; the end of input is `ParseError::Eof`.
    pub fn peek_tok(&mut self) -> (r: AceResult<AceToken>)
        requires
            old(self).wf(),
            sp_fill(old(self).state()) is Some,
        ensures
            final(self).wf(),
            sp_peek_tok(old(self).state()) == Some((token_result_view(r), final(self).state())),
    {
        self.fill();
        match &self.peeked {
            Some(Some(t)) => duplicate_token_result(t),
            _ => Err(AceError::Parse(ParseError::Eof)),
        }
    }

    /// Whether the next token is of kind `target`.
    pub fn expect_tok(&mut self, target: AceTokenKind) -> (r: AceResult<bool>)
        requires
            old(self).wf(),
            sp_fill(old(self).state()) is Some,
        ensures
            final(self).wf(),
            ({
                let (t, st) = sp_peek_tok(old(self).state())->0;
                &&& final(self).state() == st
                &&& match t {
                    Ok(tok) => r matches Ok(b) && b == (tok.kind == target@),
                    Err(e) => r matches Err(e2) && e2@ == e,
                }
            }),
    {
        match self.peek_tok() {
            Ok(t) => Ok(t.kind.same(&target)),
            Err(e) => Err(e),
        }
    }

    /// Succeeds when the next token is of kind `target`, without taking it.
    pub fn eat_tok(&mut self, target: AceTokenKind) -> (r: AceResult<()>)
        requires
            old(self).wf(),
            sp_fill(old(self).state()) is Some,
        ensures
            final(self).wf(),
            ({
                let (t, st) = sp_peek_tok(old(self).state())->0;
                &&& final(self).state() == st
                &&& match t {
                    Ok(tok) => if tok.kind == target@ {
                        r is Ok
                    } else {
                        r matches Err(e2) && e2@ == ErrorV::Parse(
                            ParseErrorV::Expected(target@, tok.kind, tok.span),
                        )
                    },
                    Err(e) => r matches Err(e2) && e2@ == e,
                }
            }),
    {
        let token = self.peek_tok();
        match token {
            Ok(t) => {
                if t.kind.same(&target) {
                    Ok(())
                } else {
                    Err(AceError::Parse(ParseError::Expected(target, t.kind, t.span)))
                }
            },
            Err(e) => Err(e),
        }
    }

    /// Takes the next token and drops it.
    pub fn discard_tok(&mut self) -> (r: AceResult<()>)
        requires
            old(self).wf(),
            sp_next(old(self).state()) is Some,
            old(self).state().peeked matches Some(Some(Ok(_))) || room_needed(old(self).state()) + 1 <= usize::MAX,
        ensures
            final(self).wf(),
            ({
                let (t, st) = sp_next_tok(old(self).state())->0;
                &&& final(self).state() == st
                &&& match t {
                    Ok(_) => r is Ok,
                    Err(e) => r matches Err(e2) && e2@ == e,
                }
            }),
    {
        let _ = self.next_tok()?;
        Ok(())
    }
}

} // verus!
