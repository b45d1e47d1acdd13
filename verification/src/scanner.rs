//! The lexical scanner: a single left-to-right pass over the character
//! stream with one character of lookahead, maximal-munch tokenization and
//! per-character error recovery. Its behaviour is pinned down by the
//! mathematical scan [`spec_scan`], which the executable scanner is proved
//! to implement exactly.

use vstd::prelude::*;
use vstd::string::StrSliceExecFns;

use crate::token::{spec_keyword, SpannedToken, SpannedTokenV, Token, TokenV};

verus! {

/// A diagnostic the scanner reports; scanning always continues past it.
#[derive(Clone, Copy, Debug, PartialEq, Eq)]
pub enum ScanErrorKind {
    /// End of input was reached before a string literal's closing quote.
    UnterminatedString,
    /// A numeric literal's greedy run holds more than one decimal point.
    InvalidNumber,
    /// A character that cannot begin any token.
    UnexpectedChar(char),
}

/// A scan diagnostic and the 1-based line it was reported on.
#[derive(Clone, Copy, Debug, PartialEq, Eq)]
pub struct ScanError {
    pub kind: ScanErrorKind,
    pub line: usize,
}

/// Mathematical model of a scan diagnostic.
pub struct ScanErrorV {
    pub kind: ScanErrorKind,
    pub line: nat,
}

impl View for ScanError {
    type V = ScanErrorV;

    open spec fn view(&self) -> ScanErrorV {
        ScanErrorV { kind: self.kind, line: self.line as nat }
    }
}

pub open spec fn is_digit(c: char) -> bool {
    '0' as u32 <= c as u32 && c as u32 <= '9' as u32
}

pub open spec fn is_ident_start(c: char) -> bool {
    ('a' as u32 <= c as u32 && c as u32 <= 'z' as u32) || ('A' as u32 <= c as u32 && c as u32
        <= 'Z' as u32) || c == '_'
}

pub open spec fn is_ident_part(c: char) -> bool {
    is_ident_start(c) || is_digit(c)
}

/// The character classes the scanner's maximal-munch runs are built from.
#[derive(Clone, Copy, Debug, PartialEq, Eq, Structural)]
pub enum CharClass {
    /// Digits and the decimal point: the greedy run of a numeric literal.
    NumberPart,
    /// Letters, digits and underscore: the tail of an identifier.
    IdentPart,
    /// Anything but the closing quote: the inside of a string literal.
    StringPart,
    /// Anything but a newline: the tail of a line comment.
    CommentPart,
}

pub open spec fn in_class(k: CharClass, c: char) -> bool {
    match k {
        CharClass::NumberPart => is_digit(c) || c == '.',
        CharClass::IdentPart => is_ident_part(c),
        CharClass::StringPart => c != '"',
        CharClass::CommentPart => c != '\n',
    }
}

/// Length of the longest prefix of `cs` whose characters all lie in class
/// `k`: the maximal munch.
pub open spec fn run_len(cs: Seq<char>, k: CharClass) -> nat
    decreases cs.len(),
{
    if cs.len() == 0 || !in_class(k, cs[0]) {
        0
    } else {
        1 + run_len(cs.drop_first(), k)
    }
}

pub proof fn lemma_run_len_le(cs: Seq<char>, k: CharClass)
    ensures
        run_len(cs, k) <= cs.len(),
    decreases cs.len(),
{
    if cs.len() != 0 && in_class(k, cs[0]) {
        lemma_run_len_le(cs.drop_first(), k);
    }
}

/// How many times `c` occurs in `cs`.
pub open spec fn count_char(cs: Seq<char>, c: char) -> nat
    decreases cs.len(),
{
    if cs.len() == 0 {
        0
    } else {
        count_char(cs.drop_last(), c) + (if cs.last() == c {
            1nat
        } else {
            0nat
        })
    }
}

/// What one scan step does: how many characters it consumes, the token it
/// emits (if any), the diagnostic it reports (if any), and the line counter
/// after the step.
pub struct Step {
    pub consumed: int,
    pub token: Option<TokenV>,
    pub error: Option<ScanErrorKind>,
    pub line: nat,
}

/// One step of the scan on the non-empty remaining input `cs`, with the
/// current line counter `line`. Single tokens and the two-character
/// operators consume their characters; a string literal consumes through
/// its closing quote, or to end-of-input with an `UnterminatedString`
/// diagnostic; a numeric literal greedily consumes digits and decimal
/// points and is rejected as `InvalidNumber` when it holds more than one
/// point; an identifier run is looked up in the keyword table; `//` starts
/// a comment running to end-of-line; whitespace is skipped silently, a
/// newline bumps the line counter; any other character is an
/// `UnexpectedChar` diagnostic.
pub open spec fn spec_step(cs: Seq<char>, line: nat) -> Step
    recommends
        cs.len() > 0,
{
    let c = cs[0];
    if c == '(' {
        Step { consumed: 1, token: Some(TokenV::LeftParen), error: None, line }
    } else if c == ')' {
        Step { consumed: 1, token: Some(TokenV::RightParen), error: None, line }
    } else if c == '{' {
        Step { consumed: 1, token: Some(TokenV::LeftBrace), error: None, line }
    } else if c == '}' {
        Step { consumed: 1, token: Some(TokenV::RightBrace), error: None, line }
    } else if c == ',' {
        Step { consumed: 1, token: Some(TokenV::Comma), error: None, line }
    } else if c == '.' {
        Step { consumed: 1, token: Some(TokenV::Dot), error: None, line }
    } else if c == '-' {
        Step { consumed: 1, token: Some(TokenV::Minus), error: None, line }
    } else if c == '+' {
        Step { consumed: 1, token: Some(TokenV::Plus), error: None, line }
    } else if c == ';' {
        Step { consumed: 1, token: Some(TokenV::Semicolon), error: None, line }
    } else if c == '*' {
        Step { consumed: 1, token: Some(TokenV::Star), error: None, line }
    } else if c == '!' {
        if cs.len() >= 2 && cs[1] == '=' {
            Step { consumed: 2, token: Some(TokenV::BangEqual), error: None, line }
        } else {
            Step { consumed: 1, token: Some(TokenV::Bang), error: None, line }
        }
    } else if c == '=' {
        if cs.len() >= 2 && cs[1] == '=' {
            Step { consumed: 2, token: Some(TokenV::EqualEqual), error: None, line }
        } else {
            Step { consumed: 1, token: Some(TokenV::Equal), error: None, line }
        }
    } else if c == '<' {
        if cs.len() >= 2 && cs[1] == '=' {
            Step { consumed: 2, token: Some(TokenV::LessEqual), error: None, line }
        } else {
            Step { consumed: 1, token: Some(TokenV::Less), error: None, line }
        }
    } else if c == '>' {
        if cs.len() >= 2 && cs[1] == '=' {
            Step { consumed: 2, token: Some(TokenV::GreaterEqual), error: None, line }
        } else {
            Step { consumed: 1, token: Some(TokenV::Greater), error: None, line }
        }
    } else if c == '"' {
        let j = run_len(cs.skip(1), CharClass::StringPart) as int;
        if 1 + j < cs.len() {
            Step {
                consumed: j + 2,
                token: Some(TokenV::StringLiteral(cs.subrange(1, 1 + j))),
                error: None,
                line,
            }
        } else {
            Step {
                consumed: cs.len() as int,
                token: Some(TokenV::StringLiteral(cs.subrange(1, cs.len() as int))),
                error: Some(ScanErrorKind::UnterminatedString),
                line,
            }
        }
    } else if is_digit(c) {
        let j = run_len(cs, CharClass::NumberPart) as int;
        let text = cs.take(j);
        if count_char(text, '.') <= 1 {
            Step { consumed: j, token: Some(TokenV::NumberLiteral(text)), error: None, line }
        } else {
            Step { consumed: j, token: None, error: Some(ScanErrorKind::InvalidNumber), line }
        }
    } else if is_ident_start(c) {
        let j = run_len(cs, CharClass::IdentPart) as int;
        let text = cs.take(j);
        let tok = match spec_keyword(text) {
            Some(k) => k,
            None => TokenV::Identifier(text),
        };
        Step { consumed: j, token: Some(tok), error: None, line }
    } else if c == '/' {
        if cs.len() >= 2 && cs[1] == '/' {
            Step {
                consumed: 2 + run_len(cs.skip(2), CharClass::CommentPart) as int,
                token: None,
                error: None,
                line,
            }
        } else {
            Step { consumed: 1, token: Some(TokenV::Slash), error: None, line }
        }
    } else if c == ' ' || c == '\r' || c == '\t' {
        Step { consumed: 1, token: None, error: None, line }
    } else if c == '\n' {
        Step { consumed: 1, token: None, error: None, line: line + 1 }
    } else {
        Step { consumed: 1, token: None, error: Some(ScanErrorKind::UnexpectedChar(c)), line }
    }
}

/// Every scan step consumes at least one character and never more than
/// remain: the scan's cursor advances monotonically and stays in bounds.
pub proof fn lemma_step_bounds(cs: Seq<char>, line: nat)
    requires
        cs.len() > 0,
    ensures
        1 <= spec_step(cs, line).consumed <= cs.len(),
{
    let c = cs[0];
    if c == '"' {
        lemma_run_len_le(cs.skip(1), CharClass::StringPart);
    } else if is_digit(c) {
        assert(in_class(CharClass::NumberPart, c));
        assert(run_len(cs, CharClass::NumberPart) >= 1);
        lemma_run_len_le(cs, CharClass::NumberPart);
    } else if is_ident_start(c) {
        assert(in_class(CharClass::IdentPart, c));
        assert(run_len(cs, CharClass::IdentPart) >= 1);
        lemma_run_len_le(cs, CharClass::IdentPart);
    } else if c == '/' && cs.len() >= 2 && cs[1] == '/' {
        lemma_run_len_le(cs.skip(2), CharClass::CommentPart);
    }
}

/// What a whole scan produces: the token sequence and the diagnostics, in
/// source order.
pub struct ScanOut {
    pub tokens: Seq<SpannedTokenV>,
    pub errors: Seq<ScanErrorV>,
}

/// The mathematical scan: steps through `cs` from line counter `line`,
/// collecting each step's token (with its lexeme, the exact characters the
/// step consumed, and its starting line) and each step's diagnostic.
pub open spec fn spec_scan(cs: Seq<char>, line: nat) -> ScanOut
    decreases cs.len(),
{
    if cs.len() == 0 {
        ScanOut { tokens: Seq::empty(), errors: Seq::empty() }
    } else {
        let st = spec_step(cs, line);
        let k = if 1 <= st.consumed && st.consumed <= cs.len() {
            st.consumed
        } else {
            1
        };
        let rest = spec_scan(cs.skip(k), st.line);
        let toks = match st.token {
            Some(t) => seq![SpannedTokenV { token: t, lexeme: cs.take(k), line }] + rest.tokens,
            None => rest.tokens,
        };
        let errs = match st.error {
            Some(e) => seq![ScanErrorV { kind: e, line }] + rest.errors,
            None => rest.errors,
        };
        ScanOut { tokens: toks, errors: errs }
    }
}

pub open spec fn is_blank_char(c: char) -> bool {
    c == ' ' || c == '\r' || c == '\t' || c == '\n'
}

/// The text consists of nothing but whitespace and line comments.
pub open spec fn blank_only(cs: Seq<char>) -> bool
    decreases cs.len(),
{
    if cs.len() == 0 {
        true
    } else if is_blank_char(cs[0]) {
        blank_only(cs.drop_first())
    } else if cs.len() >= 2 && cs[0] == '/' && cs[1] == '/' {
        let j = run_len(cs.skip(2), CharClass::CommentPart) as int;
        let k = if 2 + j <= cs.len() {
            2 + j
        } else {
            cs.len() as int
        };
        blank_only(cs.skip(k))
    } else {
        false
    }
}

/// A source text consisting only of whitespace and line comments scans to
/// zero real tokens, and has nothing to report.
pub proof fn lemma_blank_source_yields_no_tokens(cs: Seq<char>, line: nat)
    requires
        blank_only(cs),
    ensures
        spec_scan(cs, line).tokens =~= Seq::<SpannedTokenV>::empty(),
        spec_scan(cs, line).errors =~= Seq::<ScanErrorV>::empty(),
    decreases cs.len(),
{
    if cs.len() > 0 {
        let st = spec_step(cs, line);
        lemma_step_bounds(cs, line);
        if is_blank_char(cs[0]) {
            assert(cs.skip(1) =~= cs.drop_first());
            lemma_blank_source_yields_no_tokens(cs.skip(1), st.line);
        } else {
            lemma_run_len_le(cs.skip(2), CharClass::CommentPart);
            lemma_blank_source_yields_no_tokens(cs.skip(st.consumed), st.line);
        }
    }
}

/// The tokens' lexemes occur in the text in source order, each as a
/// contiguous substring beginning at or after `from`, without overlap:
/// concatenating the lexemes in order (with the skipped whitespace,
/// comments and error runs restored between them) reconstructs a
/// token-boundary-consistent view of the text.
pub open spec fn lexemes_embed_from(cs: Seq<char>, toks: Seq<SpannedTokenV>, from: int) -> bool
    decreases toks.len(),
{
    toks.len() == 0 || (exists|s: int|
        {
            &&& from <= s
            &&& s + toks[0].lexeme.len() <= cs.len()
            &&& #[trigger] cs.subrange(s, s + toks[0].lexeme.len() as int) == toks[0].lexeme
            &&& lexemes_embed_from(cs, toks.drop_first(), s + toks[0].lexeme.len() as int)
        })
}

proof fn lemma_embed_weaken(cs: Seq<char>, toks: Seq<SpannedTokenV>, from: int, from2: int)
    requires
        lexemes_embed_from(cs, toks, from),
        from2 <= from,
    ensures
        lexemes_embed_from(cs, toks, from2),
{
    if toks.len() > 0 {
        let s = choose|s: int|
            {
                &&& from <= s
                &&& s + toks[0].lexeme.len() <= cs.len()
                &&& #[trigger] cs.subrange(s, s + toks[0].lexeme.len() as int) == toks[0].lexeme
                &&& lexemes_embed_from(cs, toks.drop_first(), s + toks[0].lexeme.len() as int)
            };
        assert(from2 <= s && s + toks[0].lexeme.len() <= cs.len() && cs.subrange(
            s,
            s + toks[0].lexeme.len() as int,
        ) == toks[0].lexeme && lexemes_embed_from(
            cs,
            toks.drop_first(),
            s + toks[0].lexeme.len() as int,
        ));
    }
}

proof fn lemma_embed_shift(cs: Seq<char>, toks: Seq<SpannedTokenV>, from: int, d: int)
    requires
        0 <= d <= cs.len(),
        0 <= from,
        lexemes_embed_from(cs.skip(d), toks, from),
    ensures
        lexemes_embed_from(cs, toks, from + d),
    decreases toks.len(),
{
    if toks.len() > 0 {
        let tail = cs.skip(d);
        let s = choose|s: int|
            {
                &&& from <= s
                &&& s + toks[0].lexeme.len() <= tail.len()
                &&& #[trigger] tail.subrange(s, s + toks[0].lexeme.len() as int) == toks[0].lexeme
                &&& lexemes_embed_from(tail, toks.drop_first(), s + toks[0].lexeme.len() as int)
            };
        let len = toks[0].lexeme.len() as int;
        assert(cs.subrange(s + d, s + d + len) =~= tail.subrange(s, s + len));
        lemma_embed_shift(cs, toks.drop_first(), s + len, d);
        assert(from + d <= s + d && (s + d) + len <= cs.len() && cs.subrange(s + d, (s + d) + len)
            == toks[0].lexeme && lexemes_embed_from(cs, toks.drop_first(), (s + d) + len));
    }
}

/// Concatenating the scanned lexemes in order reconstructs a
/// token-boundary-consistent view of the source text: each lexeme is the
/// exact substring of the text it was scanned from, the substrings appear
/// in source order and never overlap.
pub proof fn lemma_lexemes_embed_in_source(cs: Seq<char>, line: nat)
    ensures
        lexemes_embed_from(cs, spec_scan(cs, line).tokens, 0),
    decreases cs.len(),
{
    if cs.len() > 0 {
        let st = spec_step(cs, line);
        lemma_step_bounds(cs, line);
        let k = st.consumed;
        let rest_toks = spec_scan(cs.skip(k), st.line).tokens;
        lemma_lexemes_embed_in_source(cs.skip(k), st.line);
        lemma_embed_shift(cs, rest_toks, 0, k);
        match st.token {
            Some(t) => {
                let stv = SpannedTokenV { token: t, lexeme: cs.take(k), line };
                let toks = spec_scan(cs, line).tokens;
                assert(toks == seq![stv] + rest_toks);
                assert(toks.drop_first() =~= rest_toks);
                assert(cs.subrange(0, k) =~= cs.take(k));
                assert(0 <= 0 && 0 + toks[0].lexeme.len() <= cs.len() && cs.subrange(
                    0,
                    0 + toks[0].lexeme.len() as int,
                ) == toks[0].lexeme && lexemes_embed_from(
                    cs,
                    toks.drop_first(),
                    0 + toks[0].lexeme.len() as int,
                ));
            },
            None => {
                lemma_embed_weaken(cs, rest_toks, k, 0);
            },
        }
    }
}

/// Every token the scan yields begins on or after the line the scan was on,
/// and line numbers are monotonically non-decreasing across the token
/// sequence.
pub proof fn lemma_token_lines_monotone(cs: Seq<char>, line: nat)
    ensures
        forall|i: int|
            0 <= i < spec_scan(cs, line).tokens.len() ==> spec_scan(cs, line).tokens[i].line
                >= line,
        forall|i: int, j: int|
            0 <= i <= j < spec_scan(cs, line).tokens.len() ==> spec_scan(cs, line).tokens[i].line
                <= spec_scan(cs, line).tokens[j].line,
    decreases cs.len(),
{
    if cs.len() > 0 {
        let st = spec_step(cs, line);
        lemma_step_bounds(cs, line);
        let k = st.consumed;
        assert(st.line >= line);
        lemma_token_lines_monotone(cs.skip(k), st.line);
        let rest_toks = spec_scan(cs.skip(k), st.line).tokens;
        let toks = spec_scan(cs, line).tokens;
        match st.token {
            Some(t) => {
                assert(forall|i: int| 1 <= i < toks.len() ==> toks[i] == rest_toks[i - 1]);
                assert(toks[0].line == line);
            },
            None => {
                assert(toks == rest_toks);
            },
        }
    }
}

/// Consumes source text and produces a sequence of spanned tokens plus the
/// diagnostics of malformed input; it never aborts, so the parser can run
/// to completion on best-effort input.
pub struct Scanner {
    pub source_text: String,
    pub current: usize,
    pub line: usize,
    pub errors: Vec<ScanError>,
}

impl Scanner {
    /// The scanner's cursor stays inside the source and the line counter
    /// leaves room to count every remaining newline.
    pub open spec fn wf(&self) -> bool {
        &&& self.current <= self.source_text@.len()
        &&& self.source_text@.len() < usize::MAX
        &&& 1 <= self.line
        &&& self.line + (self.source_text@.len() - self.current) <= usize::MAX
    }

    /// The characters not yet consumed.
    pub open spec fn remaining(&self) -> Seq<char> {
        self.source_text@.skip(self.current as int)
    }

    pub fn new(source_text: String) -> (s: Scanner)
        requires
            source_text@.len() < usize::MAX,
        ensures
            s.wf(),
            s.source_text@ == source_text@,
            s.current == 0,
            s.line == 1,
            s.errors@ == Seq::<ScanError>::empty(),
    {
        let s = Scanner { source_text, current: 0, line: 1, errors: Vec::new() };
        proof {
            assert(s.errors@ =~= Seq::<ScanError>::empty());
        }
        s
    }

    /// Non-destructive one-character lookahead.
    fn peek(&self) -> (c: Option<char>)
        requires
            self.wf(),
        ensures
            match c {
                Some(ch) => self.current < self.source_text@.len() && ch == self.source_text@[self.current as int],
                None => self.current == self.source_text@.len(),
            },
    {
        let n = self.source_text.as_str().unicode_len();
        if self.current < n {
            Some(self.source_text.as_str().get_char(self.current))
        } else {
            None
        }
    }

    /// Consumes and returns the next character, if any.
    fn next(&mut self) -> (c: Option<char>)
        requires
            old(self).wf(),
        ensures
            final(self).wf(),
            final(self).source_text == old(self).source_text,
            final(self).line == old(self).line,
            final(self).errors == old(self).errors,
            match c {
                Some(ch) => old(self).current < old(self).source_text@.len() && ch
                    == old(self).source_text@[old(self).current as int] && final(self).current == old(self).current + 1,
                None => old(self).current == old(self).source_text@.len() && final(self).current == old(self).current,
            },
    {
        let c = self.peek();
        if c.is_some() {
            self.current = self.current + 1;
        }
        c
    }

    /// Consumes the next character without looking at it.
    fn skip(&mut self)
        requires
            old(self).wf(),
            old(self).current < old(self).source_text@.len(),
        ensures
            final(self).wf(),
            final(self).source_text == old(self).source_text,
            final(self).line == old(self).line,
            final(self).errors == old(self).errors,
            final(self).current == old(self).current + 1,
    {
        self.current = self.current + 1;
    }

    /// Executable test for membership in a maximal-munch character class.
    fn char_in_class(k: CharClass, c: char) -> (b: bool)
        ensures
            b == in_class(k, c),
    {
        match k {
            CharClass::NumberPart => ('0' as u32 <= c as u32 && c as u32 <= '9' as u32) || c
                == '.',
            CharClass::IdentPart => ('a' as u32 <= c as u32 && c as u32 <= 'z' as u32) || ('A'
                as u32 <= c as u32 && c as u32 <= 'Z' as u32) || c == '_' || ('0' as u32 <= c
                as u32 && c as u32 <= '9' as u32),
            CharClass::StringPart => c != '"',
            CharClass::CommentPart => c != '\n',
        }
    }

    /// Maximal munch: consumes exactly the longest prefix of the remaining
    /// input that lies in class `k`.
    fn take_while(&mut self, k: CharClass)
        requires
            old(self).wf(),
        ensures
            final(self).wf(),
            final(self).source_text == old(self).source_text,
            final(self).line == old(self).line,
            final(self).errors == old(self).errors,
            final(self).current == old(self).current + run_len(old(self).remaining(), k),
    {
        let ghost src = self.source_text@;
        let ghost cur0 = self.current as int;
        loop
            invariant
                self.wf(),
                src == old(self).source_text@,
                cur0 == old(self).current,
                self.source_text == old(self).source_text,
                self.line == old(self).line,
                self.errors == old(self).errors,
                cur0 <= self.current <= src.len(),
                run_len(src.skip(cur0), k) == (self.current - cur0) + run_len(
                    src.skip(self.current as int),
                    k,
                ),
            decreases src.len() - self.current,
        {
            let c = match self.peek() {
                Some(c) => c,
                None => {
                    return ;
                },
            };
            if Self::char_in_class(k, c) {
                proof {
                    let rest = src.skip(self.current as int);
                    assert(rest[0] == c);
                    assert(rest.drop_first() =~= src.skip(self.current + 1));
                    assert(run_len(rest, k) == 1 + run_len(src.skip(self.current + 1), k));
                }
                self.skip();
            } else {
                proof {
                    let rest = src.skip(self.current as int);
                    assert(rest[0] == c);
                    assert(run_len(rest, k) == 0);
                }
                return ;
            }
        }
    }

    /// The speculative lookahead behind two-character operators: consumes
    /// the next character exactly when it equals `second`, choosing between
    /// the one-character and the two-character token.
    fn one_or_two(&mut self, second: char, absent: Token, present: Token) -> (t: Token)
        requires
            old(self).wf(),
        ensures
            final(self).wf(),
            final(self).source_text == old(self).source_text,
            final(self).line == old(self).line,
            final(self).errors == old(self).errors,
            if old(self).current < old(self).source_text@.len() && old(self).source_text@[old(self).current as int] == second {
                final(self).current == old(self).current + 1 && t == present
            } else {
                final(self).current == old(self).current && t == absent
            },
    {
        match self.peek() {
            Some(c) => {
                if c == second {
                    self.skip();
                    present
                } else {
                    absent
                }
            },
            None => absent,
        }
    }

    /// Records a diagnostic on the current line; scanning continues.
    fn emit_error(&mut self, kind: ScanErrorKind)
        requires
            old(self).wf(),
        ensures
            final(self).wf(),
            final(self).source_text == old(self).source_text,
            final(self).line == old(self).line,
            final(self).current == old(self).current,
            final(self).errors@ == old(self).errors@.push(
                ScanError { kind, line: old(self).line },
            ),
    {
        let line = self.line;
        self.errors.push(ScanError { kind, line });
    }

    /// Counts the occurrences of `c` in the string.
    fn count_char_str(s: &str, c: char) -> (count: usize)
        ensures
            count == count_char(s@, c),
    {
        let n = s.unicode_len();
        let mut count: usize = 0;
        let mut i: usize = 0;
        while i < n
            invariant
                i <= n,
                n == s@.len(),
                count <= i,
                count == count_char(s@.take(i as int), c),
            decreases n - i,
        {
            let ch = s.get_char(i);
            proof {
                let pre = s@.take(i + 1);
                assert(pre.drop_last() =~= s@.take(i as int));
                assert(pre.last() == s@[i as int]);
            }
            if ch == c {
                count = count + 1;
            }
            i = i + 1;
        }
        proof {
            assert(s@.take(n as int) =~= s@);
        }
        count
    }

    /// Scans one token starting at the cursor: consumes exactly the
    /// characters, emits exactly the token and reports exactly the
    /// diagnostic that one mathematical scan step prescribes.
    fn scan_token(&mut self) -> (t: Option<Token>)
        requires
            old(self).wf(),
            old(self).current < old(self).source_text@.len(),
        ensures
            final(self).wf(),
            final(self).source_text == old(self).source_text,
            ({
                let st = spec_step(old(self).remaining(), old(self).line as nat);
                &&& final(self).current == old(self).current + st.consumed
                &&& final(self).line == st.line
                &&& (match (t, st.token) {
                    (Some(tok), Some(tv)) => tok@ == tv,
                    (None, None) => true,
                    _ => false,
                })
                &&& final(self).errors@ == (match st.error {
                    Some(k) => old(self).errors@.push(
                        ScanError { kind: k, line: old(self).line },
                    ),
                    None => old(self).errors@,
                })
            }),
    {
        let ghost rest = old(self).remaining();
        let ghost st = spec_step(rest, old(self).line as nat);
        let start = self.current;
        let c = match self.next() {
            Some(c) => c,
            None => {
                return None;
            },
        };
        proof {
            assert(rest[0] == c);
        }
        if c == '(' {
            Some(Token::LeftParen)
        } else if c == ')' {
            Some(Token::RightParen)
        } else if c == '{' {
            Some(Token::LeftBrace)
        } else if c == '}' {
            Some(Token::RightBrace)
        } else if c == ',' {
            Some(Token::Comma)
        } else if c == '.' {
            Some(Token::Dot)
        } else if c == '-' {
            Some(Token::Minus)
        } else if c == '+' {
            Some(Token::Plus)
        } else if c == ';' {
            Some(Token::Semicolon)
        } else if c == '*' {
            Some(Token::Star)
        } else if c == '!' {
            proof {
                if 1 < rest.len() {
                    assert(rest[1] == self.source_text@[self.current as int]);
                }
            }
            Some(self.one_or_two('=', Token::Bang, Token::BangEqual))
        } else if c == '=' {
            proof {
                if 1 < rest.len() {
                    assert(rest[1] == self.source_text@[self.current as int]);
                }
            }
            Some(self.one_or_two('=', Token::Equal, Token::EqualEqual))
        } else if c == '<' {
            proof {
                if 1 < rest.len() {
                    assert(rest[1] == self.source_text@[self.current as int]);
                }
            }
            Some(self.one_or_two('=', Token::Less, Token::LessEqual))
        } else if c == '>' {
            proof {
                if 1 < rest.len() {
                    assert(rest[1] == self.source_text@[self.current as int]);
                }
            }
            Some(self.one_or_two('=', Token::Greater, Token::GreaterEqual))
        } else if c == '"' {
            let content_start = self.current;
            proof {
                assert(self.source_text@.skip(content_start as int) =~= rest.skip(1));
            }
            self.take_while(CharClass::StringPart);
            let ghost j = run_len(rest.skip(1), CharClass::StringPart) as int;
            proof {
                lemma_run_len_le(rest.skip(1), CharClass::StringPart);
            }
            let content = self.source_text.as_str().substring_char(
                content_start,
                self.current,
            ).to_owned();
            proof {
                assert(content@ =~= rest.subrange(1, 1 + j));
            }
            let n = self.source_text.as_str().unicode_len();
            if self.current < n {
                self.skip();
                Some(Token::StringLiteral(content))
            } else {
                proof {
                    assert(rest.subrange(1, rest.len() as int) =~= rest.subrange(1, 1 + j));
                }
                self.emit_error(ScanErrorKind::UnterminatedString);
                Some(Token::StringLiteral(content))
            }
        } else if Self::char_in_class(CharClass::NumberPart, c) && c != '.' {
            proof {
                assert(is_digit(c));
                assert(rest.drop_first() =~= self.source_text@.skip(self.current as int));
            }
            self.take_while(CharClass::NumberPart);
            let ghost j = run_len(rest, CharClass::NumberPart) as int;
            proof {
                lemma_run_len_le(rest, CharClass::NumberPart);
                assert(j == 1 + run_len(rest.drop_first(), CharClass::NumberPart));
            }
            let text = self.source_text.as_str().substring_char(start, self.current).to_owned();
            proof {
                assert(text@ =~= rest.take(j));
            }
            let dots = Self::count_char_str(text.as_str(), '.');
            if dots <= 1 {
                Some(Token::NumberLiteral(text))
            } else {
                self.emit_error(ScanErrorKind::InvalidNumber);
                None
            }
        } else if Self::char_in_class(CharClass::IdentPart, c) {
            proof {
                assert(is_ident_start(c));
                assert(rest.drop_first() =~= self.source_text@.skip(self.current as int));
            }
            self.take_while(CharClass::IdentPart);
            let ghost j = run_len(rest, CharClass::IdentPart) as int;
            proof {
                lemma_run_len_le(rest, CharClass::IdentPart);
                assert(j == 1 + run_len(rest.drop_first(), CharClass::IdentPart));
            }
            let text = self.source_text.as_str().substring_char(start, self.current);
            proof {
                assert(text@ =~= rest.take(j));
            }
            match crate::token::keyword(text) {
                Some(k) => Some(k),
                None => Some(Token::Identifier(text.to_owned())),
            }
        } else if c == '/' {
            proof {
                if 1 < rest.len() {
                    assert(rest[1] == self.source_text@[self.current as int]);
                }
            }
            let two = self.peek();
            match two {
                Some(second) => {
                    if second == '/' {
                        self.skip();
                        proof {
                            assert(rest.skip(2) =~= self.source_text@.skip(self.current as int));
                        }
                        self.take_while(CharClass::CommentPart);
                        None
                    } else {
                        Some(Token::Slash)
                    }
                },
                None => Some(Token::Slash),
            }
        } else if c == ' ' || c == '\r' || c == '\t' {
            None
        } else if c == '\n' {
            self.line = self.line + 1;
            None
        } else {
            self.emit_error(ScanErrorKind::UnexpectedChar(c));
            None
        }
    }

    /// Scans the whole remaining input: the returned spanned tokens and the
    /// accumulated diagnostics are exactly those of the mathematical scan of
    /// the remaining characters. The terminal end of input produces no
    /// token; the scan never aborts.
    pub fn scan_tokens(&mut self) -> (tokens: Vec<SpannedToken>)
        requires
            old(self).wf(),
        ensures
            final(self).wf(),
            final(self).source_text == old(self).source_text,
            final(self).current == old(self).source_text@.len(),
            tokens@.map_values(|t: SpannedToken| t@) == spec_scan(
                old(self).remaining(),
                old(self).line as nat,
            ).tokens,
            final(self).errors@.map_values(|e: ScanError| e@) == old(self).errors@.map_values(
                |e: ScanError| e@,
            ) + spec_scan(old(self).remaining(), old(self).line as nat).errors,
    {
        let mut tokens: Vec<SpannedToken> = Vec::new();
        let ghost src = old(self).source_text@;
        let ghost rest0 = old(self).remaining();
        let ghost line0 = old(self).line as nat;
        let ghost err0 = old(self).errors@;
        let n = self.source_text.as_str().unicode_len();
        proof {
            assert(tokens@.map_values(|t: SpannedToken| t@) =~= Seq::<SpannedTokenV>::empty());
            assert(self.errors@.skip(err0.len() as int).map_values(|e: ScanError| e@)
                =~= Seq::<ScanErrorV>::empty());
        }
        while self.current < n
            invariant
                self.wf(),
                self.source_text == old(self).source_text,
                src == old(self).source_text@,
                rest0 == old(self).remaining(),
                line0 == old(self).line as nat,
                err0 == old(self).errors@,
                n == src.len(),
                old(self).current <= self.current,
                err0.len() <= self.errors@.len(),
                self.errors@.take(err0.len() as int) == err0,
                spec_scan(rest0, line0).tokens =~= tokens@.map_values(|t: SpannedToken| t@)
                    + spec_scan(src.skip(self.current as int), self.line as nat).tokens,
                spec_scan(rest0, line0).errors =~= self.errors@.skip(
                    err0.len() as int,
                ).map_values(|e: ScanError| e@) + spec_scan(
                    src.skip(self.current as int),
                    self.line as nat,
                ).errors,
            decreases n - self.current,
        {
            let ghost pre = *self;
            let ghost rest = src.skip(pre.current as int);
            let ghost st = spec_step(rest, pre.line as nat);
            let start = self.current;
            let tok_line = self.line;
            let t = self.scan_token();
            proof {
                lemma_step_bounds(rest, pre.line as nat);
                assert(src.skip(self.current as int) =~= rest.skip(st.consumed));
            }
            match t {
                Some(tok) => {
                    let lexeme = self.source_text.as_str().substring_char(
                        start,
                        self.current,
                    ).to_owned();
                    proof {
                        assert(lexeme@ =~= rest.take(st.consumed));
                    }
                    tokens.push(SpannedToken { token: tok, lexeme, line: tok_line });
                    proof {
                        let f = |t: SpannedToken| t@;
                        let stv = SpannedTokenV {
                            token: st.token->Some_0,
                            lexeme: rest.take(st.consumed),
                            line: pre.line as nat,
                        };
                        assert(tokens@.map_values(f) =~= tokens@.drop_last().map_values(f).push(
                            stv,
                        ));
                        assert(spec_scan(rest0, line0).tokens =~= tokens@.map_values(f)
                            + spec_scan(src.skip(self.current as int), self.line as nat).tokens);
                    }
                },
                None => {
                },
            }
            proof {
                let g = |e: ScanError| e@;
                assert(self.errors@.take(err0.len() as int) =~= err0);
                match st.error {
                    Some(k) => {
                        let ev = ScanErrorV { kind: k, line: pre.line as nat };
                        assert(self.errors@.skip(err0.len() as int).map_values(g)
                            =~= pre.errors@.skip(err0.len() as int).map_values(g).push(ev));
                        assert(spec_scan(rest0, line0).errors =~= self.errors@.skip(
                            err0.len() as int,
                        ).map_values(g) + spec_scan(
                            src.skip(self.current as int),
                            self.line as nat,
                        ).errors);
                    },
                    None => {
                    },
                }
            }
        }
        proof {
            assert(src.skip(self.current as int).len() == 0);
            assert(self.errors@ =~= self.errors@.take(err0.len() as int) + self.errors@.skip(
                err0.len() as int,
            ));
            assert(self.errors@.map_values(|e: ScanError| e@) =~= err0.map_values(
                |e: ScanError| e@,
            ) + self.errors@.skip(err0.len() as int).map_values(|e: ScanError| e@));
        }
        tokens
    }

    /// Read-only access to the diagnostics accumulated so far.
    pub fn errors(&self) -> (e: &Vec<ScanError>)
        ensures
            e == &self.errors,
    {
        &self.errors
    }
}

} // verus!
