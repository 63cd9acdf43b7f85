//! Lexical scanning: a single left-to-right pass over the source characters
//! with one character of lookahead (two for `.` in numbers and `//`
//! comments). The specification is the recursive function `scan_from`, which
//! says exactly which tokens and which diagnostics a given source yields;
//! `Scanner::scan_tokens` is proved to produce them.
use crate::nums::num_of_chars;
use crate::nums::num_parse;
use crate::token::LitV;
use crate::token::LiteralValue;
use crate::token::Token;
use crate::token::TokenType;
use crate::token::TokenV;
use vstd::prelude::*;

verus! {

/// A decimal digit.
pub open spec fn is_digit_ch(c: char) -> bool {
    48 <= c as u32 && c as u32 <= 57
}

/// An ASCII letter or an underscore: what may begin an identifier.
pub open spec fn is_alpha_ch(c: char) -> bool {
    (65 <= c as u32 && c as u32 <= 90) || (97 <= c as u32 && c as u32 <= 122) || c == '_'
}

/// What may continue an identifier.
pub open spec fn is_alnum_ch(c: char) -> bool {
    is_alpha_ch(c) || is_digit_ch(c)
}

/// The first position at or after `from` that holds no digit (or the end).
pub open spec fn digits_end(src: Seq<char>, from: nat) -> nat
    decreases src.len() - from,
    when from <= src.len()
{
    if from == src.len() || !is_digit_ch(src[from as int]) {
        from
    } else {
        digits_end(src, from + 1)
    }
}

/// The first position at or after `from` that cannot continue an identifier.
pub open spec fn ident_end(src: Seq<char>, from: nat) -> nat
    decreases src.len() - from,
    when from <= src.len()
{
    if from == src.len() || !is_alnum_ch(src[from as int]) {
        from
    } else {
        ident_end(src, from + 1)
    }
}

/// The first newline at or after `from` (or the end): where a comment stops.
pub open spec fn comment_end(src: Seq<char>, from: nat) -> nat
    decreases src.len() - from,
    when from <= src.len()
{
    if from == src.len() || src[from as int] == '\n' {
        from
    } else {
        comment_end(src, from + 1)
    }
}

/// The first closing quote at or after `from` (or the end).
pub open spec fn string_close(src: Seq<char>, from: nat) -> nat
    decreases src.len() - from,
    when from <= src.len()
{
    if from == src.len() || src[from as int] == '"' {
        from
    } else {
        string_close(src, from + 1)
    }
}

/// How many newlines `src` holds in the positions `from <= i < to`.
pub open spec fn nl_count(src: Seq<char>, from: nat, to: nat) -> nat
    decreases to - from,
    when from <= to
{
    if from >= to {
        0
    } else {
        nl_count(src, from, (to - 1) as nat) + if src[to - 1] == '\n' {
            1nat
        } else {
            0nat
        }
    }
}

/// Which token type an identifier's text denotes: one of the reserved words,
/// or a plain identifier.
pub open spec fn keyword_type(text: Seq<char>) -> TokenType {
    if text == "true"@ {
        TokenType::True
    } else if text == "false"@ {
        TokenType::False
    } else if text == "nil"@ {
        TokenType::Nil
    } else if text == "var"@ {
        TokenType::Var
    } else if text == "print"@ {
        TokenType::Print
    } else {
        TokenType::Identifier
    }
}

/// A lexical diagnostic: the line it concerns and its message.
pub struct ScanErrV {
    pub line: nat,
    pub msg: Seq<char>,
}

/// What one scanning step does: where it leaves the cursor and the line
/// counter, and which token or diagnostic (if either) it emits.
pub struct ScanStep {
    pub next: nat,
    pub line: nat,
    pub token: Option<TokenV>,
    pub error: Option<ScanErrV>,
}

/// Keeps a step's target position inside `(pos, len]`, so that scanning
/// always advances; the scanner's steps all land in that range anyway.
pub open spec fn clamp_next(raw: nat, pos: nat, len: nat) -> nat {
    if raw <= pos {
        pos + 1
    } else if raw > len {
        len
    } else {
        raw
    }
}

/// A token of a single- or double-character lexeme beginning at `pos`.
pub open spec fn punct_token(
    src: Seq<char>,
    pos: nat,
    wide: nat,
    typ: TokenType,
    line: nat,
) -> ScanStep {
    ScanStep {
        next: pos + wide,
        line,
        token: Some(
            TokenV {
                typ,
                lexeme: src.subrange(pos as int, (pos + wide) as int),
                literal: None,
                line,
            },
        ),
        error: None,
    }
}

/// Whether the two-character operator continuation `=` follows `pos`.
pub open spec fn eq_follows(src: Seq<char>, pos: nat) -> bool {
    pos + 1 < src.len() && src[(pos + 1) as int] == '='
}

/// One step of the scan at position `pos < src.len()`: the disambiguation
/// rules of the lexical grammar, one source character at a time.
pub open spec fn scan_step(src: Seq<char>, pos: nat, line: nat) -> ScanStep {
    let len = src.len();
    let c = src[pos as int];
    if c == '(' {
        punct_token(src, pos, 1, TokenType::LeftParen, line)
    } else if c == ')' {
        punct_token(src, pos, 1, TokenType::RightParen, line)
    } else if c == '{' {
        punct_token(src, pos, 1, TokenType::LeftBrace, line)
    } else if c == '}' {
        punct_token(src, pos, 1, TokenType::RightBrace, line)
    } else if c == ',' {
        punct_token(src, pos, 1, TokenType::Comma, line)
    } else if c == '.' {
        punct_token(src, pos, 1, TokenType::Dot, line)
    } else if c == '-' {
        punct_token(src, pos, 1, TokenType::Minus, line)
    } else if c == '+' {
        punct_token(src, pos, 1, TokenType::Plus, line)
    } else if c == ';' {
        punct_token(src, pos, 1, TokenType::SemiColon, line)
    } else if c == '*' {
        punct_token(src, pos, 1, TokenType::Star, line)
    } else if c == '!' {
        if eq_follows(src, pos) {
            punct_token(src, pos, 2, TokenType::BangEqual, line)
        } else {
            punct_token(src, pos, 1, TokenType::Bang, line)
        }
    } else if c == '=' {
        if eq_follows(src, pos) {
            punct_token(src, pos, 2, TokenType::EqualEqual, line)
        } else {
            punct_token(src, pos, 1, TokenType::Equal, line)
        }
    } else if c == '<' {
        if eq_follows(src, pos) {
            punct_token(src, pos, 2, TokenType::LessEqual, line)
        } else {
            punct_token(src, pos, 1, TokenType::Less, line)
        }
    } else if c == '>' {
        if eq_follows(src, pos) {
            punct_token(src, pos, 2, TokenType::GreaterEqual, line)
        } else {
            punct_token(src, pos, 1, TokenType::Greater, line)
        }
    } else if c == '/' {
        if pos + 1 < len && src[(pos + 1) as int] == '/' {
            // A line comment: discard through (not including) the next newline.
            ScanStep {
                next: clamp_next(comment_end(src, pos + 2), pos, len),
                line,
                token: None,
                error: None,
            }
        } else {
            punct_token(src, pos, 1, TokenType::Slash, line)
        }
    } else if c == ' ' || c == '\r' || c == '\t' {
        ScanStep { next: pos + 1, line, token: None, error: None }
    } else if c == '\n' {
        ScanStep { next: pos + 1, line: line + 1, token: None, error: None }
    } else if c == '"' {
        let close = clamp_next(string_close(src, pos + 1), pos, len);
        let inner_lines = line + nl_count(src, pos + 1, close);
        if close == len {
            // Unterminated: a diagnostic at the line the string began, no token.
            ScanStep {
                next: len,
                line: inner_lines,
                token: None,
                error: Some(ScanErrV { line, msg: "Unterminated string."@ }),
            }
        } else {
            ScanStep {
                next: close + 1,
                line: inner_lines,
                token: Some(
                    TokenV {
                        typ: TokenType::String,
                        lexeme: src.subrange(pos as int, (close + 1) as int),
                        literal: Some(LitV::Str(src.subrange((pos + 1) as int, close as int))),
                        line,
                    },
                ),
                error: None,
            }
        }
    } else if is_digit_ch(c) {
        let whole = clamp_next(digits_end(src, pos + 1), pos, len);
        let end = if whole + 1 < len && src[whole as int] == '.' && is_digit_ch(
            src[(whole + 1) as int],
        ) {
            clamp_next(digits_end(src, whole + 2), pos, len)
        } else {
            whole
        };
        let lexeme = src.subrange(pos as int, end as int);
        ScanStep {
            next: end,
            line,
            token: Some(
                TokenV {
                    typ: TokenType::Number,
                    lexeme,
                    literal: Some(LitV::Num(num_of_chars(lexeme))),
                    line,
                },
            ),
            error: None,
        }
    } else if is_alpha_ch(c) {
        let end = clamp_next(ident_end(src, pos + 1), pos, len);
        let text = src.subrange(pos as int, end as int);
        ScanStep {
            next: end,
            line,
            token: Some(
                TokenV { typ: keyword_type(text), lexeme: text, literal: None, line },
            ),
            error: None,
        }
    } else {
        ScanStep {
            next: pos + 1,
            line,
            token: None,
            error: Some(ScanErrV { line, msg: "Unexpected character."@ }),
        }
    }
}

/// A sequence out of an optional element.
pub open spec fn opt_seq<A>(o: Option<A>) -> Seq<A> {
    match o {
        Some(a) => seq![a],
        None => Seq::empty(),
    }
}

/// Everything a scan produces: the tokens in order, the diagnostics in
/// order, and the line the scan ended on.
pub struct ScanOut {
    pub tokens: Seq<TokenV>,
    pub errors: Seq<ScanErrV>,
    pub line: nat,
}

/// The scan of `src` from position `pos` on line `line`: step after step,
/// closed by the one end-of-input token, tagged with the final line.
pub open spec fn scan_from(src: Seq<char>, pos: nat, line: nat) -> ScanOut
    decreases src.len() - pos,
    when pos <= src.len()
{
    if pos >= src.len() {
        ScanOut {
            tokens: seq![
                TokenV { typ: TokenType::Eof, lexeme: ""@, literal: None, line },
            ],
            errors: Seq::empty(),
            line,
        }
    } else {
        let st = scan_step(src, pos, line);
        let rest = scan_from(src, st.next, st.line);
        ScanOut {
            tokens: opt_seq(st.token) + rest.tokens,
            errors: opt_seq(st.error) + rest.errors,
            line: rest.line,
        }
    }
}

/// The views of a sequence of tokens.
pub open spec fn toks_v(ts: Seq<Token>) -> Seq<TokenV> {
    ts.map_values(|t: Token| t@)
}

/// The views of a sequence of diagnostics.
pub open spec fn errs_v(es: Seq<ScanError>) -> Seq<ScanErrV> {
    es.map_values(|e: ScanError| e@)
}

/// A lexical diagnostic, as the scanner records it.
pub struct ScanError {
    pub line: usize,
    pub message: String,
}

impl View for ScanError {
    type V = ScanErrV;

    open spec fn view(&self) -> ScanErrV {
        ScanErrV { line: self.line as nat, msg: self.message@ }
    }
}


/// `s + empty == s`, stated extensionally.
proof fn lemma_seq_add_empty<A>(s: Seq<A>)
    ensures
        s + Seq::<A>::empty() == s,
{
    assert(s + Seq::<A>::empty() =~= s);
}

/// `digits_end` never moves backward and never leaves the source.
proof fn lemma_digits_end_bounds(src: Seq<char>, from: nat)
    requires
        from <= src.len(),
    ensures
        from <= digits_end(src, from) <= src.len(),
    decreases src.len() - from,
{
    if !(from == src.len() || !is_digit_ch(src[from as int])) {
        lemma_digits_end_bounds(src, from + 1);
    }
}

/// `ident_end` never moves backward and never leaves the source.
proof fn lemma_ident_end_bounds(src: Seq<char>, from: nat)
    requires
        from <= src.len(),
    ensures
        from <= ident_end(src, from) <= src.len(),
    decreases src.len() - from,
{
    if !(from == src.len() || !is_alnum_ch(src[from as int])) {
        lemma_ident_end_bounds(src, from + 1);
    }
}

/// `comment_end` never moves backward and never leaves the source.
proof fn lemma_comment_end_bounds(src: Seq<char>, from: nat)
    requires
        from <= src.len(),
    ensures
        from <= comment_end(src, from) <= src.len(),
    decreases src.len() - from,
{
    if !(from == src.len() || src[from as int] == '\n') {
        lemma_comment_end_bounds(src, from + 1);
    }
}

/// `string_close` never moves backward and never leaves the source.
proof fn lemma_string_close_bounds(src: Seq<char>, from: nat)
    requires
        from <= src.len(),
    ensures
        from <= string_close(src, from) <= src.len(),
    decreases src.len() - from,
{
    if !(from == src.len() || src[from as int] == '"') {
        lemma_string_close_bounds(src, from + 1);
    }
}

/// The scanner: consumes the source text left to right and accumulates the
/// token sequence and the lexical diagnostics.
pub struct Scanner {
    source: Vec<char>,
    tokens: Vec<Token>,
    current: usize,
    line: usize,
    has_error: bool,
    errors: Vec<ScanError>,
}

impl Scanner {
    /// The source under scan, as the sequence of its characters.
    pub closed spec fn spec_source(self) -> Seq<char> {
        self.source@
    }

    /// The tokens accumulated so far.
    pub closed spec fn spec_tokens(self) -> Seq<Token> {
        self.tokens@
    }

    /// The diagnostics accumulated so far.
    pub closed spec fn spec_errors(self) -> Seq<ScanError> {
        self.errors@
    }

    /// The current line counter.
    pub closed spec fn spec_line(self) -> nat {
        self.line as nat
    }

    /// The cursor: how many characters have been consumed.
    pub closed spec fn spec_current(self) -> nat {
        self.current as nat
    }

    /// Whether a lexical error has been recorded.
    pub closed spec fn spec_has_error(self) -> bool {
        self.has_error
    }

    /// Internal consistency: the cursor stays inside the source, the line
    /// counter never runs ahead of it, and the error flag agrees with the
    /// recorded diagnostics.
    pub closed spec fn wf(self) -> bool {
        &&& self.source@.len() < usize::MAX
        &&& self.current <= self.source@.len()
        &&& 1 <= self.line
        &&& self.line <= self.current + 1
        &&& self.has_error == (self.errors@.len() > 0)
    }

    pub fn new(source: String) -> (r: Self)
        requires
            source@.len() < usize::MAX,
        ensures
            r.wf(),
            r.spec_source() == source@,
            r.spec_current() == 0,
            r.spec_line() == 1,
            r.spec_tokens().len() == 0,
            r.spec_errors().len() == 0,
            !r.spec_has_error(),
    {
        Scanner {
            source: crate::text::chars_of(source.as_str()),
            tokens: Vec::new(),
            current: 0,
            line: 1,
            has_error: false,
            errors: Vec::new(),
        }
    }

    /// The diagnostics recorded so far, in order.
    pub fn diagnostics(&self) -> (r: &Vec<ScanError>)
        ensures
            r@ == self.spec_errors(),
    {
        &self.errors
    }

    /// Whether any lexical error was recorded: if so, the tokens must not be
    /// handed to the parser.
    pub fn has_error(&self) -> (r: bool)
        ensures
            r == self.spec_has_error(),
    {
        self.has_error
    }

    fn is_at_end(&self) -> (r: bool)
        ensures
            r == (self.current >= self.source@.len()),
    {
        self.current >= self.source.len()
    }

    fn is_alpha(c: char) -> (r: bool)
        ensures
            r == is_alpha_ch(c),
    {
        let u = c as u32;
        (65 <= u && u <= 90) || (97 <= u && u <= 122) || c == '_'
    }

    fn is_digit(c: char) -> (r: bool)
        ensures
            r == is_digit_ch(c),
    {
        let u = c as u32;
        48 <= u && u <= 57
    }

    fn is_alphanumeric(c: char) -> (r: bool)
        ensures
            r == is_alnum_ch(c),
    {
        Self::is_alpha(c) || Self::is_digit(c)
    }

    fn match_char(&mut self, expected: char) -> (r: bool)
        requires
            old(self).current <= old(self).source@.len(),
        ensures
            r == (old(self).current < old(self).source@.len() && old(self).source@[old(
                self,
            ).current as int] == expected),
            final(self).current == old(self).current + if r {
                1int
            } else {
                0int
            },
            final(self).source@ == old(self).source@,
            final(self).tokens == old(self).tokens,
            final(self).line == old(self).line,
            final(self).has_error == old(self).has_error,
            final(self).errors == old(self).errors,
    {
        if self.current < self.source.len() && self.source[self.current] == expected {
            self.current = self.current + 1;
            true
        } else {
            false
        }
    }

    fn add_simple(&mut self, typ: TokenType, start: usize)
        requires
            start <= old(self).current <= old(self).source@.len(),
        ensures
            toks_v(final(self).tokens@) == toks_v(old(self).tokens@) + seq![
                TokenV {
                    typ,
                    lexeme: old(self).source@.subrange(start as int, old(self).current as int),
                    literal: None,
                    line: old(self).line as nat,
                },
            ],
            final(self).source@ == old(self).source@,
            final(self).current == old(self).current,
            final(self).line == old(self).line,
            final(self).has_error == old(self).has_error,
            final(self).errors == old(self).errors,
    {
        let lexeme = crate::text::substring(&self.source, start, self.current);
        let t = Token::simple(typ, lexeme.as_str(), self.line);
        self.tokens.push(t);
        proof {
            assert(toks_v(self.tokens@) =~= toks_v(old(self).tokens@) + seq![t@]);
        }
    }

    fn add_literal(&mut self, typ: TokenType, literal: LiteralValue, start: usize, line: usize)
        requires
            start <= old(self).current <= old(self).source@.len(),
        ensures
            toks_v(final(self).tokens@) == toks_v(old(self).tokens@) + seq![
                TokenV {
                    typ,
                    lexeme: old(self).source@.subrange(start as int, old(self).current as int),
                    literal: Some(literal@),
                    line: line as nat,
                },
            ],
            final(self).source@ == old(self).source@,
            final(self).current == old(self).current,
            final(self).line == old(self).line,
            final(self).has_error == old(self).has_error,
            final(self).errors == old(self).errors,
    {
        let lexeme = crate::text::substring(&self.source, start, self.current);
        let t = Token::with_literal(typ, lexeme.as_str(), literal, line);
        self.tokens.push(t);
        proof {
            assert(toks_v(self.tokens@) =~= toks_v(old(self).tokens@) + seq![t@]);
        }
    }

    fn error(&mut self, line: usize, message: &str)
        ensures
            errs_v(final(self).errors@) == errs_v(old(self).errors@) + seq![
                ScanErrV { line: line as nat, msg: message@ },
            ],
            final(self).has_error,
            final(self).errors@.len() > 0,
            final(self).source@ == old(self).source@,
            final(self).current == old(self).current,
            final(self).line == old(self).line,
            final(self).tokens == old(self).tokens,
    {
        self.has_error = true;
        let e = ScanError { line, message: message.to_owned() };
        self.errors.push(e);
        proof {
            assert(errs_v(self.errors@) =~= errs_v(old(self).errors@) + seq![e@]);
        }
    }

    /// The rest of a string literal, the opening quote at `start` already
    /// consumed: through the closing quote, or to an unterminated-string
    /// diagnostic at the line the string began.
    #[verifier::loop_isolation(false)]
    fn string(&mut self, start: usize)
        requires
            old(self).wf(),
            old(self).current == start + 1,
            start < old(self).source@.len(),
            old(self).source@[start as int] == '"',
            old(self).line <= start + 1,
        ensures
            final(self).wf(),
            final(self).source@ == old(self).source@,
            ({
                let st = scan_step(old(self).source@, start as nat, old(self).line as nat);
                &&& final(self).current as nat == st.next
                &&& final(self).line as nat == st.line
                &&& toks_v(final(self).tokens@) == toks_v(old(self).tokens@) + opt_seq(st.token)
                &&& errs_v(final(self).errors@) == errs_v(old(self).errors@) + opt_seq(st.error)
                &&& final(self).has_error == (old(self).has_error || st.error is Some)
            }),
    {
        let ghost src = self.source@;
        let line_start = self.line;
        while self.current < self.source.len() && self.source[self.current] != '"'
            invariant
                start + 1 <= self.current <= src.len(),
                self.source@ == src,
                string_close(src, (start + 1) as nat) == string_close(src, self.current as nat),
                self.line as nat == old(self).line + nl_count(
                    src,
                    (start + 1) as nat,
                    self.current as nat,
                ),
                self.line <= self.current + 1,
                self.tokens == old(self).tokens,
                self.errors == old(self).errors,
                self.has_error == old(self).has_error,
            decreases src.len() - self.current,
        {
            if self.source[self.current] == '\n' {
                self.line = self.line + 1;
            }
            self.current = self.current + 1;
        }
        proof {
            lemma_string_close_bounds(src, (start + 1) as nat);
        }
        if self.current >= self.source.len() {
            // Unterminated: no token; the diagnostic points at the line the
            // string began.
            self.error(line_start, "Unterminated string.");
            proof {
                lemma_seq_add_empty::<TokenV>(toks_v(old(self).tokens@));
            }
        } else {
            let close = self.current;
            self.current = self.current + 1;
            let inner = crate::text::substring(&self.source, start + 1, close);
            self.add_literal(TokenType::String, LiteralValue::String(inner), start, line_start);
            proof {
                lemma_seq_add_empty::<ScanErrV>(errs_v(old(self).errors@));
            }
        }
    }

    /// The rest of a number, the leading digit at `start` already consumed:
    /// more digits, then a fractional part only if a `.` is directly
    /// followed by a digit.
    #[verifier::loop_isolation(false)]
    fn number(&mut self, start: usize)
        requires
            old(self).wf(),
            old(self).current == start + 1,
            start < old(self).source@.len(),
            is_digit_ch(old(self).source@[start as int]),
        ensures
            final(self).wf(),
            final(self).source@ == old(self).source@,
            ({
                let st = scan_step(old(self).source@, start as nat, old(self).line as nat);
                &&& final(self).current as nat == st.next
                &&& final(self).line as nat == st.line
                &&& toks_v(final(self).tokens@) == toks_v(old(self).tokens@) + opt_seq(st.token)
                &&& errs_v(final(self).errors@) == errs_v(old(self).errors@) + opt_seq(st.error)
                &&& final(self).has_error == (old(self).has_error || st.error is Some)
            }),
    {
        let ghost src = self.source@;
        while self.current < self.source.len() && Self::is_digit(self.source[self.current])
            invariant
                start + 1 <= self.current <= src.len(),
                self.source@ == src,
                digits_end(src, (start + 1) as nat) == digits_end(src, self.current as nat),
                self.line == old(self).line,
                self.tokens == old(self).tokens,
                self.errors == old(self).errors,
                self.has_error == old(self).has_error,
            decreases src.len() - self.current,
        {
            self.current = self.current + 1;
        }
        proof {
            lemma_digits_end_bounds(src, (start + 1) as nat);
        }
        let ghost whole = self.current as nat;
        if self.current + 1 < self.source.len() && self.source[self.current] == '.'
            && Self::is_digit(self.source[self.current + 1]) {
            self.current = self.current + 1;
            while self.current < self.source.len() && Self::is_digit(self.source[self.current])
                invariant
                    whole + 1 <= self.current <= src.len(),
                    self.source@ == src,
                    digits_end(src, (whole + 1) as nat) == digits_end(src, self.current as nat),
                    self.line == old(self).line,
                    self.tokens == old(self).tokens,
                    self.errors == old(self).errors,
                    self.has_error == old(self).has_error,
                decreases src.len() - self.current,
            {
                self.current = self.current + 1;
            }
            proof {
                lemma_digits_end_bounds(src, (whole + 1) as nat);
                assert(digits_end(src, (whole + 1) as nat) == digits_end(src, (whole + 2) as nat));
            }
        }
        let lexeme = crate::text::substring(&self.source, start, self.current);
        let value = num_parse(lexeme.as_str());
        self.add_literal(TokenType::Number, LiteralValue::Number(value), start, self.line);
        proof {
            lemma_seq_add_empty::<ScanErrV>(errs_v(old(self).errors@));
        }
    }

    /// The rest of an identifier, its first character at `start` already
    /// consumed; reserved words become their keyword tokens.
    #[verifier::loop_isolation(false)]
    fn identifier(&mut self, start: usize)
        requires
            old(self).wf(),
            old(self).current == start + 1,
            start < old(self).source@.len(),
            is_alpha_ch(old(self).source@[start as int]),
        ensures
            final(self).wf(),
            final(self).source@ == old(self).source@,
            ({
                let st = scan_step(old(self).source@, start as nat, old(self).line as nat);
                &&& final(self).current as nat == st.next
                &&& final(self).line as nat == st.line
                &&& toks_v(final(self).tokens@) == toks_v(old(self).tokens@) + opt_seq(st.token)
                &&& errs_v(final(self).errors@) == errs_v(old(self).errors@) + opt_seq(st.error)
                &&& final(self).has_error == (old(self).has_error || st.error is Some)
            }),
    {
        let ghost src = self.source@;
        while self.current < self.source.len() && Self::is_alphanumeric(self.source[self.current])
            invariant
                start + 1 <= self.current <= src.len(),
                self.source@ == src,
                ident_end(src, (start + 1) as nat) == ident_end(src, self.current as nat),
                self.line == old(self).line,
                self.tokens == old(self).tokens,
                self.errors == old(self).errors,
                self.has_error == old(self).has_error,
            decreases src.len() - self.current,
        {
            self.current = self.current + 1;
        }
        proof {
            lemma_ident_end_bounds(src, (start + 1) as nat);
        }
        let text = crate::text::substring(&self.source, start, self.current);
        let typ = Self::keyword(&text);
        let t = Token::simple(typ, text.as_str(), self.line);
        self.tokens.push(t);
        proof {
            assert(toks_v(self.tokens@) =~= toks_v(old(self).tokens@) + seq![t@]);
            lemma_seq_add_empty::<ScanErrV>(errs_v(old(self).errors@));
        }
    }

    /// Which token type an identifier's text denotes.
    fn keyword(text: &String) -> (t: TokenType)
        ensures
            t == keyword_type(text@),
    {
        if *text == "true".to_owned() {
            TokenType::True
        } else if *text == "false".to_owned() {
            TokenType::False
        } else if *text == "nil".to_owned() {
            TokenType::Nil
        } else if *text == "var".to_owned() {
            TokenType::Var
        } else if *text == "print".to_owned() {
            TokenType::Print
        } else {
            TokenType::Identifier
        }
    }

    /// One step of the scan: consumes one lexeme (or one character of
    /// whitespace, one comment, or one bad character) and emits what the
    /// specification's `scan_step` says it emits.
    fn scan_token(&mut self)
        requires
            old(self).wf(),
            old(self).current < old(self).source@.len(),
        ensures
            final(self).wf(),
            final(self).source@ == old(self).source@,
            ({
                let st = scan_step(old(self).source@, old(self).current as nat, old(self).line as nat);
                &&& final(self).current as nat == st.next
                &&& final(self).line as nat == st.line
                &&& toks_v(final(self).tokens@) == toks_v(old(self).tokens@) + opt_seq(st.token)
                &&& errs_v(final(self).errors@) == errs_v(old(self).errors@) + opt_seq(st.error)
                &&& final(self).has_error == (old(self).has_error || st.error is Some)
            }),
    {
        let ghost src = self.source@;
        let start = self.current;
        let c = self.source[self.current];
        self.current = self.current + 1;
        match c {
            '(' => self.add_simple(TokenType::LeftParen, start),
            ')' => self.add_simple(TokenType::RightParen, start),
            '{' => self.add_simple(TokenType::LeftBrace, start),
            '}' => self.add_simple(TokenType::RightBrace, start),
            ',' => self.add_simple(TokenType::Comma, start),
            '.' => self.add_simple(TokenType::Dot, start),
            '-' => self.add_simple(TokenType::Minus, start),
            '+' => self.add_simple(TokenType::Plus, start),
            ';' => self.add_simple(TokenType::SemiColon, start),
            '*' => self.add_simple(TokenType::Star, start),
            '!' => {
                if self.match_char('=') {
                    self.add_simple(TokenType::BangEqual, start);
                } else {
                    self.add_simple(TokenType::Bang, start);
                }
            },
            '=' => {
                if self.match_char('=') {
                    self.add_simple(TokenType::EqualEqual, start);
                } else {
                    self.add_simple(TokenType::Equal, start);
                }
            },
            '<' => {
                if self.match_char('=') {
                    self.add_simple(TokenType::LessEqual, start);
                } else {
                    self.add_simple(TokenType::Less, start);
                }
            },
            '>' => {
                if self.match_char('=') {
                    self.add_simple(TokenType::GreaterEqual, start);
                } else {
                    self.add_simple(TokenType::Greater, start);
                }
            },
            '/' => {
                if self.match_char('/') {
                    // A comment runs through (not including) the next newline.
                    #[verifier::loop_isolation(false)]
                    while self.current < self.source.len() && self.source[self.current] != '\n'
                        invariant
                            start + 2 <= self.current <= src.len(),
                            self.source@ == src,
                            comment_end(src, (start + 2) as nat) == comment_end(
                                src,
                                self.current as nat,
                            ),
                            self.line == old(self).line,
                            self.tokens == old(self).tokens,
                            self.errors == old(self).errors,
                            self.has_error == old(self).has_error,
                        decreases src.len() - self.current,
                    {
                        self.current = self.current + 1;
                    }
                    proof {
                        lemma_comment_end_bounds(src, (start + 2) as nat);
                    }
                } else {
                    self.add_simple(TokenType::Slash, start);
                }
            },
            ' ' | '\r' | '\t' => {},
            '\n' => {
                self.line = self.line + 1;
            },
            '"' => self.string(start),
            _ => {
                if Self::is_digit(c) {
                    self.number(start);
                } else if Self::is_alpha(c) {
                    self.identifier(start);
                } else {
                    self.error(self.line, "Unexpected character.");
                }
            },
        }
        proof {
            lemma_seq_add_empty::<TokenV>(toks_v(old(self).tokens@));
            lemma_seq_add_empty::<ScanErrV>(errs_v(old(self).errors@));
        }
    }

    /// Scans the whole source: exactly the tokens and the diagnostics that
    /// `scan_from` gives for it, the one end-of-input token included.
    #[verifier::loop_isolation(false)]
    pub fn scan_tokens(&mut self) -> (r: Vec<Token>)
        requires
            old(self).wf(),
            old(self).spec_current() == 0,
            old(self).spec_line() == 1,
            old(self).spec_tokens().len() == 0,
            old(self).spec_errors().len() == 0,
            !old(self).spec_has_error(),
        ensures
            final(self).wf(),
            final(self).spec_source() == old(self).spec_source(),
            ({
                let out = scan_from(old(self).spec_source(), 0, 1);
                &&& toks_v(r@) == out.tokens
                &&& toks_v(final(self).spec_tokens()) == out.tokens
                &&& errs_v(final(self).spec_errors()) == out.errors
                &&& final(self).spec_has_error() == (out.errors.len() > 0)
                &&& final(self).spec_line() == out.line
            }),
    {
        let ghost src = self.source@;
        let ghost out = scan_from(src, 0, 1);
        proof {
            lemma_seq_add_empty::<TokenV>(Seq::empty());
            assert(toks_v(self.tokens@) =~= Seq::<TokenV>::empty());
            assert(errs_v(self.errors@) =~= Seq::<ScanErrV>::empty());
            assert(Seq::<TokenV>::empty() + out.tokens =~= out.tokens);
            assert(Seq::<ScanErrV>::empty() + out.errors =~= out.errors);
        }
        while !self.is_at_end()
            invariant
                self.wf(),
                self.source@ == src,
                ({
                    let rest = scan_from(src, self.current as nat, self.line as nat);
                    &&& out.tokens == toks_v(self.tokens@) + rest.tokens
                    &&& out.errors == errs_v(self.errors@) + rest.errors
                    &&& out.line == rest.line
                }),
            decreases src.len() - self.current,
        {
            let ghost pre = *self;
            let ghost st = scan_step(src, self.current as nat, self.line as nat);
            self.scan_token();
            proof {
                let rest_new = scan_from(src, self.current as nat, self.line as nat);
                assert((toks_v(pre.tokens@) + opt_seq(st.token)) + rest_new.tokens =~= toks_v(
                    pre.tokens@,
                ) + (opt_seq(st.token) + rest_new.tokens));
                assert((errs_v(pre.errors@) + opt_seq(st.error)) + rest_new.errors =~= errs_v(
                    pre.errors@,
                ) + (opt_seq(st.error) + rest_new.errors));
            }
        }
        let ghost rest = scan_from(src, self.current as nat, self.line as nat);
        let ghost pre_toks = self.tokens@;
        let eof = Token::simple(TokenType::Eof, "", self.line);
        self.tokens.push(eof);
        proof {
            assert(rest.tokens =~= seq![eof@]);
            assert(toks_v(self.tokens@) =~= toks_v(pre_toks) + rest.tokens);
            lemma_seq_add_empty::<ScanErrV>(errs_v(self.errors@));
        }
        let r = self.tokens.clone();
        proof {
            assert(r@ =~= self.tokens@);
        }
        r
    }
}


/// The characters that always scan to exactly one single-character token.
pub open spec fn is_single_punct(c: char) -> bool {
    c == '(' || c == ')' || c == '{' || c == '}' || c == ',' || c == '.' || c == '-' || c == '+'
        || c == ';' || c == '*' || c == '/'
}

proof fn lemma_punct_scan_aux(src: Seq<char>, pos: nat, line: nat)
    requires
        pos <= src.len(),
        forall|i: int| 0 <= i < src.len() ==> is_single_punct(#[trigger] src[i]),
        forall|i: int|
            0 <= i && i + 1 < src.len() ==> !(#[trigger] src[i] == '/' && src[i + 1] == '/'),
    ensures
        scan_from(src, pos, line).tokens.len() == src.len() - pos + 1,
    decreases src.len() - pos,
{
    if pos < src.len() {
        let st = scan_step(src, pos, line);
        assert(st.next == pos + 1 && st.line == line && st.token is Some);
        lemma_punct_scan_aux(src, pos + 1, line);
    }
}

/// Law: a source that holds only single-character punctuation (and no two
/// adjacent slashes, which would begin a comment instead) scans to exactly
/// one token per character, plus the one end-of-input token.
pub proof fn lemma_punctuation_token_count(src: Seq<char>)
    requires
        forall|i: int| 0 <= i < src.len() ==> is_single_punct(#[trigger] src[i]),
        forall|i: int|
            0 <= i && i + 1 < src.len() ==> !(#[trigger] src[i] == '/' && src[i + 1] == '/'),
    ensures
        scan_from(src, 0, 1).tokens.len() == src.len() + 1,
{
    lemma_punct_scan_aux(src, 0, 1);
}


/// Law: a string opened at `pos` with no closing quote before the end of the
/// source raises the unterminated-string diagnostic at the line the string
/// began and produces no token for it.
pub proof fn lemma_unterminated_string(src: Seq<char>, pos: nat, line: nat)
    requires
        pos < src.len(),
        src[pos as int] == '"',
        string_close(src, pos + 1) == src.len(),
    ensures
        scan_step(src, pos, line).token is None,
        scan_step(src, pos, line).error == Some(
            ScanErrV { line, msg: "Unterminated string."@ },
        ),
        scan_from(src, pos, line).errors.len() > 0,
{
}

} // verus!
