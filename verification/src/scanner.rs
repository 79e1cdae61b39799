//! The scanner: one pass over the source characters, producing the token
//! stream ended by an end-of-file token and reporting every stray character
//! or unterminated string while it keeps going.
use crate::error::{ErrorReporter, ErrorType};
use crate::literal::Literal;
use crate::num::{bits_of_str, digits_form, is_digit_char, num_parse};
use crate::strutil::chars_to_string;
use crate::token::{spec_keyword, Token, TokenType};
use vstd::prelude::*;

verus! {

/// The tokens from position lo on have nondecreasing line numbers.
pub open spec fn tokens_line_ordered(toks: Seq<Token>, lo: int) -> bool {
    forall|j: int, k: int|
        lo <= j <= k < toks.len() ==> (#[trigger] toks[j]).line <= (#[trigger] toks[k]).line
}

/// No token in positions [lo, hi) is the end-of-file token.
pub open spec fn no_eof_in(toks: Seq<Token>, lo: int, hi: int) -> bool {
    forall|j: int| lo <= j < hi ==> (#[trigger] toks[j]).token_type != TokenType::Eof
}

pub open spec fn spec_is_alpha(c: char) -> bool {
    ('a' <= c && c <= 'z') || ('A' <= c && c <= 'Z') || c == '_'
}

pub struct Scanner {
    pub source: Vec<char>,
    pub tokens: Vec<Token>,
    pub start: usize,
    pub current: usize,
    pub line: i64,
    pub position: i64,
    pub error_reporter: ErrorReporter,
}

fn bump(x: i64) -> (r: i64)
    ensures
        x < i64::MAX ==> r == x + 1,
        r >= x,
{
    if x < i64::MAX {
        x + 1
    } else {
        x
    }
}

impl Scanner {
    pub open spec fn wf(self) -> bool {
        self.start <= self.current <= self.source@.len()
    }

    pub fn init(source: &Vec<char>) -> (r: Self)
        ensures
            r.wf(),
            r.source@ == source@,
            r.tokens@.len() == 0,
            !r.error_reporter.had_error,
    {
        Scanner {
            source: source.clone(),
            tokens: Vec::new(),
            start: 0,
            current: 0,
            line: 1,
            position: 0,
            error_reporter: ErrorReporter::init(),
        }
    }

    fn end(&self) -> (r: bool)
        ensures
            r == (self.current >= self.source@.len()),
    {
        self.current >= self.source.len()
    }

    fn advance(&mut self) -> (c: char)
        requires
            old(self).wf(),
            old(self).current < old(self).source@.len(),
        ensures
            final(self).wf(),
            final(self).current == old(self).current + 1,
            c == old(self).source@[old(self).current as int],
            final(self).source == old(self).source,
            final(self).tokens == old(self).tokens,
            final(self).start == old(self).start,
            final(self).line == old(self).line,
            final(self).position == old(self).position,
            final(self).error_reporter == old(self).error_reporter,
    {
        let c = self.source[self.current];
        if self.current < self.source.len() {
            self.current = self.current + 1;
        }
        c
    }

    fn peek(&self) -> (c: char)
        requires
            self.wf(),
        ensures
            self.current < self.source@.len() ==> c == self.source@[self.current as int],
            self.current >= self.source@.len() ==> c == '\0',
    {
        if self.current >= self.source.len() {
            '\0'
        } else {
            self.source[self.current]
        }
    }

    fn peek_next(&self) -> (c: char)
        requires
            self.wf(),
        ensures
            self.current + 1 < self.source@.len() ==> c == self.source@[self.current + 1],
            self.current + 1 >= self.source@.len() ==> c == '\0',
    {
        let n = self.source.len();
        if self.current >= n {
            return '\0';
        }
        if self.current + 1 >= n {
            '\0'
        } else {
            self.source[self.current + 1]
        }
    }

    fn match_next(&mut self, expected: char) -> (r: bool)
        requires
            old(self).wf(),
        ensures
            final(self).wf(),
            final(self).source == old(self).source,
            final(self).tokens == old(self).tokens,
            final(self).start == old(self).start,
            final(self).line == old(self).line,
            final(self).position == old(self).position,
            final(self).error_reporter == old(self).error_reporter,
            r == (old(self).current < old(self).source@.len() && old(self).source@[old(
                self,
            ).current as int] == expected),
            r ==> final(self).current == old(self).current + 1,
            !r ==> final(self).current == old(self).current,
    {
        if self.current >= self.source.len() {
            return false;
        }
        if self.source[self.current] == expected {
            self.current = self.current + 1;
            true
        } else {
            false
        }
    }

    /// The lexeme the cursor has swept since the last token began.
    fn lexeme_text(&self) -> (r: String)
        requires
            self.wf(),
        ensures
            r@ == self.source@.subrange(self.start as int, self.current as int),
    {
        let mut v: Vec<char> = Vec::new();
        let mut i: usize = self.start;
        while i < self.current
            invariant
                self.wf(),
                self.start <= i <= self.current,
                v@ == self.source@.subrange(self.start as int, i as int),
            decreases self.current - i,
        {
            v.push(self.source[i]);
            i = i + 1;
            proof {
                assert(self.source@.subrange(self.start as int, i as int) =~= self.source@.subrange(
                    self.start as int,
                    i - 1,
                ).push(self.source@[i - 1]));
            }
        }
        chars_to_string(&v)
    }

    fn add_token(&mut self, token_type: TokenType, literal: Option<Literal>)
        requires
            old(self).wf(),
        ensures
            final(self).wf(),
            final(self).source == old(self).source,
            final(self).start == old(self).start,
            final(self).current == old(self).current,
            final(self).line == old(self).line,
            final(self).error_reporter == old(self).error_reporter,
            final(self).tokens@.len() == old(self).tokens@.len() + 1,
            final(self).tokens@.take(old(self).tokens@.len() as int) == old(self).tokens@,
            final(self).tokens@.last().token_type == token_type,
            final(self).tokens@.last().literal == literal,
            final(self).tokens@.last().lexeme@ == old(self).source@.subrange(
                old(self).start as int,
                old(self).current as int,
            ),
            final(self).tokens@.last().line == old(self).line,
    {
        let text = self.lexeme_text();
        let tok = Token::init(token_type, &text, literal, self.line, self.position);
        self.tokens.push(tok);
        self.position = bump(self.position);
        proof {
            assert(self.tokens@.take(self.tokens@.len() - 1) =~= old(self).tokens@);
        }
    }

    /// Consumes the rest of a string literal, whose opening quote was
    /// already eaten. A terminated string emits one token whose lexeme is
    /// the whole quoted text and whose payload is the text between the
    /// quotes; an unterminated string emits no token and reports a syntax
    /// error instead.
    fn string(&mut self)
        requires
            old(self).wf(),
            old(self).current == old(self).start + 1,
        ensures
            final(self).wf(),
            final(self).source == old(self).source,
            final(self).start == old(self).start,
            final(self).current >= old(self).current,
            final(self).line >= old(self).line,
            final(self).tokens@.len() <= old(self).tokens@.len() + 1,
            final(self).tokens@.len() >= old(self).tokens@.len(),
            final(self).tokens@.take(old(self).tokens@.len() as int) == old(self).tokens@,
            final(self).tokens@.len() == old(self).tokens@.len() + 1
                ==> final(self).tokens@.last().token_type == TokenType::String
                && final(self).tokens@.last().lexeme@ == old(self).source@.subrange(
                old(self).start as int,
                final(self).current as int,
            ) && (final(self).tokens@.last().literal matches Some(Literal::String(t)) && t@ == old(
                self,
            ).source@.subrange(old(self).start + 1, final(self).current - 1)) && old(self).line
                <= final(self).tokens@.last().line <= final(self).line
                && final(self).error_reporter == old(self).error_reporter,
            final(self).tokens@.len() == old(self).tokens@.len()
                ==> final(self).error_reporter.diagnostics@.len() > old(
                self,
            ).error_reporter.diagnostics@.len(),
    {
        loop
            invariant
                self.wf(),
                self.source == old(self).source,
                self.start == old(self).start,
                self.current >= old(self).current,
                self.line >= old(self).line,
                self.tokens == old(self).tokens,
                self.error_reporter == old(self).error_reporter,
            decreases self.source@.len() - self.current,
        {
            let p = self.peek();
            if p == '"' || self.end() {
                break ;
            }
            if p == '\\' {
                let _ = self.advance();
            }
            if self.peek() == '\n' {
                self.line = bump(self.line);
                self.position = 0;
            }
            if self.end() {
                break ;
            }
            let _ = self.advance();
        }
        if self.end() {
            self.error_reporter.error(self.line, "Unterminated string.", None, ErrorType::Syntax);
            return ;
        }
        let _ = self.advance();
        let mut v: Vec<char> = Vec::new();
        let mut i: usize = self.start + 1;
        proof {
            assert(self.source@.subrange(self.start + 1, self.start + 1) =~= Seq::<
                char,
            >::empty());
        }
        while i < self.current - 1
            invariant
                self.wf(),
                self.current >= self.start + 2,
                self.start + 1 <= i <= self.current - 1,
                v@ == self.source@.subrange(self.start + 1, i as int),
            decreases self.current - i,
        {
            v.push(self.source[i]);
            i = i + 1;
            proof {
                assert(self.source@.subrange(self.start + 1, i as int) =~= self.source@.subrange(
                    self.start + 1,
                    i - 1,
                ).push(self.source@[i - 1]));
            }
        }
        let text = chars_to_string(&v);
        self.add_token(TokenType::String, Some(Literal::String(text)));
        proof {
            assert(self.tokens@.take(old(self).tokens@.len() as int) =~= old(self).tokens@);
        }
    }

    fn is_digit(&self, c: char) -> (r: bool)
        ensures
            r == is_digit_char(c),
    {
        c >= '0' && c <= '9'
    }

    fn is_alpha(&self, c: char) -> (r: bool)
        ensures
            r == spec_is_alpha(c),
    {
        (c >= 'a' && c <= 'z') || (c >= 'A' && c <= 'Z') || c == '_'
    }

    fn is_alphanumeric(&self, c: char) -> (r: bool)
        ensures
            r == (spec_is_alpha(c) || is_digit_char(c)),
    {
        self.is_alpha(c) || self.is_digit(c)
    }

    /// Consumes the rest of a number literal, whose first digit was already
    /// eaten, and emits a number token carrying the parsed bits.
    fn number(&mut self)
        requires
            old(self).wf(),
            old(self).current == old(self).start + 1,
            old(self).start < old(self).source@.len(),
            is_digit_char(old(self).source@[old(self).start as int]),
        ensures
            final(self).wf(),
            final(self).source == old(self).source,
            final(self).start == old(self).start,
            final(self).current >= old(self).current,
            final(self).tokens@.len() == old(self).tokens@.len() + 1,
            final(self).tokens@.take(old(self).tokens@.len() as int) == old(self).tokens@,
            final(self).tokens@.last().token_type == TokenType::Number,
            final(self).tokens@.last().lexeme@ == old(self).source@.subrange(
                old(self).start as int,
                final(self).current as int,
            ),
            (final(self).tokens@.last().literal matches Some(Literal::Number(b)) && Some(b)
                == bits_of_str(final(self).tokens@.last().lexeme@)),
            final(self).line == old(self).line,
            final(self).tokens@.last().line == old(self).line,
            final(self).error_reporter == old(self).error_reporter,
    {
        loop
            invariant
                self.wf(),
                self.source == old(self).source,
                self.start == old(self).start,
                self.tokens == old(self).tokens,
                self.error_reporter == old(self).error_reporter,
                self.line == old(self).line,
                self.position == old(self).position,
                self.start < self.current,
                forall|i: int|
                    self.start <= i < self.current ==> is_digit_char(#[trigger] self.source@[i]),
            decreases self.source@.len() - self.current,
        {
            let p = self.peek();
            if self.is_digit(p) && self.current < self.source.len() {
                let _ = self.advance();
            } else {
                break ;
            }
        }
        let ghost int_end = self.current as int;
        let p = self.peek();
        let pn = self.peek_next();
        if p == '.' && self.is_digit(pn) && self.current < self.source.len() {
            let _ = self.advance();
            proof {
                assert(self.source@[int_end + 1] == pn);
            }
            let _ = self.advance();
            loop
                invariant
                    self.wf(),
                    self.source == old(self).source,
                    self.start == old(self).start,
                    self.tokens == old(self).tokens,
                    self.error_reporter == old(self).error_reporter,
                    self.line == old(self).line,
                    self.position == old(self).position,
                    self.start < int_end,
                    int_end + 1 < self.current,
                    self.source@[int_end] == '.',
                    forall|i: int|
                        self.start <= i < int_end ==> is_digit_char(#[trigger] self.source@[i]),
                    forall|i: int|
                        int_end < i < self.current ==> is_digit_char(#[trigger] self.source@[i]),
                decreases self.source@.len() - self.current,
            {
                let p2 = self.peek();
                if self.is_digit(p2) && self.current < self.source.len() {
                    let _ = self.advance();
                } else {
                    break ;
                }
            }
            proof {
                let lex = self.source@.subrange(self.start as int, self.current as int);
                let k = int_end - self.start;
                assert(lex[k] == '.');
                assert(forall|i: int| 0 <= i < k ==> is_digit_char(#[trigger] lex[i]));
                assert(forall|i: int| k < i < lex.len() ==> is_digit_char(#[trigger] lex[i]));
                assert(0 < k);
                assert(int_end + 1 < self.current);
                assert(k < lex.len() - 1);
                assert(digits_form(lex));
            }
        } else {
            proof {
                let lex = self.source@.subrange(self.start as int, self.current as int);
                assert(forall|i: int| 0 <= i < lex.len() ==> is_digit_char(#[trigger] lex[i]));
                assert(lex.len() > 0);
                assert(digits_form(lex));
            }
        }
        let text = self.lexeme_text();
        let bits = num_parse(text.as_str());
        match bits {
            Some(b) => {
                self.add_token(TokenType::Number, Some(Literal::Number(b)));
            },
            None => {
                proof {
                    assert(false);
                }
            },
        }
        proof {
            assert(self.tokens@.take(old(self).tokens@.len() as int) =~= old(self).tokens@);
        }
    }

    /// Consumes the rest of an identifier and emits either the keyword's
    /// token or an identifier token.
    fn identifier(&mut self)
        requires
            old(self).wf(),
            old(self).start < old(self).current,
        ensures
            final(self).wf(),
            final(self).source == old(self).source,
            final(self).start == old(self).start,
            final(self).current >= old(self).current,
            final(self).tokens@.len() == old(self).tokens@.len() + 1,
            final(self).tokens@.take(old(self).tokens@.len() as int) == old(self).tokens@,
            (final(self).tokens@.last().token_type == match spec_keyword(
                final(self).tokens@.last().lexeme@,
            ) {
                Some(t) => t,
                None => TokenType::Identifier,
            }),
            final(self).tokens@.last().lexeme@ == old(self).source@.subrange(
                old(self).start as int,
                final(self).current as int,
            ),
            final(self).line == old(self).line,
            final(self).tokens@.last().line == old(self).line,
            final(self).error_reporter == old(self).error_reporter,
    {
        loop
            invariant
                self.wf(),
                self.source == old(self).source,
                self.start == old(self).start,
                self.tokens == old(self).tokens,
                self.error_reporter == old(self).error_reporter,
                self.line == old(self).line,
                self.position == old(self).position,
                self.start < self.current,
                old(self).current <= self.current,
            decreases self.source@.len() - self.current,
        {
            let p = self.peek();
            if self.is_alphanumeric(p) && self.current < self.source.len() {
                let _ = self.advance();
            } else {
                break ;
            }
        }
        let text = self.lexeme_text();
        match TokenType::from_keyword(text.as_str()) {
            Some(t) => {
                self.add_token(t, None);
            },
            None => {
                self.add_token(TokenType::Identifier, None);
            },
        }
        proof {
            assert(self.tokens@.take(old(self).tokens@.len() as int) =~= old(self).tokens@);
        }
    }

    /// Scans one token starting at the cursor; always makes progress, and
    /// either emits tokens, skips blank or comment text, or reports an
    /// error.
    fn scan_token(&mut self)
        requires
            old(self).wf(),
            old(self).start == old(self).current,
            old(self).current < old(self).source@.len(),
        ensures
            final(self).wf(),
            final(self).source == old(self).source,
            final(self).current > old(self).current,
            final(self).line >= old(self).line,
            final(self).tokens@.len() >= old(self).tokens@.len(),
            final(self).tokens@.len() <= old(self).tokens@.len() + 1,
            final(self).tokens@.take(old(self).tokens@.len() as int) == old(self).tokens@,
            final(self).tokens@.len() == old(self).tokens@.len() + 1
                ==> final(self).tokens@.last().token_type != TokenType::Eof
                && final(self).tokens@.last().lexeme@ == old(self).source@.subrange(
                old(self).current as int,
                final(self).current as int,
            ) && old(self).line <= final(self).tokens@.last().line <= final(self).line,
            final(self).error_reporter.diagnostics@.len() >= old(
                self,
            ).error_reporter.diagnostics@.len(),
    {
        let c = self.advance();
        if c == '(' {
            self.add_token(TokenType::LeftParen, None);
        } else if c == ')' {
            self.add_token(TokenType::RightParen, None);
        } else if c == '{' {
            self.add_token(TokenType::LeftBrace, None);
        } else if c == '}' {
            self.add_token(TokenType::RightBrace, None);
        } else if c == '[' {
            self.add_token(TokenType::LeftSquare, None);
        } else if c == ']' {
            self.add_token(TokenType::RightSquare, None);
        } else if c == ',' {
            self.add_token(TokenType::Comma, None);
        } else if c == '.' {
            self.add_token(TokenType::Dot, None);
        } else if c == ';' {
            self.add_token(TokenType::Semicolon, None);
        } else if c == '%' {
            self.add_token(TokenType::Modulo, None);
        } else if c == '-' {
            if self.match_next('=') {
                self.add_token(TokenType::MinusEqual, None);
            } else {
                self.add_token(TokenType::Minus, None);
            }
        } else if c == '+' {
            if self.match_next('=') {
                self.add_token(TokenType::PlusEqual, None);
            } else {
                self.add_token(TokenType::Plus, None);
            }
        } else if c == '*' {
            if self.match_next('=') {
                self.add_token(TokenType::StarEqual, None);
            } else {
                self.add_token(TokenType::Star, None);
            }
        } else if c == '!' {
            if self.match_next('=') {
                self.add_token(TokenType::BangEqual, None);
            } else {
                self.add_token(TokenType::Bang, None);
            }
        } else if c == '=' {
            if self.match_next('=') {
                self.add_token(TokenType::EqualEqual, None);
            } else {
                self.add_token(TokenType::Equal, None);
            }
        } else if c == '<' {
            if self.match_next('=') {
                self.add_token(TokenType::LessEqual, None);
            } else {
                self.add_token(TokenType::Less, None);
            }
        } else if c == '>' {
            if self.match_next('=') {
                self.add_token(TokenType::GreaterEqual, None);
            } else {
                self.add_token(TokenType::Greater, None);
            }
        } else if c == '/' {
            if self.match_next('/') {
                loop
                    invariant
                        self.wf(),
                        self.source == old(self).source,
                        self.current > old(self).current,
                        self.start == old(self).start,
                        self.line == old(self).line,
                        self.tokens == old(self).tokens,
                        self.error_reporter == old(self).error_reporter,
                    decreases self.source@.len() - self.current,
                {
                    if self.peek() != '\n' && !self.end() {
                        let _ = self.advance();
                    } else {
                        break ;
                    }
                }
            } else if self.match_next('=') {
                self.add_token(TokenType::SlashEqual, None);
            } else {
                self.add_token(TokenType::Slash, None);
            }
        } else if c == ' ' || c == '\r' || c == '\t' {
        } else if c == '\n' {
            self.line = bump(self.line);
            self.position = 0;
        } else if c == '"' {
            self.string();
        } else if self.is_digit(c) {
            self.number();
        } else if self.is_alpha(c) {
            self.identifier();
        } else {
            self.error_reporter.error(
                self.line,
                "Unexpected character.",
                None,
                ErrorType::Syntax,
            );
        }
        proof {
            assert(self.tokens@.take(old(self).tokens@.len() as int) =~= old(self).tokens@);
        }
    }

    /// Scans the whole source. Whatever the source was, the stream gains
    /// tokens ending with exactly one end-of-file token, in source order:
    /// their line numbers never decrease.
    pub fn scan_tokens(&mut self)
        requires
            old(self).wf(),
        ensures
            final(self).wf(),
            final(self).tokens@.len() > old(self).tokens@.len(),
            final(self).tokens@.take(old(self).tokens@.len() as int) == old(self).tokens@,
            final(self).tokens@.last().token_type == TokenType::Eof,
            no_eof_in(
                final(self).tokens@,
                old(self).tokens@.len() as int,
                final(self).tokens@.len() - 1,
            ),
            tokens_line_ordered(final(self).tokens@, old(self).tokens@.len() as int),
    {
        loop
            invariant
                self.wf(),
                self.line >= old(self).line,
                self.tokens@.len() >= old(self).tokens@.len(),
                self.tokens@.take(old(self).tokens@.len() as int) == old(self).tokens@,
                no_eof_in(self.tokens@, old(self).tokens@.len() as int, self.tokens@.len() as int),
                forall|j: int|
                    old(self).tokens@.len() <= j < self.tokens@.len() ==> (#[trigger] self.tokens@[j]).line
                        <= self.line,
                tokens_line_ordered(self.tokens@, old(self).tokens@.len() as int),
            decreases self.source@.len() - self.current,
        {
            if self.end() {
                break ;
            }
            self.start = self.current;
            let ghost pre = self.tokens@;
            let ghost pre_line = self.line;
            self.scan_token();
            proof {
                let lo = old(self).tokens@.len() as int;
                assert(forall|j: int| 0 <= j < pre.len() ==> self.tokens@[j] == pre[j]) by {
                    assert(forall|j: int|
                        0 <= j < pre.len() ==> self.tokens@.take(pre.len() as int)[j] == pre[j]);
                }
                assert(self.tokens@.take(old(self).tokens@.len() as int) =~= old(self).tokens@);
                if self.tokens@.len() == pre.len() + 1 {
                    assert(self.tokens@[self.tokens@.len() - 1] == self.tokens@.last());
                }
                assert forall|j: int|
                    lo <= j < self.tokens@.len() implies (#[trigger] self.tokens@[j]).token_type
                    != TokenType::Eof by {
                    if j < pre.len() {
                        assert(self.tokens@[j] == pre[j]);
                    }
                }
                assert forall|j: int|
                    lo <= j < self.tokens@.len() implies (#[trigger] self.tokens@[j]).line
                    <= self.line by {
                    if j < pre.len() {
                        assert(self.tokens@[j] == pre[j]);
                        assert(pre[j].line <= pre_line);
                    }
                }
                assert forall|j: int, k: int|
                    lo <= j <= k < self.tokens@.len() implies (#[trigger] self.tokens@[j]).line
                    <= (#[trigger] self.tokens@[k]).line by {
                    if k < pre.len() {
                        assert(self.tokens@[j] == pre[j]);
                        assert(self.tokens@[k] == pre[k]);
                    } else if j < pre.len() {
                        assert(self.tokens@[j] == pre[j]);
                        assert(pre[j].line <= pre_line);
                    }
                }
            }
        }
        let ghost before_eof = self.tokens@;
        let empty = String::new();
        let tok = Token::init(TokenType::Eof, &empty, None, self.line, bump(self.position));
        self.tokens.push(tok);
        proof {
            assert(forall|j: int| 0 <= j < before_eof.len() ==> self.tokens@[j] == before_eof[j]);
            assert(self.tokens@.take(old(self).tokens@.len() as int) =~= old(self).tokens@);
        }
    }
}

} // verus!
