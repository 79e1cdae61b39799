//! The error model: one kind tag, structured parse and runtime errors, the
//! non-local signal that `radd` raises, and a reporter that renders
//! diagnostics into lines of text.
use crate::literal::Literal;
use crate::strutil::{dec_seq_i64, push_dec_i64};
use crate::token::{tok_like, Token, TokenType};
use vstd::prelude::*;
use vstd::string::*;

verus! {

pub enum ErrorType {
    Error,
    Syntax,
    Runtime,
    Resolution,
}

impl ErrorType {
    pub open spec fn spec_name(self) -> Seq<char> {
        match self {
            ErrorType::Error => "Error"@,
            ErrorType::Syntax => "SyntaxError"@,
            ErrorType::Runtime => "RuntimeError"@,
            ErrorType::Resolution => "ResolutionError"@,
        }
    }

    pub fn to_string(&self) -> (r: &'static str)
        ensures
            r@ == self.spec_name(),
    {
        match self {
            ErrorType::Error => "Error",
            ErrorType::Syntax => "SyntaxError",
            ErrorType::Runtime => "RuntimeError",
            ErrorType::Resolution => "ResolutionError",
        }
    }
}

pub struct ParseError {
    pub token: Token,
    pub message: String,
}

impl ParseError {
    pub fn init(token: Token, message: String) -> (r: Self)
        ensures
            r.token == token,
            r.message == message,
    {
        ParseError { token, message }
    }
}

pub struct RuntimeError {
    pub message: String,
    pub token: Token,
}

impl RuntimeError {
    pub fn init(token: &Token, message: String) -> (r: Self)
        ensures
            tok_like(r.token, *token),
            r.message == message,
    {
        RuntimeError { token: Token::copy(token), message }
    }
}

/// What stops the straight-line run of a statement: a runtime error, or the
/// `radd` signal carrying a return value, which only a function call frame
/// absorbs.
pub enum Signal {
    Failure(RuntimeError),
    Return(Option<Literal>),
}

/// A diagnostic line: `<Kind>: <message>`, a line marker, and an optional
/// location marker.
pub open spec fn spec_report(
    kind: ErrorType,
    line: int,
    message: Seq<char>,
    loc: Option<Seq<char>>,
) -> Seq<char> {
    kind.spec_name() + ": "@ + message + "\n\t at line "@ + dec_seq_i64(line) + (match loc {
        Some(l) => "\n\t "@ + l,
        None => Seq::<char>::empty(),
    })
}

pub struct ErrorReporter {
    pub had_error: bool,
    pub had_runtime_error: bool,
    pub diagnostics: Vec<String>,
}

impl ErrorReporter {
    pub fn init() -> (r: Self)
        ensures
            !r.had_error,
            !r.had_runtime_error,
            r.diagnostics@.len() == 0,
    {
        ErrorReporter { had_error: false, had_runtime_error: false, diagnostics: Vec::new() }
    }

    pub fn report(&mut self, line: i64, message: &str, loc: Option<&str>, err_type: ErrorType)
        ensures
            final(self).had_error,
            final(self).had_runtime_error == old(self).had_runtime_error,
            final(self).diagnostics@.len() == old(self).diagnostics@.len() + 1,
            final(self).diagnostics@.last()@ == spec_report(
                err_type,
                line as int,
                message@,
                match loc {
                    Some(l) => Some(l@),
                    None => None,
                },
            ),
            final(self).diagnostics@.take(old(self).diagnostics@.len() as int) == old(
                self,
            ).diagnostics@,
    {
        let mut text = String::from_str(err_type.to_string());
        text.append(": ");
        text.append(message);
        text.append("\n\t at line ");
        push_dec_i64(&mut text, line);
        match loc {
            Some(l) => {
                text.append("\n\t ");
                text.append(l);
            },
            None => {},
        }
        proof {
            assert(text@ =~= spec_report(
                err_type,
                line as int,
                message@,
                match loc {
                    Some(l) => Some(l@),
                    None => None,
                },
            ));
        }
        self.diagnostics.push(text);
        self.had_error = true;
        proof {
            assert(self.diagnostics@.take(self.diagnostics@.len() - 1) =~= old(
                self,
            ).diagnostics@);
        }
    }

    pub fn error(&mut self, line: i64, message: &str, loc: Option<&str>, err_type: ErrorType)
        ensures
            final(self).had_error,
            final(self).had_runtime_error == old(self).had_runtime_error,
            final(self).diagnostics@.len() == old(self).diagnostics@.len() + 1,
    {
        self.report(line, message, loc, err_type);
    }

    pub fn error_token(&mut self, token: &Token, message: &str, err_type: ErrorType)
        ensures
            final(self).had_error,
            final(self).had_runtime_error == old(self).had_runtime_error,
            final(self).diagnostics@.len() == old(self).diagnostics@.len() + 1,
    {
        match token.token_type {
            TokenType::Eof => self.report(token.line, message, Some("at end"), err_type),
            _ => {
                let mut loc = String::from_str("at '");
                loc.append(token.lexeme.as_str());
                loc.append("'");
                self.report(token.line, message, Some(loc.as_str()), err_type);
            },
        }
    }

    pub fn runtime_error(&mut self, token: &Token, message: &str, err_type: ErrorType)
        ensures
            final(self).had_runtime_error,
            final(self).had_error == old(self).had_error,
            final(self).diagnostics@.len() == old(self).diagnostics@.len() + 1,
            final(self).diagnostics@.last()@ == spec_report(
                err_type,
                token.line as int,
                message@,
                None,
            ),
    {
        let mut text = String::from_str(err_type.to_string());
        text.append(": ");
        text.append(message);
        text.append("\n\t at line ");
        push_dec_i64(&mut text, token.line);
        proof {
            assert(text@ =~= spec_report(err_type, token.line as int, message@, None));
        }
        self.diagnostics.push(text);
        self.had_runtime_error = true;
    }
}

} // verus!
