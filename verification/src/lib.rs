//! The core of an interpreter for Qalam, a small dynamically-typed language
//! with Arabic-derived keywords: a scanner, a recursive-descent parser, a
//! lexical resolver, and a tree-walking evaluator over an arena of
//! environments, instances and arrays, with the native library registered in
//! the globals. The front-end hands a source string in; diagnostics and
//! printed lines come back as text.
pub mod ast;
pub mod astprint;
pub mod callable;
pub mod display;
pub mod environment;
pub mod error;
pub mod hashable;
pub mod interpreter;
pub mod literal;
pub mod native;
pub mod num;
pub mod parser;
pub mod resolver;
pub mod scanner;
pub mod stack;
pub mod strutil;
pub mod token;

use crate::error::{ErrorReporter, ErrorType};
use crate::interpreter::Interpreter;
use crate::parser::Parser;
use crate::resolver::Resolver;
use crate::scanner::Scanner;
use crate::strutil::string_to_chars;
use vstd::prelude::*;

verus! {

/// The front-end's parsed invocation: a file to run, or a raw source string.
pub struct Args {
    pub file_path: Option<String>,
    pub raw: Option<String>,
}

pub struct Qalam {
    pub error_reporter: ErrorReporter,
}

impl Qalam {
    pub fn init() -> (r: Self)
        ensures
            !r.error_reporter.had_error,
            !r.error_reporter.had_runtime_error,
            r.error_reporter.diagnostics@.len() == 0,
    {
        Qalam { error_reporter: ErrorReporter::init() }
    }

    /// Runs one source string through the whole pipeline against the given
    /// interpreter. Whatever the source is, the run either executes
    /// statements or reports at least one diagnostic, and it never panics:
    /// a flagged failure always has a diagnostic behind it.
    pub fn run_source(&mut self, source: &str, interpreter: &mut Interpreter)
        requires
            old(interpreter).wf(),
            old(self).error_reporter.had_error
                ==> old(self).error_reporter.diagnostics@.len() > 0,
            old(self).error_reporter.had_runtime_error
                ==> old(self).error_reporter.diagnostics@.len() > 0,
        ensures
            final(interpreter).wf(),
            final(interpreter).globals == old(interpreter).globals,
            final(interpreter).environment == old(interpreter).environment,
            final(self).error_reporter.diagnostics@.len()
                >= old(self).error_reporter.diagnostics@.len(),
            final(self).error_reporter.had_error
                ==> final(self).error_reporter.diagnostics@.len() > 0,
            final(self).error_reporter.had_runtime_error
                ==> final(self).error_reporter.diagnostics@.len() > 0,
    {
        let chars = string_to_chars(source);
        let mut scanner = Scanner::init(&chars);
        scanner.scan_tokens();
        let mut i: usize = 0;
        loop
            invariant
                self.error_reporter.diagnostics@.len()
                    >= old(self).error_reporter.diagnostics@.len(),
                self.error_reporter.had_error ==> self.error_reporter.diagnostics@.len() > 0,
                self.error_reporter.had_runtime_error ==> self.error_reporter.diagnostics@.len()
                    > 0,
                i <= scanner.error_reporter.diagnostics@.len(),
            decreases scanner.error_reporter.diagnostics@.len() - i,
        {
            if i < scanner.error_reporter.diagnostics.len() {
                let line = scanner.error_reporter.diagnostics[i].clone();
                self.error_reporter.diagnostics.push(line);
                self.error_reporter.had_error = true;
                i = i + 1;
            } else {
                break ;
            }
        }
        // The scanner's failure flag never stands without a diagnostic behind
        // it; the fallback line keeps that true however the flag was raised.
        if scanner.error_reporter.had_error && !self.error_reporter.had_error {
            self.error_reporter.had_error = true;
            if self.error_reporter.diagnostics.len() == 0 {
                self.error_reporter.diagnostics.push(
                    crate::error::ErrorType::Syntax.to_string().to_owned(),
                );
            }
        }
        let start_id = interpreter.next_node_id;
        let mut parser = Parser::init(&scanner.tokens, start_id);
        let parsed = parser.parse();
        interpreter.next_node_id = parser.next_id;
        match parsed {
            Ok(statements) => {
                let mut resolver = Resolver::init();
                match resolver.resolve_stmts(&statements) {
                    Ok(u) => u,
                    Err(e) => {
                        self.error_reporter.runtime_error(
                            &e.token,
                            e.message.as_str(),
                            ErrorType::Resolution,
                        );
                        self.error_reporter.had_error = true;
                        self.error_reporter.had_runtime_error = false;
                        return ;
                    },
                }
                let mut id = start_id;
                loop
                    invariant
                        interpreter.wf(),
                        interpreter.globals == old(interpreter).globals,
                        interpreter.environment == old(interpreter).environment,
                    decreases parser.next_id - id,
                {
                    if id < parser.next_id {
                        match resolver.locals.get(id) {
                            Some(d) => {
                                interpreter.resolve(id, d);
                            },
                            None => {},
                        }
                        id = id + 1;
                    } else {
                        break ;
                    }
                }
                match interpreter.interpret(&statements) {
                    Ok(u) => u,
                    Err(e) => {
                        self.error_reporter.runtime_error(
                            &e.token,
                            e.message.as_str(),
                            ErrorType::Runtime,
                        );
                    },
                }
            },
            Err(e) => {
                self.error_reporter.error_token(&e.token, e.message.as_str(), ErrorType::Syntax);
            },
        }
    }
}

} // verus!
