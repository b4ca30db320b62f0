//! The language as a whole: from a program text to the work of the
//! interpreter.

use vstd::prelude::*;

use vstd::string::StrSliceExecFns;

use crate::error::error_views;
use crate::error::run_time_error_line;
use crate::error::RunTimeError;
use crate::token::same_text;
use crate::error::LoxError;
use crate::error::LoxErrorView;
use crate::interpreter::Interpreter;
use crate::parser::grammar::program;
use crate::parser::grammar::Cursor;
use crate::parser::grammar::Program;
use crate::parser::parser::terminated;
use crate::parser::parser::Parser;
use crate::scanner::scan;
use crate::scanner::Scanner;
use crate::semantics::program_tasks;
use crate::semantics::advance;
use crate::semantics::step;
use crate::task::Event;
use crate::task::Request;

verus! {

/// The language as a whole: an interpreter, and whether any unit of
/// program text that it was given had errors.
pub struct Lox {
    pub had_error: bool,
    pub had_runtime_error: bool,
    pub interpretor: Interpreter,
}

/// What the parser makes of a program text.
pub open spec fn parsed(source: Seq<char>) -> Program {
    program(
        terminated(scan(source).tokens),
        Cursor { pos: 0, log: Seq::empty() },
        Seq::empty(),
    )
}

/// The diagnostics of a program text: those of the scanner, then those
/// of the parser.
pub open spec fn diagnostics_of(source: Seq<char>) -> Seq<LoxErrorView> {
    scan(source).errors + parsed(source).log
}

/// Whether a line that was typed ends an interactive session: an empty
/// line, a lone carriage return, or `exit` with a carriage return.
pub open spec fn ends_session(line: Seq<char>) -> bool {
    line.len() == 0 || line == "exit\r"@ || line == "\r"@
}

impl Lox {
    pub fn new() -> (lox: Lox)
        ensures
            !lox.had_error,
            !lox.had_runtime_error,
            lox.interpretor@ == crate::interpreter::idle(),
    {
        Self { had_error: false, had_runtime_error: false, interpretor: Interpreter::new() }
    }

    /// Reads one unit of program text and hands the statements that it
    /// holds to the interpreter, which runs them as the steps that
    /// follow are taken. The diagnostics of the scanner and of the
    /// parser are handed back, in the order in which they were raised.
    pub fn run(&mut self, source: String) -> (diagnostics: Vec<LoxError>)
        ensures
            error_views(diagnostics@) == diagnostics_of(source@),
            final(self).had_error == (old(self).had_error || diagnostics_of(source@).len() > 0),
            final(self).had_runtime_error == old(self).had_runtime_error,
            final(self).interpretor@ == old(self).interpretor@.with_tasks(
                program_tasks(
                    parsed(source@).statements,
                    old(self).interpretor@.values.len() as usize,
                ),
            ),
    {
        let mut scanner = Scanner::new(source);
        let tokens = scanner.scan_tokens();
        let mut diagnostics = scanner.diagnostics();
        assert(scanner@.tokens =~= scan(source@).tokens);
        assert(scanner@.errors =~= scan(source@).errors);
        let mut parser = Parser::new(tokens);
        let statements = parser.parse();
        let mut syntax = parser.diagnostics();
        let ghost first = diagnostics@;
        let ghost second = syntax@;
        diagnostics.append(&mut syntax);
        assert(error_views(diagnostics@) =~= error_views(first) + error_views(second));
        if diagnostics.len() > 0 {
            self.had_error = true;
        }
        self.interpretor.interpret(statements);
        diagnostics
    }

    /// The line that reports an error of a running program.
    pub fn run_time_error(err: RunTimeError) -> (text: String)
        ensures
            text@ == run_time_error_line(err@),
    {
        err.to_string()
    }

    /// Whether a line that was typed at the prompt ends the session.
    pub fn is_quit(line: &str) -> (quit: bool)
        ensures
            quit == ends_session(line@),
    {
        line.unicode_len() == 0 || same_text(line, "exit\r") || same_text(line, "\r")
    }

    /// Takes one step of the interpreter, and notes an error of the
    /// running program when the step reports one.
    pub fn resume(&mut self, event: Event) -> (asked: Request)
        ensures
            (final(self).interpretor@, asked@) == step(old(self).interpretor@, event@),
            final(self).had_error == old(self).had_error,
            final(self).had_runtime_error == (old(self).had_runtime_error || asked@ is Report),
    {
        let asked = self.interpretor.step(event);
        match &asked {
            Request::Report(_) => {
                self.had_runtime_error = true;
            },
            _ => {},
        }
        asked
    }

    /// Takes steps of the interpreter for as long as they ask nothing of
    /// the host, and `limit` of them at most, and notes an error of the
    /// running program when the last of them reports one.
    pub fn advance(&mut self, event: Event, limit: usize) -> (asked: Request)
        ensures
            (final(self).interpretor@, asked@) == advance(
                old(self).interpretor@,
                event@,
                limit as nat,
            ),
            final(self).had_error == old(self).had_error,
            final(self).had_runtime_error == (old(self).had_runtime_error || asked@ is Report),
    {
        let asked = self.interpretor.advance(event, limit);
        match &asked {
            Request::Report(_) => {
                self.had_runtime_error = true;
            },
            _ => {},
        }
        asked
    }
}

} // verus!
