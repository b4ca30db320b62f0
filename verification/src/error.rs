//! Diagnostics of the scanner and the parser, and errors of a running
//! program.

use vstd::prelude::*;
use vstd::string::StringExecFns;

use crate::token::Token;
use crate::token::TokenType;
use crate::token::TokenView;

verus! {

/// One diagnostic of the scanner or the parser: where in the program text
/// it was raised, and what it says. How it is shown is left to the caller.
#[derive(Debug, Clone, PartialEq)]
pub struct LoxError {
    pub line: usize,
    pub location: String,
    pub message: String,
}

pub struct LoxErrorView {
    pub line: usize,
    pub location: Seq<char>,
    pub message: Seq<char>,
}

impl View for LoxError {
    type V = LoxErrorView;

    open spec fn view(&self) -> LoxErrorView {
        LoxErrorView { line: self.line, location: self.location@, message: self.message@ }
    }
}

/// The character that writes a digit.
pub open spec fn digit(value: nat) -> char {
    if value == 0 {
        '0'
    } else if value == 1 {
        '1'
    } else if value == 2 {
        '2'
    } else if value == 3 {
        '3'
    } else if value == 4 {
        '4'
    } else if value == 5 {
        '5'
    } else if value == 6 {
        '6'
    } else if value == 7 {
        '7'
    } else if value == 8 {
        '8'
    } else {
        '9'
    }
}

/// A number written in decimal digits, without leading zeros.
pub open spec fn decimal(value: nat) -> Seq<char>
    decreases value,
{
    if value < 10 {
        seq![digit(value)]
    } else {
        decimal(value / 10).push(digit(value % 10))
    }
}

/// The line that reports a diagnostic.
pub open spec fn report_line(line: usize, location: Seq<char>, message: Seq<char>) -> Seq<char> {
    "[line "@ + decimal(line as nat) + "] Error "@ + location + " => "@ + message + " "@
}

/// The line that reports an error of a running program. It begins with
/// a line feed.
pub open spec fn run_time_error_line(error: RunTimeErrorView) -> Seq<char> {
    "\n[line "@ + decimal(error.token.line as nat) + " Error: "@ + error.message + " ]"@
}

/// The digit that writes a number below ten.
fn digit_text(value: usize) -> (text: &'static str)
    requires
        value < 10,
    ensures
        text@ == seq![digit(value as nat)],
{
    proof {
        reveal_strlit("0");
        reveal_strlit("1");
        reveal_strlit("2");
        reveal_strlit("3");
        reveal_strlit("4");
        reveal_strlit("5");
        reveal_strlit("6");
        reveal_strlit("7");
        reveal_strlit("8");
        reveal_strlit("9");
    }
    let text = if value == 0 {
        "0"
    } else if value == 1 {
        "1"
    } else if value == 2 {
        "2"
    } else if value == 3 {
        "3"
    } else if value == 4 {
        "4"
    } else if value == 5 {
        "5"
    } else if value == 6 {
        "6"
    } else if value == 7 {
        "7"
    } else if value == 8 {
        "8"
    } else {
        "9"
    };
    assert(text@ =~= seq![digit(value as nat)]);
    text
}

/// Writes a number in decimal digits.
pub fn write_decimal(value: usize) -> (text: String)
    ensures
        text@ == decimal(value as nat),
    decreases value,
{
    if value < 10 {
        String::from_str(digit_text(value))
    } else {
        let mut text = write_decimal(value / 10);
        let ghost front = text@;
        text.append(digit_text(value % 10));
        assert(text@ =~= front.push(digit((value % 10) as nat)));
        text
    }
}

/// The views of a sequence of diagnostics, in order.
pub open spec fn error_views(errors: Seq<LoxError>) -> Seq<LoxErrorView> {
    errors.map_values(|error: LoxError| error@)
}

/// The place that a diagnostic names for a token: the end of the text for
/// the closing token, the token's own text for any other.
pub open spec fn token_location(token: TokenView) -> Seq<char> {
    if token.token_type == TokenType::EOF {
        " at end"@
    } else {
        " at '"@ + token.lexeme + "'"@
    }
}

impl LoxError {
    /// A diagnostic for a line as a whole.
    pub fn error(line: usize, message: String) -> (report: LoxError)
        ensures
            report@ == (LoxErrorView { line, location: Seq::empty(), message: message@ }),
    {
        LoxError { line, location: String::new(), message }
    }

    /// A diagnostic for one token.
    pub fn token_errro(token: &Token, message: String) -> (report: LoxError)
        ensures
            report@ == (LoxErrorView {
                line: token.line,
                location: token_location(token@),
                message: message@,
            }),
    {
        if token.token_type == TokenType::EOF {
            LoxError { line: token.line, location: String::from_str(" at end"), message }
        } else {
            let mut location = String::from_str(" at '");
            location.append(token.lexeme.as_str());
            location.append("'");
            LoxError { line: token.line, location, message }
        }
    }

    /// Notes that there was an error, and makes the line that reports
    /// it: the line number, the place and the message.
    pub fn report(line: usize, error_where: String, message: String, has_error: &mut bool) -> (text:
        String)
        ensures
            *final(has_error),
            text@ == report_line(line, error_where@, message@),
    {
        *has_error = true;
        let mut text = String::from_str("[line ");
        text.append(write_decimal(line).as_str());
        text.append("] Error ");
        text.append(error_where.as_str());
        text.append(" => ");
        text.append(message.as_str());
        text.append(" ");
        text
    }

    /// The line that reports this diagnostic.
    pub fn to_string(&self) -> (text: String)
        ensures
            text@ == report_line(self.line, self.location@, self.message@),
    {
        let mut flag = false;
        Self::report(self.line, self.location.clone(), self.message.clone(), &mut flag)
    }

    /// A copy of this diagnostic.
    pub fn duplicate(&self) -> (copy: LoxError)
        ensures
            copy == *self,
    {
        LoxError {
            line: self.line,
            location: self.location.clone(),
            message: self.message.clone(),
        }
    }
}

/// An error raised while a program runs: the token it is charged to, and
/// what went wrong.
#[derive(Debug, Clone, PartialEq)]
pub struct RunTimeError {
    pub token: Token,
    pub message: String,
}

pub struct RunTimeErrorView {
    pub token: TokenView,
    pub message: Seq<char>,
}

impl View for RunTimeError {
    type V = RunTimeErrorView;

    open spec fn view(&self) -> RunTimeErrorView {
        RunTimeErrorView { token: self.token@, message: self.message@ }
    }
}

impl RunTimeError {
    pub fn new(token: Token, message: String) -> (error: RunTimeError)
        ensures
            error == (RunTimeError { token, message }),
    {
        Self { token, message }
    }

    /// The line that reports this error.
    pub fn to_string(&self) -> (text: String)
        ensures
            text@ == run_time_error_line(self@),
    {
        let mut text = String::from_str("\n[line ");
        text.append(write_decimal(self.token.line).as_str());
        text.append(" Error: ");
        text.append(self.message.as_str());
        text.append(" ]");
        text
    }
}

} // verus!
