//! Syntax errors.

use vstd::prelude::*;
use vstd::string::StringExecFns;

use crate::error::decimal;
use crate::error::write_decimal;
use crate::token::Token;
use crate::token::TokenView;

verus! {

/// A syntax error: the token at which the parser gave up, and why.
#[derive(Debug, Clone, PartialEq)]
pub struct ParserError {
    pub token: Token,
    pub message: String,
}

pub struct ParserErrorView {
    pub token: TokenView,
    pub message: Seq<char>,
}

impl View for ParserError {
    type V = ParserErrorView;

    open spec fn view(&self) -> ParserErrorView {
        ParserErrorView { token: self.token@, message: self.message@ }
    }
}

/// How a syntax error shows: the text of its token, the line, and the
/// message.
pub open spec fn parser_error_text(error: ParserErrorView) -> Seq<char> {
    "("@ + error.token.lexeme + ") line: "@ + decimal(error.token.line as nat) + " => ("@
        + error.message + ")"@
}

impl ParserError {
    pub fn new(token: Token, message: String) -> (error: ParserError)
        ensures
            error == (ParserError { token, message }),
    {
        Self { token, message }
    }

    /// How this error shows.
    pub fn to_string(&self) -> (text: String)
        ensures
            text@ == parser_error_text(self@),
    {
        let mut text = String::from_str("(");
        text.append(self.token.lexeme.as_str());
        text.append(") line: ");
        text.append(write_decimal(self.token.line).as_str());
        text.append(" => (");
        text.append(self.message.as_str());
        text.append(")");
        text
    }
}

} // verus!
