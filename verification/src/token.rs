//! Tokens, their kinds, and the reserved words.

use vstd::prelude::*;
use vstd::string::StringExecFns;

verus! {

/// The kinds of token that the scanner produces.
#[allow(non_camel_case_types)]
#[derive(Debug, Clone, Copy, PartialEq, Eq, Structural)]
pub enum TokenType {
    // Single-character tokens.
    LEFTPAREN,
    RIGHTPAREN,
    LEFTBRACE,
    RIGHTBRACE,
    COMMA,
    DOT,
    MINUS,
    PLUS,
    SEMICOLON,
    SLASH,
    STAR,
    QUESTION,
    COLON,
    // One or two character tokens.
    BANG,
    BANGEQUAL,
    EQUAL,
    EQUALEQUAL,
    GREATER,
    GREATEREQUAL,
    LESS,
    LESSEQUAL,
    // Literals.
    IDENTIFIER,
    STRING,
    NUMBER,
    // Keywords.
    AND,
    BREAK,
    CLASS,
    ELSE,
    FALSE,
    FUN,
    FOR,
    IF,
    NIL,
    OR,
    PRINT,
    RETURN,
    SUPER,
    THIS,
    TRUE,
    VAR,
    WHILE,
    EOF,
}

/// The keyword that a piece of text spells, if it spells one.
pub open spec fn keyword_of(text: Seq<char>) -> Option<TokenType> {
    if text == "and"@ {
        Some(TokenType::AND)
    } else if text == "break"@ {
        Some(TokenType::BREAK)
    } else if text == "class"@ {
        Some(TokenType::CLASS)
    } else if text == "else"@ {
        Some(TokenType::ELSE)
    } else if text == "false"@ {
        Some(TokenType::FALSE)
    } else if text == "for"@ {
        Some(TokenType::FOR)
    } else if text == "fun"@ {
        Some(TokenType::FUN)
    } else if text == "if"@ {
        Some(TokenType::IF)
    } else if text == "nil"@ {
        Some(TokenType::NIL)
    } else if text == "or"@ {
        Some(TokenType::OR)
    } else if text == "print"@ {
        Some(TokenType::PRINT)
    } else if text == "return"@ {
        Some(TokenType::RETURN)
    } else if text == "super"@ {
        Some(TokenType::SUPER)
    } else if text == "this"@ {
        Some(TokenType::THIS)
    } else if text == "true"@ {
        Some(TokenType::TRUE)
    } else if text == "var"@ {
        Some(TokenType::VAR)
    } else if text == "while"@ {
        Some(TokenType::WHILE)
    } else {
        None
    }
}

/// Whether two pieces of text hold the same characters.
pub fn same_text(left: &str, right: &str) -> (same: bool)
    ensures
        same == (left@ == right@),
{
    let l = String::from_str(left);
    let r = String::from_str(right);
    l == r
}

/// Looks a word up in the table of reserved words.
pub fn parse_keyword(keyword: &str) -> (found: Option<TokenType>)
    ensures
        found == keyword_of(keyword@),
{
    if same_text(keyword, "and") {
        Some(TokenType::AND)
    } else if same_text(keyword, "break") {
        Some(TokenType::BREAK)
    } else if same_text(keyword, "class") {
        Some(TokenType::CLASS)
    } else if same_text(keyword, "else") {
        Some(TokenType::ELSE)
    } else if same_text(keyword, "false") {
        Some(TokenType::FALSE)
    } else if same_text(keyword, "for") {
        Some(TokenType::FOR)
    } else if same_text(keyword, "fun") {
        Some(TokenType::FUN)
    } else if same_text(keyword, "if") {
        Some(TokenType::IF)
    } else if same_text(keyword, "nil") {
        Some(TokenType::NIL)
    } else if same_text(keyword, "or") {
        Some(TokenType::OR)
    } else if same_text(keyword, "print") {
        Some(TokenType::PRINT)
    } else if same_text(keyword, "return") {
        Some(TokenType::RETURN)
    } else if same_text(keyword, "super") {
        Some(TokenType::SUPER)
    } else if same_text(keyword, "this") {
        Some(TokenType::THIS)
    } else if same_text(keyword, "true") {
        Some(TokenType::TRUE)
    } else if same_text(keyword, "var") {
        Some(TokenType::VAR)
    } else if same_text(keyword, "while") {
        Some(TokenType::WHILE)
    } else {
        None
    }
}

/// A number as the library holds it. The library never computes with
/// numbers itself: it carries them between the program text and the host,
/// which does the arithmetic in double precision.
#[derive(Debug, Clone, PartialEq)]
pub enum Number {
    /// The decimal numeral of a literal, as written in the program text.
    Decimal(String),
    /// The bit pattern of a double that the host has computed.
    Bits(u64),
}

pub enum NumberView {
    Decimal(Seq<char>),
    Bits(u64),
}

impl View for Number {
    type V = NumberView;

    open spec fn view(&self) -> NumberView {
        match self {
            Number::Decimal(text) => NumberView::Decimal(text@),
            Number::Bits(bits) => NumberView::Bits(*bits),
        }
    }
}

impl Number {
    /// A copy of this number.
    pub fn duplicate(&self) -> (copy: Number)
        ensures
            copy == *self,
    {
        match self {
            Number::Decimal(text) => Number::Decimal(text.clone()),
            Number::Bits(bits) => Number::Bits(*bits),
        }
    }
}

/// The value that a literal token carries.
#[derive(Debug, Clone, PartialEq)]
pub enum TokenLiteral {
    Float(Number),
    Text(String),
}

pub enum TokenLiteralView {
    Float(NumberView),
    Text(Seq<char>),
}

impl View for TokenLiteral {
    type V = TokenLiteralView;

    open spec fn view(&self) -> TokenLiteralView {
        match self {
            TokenLiteral::Float(number) => TokenLiteralView::Float(number@),
            TokenLiteral::Text(text) => TokenLiteralView::Text(text@),
        }
    }
}

impl TokenLiteral {
    /// A copy of this literal.
    pub fn duplicate(&self) -> (copy: TokenLiteral)
        ensures
            copy == *self,
    {
        match self {
            TokenLiteral::Float(number) => TokenLiteral::Float(number.duplicate()),
            TokenLiteral::Text(text) => TokenLiteral::Text(text.clone()),
        }
    }
}

/// One token of the program text.
#[derive(Debug, Clone, PartialEq)]
pub struct Token {
    pub lexeme: String,
    pub token_type: TokenType,
    pub literal: Option<TokenLiteral>,
    pub line: usize,
}

pub struct TokenView {
    pub lexeme: Seq<char>,
    pub token_type: TokenType,
    pub literal: Option<TokenLiteralView>,
    pub line: usize,
}

impl View for Token {
    type V = TokenView;

    open spec fn view(&self) -> TokenView {
        TokenView {
            lexeme: self.lexeme@,
            token_type: self.token_type,
            literal: match self.literal {
                Some(literal) => Some(literal@),
                None => None,
            },
            line: self.line,
        }
    }
}

/// The views of a sequence of tokens, in order.
pub open spec fn token_views(tokens: Seq<Token>) -> Seq<TokenView> {
    tokens.map_values(|token: Token| token@)
}

impl Token {
    pub fn new(token_type: TokenType, lexeme: String, literal: Option<TokenLiteral>, line: usize) -> (token: Token)
        ensures
            token == (Token { lexeme, token_type, literal, line }),
    {
        Token { lexeme, token_type, literal, line }
    }

    /// A copy of this token.
    pub fn duplicate(&self) -> (copy: Token)
        ensures
            copy == *self,
    {
        let literal = match &self.literal {
            Some(literal) => Some(literal.duplicate()),
            None => None,
        };
        Token { lexeme: self.lexeme.clone(), token_type: self.token_type, literal, line: self.line }
    }
}

} // verus!
