use rlox::error::LoxError;
use rlox::error::write_decimal;
use rlox::error::RunTimeError;
use rlox::lox::Lox;
use rlox::parser::error::ParserError;
use rlox::token::parse_keyword;
use rlox::token::same_text;
use rlox::token::Number;
use rlox::token::Token;
use rlox::token::TokenLiteral;
use rlox::token::TokenType;

#[test]
fn keywords_are_found() {
    assert_eq!(parse_keyword("and"), Some(TokenType::AND));
    assert_eq!(parse_keyword("break"), Some(TokenType::BREAK));
    assert_eq!(parse_keyword("class"), Some(TokenType::CLASS));
    assert_eq!(parse_keyword("else"), Some(TokenType::ELSE));
    assert_eq!(parse_keyword("false"), Some(TokenType::FALSE));
    assert_eq!(parse_keyword("for"), Some(TokenType::FOR));
    assert_eq!(parse_keyword("fun"), Some(TokenType::FUN));
    assert_eq!(parse_keyword("if"), Some(TokenType::IF));
    assert_eq!(parse_keyword("nil"), Some(TokenType::NIL));
    assert_eq!(parse_keyword("or"), Some(TokenType::OR));
    assert_eq!(parse_keyword("print"), Some(TokenType::PRINT));
    assert_eq!(parse_keyword("return"), Some(TokenType::RETURN));
    assert_eq!(parse_keyword("super"), Some(TokenType::SUPER));
    assert_eq!(parse_keyword("this"), Some(TokenType::THIS));
    assert_eq!(parse_keyword("true"), Some(TokenType::TRUE));
    assert_eq!(parse_keyword("var"), Some(TokenType::VAR));
    assert_eq!(parse_keyword("while"), Some(TokenType::WHILE));
}

#[test]
fn other_words_are_no_keywords() {
    assert_eq!(parse_keyword(""), None);
    assert_eq!(parse_keyword("And"), None);
    assert_eq!(parse_keyword("an"), None);
    assert_eq!(parse_keyword("andy"), None);
    assert_eq!(parse_keyword("x"), None);
    assert_eq!(parse_keyword("eof"), None);
}

#[test]
fn texts_are_compared_by_their_characters() {
    assert!(same_text("abc", "abc"));
    assert!(same_text("", ""));
    assert!(!same_text("abc", "abd"));
    assert!(!same_text("abc", "ab"));
}

#[test]
fn token_holds_what_it_was_made_of() {
    let token = Token::new(
        TokenType::NUMBER,
        "12".to_string(),
        Some(TokenLiteral::Float(Number::Decimal("12".to_string()))),
        4,
    );
    assert_eq!(token.token_type, TokenType::NUMBER);
    assert_eq!(token.lexeme, "12");
    assert_eq!(token.line, 4);
    assert_eq!(token.duplicate(), token);
}

#[test]
fn copies_are_equal() {
    let number = Number::Bits(7);
    assert_eq!(number.duplicate(), number);
    let text = TokenLiteral::Text("t".to_string());
    assert_eq!(text.duplicate(), text);
}

#[test]
fn diagnostic_for_a_line() {
    let error = LoxError::error(3, "Unexpected character.".to_string());
    assert_eq!(error.line, 3);
    assert_eq!(error.location, "");
    assert_eq!(error.message, "Unexpected character.");
    assert_eq!(error.duplicate(), error);
}

#[test]
fn diagnostic_for_a_token() {
    let token = Token::new(TokenType::IDENTIFIER, "abc".to_string(), None, 2);
    let error = LoxError::token_errro(&token, "Expect expression.".to_string());
    assert_eq!(error.line, 2);
    assert_eq!(error.location, " at 'abc'");
    assert_eq!(error.message, "Expect expression.");
}

#[test]
fn diagnostic_at_the_end() {
    let token = Token::new(TokenType::EOF, String::new(), None, 9);
    let error = LoxError::token_errro(&token, "Expect ';' after value.".to_string());
    assert_eq!(error.line, 9);
    assert_eq!(error.location, " at end");
}

#[test]
fn run_time_error_holds_token_and_message() {
    let token = Token::new(TokenType::SLASH, "/".to_string(), None, 1);
    let error = RunTimeError::new(token.duplicate(), "Can't divide by Zero".to_string());
    assert_eq!(error.token, token);
    assert_eq!(error.message, "Can't divide by Zero");
}

#[test]
fn numbers_are_written_in_decimal() {
    assert_eq!(write_decimal(0), "0");
    assert_eq!(write_decimal(7), "7");
    assert_eq!(write_decimal(10), "10");
    assert_eq!(write_decimal(1234567890), "1234567890");
    assert_eq!(write_decimal(usize::MAX), format!("{}", usize::MAX));
}

#[test]
fn report_of_a_diagnostic() {
    let mut flag = false;
    let line = LoxError::report(
        12,
        " at 'x'".to_string(),
        "Expect expression.".to_string(),
        &mut flag,
    );
    assert_eq!(line, "[line 12] Error  at 'x' => Expect expression. ");
    assert!(flag);
    let error = LoxError::error(3, "Unexpected character.".to_string());
    assert_eq!(error.to_string(), "[line 3] Error  => Unexpected character. ");
}

#[test]
fn report_of_a_run_time_error() {
    let token = Token::new(TokenType::SLASH, "/".to_string(), None, 41);
    let error = RunTimeError::new(token, "Can't divide by Zero".to_string());
    assert_eq!(error.to_string(), "\n[line 41 Error: Can't divide by Zero ]");
    assert_eq!(Lox::run_time_error(error), "\n[line 41 Error: Can't divide by Zero ]");
}

#[test]
fn syntax_error_as_text() {
    let token = Token::new(TokenType::IDENTIFIER, "abc".to_string(), None, 7);
    let error = ParserError::new(token, "Expect expression.".to_string());
    assert_eq!(error.to_string(), "(abc) line: 7 => (Expect expression.)");
}

#[test]
fn lines_that_end_a_session() {
    assert!(Lox::is_quit(""));
    assert!(Lox::is_quit("\r"));
    assert!(Lox::is_quit("exit\r"));
    assert!(!Lox::is_quit("exit"));
    assert!(!Lox::is_quit("print 1;"));
    assert!(!Lox::is_quit(" "));
}
