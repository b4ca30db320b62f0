use rlox::scanner::Scanner;
use rlox::token::Number;
use rlox::token::Token;
use rlox::token::TokenLiteral;
use rlox::token::TokenType;

fn scan(source: &str) -> (Vec<Token>, Vec<(usize, String)>, bool) {
    let mut scanner = Scanner::new(source.to_string());
    let tokens = scanner.scan_tokens();
    let errors = scanner
        .diagnostics()
        .into_iter()
        .map(|e| (e.line, e.message))
        .collect();
    (tokens, errors, scanner.had_error())
}

fn kinds(tokens: &[Token]) -> Vec<TokenType> {
    tokens.iter().map(|t| t.token_type).collect()
}

fn lexemes(tokens: &[Token]) -> Vec<String> {
    tokens.iter().map(|t| t.lexeme.clone()).collect()
}

#[test]
fn scans_a_sum() {
    let (tokens, errors, had_error) = scan("1 + 2");
    assert_eq!(
        kinds(&tokens),
        vec![TokenType::NUMBER, TokenType::PLUS, TokenType::NUMBER, TokenType::EOF]
    );
    assert_eq!(lexemes(&tokens), vec!["1", "+", "2", ""]);
    assert_eq!(
        tokens[0].literal,
        Some(TokenLiteral::Float(Number::Decimal("1".to_string())))
    );
    assert_eq!(tokens[1].literal, None);
    assert_eq!(
        tokens[2].literal,
        Some(TokenLiteral::Float(Number::Decimal("2".to_string())))
    );
    assert!(errors.is_empty());
    assert!(!had_error);
}

#[test]
fn empty_text_has_only_the_closing_token() {
    let (tokens, errors, _) = scan("");
    assert_eq!(
        tokens,
        vec![Token::new(TokenType::EOF, String::new(), None, 1)]
    );
    assert!(errors.is_empty());
}

#[test]
fn single_characters() {
    let (tokens, _, _) = scan("(){},.-+;*?:/");
    assert_eq!(
        kinds(&tokens),
        vec![
            TokenType::LEFTPAREN,
            TokenType::RIGHTPAREN,
            TokenType::LEFTBRACE,
            TokenType::RIGHTBRACE,
            TokenType::COMMA,
            TokenType::DOT,
            TokenType::MINUS,
            TokenType::PLUS,
            TokenType::SEMICOLON,
            TokenType::STAR,
            TokenType::QUESTION,
            TokenType::COLON,
            TokenType::SLASH,
            TokenType::EOF
        ]
    );
}

#[test]
fn operators_of_one_and_two_characters() {
    let (tokens, _, _) = scan("! != = == < <= > >= !== =");
    assert_eq!(
        kinds(&tokens),
        vec![
            TokenType::BANG,
            TokenType::BANGEQUAL,
            TokenType::EQUAL,
            TokenType::EQUALEQUAL,
            TokenType::LESS,
            TokenType::LESSEQUAL,
            TokenType::GREATER,
            TokenType::GREATEREQUAL,
            TokenType::BANGEQUAL,
            TokenType::EQUAL,
            TokenType::EQUAL,
            TokenType::EOF
        ]
    );
    assert_eq!(tokens[1].lexeme, "!=");
    assert_eq!(tokens[8].lexeme, "!=");
}

#[test]
fn numbers_with_and_without_fraction() {
    let (tokens, errors, _) = scan("12 3.25 7. .5 1.2.3");
    assert_eq!(
        lexemes(&tokens),
        vec!["12", "3.25", "7", ".", ".", "5", "1.2", ".", "3", ""]
    );
    assert_eq!(
        tokens[1].literal,
        Some(TokenLiteral::Float(Number::Decimal("3.25".to_string())))
    );
    assert_eq!(tokens[3].token_type, TokenType::DOT);
    assert_eq!(tokens[6].token_type, TokenType::NUMBER);
    assert!(errors.is_empty());
}

#[test]
fn strings_keep_their_text() {
    let (tokens, errors, _) = scan("\"hello world\" \"\"");
    assert_eq!(kinds(&tokens), vec![TokenType::STRING, TokenType::STRING, TokenType::EOF]);
    assert_eq!(tokens[0].lexeme, "\"hello world\"");
    assert_eq!(
        tokens[0].literal,
        Some(TokenLiteral::Text("hello world".to_string()))
    );
    assert_eq!(tokens[1].literal, Some(TokenLiteral::Text(String::new())));
    assert!(errors.is_empty());
}

#[test]
fn strings_have_no_escapes() {
    let (tokens, _, _) = scan("\"a\\n\"");
    assert_eq!(
        tokens[0].literal,
        Some(TokenLiteral::Text("a\\n".to_string()))
    );
}

#[test]
fn line_feeds_in_strings_count() {
    let (tokens, errors, _) = scan("\"a\nb\nc\" x");
    assert_eq!(tokens[0].token_type, TokenType::STRING);
    assert_eq!(tokens[0].line, 3);
    assert_eq!(tokens[1].line, 3);
    assert!(errors.is_empty());
}

#[test]
fn unterminated_string_is_reported() {
    let (tokens, errors, had_error) = scan("1 \"open\nstill");
    assert_eq!(kinds(&tokens), vec![TokenType::NUMBER, TokenType::EOF]);
    assert_eq!(errors, vec![(2, "Unterminated string.".to_string())]);
    assert!(had_error);
    assert_eq!(tokens[1].line, 2);
}

#[test]
fn unexpected_characters_are_reported_and_passed_over() {
    let (tokens, errors, had_error) = scan("1 @ 2\n# 3");
    assert_eq!(
        kinds(&tokens),
        vec![TokenType::NUMBER, TokenType::NUMBER, TokenType::NUMBER, TokenType::EOF]
    );
    assert_eq!(
        errors,
        vec![
            (1, "Unexpected character.".to_string()),
            (2, "Unexpected character.".to_string())
        ]
    );
    assert!(had_error);
}

#[test]
fn characters_outside_ascii_do_not_stop_the_scan() {
    let (tokens, errors, _) = scan("é \"ü\" x٣");
    assert_eq!(
        kinds(&tokens),
        vec![TokenType::STRING, TokenType::IDENTIFIER, TokenType::EOF]
    );
    assert_eq!(tokens[0].literal, Some(TokenLiteral::Text("ü".to_string())));
    assert_eq!(errors.len(), 2);
}

#[test]
fn words_are_keywords_or_identifiers() {
    let (tokens, _, _) = scan("and class else false fun for if nil or print return super this true var while break _x y1 andy Print");
    assert_eq!(
        kinds(&tokens),
        vec![
            TokenType::AND,
            TokenType::CLASS,
            TokenType::ELSE,
            TokenType::FALSE,
            TokenType::FUN,
            TokenType::FOR,
            TokenType::IF,
            TokenType::NIL,
            TokenType::OR,
            TokenType::PRINT,
            TokenType::RETURN,
            TokenType::SUPER,
            TokenType::THIS,
            TokenType::TRUE,
            TokenType::VAR,
            TokenType::WHILE,
            TokenType::BREAK,
            TokenType::IDENTIFIER,
            TokenType::IDENTIFIER,
            TokenType::IDENTIFIER,
            TokenType::IDENTIFIER,
            TokenType::EOF
        ]
    );
    assert_eq!(tokens[19].lexeme, "andy");
    assert_eq!(tokens[0].literal, None);
}

#[test]
fn line_comments_end_with_the_line() {
    let (tokens, errors, _) = scan("1 // two 2\n3 // no line feed");
    assert_eq!(lexemes(&tokens), vec!["1", "3", ""]);
    assert_eq!(tokens[1].line, 2);
    assert!(errors.is_empty());
}

#[test]
fn block_comments_end_with_star_slash() {
    let (tokens, errors, _) = scan("1 /* a / b * c \n d */ 2 /**/ 3 /*/ 4 */ 5");
    assert_eq!(lexemes(&tokens), vec!["1", "2", "3", "5", ""]);
    assert_eq!(tokens[1].line, 2);
    assert!(errors.is_empty());
}

#[test]
fn unterminated_block_comment_takes_the_rest() {
    let (tokens, errors, _) = scan("1 /* a \n b \n");
    assert_eq!(lexemes(&tokens), vec!["1", ""]);
    assert_eq!(tokens[1].line, 3);
    assert!(errors.is_empty());
}

#[test]
fn lines_are_counted_from_one() {
    let (tokens, _, _) = scan("a\n\nb\r\n c\n");
    assert_eq!(
        tokens.iter().map(|t| t.line).collect::<Vec<usize>>(),
        vec![1, 3, 4, 5]
    );
}

#[test]
fn there_is_one_closing_token_and_it_is_last() {
    for source in ["", "1", "\"open", "/* open", "a b c // d", "@@@"] {
        let (tokens, _, _) = scan(source);
        let count = tokens.iter().filter(|t| t.token_type == TokenType::EOF).count();
        assert_eq!(count, 1);
        assert_eq!(tokens.last().unwrap().token_type, TokenType::EOF);
    }
}
