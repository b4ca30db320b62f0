use rlox::ast::expr::Expr;
use rlox::ast::expr::LiteralValue;
use rlox::parser::error::ParserError;
use rlox::parser::parser::Parser;
use rlox::scanner::Scanner;
use rlox::stmt::FunctionStmt;
use rlox::stmt::Stmt;
use rlox::token::Number;
use rlox::token::Token;
use rlox::token::TokenLiteral;
use rlox::token::TokenType;

fn parse(source: &str) -> (Vec<Stmt>, Vec<String>, bool) {
    let mut scanner = Scanner::new(source.to_string());
    let mut parser = Parser::new(scanner.scan_tokens());
    let statements = parser.parse();
    let errors = parser
        .diagnostics()
        .into_iter()
        .map(|e| format!("{}{}: {}", e.line, e.location, e.message))
        .collect();
    (statements, errors, parser.had_error())
}

fn token(token_type: TokenType, lexeme: &str) -> Token {
    Token::new(token_type, lexeme.to_string(), None, 1)
}

fn name(lexeme: &str) -> Token {
    token(TokenType::IDENTIFIER, lexeme)
}

fn number(text: &str) -> Expr {
    Expr::literal(LiteralValue::Number(Number::Decimal(text.to_string())))
}

fn variable(lexeme: &str) -> Expr {
    Expr::variable(name(lexeme))
}

#[test]
fn product_binds_tighter_than_sum() {
    let (statements, errors, had_error) = parse("1 + 2 * 3;");
    assert_eq!(
        statements,
        vec![Stmt::expresstion_stmt(Expr::binary(
            number("1"),
            token(TokenType::PLUS, "+"),
            Expr::binary(number("2"), token(TokenType::STAR, "*"), number("3")),
        ))]
    );
    assert!(errors.is_empty());
    assert!(!had_error);
}

#[test]
fn sums_nest_to_the_left() {
    let (statements, _, _) = parse("1 - 2 + 3;");
    assert_eq!(
        statements,
        vec![Stmt::expresstion_stmt(Expr::binary(
            Expr::binary(number("1"), token(TokenType::MINUS, "-"), number("2")),
            token(TokenType::PLUS, "+"),
            number("3"),
        ))]
    );
}

#[test]
fn factors_nest_to_the_right() {
    let (statements, _, _) = parse("8 / 4 / 2;");
    assert_eq!(
        statements,
        vec![Stmt::expresstion_stmt(Expr::binary(
            number("8"),
            token(TokenType::SLASH, "/"),
            Expr::binary(number("4"), token(TokenType::SLASH, "/"), number("2")),
        ))]
    );
}

#[test]
fn levels_of_precedence() {
    let (statements, errors, _) = parse("a or b and c == d < e + f * -g;");
    let product = Expr::binary(
        variable("f"),
        token(TokenType::STAR, "*"),
        Expr::unary(token(TokenType::MINUS, "-"), variable("g")),
    );
    let sum = Expr::binary(variable("e"), token(TokenType::PLUS, "+"), product);
    let less = Expr::binary(variable("d"), token(TokenType::LESS, "<"), sum);
    let equal = Expr::binary(variable("c"), token(TokenType::EQUALEQUAL, "=="), less);
    let both = Expr::logical(variable("b"), token(TokenType::AND, "and"), equal);
    let either = Expr::logical(variable("a"), token(TokenType::OR, "or"), both);
    assert_eq!(statements, vec![Stmt::expresstion_stmt(either)]);
    assert!(errors.is_empty());
}

#[test]
fn literals_and_grouping() {
    let (statements, _, _) = parse("(true); false; nil; \"s\"; 1.5;");
    assert_eq!(
        statements,
        vec![
            Stmt::expresstion_stmt(Expr::grouping(Expr::literal(LiteralValue::Boolean(true)))),
            Stmt::expresstion_stmt(Expr::literal(LiteralValue::Boolean(false))),
            Stmt::expresstion_stmt(Expr::literal(LiteralValue::Nil)),
            Stmt::expresstion_stmt(Expr::literal(LiteralValue::String("s".to_string()))),
            Stmt::expresstion_stmt(number("1.5")),
        ]
    );
}

#[test]
fn assignment_nests_to_the_right() {
    let (statements, errors, _) = parse("a = b = 1;");
    assert_eq!(
        statements,
        vec![Stmt::expresstion_stmt(Expr::assign(
            name("a"),
            Expr::assign(name("b"), number("1")),
        ))]
    );
    assert!(errors.is_empty());
}

#[test]
fn only_a_name_can_be_assigned_to() {
    let (statements, errors, had_error) = parse("a + b = 1;");
    assert!(statements.is_empty());
    assert_eq!(errors, vec!["1 at '=': Invalid assignment target."]);
    assert!(had_error);
    let (_, errors, _) = parse("(a) = 1;");
    assert_eq!(errors, vec!["1 at '=': Invalid assignment target."]);
}

#[test]
fn conditional_and_comma() {
    let (statements, errors, _) = parse("a ? 1 : 2; a, b;");
    assert_eq!(
        statements,
        vec![
            Stmt::expresstion_stmt(Expr::ternary(variable("a"), number("1"), number("2"))),
            Stmt::expresstion_stmt(Expr::separator(variable("a"), variable("b"))),
        ]
    );
    assert!(errors.is_empty());
}

#[test]
fn calls_chain_onto_the_callee() {
    let (statements, errors, _) = parse("f(1, a)();");
    let first = Expr::call(
        variable("f"),
        token(TokenType::RIGHTPAREN, ")"),
        vec![number("1"), variable("a")],
    );
    let second = Expr::call(first, token(TokenType::RIGHTPAREN, ")"), vec![]);
    assert_eq!(statements, vec![Stmt::expresstion_stmt(second)]);
    assert!(errors.is_empty());
}

#[test]
fn too_many_arguments_are_reported_and_read() {
    let mut source = String::from("f(");
    for i in 0..256 {
        if i > 0 {
            source.push_str(", ");
        }
        source.push_str("1");
    }
    source.push_str(");");
    let (statements, errors, had_error) = parse(&source);
    assert_eq!(errors, vec!["1 at '1': Can't have more than 255 arguments."]);
    assert!(had_error);
    assert_eq!(statements.len(), 1);
    match &statements[0].expresstion {
        rlox::stmt::StmtExpr::Expresstion(Expr::Call(call)) => {
            assert_eq!(call.arguments.len(), 256)
        }
        other => panic!("no call: {:?}", other),
    }
}

#[test]
fn as_many_arguments_as_allowed() {
    let mut source = String::from("f(");
    for i in 0..255 {
        if i > 0 {
            source.push_str(", ");
        }
        source.push_str("1");
    }
    source.push_str(");");
    let (statements, errors, _) = parse(&source);
    assert!(errors.is_empty());
    assert_eq!(statements.len(), 1);
}

#[test]
fn too_many_parameters_are_reported_and_read() {
    let mut source = String::from("fun f(");
    for i in 0..256 {
        if i > 0 {
            source.push_str(", ");
        }
        source.push_str(&format!("p{}", i));
    }
    source.push_str(") {}");
    let (statements, errors, _) = parse(&source);
    assert_eq!(errors, vec!["1 at 'p255': Can't have more than 255 parameters."]);
    assert_eq!(statements.len(), 1);
}

#[test]
fn statements() {
    let (statements, errors, _) = parse("print 1; var a; var b = 2; { a; } break; return; return 1;");
    let keyword = token(TokenType::RETURN, "return");
    assert_eq!(
        statements,
        vec![
            Stmt::print_stmt(number("1")),
            Stmt::var_stmt(name("a"), None),
            Stmt::var_stmt(name("b"), Some(number("2"))),
            Stmt::block_stmt(vec![Stmt::expresstion_stmt(variable("a"))]),
            Stmt::break_stmt(),
            Stmt::return_stmt(keyword.duplicate(), None),
            Stmt::return_stmt(keyword, Some(number("1"))),
        ]
    );
    assert!(errors.is_empty());
}

#[test]
fn if_and_while() {
    let (statements, errors, _) = parse("if (a) print 1; else print 2; if (b) 3; while (c) { }");
    assert_eq!(
        statements,
        vec![
            Stmt::if_stmt(
                variable("a"),
                Box::new(Stmt::print_stmt(number("1"))),
                Some(Box::new(Stmt::print_stmt(number("2")))),
            ),
            Stmt::if_stmt(
                variable("b"),
                Box::new(Stmt::expresstion_stmt(number("3"))),
                None,
            ),
            Stmt::while_stmt(variable("c"), Stmt::block_stmt(vec![])),
        ]
    );
    assert!(errors.is_empty());
}

#[test]
fn else_belongs_to_the_nearest_if() {
    let (statements, _, _) = parse("if (a) if (b) 1; else 2;");
    assert_eq!(
        statements,
        vec![Stmt::if_stmt(
            variable("a"),
            Box::new(Stmt::if_stmt(
                variable("b"),
                Box::new(Stmt::expresstion_stmt(number("1"))),
                Some(Box::new(Stmt::expresstion_stmt(number("2")))),
            )),
            None,
        )]
    );
}

#[test]
fn for_is_a_while_in_a_block() {
    let (statements, errors, _) = parse("for (var i = 0; i < 3; i = i + 1) print i;");
    let initializer = Stmt::var_stmt(name("i"), Some(number("0")));
    let condition = Expr::binary(variable("i"), token(TokenType::LESS, "<"), number("3"));
    let increment = Expr::assign(
        name("i"),
        Expr::binary(variable("i"), token(TokenType::PLUS, "+"), number("1")),
    );
    let body = Stmt::block_stmt(vec![
        Stmt::print_stmt(variable("i")),
        Stmt::expresstion_stmt(increment),
    ]);
    assert_eq!(
        statements,
        vec![Stmt::block_stmt(vec![
            initializer,
            Stmt::while_stmt(condition, body),
        ])]
    );
    assert!(errors.is_empty());
}

#[test]
fn for_without_clauses_loops_on_true() {
    let (statements, errors, _) = parse("for (;;) break;");
    assert_eq!(
        statements,
        vec![Stmt::block_stmt(vec![Stmt::while_stmt(
            Expr::literal(LiteralValue::Boolean(true)),
            Stmt::block_stmt(vec![Stmt::break_stmt()]),
        )])]
    );
    assert!(errors.is_empty());
}

#[test]
fn for_with_an_expression_as_initializer() {
    let (statements, errors, _) = parse("for (i = 0; ; ) 1;");
    assert_eq!(
        statements,
        vec![Stmt::block_stmt(vec![
            Stmt::expresstion_stmt(Expr::assign(name("i"), number("0"))),
            Stmt::while_stmt(
                Expr::literal(LiteralValue::Boolean(true)),
                Stmt::block_stmt(vec![Stmt::expresstion_stmt(number("1"))]),
            ),
        ])]
    );
    assert!(errors.is_empty());
}

#[test]
fn function_declaration() {
    let (statements, errors, _) = parse("fun add(a, b) { return a + b; }");
    let declaration = FunctionStmt {
        name: name("add"),
        params: vec![name("a"), name("b")],
        body: vec![Stmt::return_stmt(
            token(TokenType::RETURN, "return"),
            Some(Expr::binary(variable("a"), token(TokenType::PLUS, "+"), variable("b"))),
        )],
    };
    assert_eq!(statements, vec![Stmt::function_stmt(declaration)]);
    assert!(errors.is_empty());
}

#[test]
fn messages_of_syntax_errors() {
    let cases = [
        ("print 1", "1 at end: Expect ';' after value."),
        ("1", "1 at end: Expect ';' after expression."),
        ("var a = 1", "1 at end: Expect ';' after variable declaration."),
        ("(1;", "1 at ';': Expect ')' after expression."),
        ("+;", "1 at '+': Expect expression."),
        ("", ""),
        ("a ? 1;", "1 at ';': Expect ')' after expression."),
        ("{ 1;", "1 at end: Expect '}' after block."),
        ("if 1) 2;", "1 at '1': Expect '(' after 'if'."),
        ("if (1 2;", "1 at '2': Expect ')' after if condition."),
        ("while 1) 2;", "1 at '1': Expect '(' after 'while'."),
        ("while (1 2;", "1 at '2': Expect ')' after condition."),
        ("for 1;;) 2;", "1 at '1': Expect '(' after 'for'."),
        ("for (;1 2) 2;", "1 at '2': Expect ';' after loop condition."),
        ("for (;;1 2;", "1 at '2': Expect ')' after for clauses."),
        ("fun 1() {}", "1 at '1': Expect function name."),
        ("fun f {}", "1 at '{': Expect '(' after function name."),
        ("fun f(1) {}", "1 at '1': Expect parameter name."),
        ("fun f(a {}", "1 at '{': Expect ')' after parameters."),
        ("fun f() 1;", "1 at '1': Expect '{' before function body."),
        ("return 1", "1 at end: Expect ';' after return value."),
        ("break", "1 at end: Expect ';' after 'break'."),
        ("f(1;", "1 at ';': Expect ')' after arguments."),
    ];
    for (source, expected) in cases {
        let (_, errors, had_error) = parse(source);
        if expected.is_empty() {
            assert!(errors.is_empty());
            assert!(!had_error);
        } else {
            assert_eq!(errors, vec![expected], "for {}", source);
            assert!(had_error);
        }
    }
}

#[test]
fn missing_name_of_a_variable_is_reported_first() {
    let (statements, errors, _) = parse("var = 1 print;");
    assert!(statements.is_empty());
    assert_eq!(
        errors,
        vec![
            "1 at '=': Expect variable name.",
            "1 at 'print': Expect ';' after variable declaration."
        ]
    );
}

#[test]
fn first_error_outside_a_block_ends_the_reading() {
    let (statements, errors, _) = parse("1; 2 3; 4; +;");
    assert_eq!(statements, vec![Stmt::expresstion_stmt(number("1"))]);
    assert_eq!(errors, vec!["1 at '3': Expect ';' after expression."]);
}

#[test]
fn errors_in_a_block_are_passed_over() {
    let (statements, errors, _) = parse("{ 1; 2 3; 4; + 5; print 6; }\n7;");
    assert_eq!(
        statements,
        vec![
            Stmt::block_stmt(vec![
                Stmt::expresstion_stmt(number("1")),
                Stmt::expresstion_stmt(number("4")),
                Stmt::print_stmt(number("6")),
            ]),
            Stmt::expresstion_stmt(number("7")),
        ]
    );
    assert_eq!(
        errors,
        vec![
            "1 at '3': Expect ';' after expression.",
            "1 at '+': Expect expression."
        ]
    );
}

#[test]
fn skipping_stops_in_front_of_a_statement() {
    let (statements, errors, _) = parse("{ 1 2 print 3; }");
    assert_eq!(
        statements,
        vec![Stmt::block_stmt(vec![Stmt::print_stmt(number("3"))])]
    );
    assert_eq!(errors, vec!["1 at '2': Expect ';' after expression."]);
}

#[test]
fn tokens_without_the_closing_token_are_read_too() {
    let tokens = vec![
        Token::new(
            TokenType::NUMBER,
            "1".to_string(),
            Some(TokenLiteral::Float(Number::Decimal("1".to_string()))),
            1,
        ),
        Token::new(TokenType::SEMICOLON, ";".to_string(), None, 1),
    ];
    let mut parser = Parser::new(tokens);
    assert_eq!(parser.parse(), vec![Stmt::expresstion_stmt(number("1"))]);
    assert!(!parser.had_error());
    let mut empty = Parser::new(vec![]);
    assert!(empty.parse().is_empty());
    assert!(!empty.had_error());
}

#[test]
fn a_literal_token_without_a_value_is_no_expression() {
    let tokens = vec![
        Token::new(TokenType::NUMBER, "1".to_string(), None, 1),
        Token::new(TokenType::SEMICOLON, ";".to_string(), None, 1),
    ];
    let mut parser = Parser::new(tokens);
    assert!(parser.parse().is_empty());
    assert_eq!(parser.diagnostics()[0].message, "Expect expression.");
}

#[test]
fn parsing_twice_gives_the_same_statements() {
    let source = "fun f(a) { for (var i = 0; i < a; i = i + 1) { if (i == 2) break; print i ? 1 : 2; } return f(a - 1)(2), 3; }";
    let (first, first_errors, _) = parse(source);
    let (second, second_errors, _) = parse(source);
    assert_eq!(first, second);
    assert_eq!(first_errors, second_errors);
    assert_eq!(first.len(), 1);
}

#[test]
fn parser_error_holds_token_and_message() {
    let error = ParserError::new(name("x"), "Expect expression.".to_string());
    assert_eq!(error.token, name("x"));
    assert_eq!(error.message, "Expect expression.");
}

#[test]
fn copies_of_trees_are_equal() {
    let (statements, _, _) = parse("fun f(a) { while (a) { print f(a, 1)(2) ? -a : (a = 3, nil or true); } }");
    assert_eq!(statements[0].duplicate(), statements[0]);
}
