use std::rc::Rc;

use rlox::ast::expr::LiteralValue;
use rlox::lox_callable::Callable;
use rlox::lox_callable::LoxCallable;
use rlox::lox_callable::NativeFunction;
use rlox::lox_function::LoxFunction;
use rlox::operators::binary_operation;
use rlox::operators::is_equal;
use rlox::operators::is_truthy;
use rlox::operators::request;
use rlox::operators::resume;
use rlox::operators;
use rlox::operators::unary_operation;
use rlox::operators::Answer;
use rlox::operators::Operation;
use rlox::stmt::FunctionStmt;
use rlox::task::ArithmeticOp;
use rlox::task::ComparisonOp;
use rlox::task::Event;
use rlox::task::Pending;
use rlox::task::Request;
use rlox::token::Number;
use rlox::token::Token;
use rlox::token::TokenType;
use rlox::value::duplicate_values;
use rlox::value::trim_digits;
use rlox::value::Value;

fn operator(token_type: TokenType, lexeme: &str) -> Token {
    Token::new(token_type, lexeme.to_string(), None, 1)
}

fn number(text: &str) -> Number {
    Number::Decimal(text.to_string())
}

fn text(s: &str) -> Value {
    Value::String(s.to_string())
}

fn function(name: &str, params: usize) -> LoxFunction {
    let declaration = FunctionStmt {
        name: operator(TokenType::IDENTIFIER, name),
        params: (0..params)
            .map(|i| operator(TokenType::IDENTIFIER, &format!("p{}", i)))
            .collect(),
        body: vec![],
    };
    LoxFunction::new(Rc::new(declaration), 0)
}

#[test]
fn integral_number_shows_without_fraction() {
    let three = Value::Number(Number::Bits(3.0f64.to_bits()));
    assert_eq!(operators::stringify(&three, &format!("{}", 3.0f64)), "3");
    assert_eq!(operators::stringify(&three, "3.0"), "3");
    let half = Value::Number(Number::Bits(3.5f64.to_bits()));
    assert_eq!(operators::stringify(&half, &format!("{}", 3.5f64)), "3.5");
    assert_eq!(operators::stringify(&half, &format!("{}", -0.5f64)), "-0.5");
    assert_eq!(operators::stringify(&half, &format!("{}", 100.0f64)), "100");
}

#[test]
fn trailing_point_zero_is_dropped() {
    assert_eq!(trim_digits("3.0"), "3");
    assert_eq!(trim_digits("3.50"), "3.50");
    assert_eq!(trim_digits("30"), "30");
    assert_eq!(trim_digits(".0"), "");
    assert_eq!(trim_digits("0"), "0");
    assert_eq!(trim_digits(""), "");
    assert_eq!(trim_digits("1.0.0"), "1.0");
}

#[test]
fn values_show_as_they_print() {
    assert_eq!(operators::stringify(&text("a b"), ""), "a b");
    assert_eq!(operators::stringify(&text("3.0"), "9"), "3.0");
    assert_eq!(operators::stringify(&Value::Boolean(true), ""), "true");
    assert_eq!(operators::stringify(&Value::Boolean(false), ""), "false");
    assert_eq!(operators::stringify(&Value::Nil, ""), "Nil");
    assert_eq!(
        operators::stringify(&Value::Callable(Callable::Function(function("add", 2))), ""),
        "<fn add>"
    );
    assert_eq!(
        operators::stringify(&Value::Callable(Callable::Native(NativeFunction::new(1, 0))), ""),
        "<Native Function>"
    );
}

#[test]
fn callables_have_arity_and_text() {
    let f = function("f", 3);
    assert_eq!(f.arity(), 3);
    assert_eq!(f.to_string(), "<fn f>");
    assert_eq!(f.closure, 0);
    let n = NativeFunction::new(7, 2);
    assert_eq!(n.arity(), 2);
    assert_eq!(n.callable, 7);
    assert_eq!(n.to_string(), "<Native Function>");
    assert_eq!(Callable::Function(function("g", 1)).arity(), 1);
    assert_eq!(Callable::Native(n).arity(), 2);
    assert_eq!(Callable::Native(n).to_string(), "<Native Function>");
    assert_eq!(f.duplicate(), f);
}

#[test]
fn literal_becomes_value() {
    assert_eq!(Value::from_literal(LiteralValue::Nil), Value::Nil);
    assert_eq!(Value::from_literal(LiteralValue::Boolean(true)), Value::Boolean(true));
    assert_eq!(Value::from_literal(LiteralValue::String("s".to_string())), text("s"));
    assert_eq!(
        Value::from_literal(LiteralValue::Number(number("1.5"))),
        Value::Number(number("1.5"))
    );
}

#[test]
fn copies_of_values_are_equal() {
    let values = vec![
        Value::Nil,
        text("s"),
        Value::Number(Number::Bits(5)),
        Value::Callable(Callable::Function(function("f", 1))),
    ];
    assert_eq!(duplicate_values(&values), values);
}

#[test]
fn truth_of_values() {
    assert!(!is_truthy(&Value::Nil));
    assert!(!is_truthy(&Value::Boolean(false)));
    assert!(is_truthy(&Value::Boolean(true)));
    assert!(is_truthy(&Value::Number(number("0"))));
    assert!(is_truthy(&text("")));
    assert!(is_truthy(&Value::Callable(Callable::Native(NativeFunction::new(0, 0)))));
}

#[test]
fn equality_of_values() {
    assert!(is_equal(&Value::Nil, &Value::Nil));
    assert!(is_equal(&text("a"), &text("a")));
    assert!(!is_equal(&text("a"), &text("b")));
    assert!(is_equal(&Value::Boolean(false), &Value::Boolean(false)));
    assert!(!is_equal(&Value::Boolean(false), &Value::Boolean(true)));
    assert!(!is_equal(&Value::Nil, &Value::Boolean(false)));
    assert!(!is_equal(&text("1"), &Value::Number(number("1"))));
    assert!(!is_equal(&text("nil"), &Value::Nil));
}

#[test]
fn unary_operators() {
    assert_eq!(
        unary_operation(TokenType::MINUS, Value::Number(number("2"))),
        Operation::Wait(Pending::Negate { operand: number("2") })
    );
    assert_eq!(
        unary_operation(TokenType::MINUS, text("2")),
        Operation::Failure("Expected a number".to_string())
    );
    assert_eq!(
        unary_operation(TokenType::BANG, Value::Nil),
        Operation::Value(Value::Boolean(true))
    );
    assert_eq!(
        unary_operation(TokenType::BANG, text("x")),
        Operation::Value(Value::Boolean(false))
    );
    assert_eq!(
        unary_operation(TokenType::PLUS, Value::Number(number("2"))),
        Operation::Failure("Unexpected operator".to_string())
    );
}

#[test]
fn binary_operators_on_numbers() {
    let l = || Value::Number(number("6"));
    let r = || Value::Number(number("3"));
    let arithmetic = [
        (TokenType::PLUS, "+", ArithmeticOp::Add),
        (TokenType::MINUS, "-", ArithmeticOp::Subtract),
        (TokenType::STAR, "*", ArithmeticOp::Multiply),
    ];
    for (kind, lexeme, op) in arithmetic {
        assert_eq!(
            binary_operation(&operator(kind, lexeme), l(), r()),
            Operation::Wait(Pending::Arithmetic {
                operator: op,
                left: number("6"),
                right: number("3")
            })
        );
    }
    let comparisons = [
        (TokenType::GREATER, ">", ComparisonOp::Greater),
        (TokenType::GREATEREQUAL, ">=", ComparisonOp::GreaterEqual),
        (TokenType::LESS, "<", ComparisonOp::Less),
        (TokenType::LESSEQUAL, "<=", ComparisonOp::LessEqual),
        (TokenType::EQUALEQUAL, "==", ComparisonOp::Equal),
        (TokenType::BANGEQUAL, "!=", ComparisonOp::NotEqual),
    ];
    for (kind, lexeme, op) in comparisons {
        assert_eq!(
            binary_operation(&operator(kind, lexeme), l(), r()),
            Operation::Wait(Pending::Compare {
                operator: op,
                left: number("6"),
                right: number("3")
            })
        );
    }
    assert_eq!(
        binary_operation(&operator(TokenType::SLASH, "/"), l(), r()),
        Operation::Wait(Pending::Divide {
            operator: operator(TokenType::SLASH, "/"),
            left: number("6"),
            right: number("3")
        })
    );
    assert_eq!(
        binary_operation(&operator(TokenType::EQUAL, "="), l(), r()),
        Operation::Failure("Unexpected operator".to_string())
    );
}

#[test]
fn binary_operators_on_texts() {
    assert_eq!(
        binary_operation(&operator(TokenType::PLUS, "+"), text("ab"), text("cd")),
        Operation::Value(text("abcd"))
    );
    assert_eq!(
        binary_operation(&operator(TokenType::EQUALEQUAL, "=="), text("ab"), text("ab")),
        Operation::Value(Value::Boolean(true))
    );
    assert_eq!(
        binary_operation(&operator(TokenType::BANGEQUAL, "!="), text("ab"), text("ab")),
        Operation::Value(Value::Boolean(false))
    );
    assert_eq!(
        binary_operation(&operator(TokenType::MINUS, "-"), text("ab"), text("cd")),
        Operation::Failure("Unexpected operator".to_string())
    );
    assert_eq!(
        binary_operation(&operator(TokenType::LESS, "<"), text("ab"), text("cd")),
        Operation::Failure("Unexpected operator".to_string())
    );
}

#[test]
fn binary_operators_on_text_and_number() {
    let plus = operator(TokenType::PLUS, "+");
    assert_eq!(
        binary_operation(&plus, text("n"), Value::Number(number("1"))),
        Operation::Wait(Pending::Concat { text: "n".to_string(), number: number("1") })
    );
    assert_eq!(
        binary_operation(&plus, Value::Number(number("1")), text("n")),
        Operation::Wait(Pending::Concat { text: "n".to_string(), number: number("1") })
    );
    assert_eq!(
        binary_operation(&operator(TokenType::EQUALEQUAL, "=="), text("a"), Value::Number(number("1"))),
        Operation::Value(Value::Boolean(false))
    );
    assert_eq!(
        binary_operation(&operator(TokenType::BANGEQUAL, "!="), Value::Number(number("1")), text("a")),
        Operation::Value(Value::Boolean(true))
    );
    assert_eq!(
        binary_operation(&operator(TokenType::STAR, "*"), text("a"), Value::Number(number("1"))),
        Operation::Failure("Unexpected operator".to_string())
    );
}

#[test]
fn binary_operators_on_other_values() {
    assert_eq!(
        binary_operation(&operator(TokenType::EQUALEQUAL, "=="), Value::Nil, Value::Nil),
        Operation::Value(Value::Boolean(true))
    );
    assert_eq!(
        binary_operation(&operator(TokenType::BANGEQUAL, "!="), Value::Nil, Value::Boolean(false)),
        Operation::Value(Value::Boolean(true))
    );
    assert_eq!(
        binary_operation(&operator(TokenType::PLUS, "+"), Value::Nil, Value::Number(number("1"))),
        Operation::Failure("Unexpected operator".to_string())
    );
    assert_eq!(
        binary_operation(&operator(TokenType::PLUS, "+"), Value::Boolean(true), Value::Boolean(true)),
        Operation::Failure("Unexpected operator".to_string())
    );
}

#[test]
fn requests_of_pending_work() {
    assert_eq!(
        request(&Pending::Arithmetic {
            operator: ArithmeticOp::Add,
            left: number("1"),
            right: number("2")
        }),
        Request::Arithmetic { operator: ArithmeticOp::Add, left: number("1"), right: number("2") }
    );
    assert_eq!(
        request(&Pending::Negate { operand: number("1") }),
        Request::Negate(number("1"))
    );
    assert_eq!(
        request(&Pending::Divide {
            operator: operator(TokenType::SLASH, "/"),
            left: number("1"),
            right: number("2")
        }),
        Request::Compare { operator: ComparisonOp::Equal, left: number("2"), right: number("0") }
    );
    assert_eq!(
        request(&Pending::Concat { text: "a".to_string(), number: number("2") }),
        Request::Format(number("2"))
    );
    assert_eq!(request(&Pending::Show { number: number("2") }), Request::Format(number("2")));
    assert_eq!(
        request(&Pending::Native {
            function: NativeFunction::new(4, 1),
            paren: operator(TokenType::RIGHTPAREN, ")"),
            arguments: vec![Value::Nil]
        }),
        Request::Call { function: NativeFunction::new(4, 1), arguments: vec![Value::Nil] }
    );
}

#[test]
fn answers_to_pending_work() {
    let sum = || Pending::Arithmetic {
        operator: ArithmeticOp::Add,
        left: number("1"),
        right: number("2"),
    };
    assert_eq!(
        resume(sum(), Event::Number(Number::Bits(9))),
        Answer::Value(Value::Number(Number::Bits(9)))
    );
    assert_eq!(resume(sum(), Event::Resume), Answer::Unanswered(sum()));
    assert_eq!(resume(sum(), Event::Boolean(true)), Answer::Unanswered(sum()));
    assert_eq!(
        resume(
            Pending::Compare { operator: ComparisonOp::Less, left: number("1"), right: number("2") },
            Event::Boolean(true)
        ),
        Answer::Value(Value::Boolean(true))
    );
    let division = || Pending::Divide {
        operator: operator(TokenType::SLASH, "/"),
        left: number("1"),
        right: number("0"),
    };
    match resume(division(), Event::Boolean(true)) {
        Answer::Failure(error) => {
            assert_eq!(error.message, "Can't divide by Zero");
            assert_eq!(error.token, operator(TokenType::SLASH, "/"));
        }
        other => panic!("no failure: {:?}", other),
    }
    assert_eq!(
        resume(division(), Event::Boolean(false)),
        Answer::Wait(Pending::Arithmetic {
            operator: ArithmeticOp::Divide,
            left: number("1"),
            right: number("0")
        })
    );
    assert_eq!(
        resume(
            Pending::Concat { text: "n=".to_string(), number: number("1") },
            Event::Text("1".to_string())
        ),
        Answer::Value(text("n=1"))
    );
    assert_eq!(
        resume(Pending::Show { number: number("3.0") }, Event::Text("3.0".to_string())),
        Answer::Print("3".to_string())
    );
    let call = || Pending::Native {
        function: NativeFunction::new(1, 0),
        paren: operator(TokenType::RIGHTPAREN, ")"),
        arguments: vec![],
    };
    assert_eq!(resume(call(), Event::Returned(Ok(text("r")))), Answer::Value(text("r")));
    match resume(call(), Event::Returned(Err("failed".to_string()))) {
        Answer::Failure(error) => {
            assert_eq!(error.message, "failed");
            assert_eq!(error.token.token_type, TokenType::RIGHTPAREN);
        }
        other => panic!("no failure: {:?}", other),
    }
}
