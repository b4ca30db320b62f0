use rlox::ast::expr::Expr;
use rlox::ast::expr::LiteralValue;
use rlox::interpreter::Interpreter;
use rlox::lox::Lox;
use rlox::lox_callable::LoxCallable;
use rlox::lox_callable::NativeFunction;
use rlox::stmt::Stmt;
use rlox::task::ControlFlow;
use rlox::task::Event;
use rlox::task::Request;
use rlox::token::Number;
use rlox::token::Token;
use rlox::token::TokenType;
use rlox::value::Value;

fn text(s: &str) -> Expr {
    Expr::literal(LiteralValue::String(s.to_string()))
}

/// Takes steps until the interpreter asks for something or has finished.
fn next_request(interpreter: &mut Interpreter, event: Event) -> Request {
    let mut event = event;
    for _ in 0..10_000 {
        match interpreter.step(event) {
            Request::Continue => event = Event::Resume,
            other => return other,
        }
    }
    panic!("no request");
}

#[test]
fn new_interpreter_has_nothing_to_do() {
    let mut interpreter = Interpreter::new();
    assert!(interpreter.is_finished());
    assert!(!interpreter.had_error());
    assert_eq!(interpreter.step(Event::Resume), Request::Finished);
    assert_eq!(interpreter.step(Event::Number(Number::Bits(1))), Request::Finished);
    assert!(interpreter.is_finished());
}

#[test]
fn break_statement_signals_break() {
    let interpreter = Interpreter::new();
    assert_eq!(interpreter.visit_break_stmt(), Ok(Some(ControlFlow::Break)));
}

#[test]
fn statements_run_in_order() {
    let mut interpreter = Interpreter::new();
    interpreter.interpret(vec![
        Stmt::print_stmt(text("first")),
        Stmt::print_stmt(text("second")),
    ]);
    assert!(!interpreter.is_finished());
    assert_eq!(
        next_request(&mut interpreter, Event::Resume),
        Request::Print("first".to_string())
    );
    assert_eq!(
        next_request(&mut interpreter, Event::Resume),
        Request::Print("second".to_string())
    );
    assert_eq!(next_request(&mut interpreter, Event::Resume), Request::Finished);
    assert!(interpreter.is_finished());
}

#[test]
fn a_statement_is_run_step_by_step() {
    let mut interpreter = Interpreter::new();
    assert_eq!(interpreter.execute(Stmt::print_stmt(text("x"))), Ok(None));
    assert_eq!(interpreter.step(Event::Resume), Request::Continue);
    assert_eq!(interpreter.step(Event::Resume), Request::Print("x".to_string()));
    assert_eq!(interpreter.step(Event::Resume), Request::Finished);
}

#[test]
fn break_and_return_statements_signal_at_once() {
    let mut interpreter = Interpreter::new();
    assert_eq!(interpreter.execute(Stmt::break_stmt()), Ok(Some(ControlFlow::Break)));
    let keyword = Token::new(TokenType::RETURN, "return".to_string(), None, 1);
    assert_eq!(
        interpreter.execute(Stmt::return_stmt(keyword, None)),
        Ok(Some(ControlFlow::Return(None)))
    );
    assert!(interpreter.is_finished());
}

#[test]
fn an_unknown_name_fails_at_once() {
    let mut interpreter = Interpreter::new();
    let name = Token::new(TokenType::IDENTIFIER, "a".to_string(), None, 5);
    let error = interpreter.evaluate(Expr::variable(name.duplicate())).unwrap_err();
    assert_eq!(error.message, "Undefined variable 'a'.");
    assert_eq!(error.token, name);
}

#[test]
fn error_is_noted_and_reported() {
    let mut interpreter = Interpreter::new();
    let name = Token::new(TokenType::IDENTIFIER, "a".to_string(), None, 5);
    interpreter.interpret(vec![
        Stmt::print_stmt(Expr::variable(name)),
        Stmt::print_stmt(text("next")),
    ]);
    match next_request(&mut interpreter, Event::Resume) {
        Request::Report(error) => {
            assert_eq!(error.message, "Undefined variable 'a'.");
            assert_eq!(error.token.line, 5);
        }
        other => panic!("no report: {:?}", other),
    }
    assert!(interpreter.had_error());
    assert_eq!(
        next_request(&mut interpreter, Event::Resume),
        Request::Print("next".to_string())
    );
}

#[test]
fn native_function_is_called_through_the_host() {
    let mut lox = Lox::new();
    lox.interpretor
        .define_native("clock".to_string(), NativeFunction::new(1, 0));
    lox.interpretor
        .define_native("twice".to_string(), NativeFunction::new(2, 1));
    assert!(lox.run("print clock; print twice(\"ab\", nil) + \"!\";".to_string()).is_empty());
    assert_eq!(
        next_request(&mut lox.interpretor, Event::Resume),
        Request::Print("<Native Function>".to_string())
    );
    match next_request(&mut lox.interpretor, Event::Resume) {
        Request::Call { function, arguments } => {
            assert_eq!(function, NativeFunction::new(2, 1));
            assert_eq!(arguments, vec![Value::String("ab".to_string()), Value::Nil]);
        }
        other => panic!("no call: {:?}", other),
    }
    assert_eq!(
        next_request(
            &mut lox.interpretor,
            Event::Returned(Ok(Value::String("abab".to_string())))
        ),
        Request::Print("abab!".to_string())
    );
    assert_eq!(next_request(&mut lox.interpretor, Event::Resume), Request::Finished);
}

#[test]
fn failure_of_a_native_function_is_an_error_of_the_call() {
    let mut lox = Lox::new();
    lox.interpretor
        .define_native("fail".to_string(), NativeFunction::new(3, 0));
    lox.run("1;\nprint fail(\n);\nprint \"on\";".to_string());
    match next_request(&mut lox.interpretor, Event::Resume) {
        Request::Call { function, arguments } => {
            assert_eq!(function.callable, 3);
            assert!(arguments.is_empty());
        }
        other => panic!("no call: {:?}", other),
    }
    match lox.resume(Event::Returned(Err("it failed".to_string()))) {
        Request::Report(error) => {
            assert_eq!(error.message, "it failed");
            assert_eq!(error.token.token_type, TokenType::RIGHTPAREN);
            assert_eq!(error.token.line, 3);
        }
        other => panic!("no report: {:?}", other),
    }
    assert!(lox.had_runtime_error);
    assert_eq!(
        next_request(&mut lox.interpretor, Event::Resume),
        Request::Print("on".to_string())
    );
}

#[test]
fn number_to_print_is_written_by_the_host() {
    let mut lox = Lox::new();
    lox.run("print 3;".to_string());
    assert_eq!(
        next_request(&mut lox.interpretor, Event::Resume),
        Request::Format(Number::Decimal("3".to_string()))
    );
    assert_eq!(
        next_request(&mut lox.interpretor, Event::Text("3.0".to_string())),
        Request::Print("3".to_string())
    );
}

#[test]
fn division_asks_for_the_divisor_first() {
    let mut lox = Lox::new();
    lox.run("6 / 3;".to_string());
    assert_eq!(
        next_request(&mut lox.interpretor, Event::Resume),
        Request::Compare {
            operator: rlox::task::ComparisonOp::Equal,
            left: Number::Decimal("3".to_string()),
            right: Number::Decimal("0".to_string())
        }
    );
    assert_eq!(
        next_request(&mut lox.interpretor, Event::Boolean(false)),
        Request::Arithmetic {
            operator: rlox::task::ArithmeticOp::Divide,
            left: Number::Decimal("6".to_string()),
            right: Number::Decimal("3".to_string())
        }
    );
    assert_eq!(
        next_request(&mut lox.interpretor, Event::Number(Number::Bits(2.0f64.to_bits()))),
        Request::Finished
    );
    assert!(!lox.had_runtime_error);
}

#[test]
fn new_lox_has_no_errors() {
    let lox = Lox::new();
    assert!(!lox.had_error);
    assert!(!lox.had_runtime_error);
    assert!(lox.interpretor.is_finished());
}

#[test]
fn diagnostics_set_the_flag() {
    let mut lox = Lox::new();
    let diagnostics = lox.run("print (1;".to_string());
    assert_eq!(diagnostics.len(), 1);
    assert_eq!(diagnostics[0].message, "Expect ')' after expression.");
    assert_eq!(diagnostics[0].location, " at ';'");
    assert_eq!(diagnostics[0].line, 1);
    assert!(lox.had_error);
    assert!(lox.interpretor.is_finished());
    assert!(lox.run("1;".to_string()).is_empty());
    assert!(lox.had_error);
}

#[test]
fn a_call_can_be_begun_by_hand() {
    let mut interpreter = Interpreter::new();
    let paren = Token::new(TokenType::RIGHTPAREN, ")".to_string(), None, 2);
    NativeFunction::new(9, 1).call(&mut interpreter, paren, vec![Value::Boolean(true)]);
    match interpreter.step(Event::Resume) {
        Request::Call { function, arguments } => {
            assert_eq!(function.callable, 9);
            assert_eq!(arguments, vec![Value::Boolean(true)]);
        }
        other => panic!("no call: {:?}", other),
    }
    assert_eq!(interpreter.step(Event::Returned(Ok(Value::Nil))), Request::Continue);
    assert_eq!(interpreter.step(Event::Resume), Request::Finished);
}

#[test]
fn steps_are_taken_up_to_a_request_or_a_limit() {
    let mut lox = Lox::new();
    lox.run("var i = 0; while (i != nil) { i = \"x\"; i = nil; } print \"end\";".to_string());
    assert_eq!(lox.advance(Event::Resume, 0), Request::Continue);
    assert_eq!(lox.advance(Event::Resume, 3), Request::Continue);
    assert!(!lox.interpretor.is_finished());
    assert_eq!(
        lox.advance(Event::Resume, 10_000),
        Request::Print("end".to_string())
    );
    assert_eq!(lox.advance(Event::Resume, 10_000), Request::Finished);
    assert_eq!(lox.interpretor.advance(Event::Resume, 5), Request::Finished);
    assert!(!lox.had_runtime_error);
}

#[test]
fn an_endless_loop_stops_at_the_limit() {
    let mut lox = Lox::new();
    lox.run("while (true) {}".to_string());
    for _ in 0..10 {
        assert_eq!(lox.advance(Event::Resume, 1000), Request::Continue);
    }
    assert!(!lox.interpretor.is_finished());
}
