use rlox::lox::Lox;
use rlox::task::ArithmeticOp;
use rlox::task::ComparisonOp;
use rlox::task::Event;
use rlox::task::Request;
use rlox::token::Number;

/// What a run of a program leaves behind.
struct Run {
    output: Vec<String>,
    errors: Vec<String>,
    error_lines: Vec<usize>,
    diagnostics: Vec<String>,
    had_error: bool,
    had_runtime_error: bool,
}

fn double(number: &Number) -> f64 {
    match number {
        Number::Decimal(text) => text.parse().unwrap(),
        Number::Bits(bits) => f64::from_bits(*bits),
    }
}

fn bits(value: f64) -> Number {
    Number::Bits(value.to_bits())
}

/// Answers a request as a host does, and notes what was printed and
/// reported. Hands back the event for the next step, or nothing when the
/// program has finished.
fn serve(request: Request, run: &mut Run) -> Option<Event> {
    match request {
        Request::Finished => None,
        Request::Continue => Some(Event::Resume),
        Request::Print(line) => {
            run.output.push(line);
            Some(Event::Resume)
        }
        Request::Report(error) => {
            run.errors.push(error.message);
            run.error_lines.push(error.token.line);
            Some(Event::Resume)
        }
        Request::Arithmetic { operator, left, right } => {
            let (l, r) = (double(&left), double(&right));
            let result = match operator {
                ArithmeticOp::Add => l + r,
                ArithmeticOp::Subtract => l - r,
                ArithmeticOp::Multiply => l * r,
                ArithmeticOp::Divide => l / r,
            };
            Some(Event::Number(bits(result)))
        }
        Request::Negate(number) => Some(Event::Number(bits(-double(&number)))),
        Request::Compare { operator, left, right } => {
            let (l, r) = (double(&left), double(&right));
            let result = match operator {
                ComparisonOp::Greater => l > r,
                ComparisonOp::GreaterEqual => l >= r,
                ComparisonOp::Less => l < r,
                ComparisonOp::LessEqual => l <= r,
                ComparisonOp::Equal => l == r,
                ComparisonOp::NotEqual => l != r,
            };
            Some(Event::Boolean(result))
        }
        Request::Format(number) => Some(Event::Text(format!("{}", double(&number)))),
        Request::Call { .. } => Some(Event::Returned(Err("no such function".to_string()))),
    }
}

fn run_in(lox: &mut Lox, source: &str) -> Run {
    let mut run = Run {
        output: vec![],
        errors: vec![],
        error_lines: vec![],
        diagnostics: vec![],
        had_error: false,
        had_runtime_error: false,
    };
    for diagnostic in lox.run(source.to_string()) {
        run.diagnostics.push(diagnostic.message);
    }
    let mut event = Event::Resume;
    let mut steps = 0;
    loop {
        steps += 1;
        assert!(steps < 1_000_000, "the program does not end");
        match serve(lox.resume(event), &mut run) {
            Some(next) => event = next,
            None => break,
        }
    }
    run.had_error = lox.had_error;
    run.had_runtime_error = lox.had_runtime_error;
    run
}

fn run(source: &str) -> Run {
    run_in(&mut Lox::new(), source)
}

#[test]
fn block_scoping_shadows_and_is_discarded() {
    let run = run("var x = 1; { var x = 2; print x; } print x;");
    assert_eq!(run.output, vec!["2", "1"]);
    assert!(run.errors.is_empty());
    assert!(!run.had_error);
}

#[test]
fn closure_keeps_and_changes_its_scope() {
    let run = run(
        "fun counter() { var i = 0; fun inc() { i = i + 1; return i; } return inc; } \
         var c = counter(); print c(); print c();",
    );
    assert_eq!(run.output, vec!["1", "2"]);
    assert!(run.errors.is_empty());
}

#[test]
fn division_by_zero_is_reported_and_the_program_goes_on() {
    let run = run("print 1 / 0;\nprint 2;");
    assert_eq!(run.errors, vec!["Can't divide by Zero"]);
    assert_eq!(run.error_lines, vec![1]);
    assert_eq!(run.output, vec!["2"]);
    assert!(run.had_runtime_error);
    assert!(!run.had_error);
}

#[test]
fn values_of_different_kinds_are_not_equal() {
    let run = run("print \"a\" == 1; print \"a\" != 1; print nil == false; print 1 == \"1\";");
    assert_eq!(run.output, vec!["false", "true", "false", "false"]);
    assert!(run.errors.is_empty());
}

#[test]
fn for_loop_counts() {
    let run = run("for (var i = 0; i < 3; i = i + 1) print i;");
    assert_eq!(run.output, vec!["0", "1", "2"]);
    assert!(run.errors.is_empty());
}

#[test]
fn arithmetic_and_precedence() {
    let run = run("print 1 + 2 * 3; print (1 + 2) * 3; print 7 - 2 - 1; print -3 + 1; print 7 / 2;");
    assert_eq!(run.output, vec!["7", "9", "4", "-2", "3.5"]);
}

#[test]
fn a_chain_of_factors_nests_to_the_right() {
    let run = run("print 8 / 4 / 2; print 2 * 3 / 4;");
    assert_eq!(run.output, vec!["4", "1.5"]);
}

#[test]
fn comparison_of_numbers() {
    let run = run("print 1 < 2; print 2 <= 2; print 1 > 2; print 2 >= 3; print 1 == 1.0; print 1 != 1;");
    assert_eq!(run.output, vec!["true", "true", "false", "false", "true", "false"]);
}

#[test]
fn strings_join_and_compare() {
    let run = run("print \"ab\" + \"cd\"; print \"a\" == \"a\"; print \"a\" != \"a\"; print \"a\" == \"b\";");
    assert_eq!(run.output, vec!["abcd", "true", "false", "false"]);
}

#[test]
fn a_number_is_written_behind_a_text() {
    let run = run("print \"n=\" + 3; print 4 + \"n=\"; print \"x\" + 1.5;");
    assert_eq!(run.output, vec!["n=3", "n=4", "x1.5"]);
}

#[test]
fn operators_on_the_wrong_kinds_fail() {
    let run = run("print \"a\" - 1; print true + 1; print \"a\" < \"b\"; print -\"a\"; print nil * 2;");
    assert_eq!(
        run.errors,
        vec![
            "Unexpected operator",
            "Unexpected operator",
            "Unexpected operator",
            "Expected a number",
            "Unexpected operator"
        ]
    );
    assert!(run.output.is_empty());
}

#[test]
fn truthiness() {
    let run = run("print !nil; print !true; print !false; print !0; print !\"\"; print !!nil;");
    assert_eq!(run.output, vec!["true", "false", "true", "false", "false", "false"]);
}

#[test]
fn logical_operators_yield_an_operand() {
    let run = run(
        "print nil or 2; print 1 or 2; print nil and 2; print 1 and 2; print false or false; \
         print 1 and nil;",
    );
    assert_eq!(run.output, vec!["2", "1", "Nil", "2", "false", "Nil"]);
}

#[test]
fn logical_operators_short_circuit() {
    let run = run("var a = 1; true or (a = 2); false and (a = 3); print a; false or (a = 4); print a;");
    assert_eq!(run.output, vec!["1", "4"]);
}

#[test]
fn printing_values() {
    let run = run("print 3.0; print 3.5; print \"text\"; print true; print nil; fun f() {} print f;");
    assert_eq!(run.output, vec!["3", "3.5", "text", "true", "Nil", "<fn f>"]);
}

#[test]
fn undefined_variable_is_an_error() {
    let run = run("print a;\na = 1;\nprint 3;");
    assert_eq!(run.errors, vec!["Undefined variable 'a'.", "Undefined variable 'a'."]);
    assert_eq!(run.error_lines, vec![1, 2]);
    assert_eq!(run.output, vec!["3"]);
}

#[test]
fn assignment_reaches_the_scope_that_binds() {
    let run = run("var a = 1; { a = 2; { var a = 9; a = 10; print a; } print a; } print a;");
    assert_eq!(run.output, vec!["10", "2", "2"]);
}

#[test]
fn assignment_has_the_value_assigned() {
    let run = run("var a; var b; a = b = 3; print a; print b; print a = 4;");
    assert_eq!(run.output, vec!["3", "3", "4"]);
}

#[test]
fn variable_without_initializer_is_nil() {
    let run = run("var a; print a; var a = 2; print a;");
    assert_eq!(run.output, vec!["Nil", "2"]);
}

#[test]
fn if_runs_one_branch() {
    let run = run("if (1 < 2) print \"yes\"; else print \"no\"; if (nil) print \"yes\"; else print \"no\"; if (false) print 1;");
    assert_eq!(run.output, vec!["yes", "no"]);
}

#[test]
fn else_binds_to_the_nearest_if() {
    let run = run("if (true) if (false) print 1; else print 2;");
    assert_eq!(run.output, vec!["2"]);
}

#[test]
fn while_loop_and_break() {
    let run = run("var i = 0; while (true) { if (i >= 3) break; print i; i = i + 1; } print \"done\";");
    assert_eq!(run.output, vec!["0", "1", "2", "done"]);
}

#[test]
fn break_leaves_only_the_inner_loop() {
    let run = run(
        "for (var i = 0; i < 2; i = i + 1) { for (var j = 0; j < 5; j = j + 1) { if (j == 1) break; print j; } print \"o\"; }",
    );
    assert_eq!(run.output, vec!["0", "o", "0", "o"]);
}

#[test]
fn break_gives_the_scope_back() {
    let run = run("var x = 1; while (true) { var x = 2; { var x = 3; break; } } print x;");
    assert_eq!(run.output, vec!["1"]);
}

#[test]
fn functions_return_values() {
    let run = run("fun add(a, b) { return a + b; } print add(1, 2); fun none() { return; } print none(); fun fall() { 1; } print fall();");
    assert_eq!(run.output, vec!["3", "Nil", "Nil"]);
}

#[test]
fn return_leaves_loops_and_blocks() {
    let run = run("fun f() { var i = 0; while (true) { { i = i + 1; if (i == 3) return i; } } } var x = 7; print f(); print x;");
    assert_eq!(run.output, vec!["3", "7"]);
}

#[test]
fn recursion() {
    let run = run("fun fib(n) { if (n < 2) return n; return fib(n - 1) + fib(n - 2); } print fib(10);");
    assert_eq!(run.output, vec!["55"]);
}

#[test]
fn missing_arguments_are_nil_and_extra_ones_are_dropped() {
    let run = run("fun f(a, b) { print a; print b; } f(1); f(1, 2, 3);");
    assert_eq!(run.output, vec!["1", "Nil", "1", "2"]);
    assert!(run.errors.is_empty());
}

#[test]
fn scoping_is_lexical() {
    let run = run("var a = \"global\"; fun show() { print a; } fun g() { var a = \"local\"; show(); } g();");
    assert_eq!(run.output, vec!["global"]);
}

#[test]
fn two_closures_share_one_scope() {
    let run = run(
        "var get; var set; fun make() { var v = 1; fun g() { return v; } fun s(x) { v = x; } get = g; set = s; } \
         make(); print get(); set(5); print get();",
    );
    assert_eq!(run.output, vec!["1", "5"]);
}

#[test]
fn calls_chain() {
    let run = run("fun f() { fun g() { return 7; } return g; } print f()();");
    assert_eq!(run.output, vec!["7"]);
}

#[test]
fn arguments_are_evaluated_from_left_to_right() {
    let run = run("fun show(x) { print x; return x; } fun f(a, b, c) {} f(show(1), show(2), show(3));");
    assert_eq!(run.output, vec!["1", "2", "3"]);
}

#[test]
fn calling_what_is_no_function_fails() {
    let run = run("var a = 1;\na(2);\n\"s\"();\nprint 1;");
    assert_eq!(run.errors, vec!["not callable", "not callable"]);
    assert_eq!(run.error_lines, vec![2, 3]);
    assert_eq!(run.output, vec!["1"]);
}

#[test]
fn callee_is_checked_before_the_arguments() {
    let run = run("fun show(x) { print x; return x; } nil(show(1));");
    assert_eq!(run.errors, vec!["not callable"]);
    assert!(run.output.is_empty());
}

#[test]
fn an_error_ends_the_statement_of_the_program() {
    let run = run("var x = 1; { var x = 2; print 1 / 0; print \"never\"; } print x;");
    assert_eq!(run.errors, vec!["Can't divide by Zero"]);
    assert_eq!(run.output, vec!["1"]);
}

#[test]
fn an_error_in_a_call_gives_the_scope_back() {
    let run = run("var x = 1; fun f() { var x = 2; return nil + 1; } print f(); print x;");
    assert_eq!(run.errors, vec!["Unexpected operator"]);
    assert_eq!(run.output, vec!["1"]);
}

#[test]
fn break_outside_a_loop_ends_the_call_with_nil() {
    let run = run("fun f() { break; print 1; } print f(); break; print 2;");
    assert_eq!(run.output, vec!["Nil", "2"]);
    assert!(run.errors.is_empty());
}

#[test]
fn return_outside_a_function_ends_the_statement() {
    let run = run("{ print 1; return 5; print 2; } print 3;");
    assert_eq!(run.output, vec!["1", "3"]);
}

#[test]
fn conditional_expression_and_comma() {
    let run = run("print true ? 1 : 2; print nil ? 1 : 2; var a = (1, 2); print a;");
    assert_eq!(run.output, vec!["1", "2", "2"]);
}

#[test]
fn scopes_last_from_one_unit_of_text_to_the_next() {
    let mut lox = Lox::new();
    let first = run_in(&mut lox, "var a = 1; fun f() { return a + 1; }");
    assert!(first.output.is_empty());
    let second = run_in(&mut lox, "print f(); a = 5; print f();");
    assert_eq!(second.output, vec!["2", "6"]);
}

#[test]
fn syntax_error_outside_a_block_ends_the_reading() {
    let run = run("print 1; print ; print 2;");
    assert_eq!(run.diagnostics, vec!["Expect expression."]);
    assert_eq!(run.output, vec!["1"]);
    assert!(run.had_error);
}

#[test]
fn syntax_error_in_a_block_is_passed_over() {
    let run = run("{ print 1; print ; print 2; 3 + ; print 4; }");
    assert_eq!(run.diagnostics, vec!["Expect expression.", "Expect expression."]);
    assert_eq!(run.output, vec!["1", "2", "4"]);
    assert!(run.had_error);
}

#[test]
fn scanner_errors_come_first() {
    let run = run("print 1 @;\n\"open");
    assert_eq!(run.diagnostics, vec!["Unexpected character.", "Unterminated string."]);
    assert_eq!(run.output, vec!["1"]);
}

#[test]
fn evaluating_twice_gives_the_same_value() {
    let run = run("var a = 3; var b = \"x\"; print (a + 1) * 2 < 9 and b + a; print (a + 1) * 2 < 9 and b + a;");
    assert_eq!(run.output, vec!["x3", "x3"]);
}

#[test]
fn an_event_that_is_no_answer_is_asked_again() {
    let mut lox = Lox::new();
    lox.run("print 1 + 2;".to_string());
    let mut asked = 0;
    let mut event = Event::Resume;
    let mut output = vec![];
    loop {
        match lox.resume(event) {
            Request::Finished => break,
            Request::Arithmetic { operator, left, right } => {
                asked += 1;
                assert_eq!(operator, ArithmeticOp::Add);
                if asked < 3 {
                    event = Event::Text("no number".to_string());
                } else {
                    event = Event::Number(bits(double(&left) + double(&right)));
                }
            }
            Request::Format(number) => event = Event::Text(format!("{}", double(&number))),
            Request::Print(line) => {
                output.push(line);
                event = Event::Resume;
            }
            _ => event = Event::Resume,
        }
    }
    assert_eq!(asked, 3);
    assert_eq!(output, vec!["3"]);
}
