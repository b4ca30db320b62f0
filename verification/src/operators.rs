//! The operators of the language on values, and the work that the
//! host does for them.

use vstd::prelude::*;
use vstd::string::StringExecFns;

use crate::error::RunTimeError;
use crate::error::RunTimeErrorView;
use crate::task::ArithmeticOp;
use crate::task::ComparisonOp;
use crate::task::Event;
use crate::task::EventView;
use crate::task::Pending;
use crate::task::PendingView;
use crate::task::Request;
use crate::task::RequestView;
use crate::token::Number;
use crate::token::NumberView;
use crate::token::Token;
use crate::token::TokenType;
use crate::token::TokenView;
use crate::value::equal_values;
use crate::value::shown;
use crate::value::trim_digits;
use crate::value::truthy;
use crate::value::duplicate_values;
use crate::value::Value;
use crate::value::ValueView;

verus! {

/// What applying an operator to its operands comes to: a value, work for
/// the host, or an error with its message.
#[derive(Debug, PartialEq)]
pub enum Operation {
    Value(Value),
    Wait(Pending),
    Failure(String),
}

pub enum OperationView {
    Value(ValueView),
    Wait(PendingView),
    Failure(Seq<char>),
}

impl View for Operation {
    type V = OperationView;

    open spec fn view(&self) -> OperationView {
        match self {
            Operation::Value(value) => OperationView::Value(value@),
            Operation::Wait(pending) => OperationView::Wait(pending@),
            Operation::Failure(message) => OperationView::Failure(message@),
        }
    }
}

/// A unary operator applied to a value. `-` takes a number; `!` turns
/// what counts as true into `false` and what does not into `true`.
pub open spec fn apply_unary(operator: TokenType, value: ValueView) -> OperationView {
    if operator == TokenType::MINUS {
        match value {
            ValueView::Number(operand) => OperationView::Wait(PendingView::Negate { operand }),
            _ => OperationView::Failure("Expected a number"@),
        }
    } else if operator == TokenType::BANG {
        OperationView::Value(ValueView::Boolean(!truthy(value)))
    } else {
        OperationView::Failure("Unexpected operator"@)
    }
}

/// The arithmetic that an operator stands for, if it stands for any
/// but division.
pub open spec fn arithmetic_of(operator: TokenType) -> Option<ArithmeticOp> {
    if operator == TokenType::MINUS {
        Some(ArithmeticOp::Subtract)
    } else if operator == TokenType::STAR {
        Some(ArithmeticOp::Multiply)
    } else if operator == TokenType::PLUS {
        Some(ArithmeticOp::Add)
    } else {
        None
    }
}

/// The comparison that an operator stands for, if it stands for any.
pub open spec fn comparison_of(operator: TokenType) -> Option<ComparisonOp> {
    if operator == TokenType::GREATER {
        Some(ComparisonOp::Greater)
    } else if operator == TokenType::GREATEREQUAL {
        Some(ComparisonOp::GreaterEqual)
    } else if operator == TokenType::LESS {
        Some(ComparisonOp::Less)
    } else if operator == TokenType::LESSEQUAL {
        Some(ComparisonOp::LessEqual)
    } else if operator == TokenType::EQUALEQUAL {
        Some(ComparisonOp::Equal)
    } else if operator == TokenType::BANGEQUAL {
        Some(ComparisonOp::NotEqual)
    } else {
        None
    }
}

/// A binary operator applied to two numbers: all of it is work for the
/// host.
pub open spec fn apply_to_numbers(operator: TokenView, left: NumberView, right: NumberView) -> OperationView {
    if operator.token_type == TokenType::SLASH {
        OperationView::Wait(PendingView::Divide { operator, left, right })
    } else if arithmetic_of(operator.token_type) is Some {
        OperationView::Wait(
            PendingView::Arithmetic {
                operator: arithmetic_of(operator.token_type)->0,
                left,
                right,
            },
        )
    } else if comparison_of(operator.token_type) is Some {
        OperationView::Wait(
            PendingView::Compare { operator: comparison_of(operator.token_type)->0, left, right },
        )
    } else {
        OperationView::Failure("Unexpected operator"@)
    }
}

/// A binary operator applied to two values that are not both numbers
/// and not a text and a number: only the tests for equality apply.
pub open spec fn apply_equality(operator: TokenType, left: ValueView, right: ValueView) -> OperationView {
    if operator == TokenType::EQUALEQUAL {
        OperationView::Value(ValueView::Boolean(equal_values(left, right)))
    } else if operator == TokenType::BANGEQUAL {
        OperationView::Value(ValueView::Boolean(!equal_values(left, right)))
    } else {
        OperationView::Failure("Unexpected operator"@)
    }
}

/// A binary operator applied to a text and a number, in either order:
/// `+` writes the number behind the text, and the two are never equal.
pub open spec fn apply_to_text_and_number(operator: TokenType, text: Seq<char>, number: NumberView) -> OperationView {
    if operator == TokenType::PLUS {
        OperationView::Wait(PendingView::Concat { text, number })
    } else {
        apply_equality(operator, ValueView::String(text), ValueView::Number(number))
    }
}

/// A binary operator applied to two values.
pub open spec fn apply_binary(operator: TokenView, left: ValueView, right: ValueView) -> OperationView {
    match (left, right) {
        (ValueView::Number(l), ValueView::Number(r)) => apply_to_numbers(operator, l, r),
        (ValueView::String(l), ValueView::String(r)) => if operator.token_type == TokenType::PLUS {
            OperationView::Value(ValueView::String(l + r))
        } else {
            apply_equality(operator.token_type, left, right)
        },
        (ValueView::String(text), ValueView::Number(number)) => apply_to_text_and_number(
            operator.token_type,
            text,
            number,
        ),
        (ValueView::Number(number), ValueView::String(text)) => apply_to_text_and_number(
            operator.token_type,
            text,
            number,
        ),
        _ => apply_equality(operator.token_type, left, right),
    }
}

/// The number that a divisor is compared with.
pub open spec fn zero() -> NumberView {
    NumberView::Decimal("0"@)
}

/// What the interpreter asks of the host for a piece of work.
pub open spec fn request_of(pending: PendingView) -> RequestView {
    match pending {
        PendingView::Arithmetic { operator, left, right } => RequestView::Arithmetic {
            operator,
            left,
            right,
        },
        PendingView::Negate { operand } => RequestView::Negate(operand),
        PendingView::Compare { operator, left, right } => RequestView::Compare {
            operator,
            left,
            right,
        },
        PendingView::Divide { operator, left, right } => RequestView::Compare {
            operator: ComparisonOp::Equal,
            left: right,
            right: zero(),
        },
        PendingView::Concat { text, number } => RequestView::Format(number),
        PendingView::Show { number } => RequestView::Format(number),
        PendingView::Native { function, paren, arguments } => RequestView::Call {
            function,
            arguments,
        },
    }
}

/// What an answer of the host makes of a piece of work.
pub enum AnswerView {
    /// The work has come to a value.
    Value(ValueView),
    /// More work for the host follows.
    Wait(PendingView),
    /// The work has failed.
    Failure(RunTimeErrorView),
    /// A line is to be printed.
    Print(Seq<char>),
    /// The event is no answer to this work: the host is asked again.
    Unanswered,
}

#[derive(Debug, PartialEq)]
pub enum Answer {
    Value(Value),
    Wait(Pending),
    Failure(RunTimeError),
    Print(String),
    Unanswered(Pending),
}

impl View for Answer {
    type V = AnswerView;

    open spec fn view(&self) -> AnswerView {
        match self {
            Answer::Value(value) => AnswerView::Value(value@),
            Answer::Wait(pending) => AnswerView::Wait(pending@),
            Answer::Failure(error) => AnswerView::Failure(error@),
            Answer::Print(text) => AnswerView::Print(text@),
            Answer::Unanswered(_) => AnswerView::Unanswered,
        }
    }
}

/// What an event makes of a piece of work. A number answers arithmetic,
/// a boolean a comparison, a text a number to be written, and what a
/// function of the host returned a call of it. A divisor that equals
/// zero is an error; one that does not is divided by.
pub open spec fn answer(pending: PendingView, event: EventView) -> AnswerView {
    match (pending, event) {
        (PendingView::Arithmetic { .. }, EventView::Number(number)) => AnswerView::Value(
            ValueView::Number(number),
        ),
        (PendingView::Negate { .. }, EventView::Number(number)) => AnswerView::Value(
            ValueView::Number(number),
        ),
        (PendingView::Compare { .. }, EventView::Boolean(flag)) => AnswerView::Value(
            ValueView::Boolean(flag),
        ),
        (PendingView::Divide { operator, left, right }, EventView::Boolean(flag)) => if flag {
            AnswerView::Failure(
                RunTimeErrorView { token: operator, message: "Can't divide by Zero"@ },
            )
        } else {
            AnswerView::Wait(
                PendingView::Arithmetic { operator: ArithmeticOp::Divide, left, right },
            )
        },
        (PendingView::Concat { text, number }, EventView::Text(digits)) => AnswerView::Value(
            ValueView::String(text + digits),
        ),
        (PendingView::Show { number }, EventView::Text(digits)) => AnswerView::Print(
            shown(ValueView::Number(number), digits),
        ),
        (PendingView::Native { function, paren, arguments }, EventView::Returned(result)) => match result {
            Ok(value) => AnswerView::Value(value),
            Err(message) => AnswerView::Failure(RunTimeErrorView { token: paren, message }),
        },
        _ => AnswerView::Unanswered,
    }
}

/// Whether a value counts as true.
pub fn is_truthy(value: &Value) -> (flag: bool)
    ensures
        flag == truthy(value@),
{
    match value {
        Value::Nil => false,
        Value::Boolean(flag) => *flag,
        _ => true,
    }
}

/// Whether two values that are not both numbers are equal.
pub fn is_equal(left: &Value, right: &Value) -> (flag: bool)
    ensures
        flag == equal_values(left@, right@),
{
    match (left, right) {
        (Value::String(l), Value::String(r)) => *l == *r,
        (Value::Boolean(l), Value::Boolean(r)) => *l == *r,
        (Value::Nil, Value::Nil) => true,
        _ => false,
    }
}

/// How a value shows when it is printed; `digits` is what the host
/// writes for it if it is a number.
pub fn stringify(value: &Value, digits: &str) -> (text: String)
    ensures
        text@ == shown(value@, digits@),
{
    match value {
        Value::String(text) => text.clone(),
        Value::Number(_) => trim_digits(digits),
        Value::Boolean(flag) => if *flag {
            String::from_str("true")
        } else {
            String::from_str("false")
        },
        Value::Nil => String::from_str("Nil"),
        Value::Callable(callable) => callable.to_string(),
    }
}

/// Applies a unary operator to a value.
pub fn unary_operation(operator: TokenType, value: Value) -> (operation: Operation)
    ensures
        operation@ == apply_unary(operator, value@),
{
    match operator {
        TokenType::MINUS => match value {
            Value::Number(operand) => Operation::Wait(Pending::Negate { operand }),
            _ => Operation::Failure(String::from_str("Expected a number")),
        },
        TokenType::BANG => Operation::Value(Value::Boolean(!is_truthy(&value))),
        _ => Operation::Failure(String::from_str("Unexpected operator")),
    }
}

fn arithmetic_operator(operator: TokenType) -> (found: Option<ArithmeticOp>)
    ensures
        found == arithmetic_of(operator),
{
    match operator {
        TokenType::MINUS => Some(ArithmeticOp::Subtract),
        TokenType::STAR => Some(ArithmeticOp::Multiply),
        TokenType::PLUS => Some(ArithmeticOp::Add),
        _ => None,
    }
}

fn comparison_operator(operator: TokenType) -> (found: Option<ComparisonOp>)
    ensures
        found == comparison_of(operator),
{
    match operator {
        TokenType::GREATER => Some(ComparisonOp::Greater),
        TokenType::GREATEREQUAL => Some(ComparisonOp::GreaterEqual),
        TokenType::LESS => Some(ComparisonOp::Less),
        TokenType::LESSEQUAL => Some(ComparisonOp::LessEqual),
        TokenType::EQUALEQUAL => Some(ComparisonOp::Equal),
        TokenType::BANGEQUAL => Some(ComparisonOp::NotEqual),
        _ => None,
    }
}

fn number_operation(operator: &Token, left: Number, right: Number) -> (operation: Operation)
    ensures
        operation@ == apply_to_numbers(operator@, left@, right@),
{
    if operator.token_type == TokenType::SLASH {
        return Operation::Wait(Pending::Divide { operator: operator.duplicate(), left, right });
    }
    match arithmetic_operator(operator.token_type) {
        Some(op) => {
            return Operation::Wait(Pending::Arithmetic { operator: op, left, right });
        },
        None => {},
    }
    match comparison_operator(operator.token_type) {
        Some(op) => Operation::Wait(Pending::Compare { operator: op, left, right }),
        None => Operation::Failure(String::from_str("Unexpected operator")),
    }
}

fn equality_operation(operator: TokenType, left: &Value, right: &Value) -> (operation: Operation)
    ensures
        operation@ == apply_equality(operator, left@, right@),
{
    match operator {
        TokenType::EQUALEQUAL => Operation::Value(Value::Boolean(is_equal(left, right))),
        TokenType::BANGEQUAL => Operation::Value(Value::Boolean(!is_equal(left, right))),
        _ => Operation::Failure(String::from_str("Unexpected operator")),
    }
}

/// Applies a binary operator to two values.
pub fn binary_operation(operator: &Token, left: Value, right: Value) -> (operation: Operation)
    ensures
        operation@ == apply_binary(operator@, left@, right@),
{
    match (left, right) {
        (Value::Number(l), Value::Number(r)) => number_operation(operator, l, r),
        (Value::String(l), Value::String(r)) => {
            if operator.token_type == TokenType::PLUS {
                Operation::Value(Value::String(l.concat(r.as_str())))
            } else {
                equality_operation(operator.token_type, &Value::String(l), &Value::String(r))
            }
        },
        (Value::String(text), Value::Number(number)) => {
            if operator.token_type == TokenType::PLUS {
                Operation::Wait(Pending::Concat { text, number })
            } else {
                equality_operation(
                    operator.token_type,
                    &Value::String(text),
                    &Value::Number(number),
                )
            }
        },
        (Value::Number(number), Value::String(text)) => {
            if operator.token_type == TokenType::PLUS {
                Operation::Wait(Pending::Concat { text, number })
            } else {
                equality_operation(
                    operator.token_type,
                    &Value::String(text),
                    &Value::Number(number),
                )
            }
        },
        (l, r) => equality_operation(operator.token_type, &l, &r),
    }
}

/// What the interpreter asks of the host for a piece of work.
pub fn request(pending: &Pending) -> (asked: Request)
    ensures
        asked@ == request_of(pending@),
{
    match pending {
        Pending::Arithmetic { operator, left, right } => Request::Arithmetic {
            operator: *operator,
            left: left.duplicate(),
            right: right.duplicate(),
        },
        Pending::Negate { operand } => Request::Negate(operand.duplicate()),
        Pending::Compare { operator, left, right } => Request::Compare {
            operator: *operator,
            left: left.duplicate(),
            right: right.duplicate(),
        },
        Pending::Divide { operator, left, right } => Request::Compare {
            operator: ComparisonOp::Equal,
            left: right.duplicate(),
            right: Number::Decimal(String::from_str("0")),
        },
        Pending::Concat { text, number } => Request::Format(number.duplicate()),
        Pending::Show { number } => Request::Format(number.duplicate()),
        Pending::Native { function, paren, arguments } => Request::Call {
            function: *function,
            arguments: duplicate_values(arguments),
        },
    }
}

/// What an event makes of a piece of work. Work that the event does not
/// answer is handed back as it was.
pub fn resume(pending: Pending, event: Event) -> (answered: Answer)
    ensures
        answered@ == answer(pending@, event@),
        answered matches Answer::Unanswered(same) ==> same@ == pending@,
{
    match (pending, event) {
        (Pending::Arithmetic { .. }, Event::Number(number)) => Answer::Value(Value::Number(number)),
        (Pending::Negate { .. }, Event::Number(number)) => Answer::Value(Value::Number(number)),
        (Pending::Compare { .. }, Event::Boolean(flag)) => Answer::Value(Value::Boolean(flag)),
        (Pending::Divide { operator, left, right }, Event::Boolean(flag)) => {
            if flag {
                Answer::Failure(
                    RunTimeError::new(operator, String::from_str("Can't divide by Zero")),
                )
            } else {
                Answer::Wait(Pending::Arithmetic { operator: ArithmeticOp::Divide, left, right })
            }
        },
        (Pending::Concat { text, number }, Event::Text(digits)) => Answer::Value(
            Value::String(text.concat(digits.as_str())),
        ),
        (Pending::Show { number }, Event::Text(digits)) => Answer::Print(
            stringify(&Value::Number(number), digits.as_str()),
        ),
        (Pending::Native { function, paren, arguments }, Event::Returned(result)) => match result {
            Ok(value) => Answer::Value(value),
            Err(message) => Answer::Failure(RunTimeError::new(paren, message)),
        },
        (pending, _) => Answer::Unanswered(pending),
    }
}

} // verus!
