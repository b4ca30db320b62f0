//! The pieces of work of an interpreter, and what it exchanges with
//! the host.

use vstd::prelude::*;

use crate::ast::expr::expr_views;
use crate::ast::expr::Expr;
use crate::ast::expr::ExprView;
use crate::error::RunTimeError;
use crate::error::RunTimeErrorView;
use crate::lox_callable::NativeFunction;
use crate::stmt::optional_stmt;
use crate::stmt::Stmt;
use crate::stmt::StmtView;
use crate::token::Number;
use crate::token::NumberView;
use crate::token::Token;
use crate::token::TokenView;
use crate::value::duplicate_values;
use crate::value::value_views;
use crate::value::Value;
use crate::value::ValueView;

verus! {

/// The arithmetic that the host does on two numbers.
#[derive(Debug, Clone, Copy, PartialEq, Eq, Structural)]
pub enum ArithmeticOp {
    Add,
    Subtract,
    Multiply,
    Divide,
}

/// The comparisons that the host makes of two numbers.
#[derive(Debug, Clone, Copy, PartialEq, Eq, Structural)]
pub enum ComparisonOp {
    Greater,
    GreaterEqual,
    Less,
    LessEqual,
    Equal,
    NotEqual,
}

/// Work that waits for the host: the interpreter asks, and goes on when
/// the answer comes.
#[derive(Debug, PartialEq)]
pub enum Pending {
    /// The result of an arithmetic operation.
    Arithmetic { operator: ArithmeticOp, left: Number, right: Number },
    /// The negative of a number.
    Negate { operand: Number },
    /// The outcome of a comparison.
    Compare { operator: ComparisonOp, left: Number, right: Number },
    /// A division: first whether the divisor is zero, which is an error
    /// charged to the operator, then the quotient.
    Divide { operator: Token, left: Number, right: Number },
    /// A text with a number written behind it.
    Concat { text: String, number: Number },
    /// A number to be printed.
    Show { number: Number },
    /// A call of a function of the host, charged to the closing
    /// parenthesis of the call.
    Native { function: NativeFunction, paren: Token, arguments: Vec<Value> },
}

pub enum PendingView {
    Arithmetic { operator: ArithmeticOp, left: NumberView, right: NumberView },
    Negate { operand: NumberView },
    Compare { operator: ComparisonOp, left: NumberView, right: NumberView },
    Divide { operator: TokenView, left: NumberView, right: NumberView },
    Concat { text: Seq<char>, number: NumberView },
    Show { number: NumberView },
    Native { function: NativeFunction, paren: TokenView, arguments: Seq<ValueView> },
}

impl View for Pending {
    type V = PendingView;

    open spec fn view(&self) -> PendingView {
        match self {
            Pending::Arithmetic { operator, left, right } => PendingView::Arithmetic {
                operator: *operator,
                left: left@,
                right: right@,
            },
            Pending::Negate { operand } => PendingView::Negate { operand: operand@ },
            Pending::Compare { operator, left, right } => PendingView::Compare {
                operator: *operator,
                left: left@,
                right: right@,
            },
            Pending::Divide { operator, left, right } => PendingView::Divide {
                operator: operator@,
                left: left@,
                right: right@,
            },
            Pending::Concat { text, number } => PendingView::Concat {
                text: text@,
                number: number@,
            },
            Pending::Show { number } => PendingView::Show { number: number@ },
            Pending::Native { function, paren, arguments } => PendingView::Native {
                function: *function,
                paren: paren@,
                arguments: value_views(arguments@),
            },
        }
    }
}

/// What the interpreter asks of the host when a step ends.
#[derive(Debug, PartialEq)]
pub enum Request {
    /// Nothing: the next step can follow at once.
    Continue,
    /// Nothing: there is no work left.
    Finished,
    /// Write a line to the output.
    Print(String),
    /// Report an error of the running program.
    Report(RunTimeError),
    /// Answer with the result of the operation, as a number.
    Arithmetic { operator: ArithmeticOp, left: Number, right: Number },
    /// Answer with the negative of the number.
    Negate(Number),
    /// Answer with the outcome of the comparison, as a boolean.
    Compare { operator: ComparisonOp, left: Number, right: Number },
    /// Answer with the number as text.
    Format(Number),
    /// Run the function on the arguments and answer with what it returns.
    Call { function: NativeFunction, arguments: Vec<Value> },
}

pub enum RequestView {
    Continue,
    Finished,
    Print(Seq<char>),
    Report(RunTimeErrorView),
    Arithmetic { operator: ArithmeticOp, left: NumberView, right: NumberView },
    Negate(NumberView),
    Compare { operator: ComparisonOp, left: NumberView, right: NumberView },
    Format(NumberView),
    Call { function: NativeFunction, arguments: Seq<ValueView> },
}

impl View for Request {
    type V = RequestView;

    open spec fn view(&self) -> RequestView {
        match self {
            Request::Continue => RequestView::Continue,
            Request::Finished => RequestView::Finished,
            Request::Print(text) => RequestView::Print(text@),
            Request::Report(error) => RequestView::Report(error@),
            Request::Arithmetic { operator, left, right } => RequestView::Arithmetic {
                operator: *operator,
                left: left@,
                right: right@,
            },
            Request::Negate(number) => RequestView::Negate(number@),
            Request::Compare { operator, left, right } => RequestView::Compare {
                operator: *operator,
                left: left@,
                right: right@,
            },
            Request::Format(number) => RequestView::Format(number@),
            Request::Call { function, arguments } => RequestView::Call {
                function: *function,
                arguments: value_views(arguments@),
            },
        }
    }
}

/// What the host hands to a step: nothing, or the answer to the request
/// of the step before.
#[derive(Debug, PartialEq)]
pub enum Event {
    Resume,
    Number(Number),
    Boolean(bool),
    Text(String),
    Returned(Result<Value, String>),
}

pub enum EventView {
    Resume,
    Number(NumberView),
    Boolean(bool),
    Text(Seq<char>),
    Returned(Result<ValueView, Seq<char>>),
}

impl View for Event {
    type V = EventView;

    open spec fn view(&self) -> EventView {
        match self {
            Event::Resume => EventView::Resume,
            Event::Number(number) => EventView::Number(number@),
            Event::Boolean(flag) => EventView::Boolean(*flag),
            Event::Text(text) => EventView::Text(text@),
            Event::Returned(result) => EventView::Returned(
                match result {
                    Ok(value) => Ok(value@),
                    Err(message) => Err(message@),
                },
            ),
        }
    }
}

/// A signal that leaves the statement that raised it: it is handed up
/// until a loop, a call or the end of the statement takes it.
#[derive(Debug, PartialEq)]
pub enum ControlFlow {
    Return(Option<Value>),
    Break,
    Continue,
}

pub enum ControlFlowView {
    Return(Option<ValueView>),
    Break,
    Continue,
}

impl View for ControlFlow {
    type V = ControlFlowView;

    open spec fn view(&self) -> ControlFlowView {
        match self {
            ControlFlow::Return(value) => ControlFlowView::Return(
                match value {
                    Some(v) => Some(v@),
                    None => None,
                },
            ),
            ControlFlow::Break => ControlFlowView::Break,
            ControlFlow::Continue => ControlFlowView::Continue,
        }
    }
}

/// One piece of the work that an interpreter has before it. The work is
/// kept as a stack: the piece on top is done next.
#[derive(Debug, PartialEq)]
pub enum Task {
    /// Run a statement.
    Execute(Stmt),
    /// Evaluate an expression; its value goes on top of the values.
    Evaluate(Expr),
    /// The end of a statement of the program. An error is handed up to
    /// here, and the values are cut back to the number that is kept here.
    Recover(usize),
    /// Drop the value on top.
    Discard,
    /// Print the value on top.
    Print,
    /// Bind the name to the value on top, in the current scope.
    Define(Token),
    /// Assign the value on top to the name. The value stays: it is the
    /// value of the assignment.
    Store(Token),
    /// Run one of the branches of an `if`, as the value on top says.
    Branch(Stmt, Option<Stmt>),
    /// Evaluate one of the branches of a conditional expression.
    Choose(Expr, Expr),
    /// Keep the value on top as the value of an `and` or `or`, or
    /// evaluate the right operand in its place.
    ShortCircuit(Token, Expr),
    /// Begin a round of a loop: evaluate the condition. A `break` is
    /// handed up to here.
    Loop(Expr, Stmt),
    /// Run the body and begin another round, if the value on top says so.
    LoopTest(Expr, Stmt),
    /// Leave a block: make the scope with this number the current one.
    Restore(usize),
    /// Return the value on top from the function that is running.
    Return,
    /// The end of the body of a function: make the scope with this
    /// number the current one again. A `return` is handed up to here.
    CallBoundary(usize),
    /// Check that the value on top can be called, then evaluate the
    /// arguments.
    Callee(Token, Vec<Expr>),
    /// Call the value below the given number of arguments.
    Invoke(Token, usize),
    /// Apply an operator to the value on top.
    Unary(Token),
    /// Apply an operator to the two values on top.
    Binary(Token),
    /// Wait for the host.
    Await(Pending),
}

pub enum TaskView {
    Execute(StmtView),
    Evaluate(ExprView),
    Recover(usize),
    Discard,
    Print,
    Define(TokenView),
    Store(TokenView),
    Branch(StmtView, Option<StmtView>),
    Choose(ExprView, ExprView),
    ShortCircuit(TokenView, ExprView),
    Loop(ExprView, StmtView),
    LoopTest(ExprView, StmtView),
    Restore(usize),
    Return,
    CallBoundary(usize),
    Callee(TokenView, Seq<ExprView>),
    Invoke(TokenView, usize),
    Unary(TokenView),
    Binary(TokenView),
    Await(PendingView),
}

impl View for Task {
    type V = TaskView;

    open spec fn view(&self) -> TaskView {
        match self {
            Task::Execute(stmt) => TaskView::Execute(stmt@),
            Task::Evaluate(expr) => TaskView::Evaluate(expr@),
            Task::Recover(height) => TaskView::Recover(*height),
            Task::Discard => TaskView::Discard,
            Task::Print => TaskView::Print,
            Task::Define(name) => TaskView::Define(name@),
            Task::Store(name) => TaskView::Store(name@),
            Task::Branch(then_branch, else_branch) => TaskView::Branch(
                then_branch@,
                optional_stmt(*else_branch),
            ),
            Task::Choose(left, right) => TaskView::Choose(left@, right@),
            Task::ShortCircuit(operator, right) => TaskView::ShortCircuit(operator@, right@),
            Task::Loop(condition, body) => TaskView::Loop(condition@, body@),
            Task::LoopTest(condition, body) => TaskView::LoopTest(condition@, body@),
            Task::Restore(scope) => TaskView::Restore(*scope),
            Task::Return => TaskView::Return,
            Task::CallBoundary(scope) => TaskView::CallBoundary(*scope),
            Task::Callee(paren, arguments) => TaskView::Callee(paren@, expr_views(arguments@)),
            Task::Invoke(paren, count) => TaskView::Invoke(paren@, *count),
            Task::Unary(operator) => TaskView::Unary(operator@),
            Task::Binary(operator) => TaskView::Binary(operator@),
            Task::Await(pending) => TaskView::Await(pending@),
        }
    }
}

/// The views of a sequence of tasks, in order.
pub open spec fn task_views(tasks: Seq<Task>) -> Seq<TaskView> {
    Seq::new(tasks.len(), |i: int| tasks[i]@)
}

impl Pending {
    /// A copy of this piece of work.
    pub fn duplicate(&self) -> (copy: Pending)
        ensures
            copy@ == self@,
    {
        match self {
            Pending::Arithmetic { operator, left, right } => Pending::Arithmetic {
                operator: *operator,
                left: left.duplicate(),
                right: right.duplicate(),
            },
            Pending::Negate { operand } => Pending::Negate { operand: operand.duplicate() },
            Pending::Compare { operator, left, right } => Pending::Compare {
                operator: *operator,
                left: left.duplicate(),
                right: right.duplicate(),
            },
            Pending::Divide { operator, left, right } => Pending::Divide {
                operator: operator.duplicate(),
                left: left.duplicate(),
                right: right.duplicate(),
            },
            Pending::Concat { text, number } => Pending::Concat {
                text: text.clone(),
                number: number.duplicate(),
            },
            Pending::Show { number } => Pending::Show { number: number.duplicate() },
            Pending::Native { function, paren, arguments } => Pending::Native {
                function: *function,
                paren: paren.duplicate(),
                arguments: duplicate_values(arguments),
            },
        }
    }
}

} // verus!
