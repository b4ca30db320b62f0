//! What can be called.

use vstd::prelude::*;
use vstd::string::StringExecFns;

use crate::interpreter::Interpreter;
use crate::lox_function::LoxFunction;
use crate::lox_function::LoxFunctionView;
use crate::semantics::Machine;
use crate::token::Token;
use crate::token::TokenView;
use crate::value::value_views;
use crate::value::Value;
use crate::value::ValueView;

verus! {

/// What every callable offers: it can be called, it says how many
/// parameters it has, and it says how it shows when it is printed.
pub trait LoxCallable {
    /// The number of parameters.
    spec fn arity_of(&self) -> nat;

    /// How the callable shows when it is printed.
    spec fn text_of(&self) -> Seq<char>;

    /// The machine after a call of the callable has begun.
    spec fn called(&self, m: Machine, paren: TokenView, arguments: Seq<ValueView>) -> Machine;

    /// Begins a call on an interpreter. The call is charged to the
    /// closing parenthesis `paren`. The value of the call is on top of
    /// the interpreter's values when the work that the call leaves is
    /// through.
    fn call(&self, interpreter: &mut Interpreter, paren: Token, arguments: Vec<Value>)
        ensures
            final(interpreter)@ == self.called(
                old(interpreter)@,
                paren@,
                value_views(arguments@),
            ),
    ;

    fn arity(&self) -> (count: usize)
        ensures
            count == self.arity_of(),
    ;

    fn to_string(&self) -> (text: String)
        ensures
            text@ == self.text_of(),
    ;
}

/// A function that the host provides. The library knows it by a handle
/// and asks the host to run it; the number of parameters is kept for
/// the record and is not enforced when the function is called.
#[derive(Debug, Clone, Copy, PartialEq, Eq, Structural)]
pub struct NativeFunction {
    pub callable: usize,
    pub params: usize,
}

impl NativeFunction {
    pub fn new(callable: usize, params: usize) -> (function: NativeFunction)
        ensures
            function == (NativeFunction { callable, params }),
    {
        Self { callable, params }
    }

}

/// What can be called: a function of the host, or one of the program.
#[derive(Debug, PartialEq)]
pub enum Callable {
    Native(NativeFunction),
    Function(LoxFunction),
}

pub enum CallableView {
    Native(NativeFunction),
    Function(LoxFunctionView),
}

impl View for Callable {
    type V = CallableView;

    open spec fn view(&self) -> CallableView {
        match self {
            Callable::Native(function) => CallableView::Native(*function),
            Callable::Function(function) => CallableView::Function(function@),
        }
    }
}

/// How a callable shows when it is printed.
pub open spec fn callable_text(callable: CallableView) -> Seq<char> {
    match callable {
        CallableView::Native(_) => "<Native Function>"@,
        CallableView::Function(function) => "<fn "@ + function.declaration.name.lexeme + ">"@,
    }
}

/// The number of parameters of a callable.
pub open spec fn callable_arity(callable: CallableView) -> nat {
    match callable {
        CallableView::Native(function) => function.params as nat,
        CallableView::Function(function) => function.declaration.params.len(),
    }
}

impl Callable {
    pub fn arity(&self) -> (count: usize)
        ensures
            count == callable_arity(self@),
    {
        match self {
            Callable::Native(function) => function.arity(),
            Callable::Function(function) => function.arity(),
        }
    }

    pub fn to_string(&self) -> (text: String)
        ensures
            text@ == callable_text(self@),
    {
        match self {
            Callable::Native(function) => function.to_string(),
            Callable::Function(function) => function.to_string(),
        }
    }

    /// A copy of this callable.
    pub fn duplicate(&self) -> (copy: Callable)
        ensures
            copy@ == self@,
    {
        match self {
            Callable::Native(function) => Callable::Native(*function),
            Callable::Function(function) => Callable::Function(function.duplicate()),
        }
    }
}

} // verus!
