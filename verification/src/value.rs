//! The values of a running program.

use vstd::prelude::*;
use vstd::string::StrSliceExecFns;
use vstd::string::StringExecFns;

use crate::ast::expr::LiteralValue;
use crate::ast::expr::LiteralView;
use crate::lox_callable::callable_text;
use crate::lox_callable::Callable;
use crate::lox_callable::CallableView;
use crate::token::Number;
use crate::token::NumberView;

verus! {

/// A value of a running program.
#[derive(Debug, PartialEq)]
pub enum Value {
    Number(Number),
    String(String),
    Boolean(bool),
    Nil,
    Callable(Callable),
}

pub enum ValueView {
    Number(NumberView),
    String(Seq<char>),
    Boolean(bool),
    Nil,
    Callable(CallableView),
}

impl View for Value {
    type V = ValueView;

    open spec fn view(&self) -> ValueView {
        match self {
            Value::Number(number) => ValueView::Number(number@),
            Value::String(text) => ValueView::String(text@),
            Value::Boolean(flag) => ValueView::Boolean(*flag),
            Value::Nil => ValueView::Nil,
            Value::Callable(callable) => ValueView::Callable(callable@),
        }
    }
}

/// The views of a sequence of values, in order.
pub open spec fn value_views(values: Seq<Value>) -> Seq<ValueView> {
    Seq::new(values.len(), |i: int| values[i]@)
}

/// The value of a literal.
pub open spec fn literal_value(literal: LiteralView) -> ValueView {
    match literal {
        LiteralView::String(text) => ValueView::String(text),
        LiteralView::Number(number) => ValueView::Number(number),
        LiteralView::Boolean(flag) => ValueView::Boolean(flag),
        LiteralView::Nil => ValueView::Nil,
    }
}

/// Whether a value counts as true: `nil` does not, a boolean counts as
/// itself, and everything else does.
pub open spec fn truthy(value: ValueView) -> bool {
    match value {
        ValueView::Nil => false,
        ValueView::Boolean(flag) => flag,
        _ => true,
    }
}

/// Whether two values that are not both numbers are equal: values of
/// different kinds never are, strings and booleans are compared by what
/// they hold, and `nil` equals `nil`. (Whether two numbers are equal is
/// for the host to say.)
pub open spec fn equal_values(left: ValueView, right: ValueView) -> bool {
    match (left, right) {
        (ValueView::String(l), ValueView::String(r)) => l == r,
        (ValueView::Boolean(l), ValueView::Boolean(r)) => l == r,
        (ValueView::Nil, ValueView::Nil) => true,
        _ => false,
    }
}

/// The text without a trailing `.0`.
pub open spec fn trimmed(text: Seq<char>) -> Seq<char> {
    if text.len() >= 2 && text[text.len() - 2] == '.' && text[text.len() - 1] == '0' {
        text.subrange(0, text.len() - 2)
    } else {
        text
    }
}

/// How a value shows when it is printed. A number shows as the host
/// writes it (`digits`), without a trailing `.0`; a string shows without
/// quotes.
pub open spec fn shown(value: ValueView, digits: Seq<char>) -> Seq<char> {
    match value {
        ValueView::String(text) => text,
        ValueView::Number(_) => trimmed(digits),
        ValueView::Boolean(flag) => if flag {
            "true"@
        } else {
            "false"@
        },
        ValueView::Nil => "Nil"@,
        ValueView::Callable(callable) => callable_text(callable),
    }
}

/// The text without a trailing `.0`.
pub fn trim_digits(text: &str) -> (trimmed_text: String)
    ensures
        trimmed_text@ == trimmed(text@),
{
    let count = text.unicode_len();
    if count >= 2 && text.get_char(count - 2) == '.' && text.get_char(count - 1) == '0' {
        String::from_str(text.substring_char(0, count - 2))
    } else {
        String::from_str(text)
    }
}

impl Value {
    /// The value of a literal.
    pub fn from_literal(literal: LiteralValue) -> (value: Value)
        ensures
            value@ == literal_value(literal@),
    {
        match literal {
            LiteralValue::String(text) => Value::String(text),
            LiteralValue::Number(number) => Value::Number(number),
            LiteralValue::Boolean(flag) => Value::Boolean(flag),
            LiteralValue::Nil => Value::Nil,
        }
    }

    /// A copy of this value. A copy of a function is a function over the
    /// same scope.
    pub fn duplicate(&self) -> (copy: Value)
        ensures
            copy@ == self@,
    {
        match self {
            Value::Number(number) => Value::Number(number.duplicate()),
            Value::String(text) => Value::String(text.clone()),
            Value::Boolean(flag) => Value::Boolean(*flag),
            Value::Nil => Value::Nil,
            Value::Callable(callable) => Value::Callable(callable.duplicate()),
        }
    }
}

/// Copies of a sequence of values.
pub fn duplicate_values(values: &Vec<Value>) -> (copy: Vec<Value>)
    ensures
        value_views(copy@) == value_views(values@),
{
    let mut copy: Vec<Value> = Vec::new();
    let mut i: usize = 0;
    while i < values.len()
        invariant
            i <= values@.len(),
            copy@.len() == i,
            forall|j: int| 0 <= j < i ==> copy@[j]@ == values@[j]@,
        decreases values@.len() - i,
    {
        copy.push(values[i].duplicate());
        i += 1;
    }
    assert(value_views(copy@) =~= value_views(values@));
    copy
}

} // verus!
