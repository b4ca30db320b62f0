//! Expressions as trees.

use vstd::prelude::*;

use crate::token::Number;
use crate::token::NumberView;
use crate::token::Token;
use crate::token::TokenView;

verus! {

/// The value of a literal of the program text.
#[derive(Debug, Clone, PartialEq)]
pub enum LiteralValue {
    String(String),
    Number(Number),
    Boolean(bool),
    Nil,
}

pub enum LiteralView {
    String(Seq<char>),
    Number(NumberView),
    Boolean(bool),
    Nil,
}

impl View for LiteralValue {
    type V = LiteralView;

    open spec fn view(&self) -> LiteralView {
        match self {
            LiteralValue::String(text) => LiteralView::String(text@),
            LiteralValue::Number(number) => LiteralView::Number(number@),
            LiteralValue::Boolean(flag) => LiteralView::Boolean(*flag),
            LiteralValue::Nil => LiteralView::Nil,
        }
    }
}

impl LiteralValue {
    /// A copy of this literal.
    pub fn duplicate(&self) -> (copy: LiteralValue)
        ensures
            copy == *self,
    {
        match self {
            LiteralValue::String(text) => LiteralValue::String(text.clone()),
            LiteralValue::Number(number) => LiteralValue::Number(number.duplicate()),
            LiteralValue::Boolean(flag) => LiteralValue::Boolean(*flag),
            LiteralValue::Nil => LiteralValue::Nil,
        }
    }
}

/// An expression of the language, as a tree. Children belong to their
/// parent alone.
#[derive(Debug, PartialEq)]
pub enum Expr {
    Binary(BinaryExpr),
    Unary(UnaryExpr),
    Ternary(TernaryExpr),
    Literal(LiteralExpr),
    Separator(SeparatorExpr),
    Grouping(GroupingExpr),
    Variable(VariableExpr),
    Assgin(AssessmentExpr),
    Logical(LogicalExpr),
    Call(CallExpr),
}

#[derive(Debug, PartialEq)]
pub struct BinaryExpr {
    pub operator: Token,
    pub left: Box<Expr>,
    pub right: Box<Expr>,
}

#[derive(Debug, PartialEq)]
pub struct GroupingExpr {
    pub expression: Box<Expr>,
}

#[derive(Debug, PartialEq)]
pub struct LiteralExpr {
    pub value: LiteralValue,
}

#[derive(Debug, PartialEq)]
pub struct UnaryExpr {
    pub operator: Token,
    pub right: Box<Expr>,
}

#[derive(Debug, PartialEq)]
pub struct SeparatorExpr {
    pub left: Box<Expr>,
    pub right: Box<Expr>,
}

#[derive(Debug, PartialEq)]
pub struct TernaryExpr {
    pub condition: Box<Expr>,
    pub left: Box<Expr>,
    pub right: Box<Expr>,
}

#[derive(Debug, PartialEq)]
pub struct VariableExpr {
    pub name: Token,
}

#[derive(Debug, PartialEq)]
pub struct AssessmentExpr {
    pub name: Token,
    pub value: Box<Expr>,
}

#[derive(Debug, PartialEq)]
pub struct LogicalExpr {
    pub operator: Token,
    pub left: Box<Expr>,
    pub right: Box<Expr>,
}

#[derive(Debug, PartialEq)]
pub struct CallExpr {
    pub callee: Box<Expr>,
    pub paren: Token,
    pub arguments: Vec<Expr>,
}

/// An expression as a mathematical tree.
pub enum ExprView {
    Binary { operator: TokenView, left: Box<ExprView>, right: Box<ExprView> },
    Unary { operator: TokenView, right: Box<ExprView> },
    Ternary { condition: Box<ExprView>, left: Box<ExprView>, right: Box<ExprView> },
    Literal { value: LiteralView },
    Separator { left: Box<ExprView>, right: Box<ExprView> },
    Grouping { expression: Box<ExprView> },
    Variable { name: TokenView },
    Assgin { name: TokenView, value: Box<ExprView> },
    Logical { operator: TokenView, left: Box<ExprView>, right: Box<ExprView> },
    Call { callee: Box<ExprView>, paren: TokenView, arguments: Seq<ExprView> },
}

/// The mathematical tree of an expression.
pub open spec fn expr_view(expr: Expr) -> ExprView
    decreases expr,
{
    match expr {
        Expr::Binary(e) => ExprView::Binary {
            operator: e.operator@,
            left: Box::new(expr_view(*e.left)),
            right: Box::new(expr_view(*e.right)),
        },
        Expr::Unary(e) => ExprView::Unary {
            operator: e.operator@,
            right: Box::new(expr_view(*e.right)),
        },
        Expr::Ternary(e) => ExprView::Ternary {
            condition: Box::new(expr_view(*e.condition)),
            left: Box::new(expr_view(*e.left)),
            right: Box::new(expr_view(*e.right)),
        },
        Expr::Literal(e) => ExprView::Literal { value: e.value@ },
        Expr::Separator(e) => ExprView::Separator {
            left: Box::new(expr_view(*e.left)),
            right: Box::new(expr_view(*e.right)),
        },
        Expr::Grouping(e) => ExprView::Grouping { expression: Box::new(expr_view(*e.expression)) },
        Expr::Variable(e) => ExprView::Variable { name: e.name@ },
        Expr::Assgin(e) => ExprView::Assgin { name: e.name@, value: Box::new(expr_view(*e.value)) },
        Expr::Logical(e) => ExprView::Logical {
            operator: e.operator@,
            left: Box::new(expr_view(*e.left)),
            right: Box::new(expr_view(*e.right)),
        },
        Expr::Call(e) => ExprView::Call {
            callee: Box::new(expr_view(*e.callee)),
            paren: e.paren@,
            arguments: Seq::new(
                e.arguments@.len(),
                |i: int|
                    if 0 <= i < e.arguments@.len() {
                        expr_view(e.arguments@[i])
                    } else {
                        ExprView::Literal { value: LiteralView::Nil }
                    },
            ),
        },
    }
}

impl View for Expr {
    type V = ExprView;

    open spec fn view(&self) -> ExprView {
        expr_view(*self)
    }
}

/// The mathematical trees of a sequence of expressions, in order.
pub open spec fn expr_views(exprs: Seq<Expr>) -> Seq<ExprView> {
    Seq::new(exprs.len(), |i: int| exprs[i]@)
}

/// The arguments of a call, seen one by one, are the trees of the
/// argument expressions.
pub proof fn lemma_call_arguments(e: CallExpr)
    ensures
        Expr::Call(e)@ == (ExprView::Call {
            callee: Box::new(e.callee@),
            paren: e.paren@,
            arguments: expr_views(e.arguments@),
        }),
{
    assert(Expr::Call(e)@->Call_arguments =~= expr_views(e.arguments@));
}

impl Expr {
    pub fn binary(left: Expr, operator: Token, right: Expr) -> (expr: Expr)
        ensures
            expr@ == (ExprView::Binary {
                operator: operator@,
                left: Box::new(left@),
                right: Box::new(right@),
            }),
    {
        Expr::Binary(BinaryExpr { left: Box::new(left), operator, right: Box::new(right) })
    }

    pub fn grouping(expr: Expr) -> (grouped: Expr)
        ensures
            grouped@ == (ExprView::Grouping { expression: Box::new(expr@) }),
    {
        Expr::Grouping(GroupingExpr { expression: Box::new(expr) })
    }

    pub fn separator(left: Expr, right: Expr) -> (expr: Expr)
        ensures
            expr@ == (ExprView::Separator { left: Box::new(left@), right: Box::new(right@) }),
    {
        Expr::Separator(SeparatorExpr { left: Box::new(left), right: Box::new(right) })
    }

    pub fn unary(operator: Token, right: Expr) -> (expr: Expr)
        ensures
            expr@ == (ExprView::Unary { operator: operator@, right: Box::new(right@) }),
    {
        Expr::Unary(UnaryExpr { operator, right: Box::new(right) })
    }

    pub fn literal(literal_value: LiteralValue) -> (expr: Expr)
        ensures
            expr@ == (ExprView::Literal { value: literal_value@ }),
    {
        Expr::Literal(LiteralExpr { value: literal_value })
    }

    pub fn ternary(condition: Expr, left: Expr, right: Expr) -> (expr: Expr)
        ensures
            expr@ == (ExprView::Ternary {
                condition: Box::new(condition@),
                left: Box::new(left@),
                right: Box::new(right@),
            }),
    {
        Expr::Ternary(
            TernaryExpr {
                condition: Box::new(condition),
                right: Box::new(right),
                left: Box::new(left),
            },
        )
    }

    pub fn variable(name: Token) -> (expr: Expr)
        ensures
            expr@ == (ExprView::Variable { name: name@ }),
    {
        Expr::Variable(VariableExpr { name })
    }

    pub fn assign(name: Token, value: Expr) -> (expr: Expr)
        ensures
            expr@ == (ExprView::Assgin { name: name@, value: Box::new(value@) }),
    {
        Expr::Assgin(AssessmentExpr { name, value: Box::new(value) })
    }

    pub fn logical(left: Expr, operator: Token, right: Expr) -> (expr: Expr)
        ensures
            expr@ == (ExprView::Logical {
                operator: operator@,
                left: Box::new(left@),
                right: Box::new(right@),
            }),
    {
        Expr::Logical(LogicalExpr { left: Box::new(left), operator, right: Box::new(right) })
    }

    pub fn call(callee: Expr, paren: Token, arguments: Vec<Expr>) -> (expr: Expr)
        ensures
            expr@ == (ExprView::Call {
                callee: Box::new(callee@),
                paren: paren@,
                arguments: expr_views(arguments@),
            }),
    {
        let e = CallExpr { callee: Box::new(callee), paren, arguments };
        proof {
            lemma_call_arguments(e);
        }
        Expr::Call(e)
    }

    /// A copy of this expression, with copies of all that it holds.
    pub fn duplicate(&self) -> (copy: Expr)
        ensures
            copy@ == self@,
        decreases self,
    {
        match self {
            Expr::Binary(e) => Expr::binary(
                e.left.duplicate(),
                e.operator.duplicate(),
                e.right.duplicate(),
            ),
            Expr::Unary(e) => Expr::unary(e.operator.duplicate(), e.right.duplicate()),
            Expr::Ternary(e) => Expr::ternary(
                e.condition.duplicate(),
                e.left.duplicate(),
                e.right.duplicate(),
            ),
            Expr::Literal(e) => Expr::literal(e.value.duplicate()),
            Expr::Separator(e) => Expr::separator(e.left.duplicate(), e.right.duplicate()),
            Expr::Grouping(e) => Expr::grouping(e.expression.duplicate()),
            Expr::Variable(e) => Expr::variable(e.name.duplicate()),
            Expr::Assgin(e) => Expr::assign(e.name.duplicate(), e.value.duplicate()),
            Expr::Logical(e) => Expr::logical(
                e.left.duplicate(),
                e.operator.duplicate(),
                e.right.duplicate(),
            ),
            Expr::Call(e) => {
                let mut arguments: Vec<Expr> = Vec::new();
                let mut i: usize = 0;
                while i < e.arguments.len()
                    invariant
                        *self == Expr::Call(*e),
                        i <= e.arguments@.len(),
                        arguments@.len() == i,
                        forall|j: int| 0 <= j < i ==> arguments@[j]@ == e.arguments@[j]@,
                    decreases e.arguments@.len() - i,
                {
                    proof {
                        assert(decreases_to!(*self => self->Call_0));
                        assert(decreases_to!(*e => e.arguments));
                        assert(decreases_to!(e.arguments => e.arguments[i as int]));
                    }
                    arguments.push(e.arguments[i].duplicate());
                    i += 1;
                }
                proof {
                    lemma_call_arguments(*e);
                    assert(expr_views(arguments@) =~= expr_views(e.arguments@));
                }
                Expr::call(e.callee.duplicate(), e.paren.duplicate(), arguments)
            },
        }
    }
}

} // verus!
