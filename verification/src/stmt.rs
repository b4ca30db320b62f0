//! Statements as trees.

use vstd::prelude::*;

use crate::ast::expr::Expr;
use crate::ast::expr::ExprView;
use crate::token::token_views;
use crate::token::Token;
use crate::token::TokenView;

verus! {

/// A statement of the language.
#[derive(Debug, PartialEq)]
pub struct Stmt {
    pub expresstion: StmtExpr,
}

/// The forms of statement. A `for` loop has none of its own: the parser
/// writes it as a block around a `while`.
#[derive(Debug, PartialEq)]
pub enum StmtExpr {
    Print(Expr),
    Expresstion(Expr),
    Var(Token, Option<Expr>),
    Block(Vec<Stmt>),
    If(Expr, Box<Stmt>, Option<Box<Stmt>>),
    While(Expr, Box<Stmt>),
    Break,
    Function(FunctionStmt),
    Return(Token, Option<Expr>),
}

/// The declaration of a function: its name, the names of its parameters
/// and the statements of its body.
#[derive(Debug, PartialEq)]
pub struct FunctionStmt {
    pub name: Token,
    pub params: Vec<Token>,
    pub body: Vec<Stmt>,
}

/// A statement as a mathematical tree.
pub enum StmtView {
    Print(ExprView),
    Expresstion(ExprView),
    Var(TokenView, Option<ExprView>),
    Block(Seq<StmtView>),
    If(ExprView, Box<StmtView>, Option<Box<StmtView>>),
    While(ExprView, Box<StmtView>),
    Break,
    Function(FunctionView),
    Return(TokenView, Option<ExprView>),
}

pub struct FunctionView {
    pub name: TokenView,
    pub params: Seq<TokenView>,
    pub body: Seq<StmtView>,
}

/// The mathematical tree of a statement.
pub open spec fn stmt_view(stmt: Stmt) -> StmtView
    decreases stmt,
{
    match stmt.expresstion {
        StmtExpr::Print(e) => StmtView::Print(e@),
        StmtExpr::Expresstion(e) => StmtView::Expresstion(e@),
        StmtExpr::Var(name, init) => StmtView::Var(
            name@,
            match init {
                Some(e) => Some(e@),
                None => None,
            },
        ),
        StmtExpr::Block(stmts) => StmtView::Block(
            Seq::new(
                stmts@.len(),
                |i: int|
                    if 0 <= i < stmts@.len() {
                        stmt_view(stmts@[i])
                    } else {
                        StmtView::Break
                    },
            ),
        ),
        StmtExpr::If(condition, then_branch, else_branch) => StmtView::If(
            condition@,
            Box::new(stmt_view(*then_branch)),
            match else_branch {
                Some(branch) => Some(Box::new(stmt_view(*branch))),
                None => None,
            },
        ),
        StmtExpr::While(condition, body) => StmtView::While(
            condition@,
            Box::new(stmt_view(*body)),
        ),
        StmtExpr::Break => StmtView::Break,
        StmtExpr::Function(f) => StmtView::Function(
            FunctionView {
                name: f.name@,
                params: token_views(f.params@),
                body: Seq::new(
                    f.body@.len(),
                    |i: int|
                        if 0 <= i < f.body@.len() {
                            stmt_view(f.body@[i])
                        } else {
                            StmtView::Break
                        },
                ),
            },
        ),
        StmtExpr::Return(keyword, value) => StmtView::Return(
            keyword@,
            match value {
                Some(e) => Some(e@),
                None => None,
            },
        ),
    }
}

impl View for Stmt {
    type V = StmtView;

    open spec fn view(&self) -> StmtView {
        stmt_view(*self)
    }
}

/// The mathematical tree of a statement that may be missing.
pub open spec fn optional_stmt(stmt: Option<Stmt>) -> Option<StmtView> {
    match stmt {
        Some(s) => Some(s@),
        None => None,
    }
}

/// The mathematical trees of a sequence of statements, in order.
pub open spec fn stmt_views(stmts: Seq<Stmt>) -> Seq<StmtView> {
    Seq::new(stmts.len(), |i: int| stmts[i]@)
}

impl View for FunctionStmt {
    type V = FunctionView;

    open spec fn view(&self) -> FunctionView {
        FunctionView {
            name: self.name@,
            params: token_views(self.params@),
            body: stmt_views(self.body@),
        }
    }
}

/// The tree of a block holds the trees of its statements.
pub proof fn lemma_block_view(stmts: Vec<Stmt>)
    ensures
        (Stmt { expresstion: StmtExpr::Block(stmts) })@ == StmtView::Block(stmt_views(stmts@)),
{
    assert((Stmt { expresstion: StmtExpr::Block(stmts) })@->Block_0 =~= stmt_views(stmts@));
}

/// The tree of a function declaration is that of the function.
pub proof fn lemma_function_view(f: FunctionStmt)
    ensures
        (Stmt { expresstion: StmtExpr::Function(f) })@ == StmtView::Function(f@),
{
    assert((Stmt { expresstion: StmtExpr::Function(f) })@->Function_0.body =~= stmt_views(
        f.body@,
    ));
}

/// Copies of a sequence of tokens.
pub fn duplicate_tokens(tokens: &Vec<Token>) -> (copy: Vec<Token>)
    ensures
        copy@ == tokens@,
{
    let mut copy: Vec<Token> = Vec::new();
    let mut i: usize = 0;
    while i < tokens.len()
        invariant
            i <= tokens@.len(),
            copy@.len() == i,
            forall|j: int| 0 <= j < i ==> copy@[j] == tokens@[j],
        decreases tokens@.len() - i,
    {
        copy.push(tokens[i].duplicate());
        i += 1;
    }
    assert(copy@ =~= tokens@);
    copy
}

/// Copies of a sequence of statements.
pub fn duplicate_stmts(stmts: &Vec<Stmt>) -> (copy: Vec<Stmt>)
    ensures
        stmt_views(copy@) == stmt_views(stmts@),
    decreases stmts,
{
    let mut copy: Vec<Stmt> = Vec::new();
    let mut i: usize = 0;
    while i < stmts.len()
        invariant
            i <= stmts@.len(),
            copy@.len() == i,
            forall|j: int| 0 <= j < i ==> copy@[j]@ == stmts@[j]@,
        decreases stmts@.len() - i,
    {
        proof {
            assert(decreases_to!(*stmts => stmts[i as int]));
        }
        copy.push(stmts[i].duplicate());
        i += 1;
    }
    assert(stmt_views(copy@) =~= stmt_views(stmts@));
    copy
}

impl FunctionStmt {
    /// A copy of this declaration, with copies of all that it holds.
    pub fn duplicate(&self) -> (copy: FunctionStmt)
        ensures
            copy@ == self@,
        decreases self,
    {
        FunctionStmt {
            name: self.name.duplicate(),
            params: duplicate_tokens(&self.params),
            body: duplicate_stmts(&self.body),
        }
    }
}

impl Stmt {
    pub fn print_stmt(value: Expr) -> (stmt: Stmt)
        ensures
            stmt@ == StmtView::Print(value@),
    {
        Self { expresstion: StmtExpr::Print(value) }
    }

    pub fn expresstion_stmt(value: Expr) -> (stmt: Stmt)
        ensures
            stmt@ == StmtView::Expresstion(value@),
    {
        Self { expresstion: StmtExpr::Expresstion(value) }
    }

    pub fn var_stmt(name: Token, initializer: Option<Expr>) -> (stmt: Stmt)
        ensures
            stmt@ == StmtView::Var(
                name@,
                match initializer {
                    Some(e) => Some(e@),
                    None => None,
                },
            ),
    {
        Self { expresstion: StmtExpr::Var(name, initializer) }
    }

    pub fn block_stmt(statements: Vec<Stmt>) -> (stmt: Stmt)
        ensures
            stmt@ == StmtView::Block(stmt_views(statements@)),
    {
        proof {
            lemma_block_view(statements);
        }
        Self { expresstion: StmtExpr::Block(statements) }
    }

    pub fn if_stmt(condition: Expr, then_branch: Box<Stmt>, else_branch: Option<Box<Stmt>>) -> (stmt:
        Stmt)
        ensures
            stmt@ == StmtView::If(
                condition@,
                Box::new(then_branch@),
                match else_branch {
                    Some(branch) => Some(Box::new(branch@)),
                    None => None,
                },
            ),
    {
        Self { expresstion: StmtExpr::If(condition, then_branch, else_branch) }
    }

    pub fn while_stmt(condition: Expr, body: Stmt) -> (stmt: Stmt)
        ensures
            stmt@ == StmtView::While(condition@, Box::new(body@)),
    {
        Self { expresstion: StmtExpr::While(condition, Box::new(body)) }
    }

    pub fn break_stmt() -> (stmt: Stmt)
        ensures
            stmt@ == StmtView::Break,
    {
        Self { expresstion: StmtExpr::Break }
    }

    pub fn function_stmt(declaration: FunctionStmt) -> (stmt: Stmt)
        ensures
            stmt@ == StmtView::Function(declaration@),
    {
        proof {
            lemma_function_view(declaration);
        }
        Self { expresstion: StmtExpr::Function(declaration) }
    }

    pub fn return_stmt(keyword: Token, value: Option<Expr>) -> (stmt: Stmt)
        ensures
            stmt@ == StmtView::Return(
                keyword@,
                match value {
                    Some(e) => Some(e@),
                    None => None,
                },
            ),
    {
        Self { expresstion: StmtExpr::Return(keyword, value) }
    }

    /// A copy of this statement, with copies of all that it holds.
    pub fn duplicate(&self) -> (copy: Stmt)
        ensures
            copy@ == self@,
        decreases self,
    {
        match &self.expresstion {
            StmtExpr::Print(e) => Stmt::print_stmt(e.duplicate()),
            StmtExpr::Expresstion(e) => Stmt::expresstion_stmt(e.duplicate()),
            StmtExpr::Var(name, init) => {
                let initializer = match init {
                    Some(e) => Some(e.duplicate()),
                    None => None,
                };
                Stmt::var_stmt(name.duplicate(), initializer)
            },
            StmtExpr::Block(stmts) => {
                proof {
                    lemma_block_view(*stmts);
                }
                Stmt::block_stmt(duplicate_stmts(stmts))
            },
            StmtExpr::If(condition, then_branch, else_branch) => {
                let other = match else_branch {
                    Some(branch) => Some(Box::new(branch.duplicate())),
                    None => None,
                };
                Stmt::if_stmt(condition.duplicate(), Box::new(then_branch.duplicate()), other)
            },
            StmtExpr::While(condition, body) => Stmt::while_stmt(
                condition.duplicate(),
                body.duplicate(),
            ),
            StmtExpr::Break => Stmt::break_stmt(),
            StmtExpr::Function(f) => {
                proof {
                    lemma_function_view(*f);
                }
                Stmt::function_stmt(f.duplicate())
            },
            StmtExpr::Return(keyword, value) => {
                let result = match value {
                    Some(e) => Some(e.duplicate()),
                    None => None,
                };
                Stmt::return_stmt(keyword.duplicate(), result)
            },
        }
    }
}

} // verus!
