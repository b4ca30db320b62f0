//! The interpreter: it takes the steps that the semantics describes.

use std::rc::Rc;
use vstd::prelude::*;
use vstd::string::StringExecFns;

use crate::ast::expr::expr_views;
use crate::ast::expr::lemma_call_arguments;
use crate::ast::expr::AssessmentExpr;
use crate::ast::expr::BinaryExpr;
use crate::ast::expr::CallExpr;
use crate::ast::expr::Expr;
use crate::ast::expr::ExprView;
use crate::ast::expr::GroupingExpr;
use crate::ast::expr::LiteralExpr;
use crate::ast::expr::LogicalExpr;
use crate::ast::expr::SeparatorExpr;
use crate::ast::expr::TernaryExpr;
use crate::ast::expr::UnaryExpr;
use crate::ast::expr::VariableExpr;
use crate::environment::Environment;
use crate::environment::ScopeView;
use crate::error::RunTimeError;
use crate::lox_callable::Callable;
use crate::lox_callable::CallableView;
use crate::lox_callable::LoxCallable;
use crate::lox_callable::NativeFunction;
use crate::lox_function::LoxFunction;
use crate::operators::binary_operation;
use crate::operators::is_truthy;
use crate::operators::request;
use crate::operators::resume;
use crate::operators::stringify;
use crate::operators::unary_operation;
use crate::operators::Answer;
use crate::operators::Operation;
use crate::semantics::abandon;
use crate::semantics::advance;
use crate::semantics::answered;
use crate::semantics::applied;
use crate::semantics::bind_parameters;
use crate::semantics::call_function;
use crate::semantics::cut;
use crate::semantics::enter_block;
use crate::semantics::evaluate;
use crate::semantics::execute;
use crate::semantics::invoke;
use crate::semantics::perform;
use crate::semantics::print;
use crate::semantics::program_tasks;
use crate::semantics::scheduled;
use crate::semantics::scheduled_exprs;
use crate::semantics::step;
use crate::semantics::store;
use crate::semantics::taken;
use crate::semantics::unwind;
use crate::semantics::Done;
use crate::semantics::Machine;
use crate::semantics::Outcome;
use crate::stmt::lemma_block_view;
use crate::stmt::lemma_function_view;
use crate::stmt::optional_stmt;
use crate::stmt::stmt_views;
use crate::stmt::FunctionStmt;
use crate::stmt::Stmt;
use crate::stmt::StmtExpr;
use crate::stmt::StmtView;
use crate::task::task_views;
use crate::task::ControlFlow;
use crate::task::Event;
use crate::task::Pending;
use crate::task::PendingView;
use crate::task::Request;
use crate::task::Task;
use crate::task::TaskView;
use crate::token::Token;
use crate::token::TokenView;
use crate::token::TokenType;
use crate::value::value_views;
use crate::value::Value;
use crate::value::ValueView;

verus! {

/// Runs a program step by step. The interpreter does no arithmetic and
/// no output itself: a step ends with a request, the host does what is
/// asked, and hands the answer to the next step.
pub struct Interpreter {
    pub has_error: bool,
    environment: usize,
    scopes: Environment,
    tasks: Vec<Task>,
    values: Vec<Value>,
}

impl View for Interpreter {
    type V = Machine;

    closed spec fn view(&self) -> Machine {
        Machine {
            has_error: self.has_error,
            environment: self.environment,
            scopes: self.scopes@,
            tasks: task_views(self.tasks@),
            values: value_views(self.values@),
        }
    }
}

/// How a handler of a task ended.
#[derive(Debug, PartialEq)]
pub enum Completion {
    Normal,
    Signal(ControlFlow),
    Failure(RunTimeError),
    Ask(Request),
}

impl View for Completion {
    type V = Outcome;

    open spec fn view(&self) -> Outcome {
        match self {
            Completion::Normal => Outcome::Normal,
            Completion::Signal(flow) => Outcome::Signal(flow@),
            Completion::Failure(error) => Outcome::Failure(error@),
            Completion::Ask(request) => Outcome::Ask(request@),
        }
    }
}

/// How a statement ended, as an outcome.
pub open spec fn statement_outcome(r: Result<Option<ControlFlow>, RunTimeError>) -> Outcome {
    match r {
        Ok(None) => Outcome::Normal,
        Ok(Some(flow)) => Outcome::Signal(flow@),
        Err(error) => Outcome::Failure(error@),
    }
}

/// How the evaluation of an expression ended, as an outcome.
pub open spec fn expression_outcome(r: Result<(), RunTimeError>) -> Outcome {
    match r {
        Ok(_) => Outcome::Normal,
        Err(error) => Outcome::Failure(error@),
    }
}

/// The machine that has nothing to do: one scope, no tasks, no values.
pub open spec fn idle() -> Machine {
    Machine {
        has_error: false,
        environment: 0,
        scopes: seq![ScopeView { enclosing: None, bindings: Seq::empty() }],
        tasks: Seq::empty(),
        values: Seq::empty(),
    }
}

impl Interpreter {
    pub fn new() -> (interpreter: Interpreter)
        ensures
            interpreter@ == idle(),
    {
        let interpreter = Self {
            has_error: false,
            environment: 0,
            scopes: Environment::new(),
            tasks: Vec::new(),
            values: Vec::new(),
        };
        assert(interpreter@.tasks =~= Seq::empty());
        assert(interpreter@.values =~= Seq::empty());
        interpreter
    }

    /// Whether an error of the running program was met so far.
    pub fn had_error(&self) -> (flag: bool)
        ensures
            flag == self@.has_error,
    {
        self.has_error
    }

    /// Whether there is no work left.
    pub fn is_finished(&self) -> (flag: bool)
        ensures
            flag == (self@.tasks.len() == 0),
    {
        self.tasks.len() == 0
    }

    /// Binds a name in the global scope to a function of the host.
    pub fn define_native(&mut self, name: String, function: NativeFunction)
        ensures
            final(self)@ == old(self)@.with_scopes(
                crate::environment::defined(
                    old(self)@.scopes,
                    0,
                    name@,
                    ValueView::Callable(CallableView::Native(function)),
                ),
            ),
    {
        self.scopes.define(0, name, Some(Value::Callable(Callable::Native(function))));
    }

    fn push_task(&mut self, task: Task)
        ensures
            final(self)@ == old(self)@.with_tasks(seq![task@]),
    {
        let ghost before = self@;
        self.tasks.push(task);
        assert(self@.tasks =~= before.tasks + seq![task@]);
    }

    fn push_two(&mut self, below: Task, above: Task)
        ensures
            final(self)@ == old(self)@.with_tasks(seq![below@, above@]),
    {
        let ghost before = self@;
        self.tasks.push(below);
        self.tasks.push(above);
        assert(self@.tasks =~= before.tasks + seq![below@, above@]);
    }

    fn push_three(&mut self, below: Task, middle: Task, above: Task)
        ensures
            final(self)@ == old(self)@.with_tasks(seq![below@, middle@, above@]),
    {
        let ghost before = self@;
        self.tasks.push(below);
        self.tasks.push(middle);
        self.tasks.push(above);
        assert(self@.tasks =~= before.tasks + seq![below@, middle@, above@]);
    }

    fn push_value(&mut self, value: Value)
        ensures
            final(self)@ == old(self)@.with_value(value@),
    {
        let ghost before = self@;
        self.values.push(value);
        assert(self@.values =~= before.values.push(value@));
    }

    /// Takes the value on top; `nil` where there is none.
    fn pop_value(&mut self) -> (value: Value)
        ensures
            value@ == old(self)@.top(),
            final(self)@ == old(self)@.popped(),
    {
        let ghost before = self@;
        match self.values.pop() {
            Some(value) => {
                assert(self@.values =~= before.values.drop_last());
                value
            },
            None => Value::Nil,
        }
    }

    /// Whether the value on top counts as true.
    fn top_is_truthy(&self) -> (flag: bool)
        ensures
            flag == crate::value::truthy(self@.top()),
    {
        let count = self.values.len();
        if count == 0 {
            false
        } else {
            is_truthy(&self.values[count - 1])
        }
    }

    /// Whether the value on top can be called.
    fn top_is_callable(&self) -> (flag: bool)
        ensures
            flag == (self@.top() is Callable),
    {
        let count = self.values.len();
        if count == 0 {
            false
        } else {
            match &self.values[count - 1] {
                Value::Callable(_) => true,
                _ => false,
            }
        }
    }

    /// A copy of the value on top; `nil` where there is none.
    fn top_value(&self) -> (value: Value)
        ensures
            value@ == self@.top(),
    {
        let count = self.values.len();
        if count == 0 {
            Value::Nil
        } else {
            self.values[count - 1].duplicate()
        }
    }

    /// Puts statements on the stack of tasks, the first on top.
    fn schedule(&mut self, statements: Vec<Stmt>)
        ensures
            final(self)@ == old(self)@.with_tasks(scheduled(stmt_views(statements@))),
    {
        let mut statements = statements;
        let ghost before = self@;
        let ghost all = stmt_views(statements@);
        let ghost count = statements@.len();
        while statements.len() > 0
            invariant
                statements@.len() <= count,
                count == all.len(),
                stmt_views(statements@) =~= all.subrange(0, statements@.len() as int),
                self@ == (Machine {
                    tasks: before.tasks + scheduled(all).subrange(0, count - statements@.len()),
                    ..before
                }),
            decreases statements@.len(),
        {
            let ghost left = statements@;
            let ghost tasks = self@.tasks;
            match statements.pop() {
                Some(statement) => {
                    assert(statement@ == stmt_views(left)[left.len() - 1]);
                    assert(stmt_views(statements@) =~= stmt_views(left).drop_last());
                    self.tasks.push(Task::Execute(statement));
                    assert(self@.tasks =~= tasks.push(TaskView::Execute(statement@)));
                    assert(self@.tasks =~= before.tasks + scheduled(all).subrange(
                        0,
                        count - statements@.len(),
                    ));
                },
                None => {},
            }
        }
        assert(scheduled(all).subrange(0, count as int) =~= scheduled(all));
    }

    /// Puts expressions on the stack of tasks, the first on top.
    fn schedule_exprs(&mut self, exprs: Vec<Expr>)
        ensures
            final(self)@ == old(self)@.with_tasks(scheduled_exprs(expr_views(exprs@))),
    {
        let mut exprs = exprs;
        let ghost before = self@;
        let ghost all = expr_views(exprs@);
        let ghost count = exprs@.len();
        while exprs.len() > 0
            invariant
                exprs@.len() <= count,
                count == all.len(),
                expr_views(exprs@) =~= all.subrange(0, exprs@.len() as int),
                self@ == (Machine {
                    tasks: before.tasks + scheduled_exprs(all).subrange(0, count - exprs@.len()),
                    ..before
                }),
            decreases exprs@.len(),
        {
            let ghost left = exprs@;
            let ghost tasks = self@.tasks;
            match exprs.pop() {
                Some(expr) => {
                    assert(expr@ == expr_views(left)[left.len() - 1]);
                    assert(expr_views(exprs@) =~= expr_views(left).drop_last());
                    self.tasks.push(Task::Evaluate(expr));
                    assert(self@.tasks =~= tasks.push(TaskView::Evaluate(expr@)));
                    assert(self@.tasks =~= before.tasks + scheduled_exprs(all).subrange(
                        0,
                        count - exprs@.len(),
                    ));
                },
                None => {},
            }
        }
        assert(scheduled_exprs(all).subrange(0, count as int) =~= scheduled_exprs(all));
    }

    pub fn visit_litearal_expr(&mut self, expr: LiteralExpr) -> (r: Result<(), RunTimeError>)
        ensures
            r is Ok,
            final(self)@ == old(self)@.with_value(crate::value::literal_value(expr.value@)),
    {
        self.push_value(Value::from_literal(expr.value));
        Ok(())
    }

    pub fn visit_logical_exper(&mut self, expr: LogicalExpr) -> (r: Result<(), RunTimeError>)
        ensures
            r is Ok,
            final(self)@ == old(self)@.with_tasks(
                seq![
                    TaskView::ShortCircuit(expr.operator@, expr.right@),
                    TaskView::Evaluate(expr.left@),
                ],
            ),
    {
        self.push_two(Task::ShortCircuit(expr.operator, *expr.right), Task::Evaluate(*expr.left));
        Ok(())
    }

    pub fn visit_grouping_expr(&mut self, expr: GroupingExpr) -> (r: Result<(), RunTimeError>)
        ensures
            r is Ok,
            final(self)@ == old(self)@.with_tasks(seq![TaskView::Evaluate(expr.expression@)]),
    {
        self.push_task(Task::Evaluate(*expr.expression));
        Ok(())
    }

    pub fn visit_unary_expr(&mut self, expr: UnaryExpr) -> (r: Result<(), RunTimeError>)
        ensures
            r is Ok,
            final(self)@ == old(self)@.with_tasks(
                seq![TaskView::Unary(expr.operator@), TaskView::Evaluate(expr.right@)],
            ),
    {
        self.push_two(Task::Unary(expr.operator), Task::Evaluate(*expr.right));
        Ok(())
    }

    pub fn visit_binary_expr(&mut self, expr: BinaryExpr) -> (r: Result<(), RunTimeError>)
        ensures
            r is Ok,
            final(self)@ == old(self)@.with_tasks(
                seq![
                    TaskView::Binary(expr.operator@),
                    TaskView::Evaluate(expr.right@),
                    TaskView::Evaluate(expr.left@),
                ],
            ),
    {
        self.push_three(
            Task::Binary(expr.operator),
            Task::Evaluate(*expr.right),
            Task::Evaluate(*expr.left),
        );
        Ok(())
    }

    pub fn visit_ternary_expr(&mut self, expr: TernaryExpr) -> (r: Result<(), RunTimeError>)
        ensures
            r is Ok,
            final(self)@ == old(self)@.with_tasks(
                seq![
                    TaskView::Choose(expr.left@, expr.right@),
                    TaskView::Evaluate(expr.condition@),
                ],
            ),
    {
        self.push_two(Task::Choose(*expr.left, *expr.right), Task::Evaluate(*expr.condition));
        Ok(())
    }

    pub fn visit_separator_expr(&mut self, expr: SeparatorExpr) -> (r: Result<(), RunTimeError>)
        ensures
            r is Ok,
            final(self)@ == old(self)@.with_tasks(
                seq![
                    TaskView::Evaluate(expr.right@),
                    TaskView::Discard,
                    TaskView::Evaluate(expr.left@),
                ],
            ),
    {
        self.push_three(Task::Evaluate(*expr.right), Task::Discard, Task::Evaluate(*expr.left));
        Ok(())
    }

    pub fn visit_variable_expr(&mut self, expr: VariableExpr) -> (r: Result<(), RunTimeError>)
        ensures
            (Done { machine: final(self)@, outcome: expression_outcome(r) }) == evaluate(
                old(self)@,
                ExprView::Variable { name: expr.name@ },
            ),
    {
        match self.scopes.get(self.environment, expr.name) {
            Ok(value) => {
                self.push_value(value);
                Ok(())
            },
            Err(error) => Err(error),
        }
    }

    pub fn visit_assign_expr(&mut self, exper: AssessmentExpr) -> (r: Result<(), RunTimeError>)
        ensures
            r is Ok,
            final(self)@ == old(self)@.with_tasks(
                seq![TaskView::Store(exper.name@), TaskView::Evaluate(exper.value@)],
            ),
    {
        self.push_two(Task::Store(exper.name), Task::Evaluate(*exper.value));
        Ok(())
    }

    pub fn visit_call_expr(&mut self, expr: CallExpr) -> (r: Result<(), RunTimeError>)
        ensures
            r is Ok,
            final(self)@ == old(self)@.with_tasks(
                seq![
                    TaskView::Callee(expr.paren@, expr_views(expr.arguments@)),
                    TaskView::Evaluate(expr.callee@),
                ],
            ),
    {
        self.push_two(Task::Callee(expr.paren, expr.arguments), Task::Evaluate(*expr.callee));
        Ok(())
    }

    pub fn visit_expresstion_stmt(&mut self, expr: Expr) -> (r: Result<
        Option<ControlFlow>,
        RunTimeError,
    >)
        ensures
            r == Ok::<Option<ControlFlow>, RunTimeError>(None),
            final(self)@ == old(self)@.with_tasks(seq![TaskView::Discard, TaskView::Evaluate(expr@)]),
    {
        self.push_two(Task::Discard, Task::Evaluate(expr));
        Ok(None)
    }

    pub fn visit_if_stmt(
        &mut self,
        condition: Expr,
        then_branch: Stmt,
        else_branch: Option<Stmt>,
    ) -> (r: Result<Option<ControlFlow>, RunTimeError>)
        ensures
            r == Ok::<Option<ControlFlow>, RunTimeError>(None),
            final(self)@ == old(self)@.with_tasks(
                seq![
                    TaskView::Branch(then_branch@, optional_stmt(else_branch)),
                    TaskView::Evaluate(condition@),
                ],
            ),
    {
        self.push_two(Task::Branch(then_branch, else_branch), Task::Evaluate(condition));
        Ok(None)
    }

    pub fn visit_print_stmt(&mut self, expr: Expr) -> (r: Result<Option<ControlFlow>, RunTimeError>)
        ensures
            r == Ok::<Option<ControlFlow>, RunTimeError>(None),
            final(self)@ == old(self)@.with_tasks(seq![TaskView::Print, TaskView::Evaluate(expr@)]),
    {
        self.push_two(Task::Print, Task::Evaluate(expr));
        Ok(None)
    }

    pub fn visit_var_stmt(&mut self, name: Token, init: Option<Expr>) -> (r: Result<
        Option<ControlFlow>,
        RunTimeError,
    >)
        ensures
            r == Ok::<Option<ControlFlow>, RunTimeError>(None),
            final(self)@ == execute(
                old(self)@,
                StmtView::Var(
                    name@,
                    match init {
                        Some(e) => Some(e@),
                        None => None,
                    },
                ),
            ).machine,
    {
        match init {
            Some(expr) => {
                self.push_two(Task::Define(name), Task::Evaluate(expr));
            },
            None => {
                self.scopes.define(self.environment, name.lexeme, None);
            },
        }
        Ok(None)
    }

    pub fn visit_while_stmt(&mut self, condition: Expr, body: Stmt) -> (r: Result<
        Option<ControlFlow>,
        RunTimeError,
    >)
        ensures
            r == Ok::<Option<ControlFlow>, RunTimeError>(None),
            final(self)@ == old(self)@.with_tasks(seq![TaskView::Loop(condition@, body@)]),
    {
        self.push_task(Task::Loop(condition, body));
        Ok(None)
    }

    pub fn visit_break_stmt(&self) -> (r: Result<Option<ControlFlow>, RunTimeError>)
        ensures
            r == Ok::<Option<ControlFlow>, RunTimeError>(Some(ControlFlow::Break)),
    {
        Ok(Some(ControlFlow::Break))
    }

    pub fn visit_function_stmt(&mut self, declaration: FunctionStmt) -> (r: Result<
        Option<ControlFlow>,
        RunTimeError,
    >)
        ensures
            r == Ok::<Option<ControlFlow>, RunTimeError>(None),
            final(self)@ == execute(old(self)@, StmtView::Function(declaration@)).machine,
    {
        let name = declaration.name.lexeme.clone();
        let function = LoxFunction::new(Rc::new(declaration), self.environment);
        self.scopes.define(
            self.environment,
            name,
            Some(Value::Callable(Callable::Function(function))),
        );
        Ok(None)
    }

    pub fn visit_return_stmt(&mut self, value: Option<Expr>) -> (r: Result<
        Option<ControlFlow>,
        RunTimeError,
    >)
        ensures
            match value {
                Some(e) => r == Ok::<Option<ControlFlow>, RunTimeError>(None) && final(self)@
                    == old(self)@.with_tasks(seq![TaskView::Return, TaskView::Evaluate(e@)]),
                None => r == Ok::<Option<ControlFlow>, RunTimeError>(
                    Some(ControlFlow::Return(None)),
                ) && final(self)@ == old(self)@,
            },
    {
        match value {
            Some(expr) => {
                self.push_two(Task::Return, Task::Evaluate(expr));
                Ok(None)
            },
            None => Ok(Some(ControlFlow::Return(None))),
        }
    }

    /// Puts the statements of a program on the stack of tasks. The
    /// program runs as the steps that follow are taken: an error in a
    /// statement ends that statement, and the next one goes on.
    pub fn interpret(&mut self, statements: Vec<Stmt>)
        ensures
            final(self)@ == old(self)@.with_tasks(
                program_tasks(stmt_views(statements@), old(self)@.values.len() as usize),
            ),
    {
        let mut statements = statements;
        let ghost before = self@;
        let ghost all = stmt_views(statements@);
        let ghost count = statements@.len();
        let height = self.values.len();
        assert(height == self@.values.len());
        let ghost whole = program_tasks(all, height);
        while statements.len() > 0
            invariant
                statements@.len() <= count,
                count == all.len(),
                whole == program_tasks(all, height),
                stmt_views(statements@) =~= all.subrange(0, statements@.len() as int),
                self@ == (Machine {
                    tasks: before.tasks + whole.subrange(0, 2 * (count - statements@.len())),
                    ..before
                }),
            decreases statements@.len(),
        {
            let ghost left = statements@;
            let ghost tasks = self@.tasks;
            match statements.pop() {
                Some(statement) => {
                    assert(statement@ == stmt_views(left)[left.len() - 1]);
                    assert(stmt_views(statements@) =~= stmt_views(left).drop_last());
                    self.tasks.push(Task::Recover(height));
                    self.tasks.push(Task::Execute(statement));
                    assert(self@.tasks =~= tasks.push(TaskView::Recover(height)).push(
                        TaskView::Execute(statement@),
                    ));
                    assert(self@.tasks =~= before.tasks + whole.subrange(
                        0,
                        2 * (count - statements@.len()),
                    ));
                },
                None => {},
            }
        }
        assert(whole.subrange(0, 2 * count as int) =~= whole);
    }

    /// Runs a statement: what it does at once is done, and what is left
    /// of it is put on the stack of tasks.
    pub fn execute(&mut self, statement: Stmt) -> (r: Result<Option<ControlFlow>, RunTimeError>)
        ensures
            (Done { machine: final(self)@, outcome: statement_outcome(r) }) == execute(
                old(self)@,
                statement@,
            ),
    {
        match statement.expresstion {
            StmtExpr::Print(expr) => self.visit_print_stmt(expr),
            StmtExpr::Expresstion(expr) => self.visit_expresstion_stmt(expr),
            StmtExpr::Var(name, init) => self.visit_var_stmt(name, init),
            StmtExpr::Block(statements) => {
                proof {
                    lemma_block_view(statements);
                }
                self.visit_block_stmt(statements)
            },
            StmtExpr::If(condition, then_branch, else_branch) => {
                let other = match else_branch {
                    Some(branch) => Some(*branch),
                    None => None,
                };
                self.visit_if_stmt(condition, *then_branch, other)
            },
            StmtExpr::While(expr, stmt) => self.visit_while_stmt(expr, *stmt),
            StmtExpr::Break => self.visit_break_stmt(),
            StmtExpr::Function(declaration) => {
                proof {
                    lemma_function_view(declaration);
                }
                self.visit_function_stmt(declaration)
            },
            StmtExpr::Return(_, value) => self.visit_return_stmt(value),
        }
    }

    /// Evaluates an expression: a literal or a name has its value at
    /// once, and what is left of any other is put on the stack of tasks.
    pub fn evaluate(&mut self, expr: Expr) -> (r: Result<(), RunTimeError>)
        ensures
            (Done { machine: final(self)@, outcome: expression_outcome(r) }) == evaluate(
                old(self)@,
                expr@,
            ),
    {
        match expr {
            Expr::Binary(binary_expr) => self.visit_binary_expr(binary_expr),
            Expr::Grouping(grouping_expr) => self.visit_grouping_expr(grouping_expr),
            Expr::Literal(literal_expr) => self.visit_litearal_expr(literal_expr),
            Expr::Unary(unary_expr) => self.visit_unary_expr(unary_expr),
            Expr::Separator(separator_expr) => self.visit_separator_expr(separator_expr),
            Expr::Ternary(ternary_expr) => self.visit_ternary_expr(ternary_expr),
            Expr::Variable(var_expr) => self.visit_variable_expr(var_expr),
            Expr::Assgin(assessment_expr) => self.visit_assign_expr(assessment_expr),
            Expr::Logical(logical_expr) => self.visit_logical_exper(logical_expr),
            Expr::Call(call_expr) => {
                proof {
                    lemma_call_arguments(call_expr);
                }
                self.visit_call_expr(call_expr)
            },
        }
    }

    pub fn visit_block_stmt(&mut self, statements: Vec<Stmt>) -> (r: Result<
        Option<ControlFlow>,
        RunTimeError,
    >)
        ensures
            r == Ok::<Option<ControlFlow>, RunTimeError>(None),
            final(self)@ == execute(old(self)@, StmtView::Block(stmt_views(statements@))).machine,
    {
        let scope = self.scopes.scope(Some(self.environment));
        self.exeucute_block(statements, scope)
    }

    /// Runs statements in a scope. The scope that is current now is
    /// current again when the statements are through, however they end.
    pub fn exeucute_block(&mut self, statements: Vec<Stmt>, environment: usize) -> (r: Result<
        Option<ControlFlow>,
        RunTimeError,
    >)
        ensures
            r == Ok::<Option<ControlFlow>, RunTimeError>(None),
            final(self)@ == enter_block(old(self)@, stmt_views(statements@), environment),
    {
        let ghost before = self@;
        self.push_task(Task::Restore(self.environment));
        self.schedule(statements);
        self.environment = environment;
        assert(self@.tasks =~= before.tasks + (seq![TaskView::Restore(before.environment)]
            + scheduled(stmt_views(statements@))));
        Ok(None)
    }

    /// Prints the value on top.
    fn print_value(&mut self) -> (c: Completion)
        ensures
            (Done { machine: final(self)@, outcome: c@ }) == print(old(self)@),
    {
        match self.pop_value() {
            Value::Number(number) => {
                self.push_task(Task::Await(Pending::Show { number }));
                Completion::Normal
            },
            value => Completion::Ask(Request::Print(stringify(&value, ""))),
        }
    }

    /// Assigns the value on top to a name.
    fn store_value(&mut self, name: Token) -> (c: Completion)
        ensures
            (Done { machine: final(self)@, outcome: c@ }) == store(old(self)@, name@),
    {
        let value = self.top_value();
        match self.scopes.assign(self.environment, name, value) {
            Ok(_) => Completion::Normal,
            Err(error) => Completion::Failure(error),
        }
    }

    /// Leaves on the machine what an operation has come to.
    fn apply(&mut self, operator: Token, operation: Operation) -> (c: Completion)
        ensures
            (Done { machine: final(self)@, outcome: c@ }) == applied(
                old(self)@,
                operator@,
                operation@,
            ),
    {
        match operation {
            Operation::Value(value) => {
                self.push_value(value);
                Completion::Normal
            },
            Operation::Wait(pending) => {
                self.push_task(Task::Await(pending));
                Completion::Normal
            },
            Operation::Failure(message) => Completion::Failure(
                RunTimeError::new(operator, message),
            ),
        }
    }

    /// Goes on with work that waited for the host, if the event answers
    /// it, and asks the host again if it does not.
    fn answer(&mut self, pending: Pending, event: Event) -> (c: Completion)
        ensures
            (Done { machine: final(self)@, outcome: c@ }) == answered(
                old(self)@,
                pending@,
                event@,
            ),
    {
        match resume(pending, event) {
            Answer::Value(value) => {
                self.push_value(value);
                Completion::Normal
            },
            Answer::Wait(next) => {
                self.push_task(Task::Await(next));
                Completion::Normal
            },
            Answer::Failure(error) => Completion::Failure(error),
            Answer::Print(text) => Completion::Ask(Request::Print(text)),
            Answer::Unanswered(same) => {
                let asked = request(&same);
                self.push_task(Task::Await(same));
                Completion::Ask(asked)
            },
        }
    }

    /// Calls the value below the arguments on top.
    fn invoke(&mut self, paren: Token, count: usize) -> (c: Completion)
        ensures
            (Done { machine: final(self)@, outcome: c@ }) == invoke(old(self)@, paren@, count),
    {
        let ghost before = self@;
        let have = self.values.len();
        let taken = if count <= have {
            count
        } else {
            have
        };
        let arguments = self.values.split_off(have - taken);
        assert(value_views(arguments@) =~= before.values.subrange(
            have - taken,
            before.values.len() as int,
        ));
        assert(self@.values =~= before.values.subrange(0, have - taken));
        match self.pop_value() {
            Value::Callable(Callable::Function(function)) => {
                function.call(self, paren, arguments);
                Completion::Normal
            },
            Value::Callable(Callable::Native(function)) => {
                function.call(self, paren, arguments);
                Completion::Normal
            },
            _ => Completion::Failure(RunTimeError::new(paren, String::from_str("not callable"))),
        }
    }

    /// Does one task, which has been taken from the stack already.
    fn perform(&mut self, task: Task, event: Event) -> (c: Completion)
        ensures
            (Done { machine: final(self)@, outcome: c@ }) == perform(old(self)@, task@, event@),
    {
        match task {
            Task::Execute(statement) => match self.execute(statement) {
                Ok(None) => Completion::Normal,
                Ok(Some(flow)) => Completion::Signal(flow),
                Err(error) => Completion::Failure(error),
            },
            Task::Evaluate(expr) => match self.evaluate(expr) {
                Ok(_) => Completion::Normal,
                Err(error) => Completion::Failure(error),
            },
            Task::Recover(_) => Completion::Normal,
            Task::Discard => {
                self.pop_value();
                Completion::Normal
            },
            Task::Print => self.print_value(),
            Task::Define(name) => {
                let value = self.pop_value();
                self.scopes.define(self.environment, name.lexeme, Some(value));
                Completion::Normal
            },
            Task::Store(name) => self.store_value(name),
            Task::Branch(then_branch, else_branch) => {
                let value = self.pop_value();
                if is_truthy(&value) {
                    self.push_task(Task::Execute(then_branch));
                } else {
                    match else_branch {
                        Some(branch) => {
                            self.push_task(Task::Execute(branch));
                        },
                        None => {},
                    }
                }
                Completion::Normal
            },
            Task::Choose(left, right) => {
                let value = self.pop_value();
                if is_truthy(&value) {
                    self.push_task(Task::Evaluate(left));
                } else {
                    self.push_task(Task::Evaluate(right));
                }
                Completion::Normal
            },
            Task::ShortCircuit(operator, right) => {
                let truth = self.top_is_truthy();
                let settled = if operator.token_type == TokenType::OR {
                    truth
                } else {
                    !truth
                };
                if !settled {
                    self.pop_value();
                    self.push_task(Task::Evaluate(right));
                }
                Completion::Normal
            },
            Task::Loop(condition, body) => {
                let test = condition.duplicate();
                self.push_two(Task::LoopTest(condition, body), Task::Evaluate(test));
                Completion::Normal
            },
            Task::LoopTest(condition, body) => {
                let value = self.pop_value();
                if is_truthy(&value) {
                    let round = body.duplicate();
                    self.push_two(Task::Loop(condition, body), Task::Execute(round));
                }
                Completion::Normal
            },
            Task::Restore(scope) => {
                self.environment = scope;
                Completion::Normal
            },
            Task::Return => {
                let value = self.pop_value();
                Completion::Signal(ControlFlow::Return(Some(value)))
            },
            Task::CallBoundary(scope) => {
                self.environment = scope;
                self.push_value(Value::Nil);
                Completion::Normal
            },
            Task::Callee(paren, arguments) => {
                if self.top_is_callable() {
                    let ghost before = self@;
                    let count = arguments.len();
                    self.push_task(Task::Invoke(paren, count));
                    self.schedule_exprs(arguments);
                    assert(self@.tasks =~= before.tasks + (seq![
                        TaskView::Invoke(paren@, count),
                    ] + scheduled_exprs(expr_views(arguments@))));
                    Completion::Normal
                } else {
                    Completion::Failure(
                        RunTimeError::new(paren, String::from_str("not callable")),
                    )
                }
            },
            Task::Invoke(paren, count) => self.invoke(paren, count),
            Task::Unary(operator) => {
                let value = self.pop_value();
                let operation = unary_operation(operator.token_type, value);
                self.apply(operator, operation)
            },
            Task::Binary(operator) => {
                let right = self.pop_value();
                let left = self.pop_value();
                let operation = binary_operation(&operator, left, right);
                self.apply(operator, operation)
            },
            Task::Await(pending) => self.answer(pending, event),
        }
    }

    /// Hands a signal up to the loop, the call or the end of the
    /// statement that takes it.
    fn unwind(&mut self, flow: ControlFlow)
        ensures
            final(self)@ == unwind(old(self)@, flow@),
    {
        loop
            invariant
                unwind(self@, flow@) == unwind(old(self)@, flow@),
            decreases self.tasks@.len(),
        {
            let ghost before = self@;
            match self.tasks.pop() {
                None => {
                    return ;
                },
                Some(task) => {
                    assert(self@.tasks =~= before.tasks.drop_last());
                    assert(task@ == before.tasks.last());
                    match task {
                        Task::Restore(scope) => {
                            self.environment = scope;
                        },
                        Task::Recover(_) => {
                            return ;
                        },
                        Task::CallBoundary(scope) => {
                            self.environment = scope;
                            let value = match flow {
                                ControlFlow::Return(Some(value)) => value,
                                _ => Value::Nil,
                            };
                            self.push_value(value);
                            return ;
                        },
                        Task::Loop(_, _) => {
                            match &flow {
                                ControlFlow::Return(_) => {},
                                _ => {
                                    return ;
                                },
                            }
                        },
                        _ => {},
                    }
                },
            }
        }
    }

    /// Hands an error up to the end of the statement of the program that
    /// was running.
    fn abandon(&mut self)
        ensures
            final(self)@ == abandon(old(self)@),
    {
        loop
            invariant
                abandon(self@) == abandon(old(self)@),
            decreases self.tasks@.len(),
        {
            let ghost before = self@;
            match self.tasks.pop() {
                None => {
                    return ;
                },
                Some(task) => {
                    assert(self@.tasks =~= before.tasks.drop_last());
                    assert(task@ == before.tasks.last());
                    match task {
                        Task::Restore(scope) => {
                            self.environment = scope;
                        },
                        Task::CallBoundary(scope) => {
                            self.environment = scope;
                        },
                        Task::Recover(height) => {
                            let ghost values = self@.values;
                            if height <= self.values.len() {
                                self.values.truncate(height);
                                assert(self@.values =~= cut(values, height));
                            }
                            return ;
                        },
                        _ => {},
                    }
                },
            }
        }
    }

    /// Takes one step: does the task on top, and says what the host is
    /// to do before the next step. The event is the answer to the
    /// request of the step before, where that asked for one.
    pub fn step(&mut self, event: Event) -> (asked: Request)
        ensures
            (final(self)@, asked@) == step(old(self)@, event@),
    {
        reveal(step);
        let ghost before = self@;
        match self.tasks.pop() {
            None => Request::Finished,
            Some(task) => {
                assert(self@.tasks =~= before.tasks.drop_last());
                assert(task@ == before.tasks.last());
                match self.perform(task, event) {
                    Completion::Normal => Request::Continue,
                    Completion::Ask(asked) => asked,
                    Completion::Signal(flow) => {
                        self.unwind(flow);
                        Request::Continue
                    },
                    Completion::Failure(error) => {
                        self.abandon();
                        self.has_error = true;
                        Request::Report(error)
                    },
                }
            },
        }
    }

    /// Takes steps for as long as they ask nothing of the host, and
    /// `limit` of them at most. The request of the last step is handed
    /// back: `Continue` says that the limit was reached.
    pub fn advance(&mut self, event: Event, limit: usize) -> (asked: Request)
        ensures
            (final(self)@, asked@) == advance(old(self)@, event@, limit as nat),
    {
        let ghost first = event@;
        let mut next = event;
        let mut left = limit;
        while left > 0
            invariant
                first == event@,
                advance(self@, next@, left as nat) == advance(old(self)@, first, limit as nat),
            decreases left,
        {
            let ghost before = self@;
            let ghost given = next@;
            let asked = self.step(next);
            match asked {
                Request::Continue => {
                    next = Event::Resume;
                    left -= 1;
                },
                other => {
                    assert(!(other@ is Continue));
                    assert(advance(before, given, left as nat) == (self@, other@));
                    return other;
                },
            }
        }
        Request::Continue
    }
}

impl LoxCallable for LoxFunction {
    open spec fn arity_of(&self) -> nat {
        self@.declaration.params.len()
    }

    open spec fn text_of(&self) -> Seq<char> {
        "<fn "@ + self@.declaration.name.lexeme + ">"@
    }

    open spec fn called(&self, m: Machine, paren: TokenView, arguments: Seq<ValueView>) -> Machine {
        call_function(m, self@, arguments)
    }

    /// Begins a call of the function: a new scope inside the scope of
    /// the declaration holds the parameters, each bound to the argument
    /// at its place or to `nil`, and the body is put on the
    /// interpreter's stack of tasks. The value of the call is that of
    /// the `return` that ends the body, or `nil`.
    fn call(&self, interpreter: &mut Interpreter, paren: Token, arguments: Vec<Value>)
    {
        let ghost before = interpreter@;
        let scope = interpreter.scopes.scope(Some(self.closure));
        let ghost opened = interpreter.scopes@;
        let ghost params = self@.declaration.params;
        let ghost given = value_views(arguments@);
        let mut i: usize = 0;
        while i < self.declaration.params.len()
            invariant
                i <= self.declaration.params@.len(),
                params == self@.declaration.params,
                given == value_views(arguments@),
                interpreter@ == before.with_scopes(interpreter.scopes@),
                bind_parameters(opened, scope as int, params, given, 0) == bind_parameters(
                    interpreter.scopes@,
                    scope as int,
                    params,
                    given,
                    i as int,
                ),
            decreases self.declaration.params@.len() - i,
        {
            let name = self.declaration.params[i].lexeme.clone();
            let value = if i < arguments.len() {
                Some(arguments[i].duplicate())
            } else {
                None
            };
            assert(params[i as int] == self.declaration.params@[i as int]@);
            interpreter.scopes.define(scope, name, value);
            i += 1;
        }
        let body = crate::stmt::duplicate_stmts(&self.declaration.body);
        interpreter.push_task(Task::CallBoundary(interpreter.environment));
        interpreter.schedule(body);
        interpreter.environment = scope;
        assert(interpreter@.tasks =~= before.tasks + (seq![
            TaskView::CallBoundary(before.environment),
        ] + scheduled(self@.declaration.body)));
    }

    /// The number of parameters that the function declares.
    fn arity(&self) -> (count: usize) {
        self.declaration.params.len()
    }

    /// How the function shows when it is printed.
    fn to_string(&self) -> (text: String) {
        let mut text = String::from_str("<fn ");
        text.append(self.declaration.name.lexeme.as_str());
        text.append(">");
        text
    }
}

impl LoxCallable for NativeFunction {
    open spec fn arity_of(&self) -> nat {
        self.params as nat
    }

    open spec fn text_of(&self) -> Seq<char> {
        "<Native Function>"@
    }

    open spec fn called(&self, m: Machine, paren: TokenView, arguments: Seq<ValueView>) -> Machine {
        m.with_tasks(
            seq![TaskView::Await(PendingView::Native { function: *self, paren, arguments })],
        )
    }

    /// Begins a call of the function: the interpreter waits for the host
    /// to run it.
    fn call(&self, interpreter: &mut Interpreter, paren: Token, arguments: Vec<Value>) {
        interpreter.push_task(Task::Await(Pending::Native { function: *self, paren, arguments }));
    }

    fn arity(&self) -> (count: usize) {
        self.params
    }

    fn to_string(&self) -> (text: String) {
        String::from_str("<Native Function>")
    }
}

} // verus!
