//! What a step of the interpreter does, on an interpreter as a
//! mathematical machine.

use vstd::prelude::*;

use crate::ast::expr::ExprView;
use crate::environment::assigned;
use crate::environment::defined;
use crate::environment::lookup;
use crate::environment::opened;
use crate::environment::resolve;
use crate::environment::undefined_variable;
use crate::environment::ScopeView;
use crate::error::RunTimeErrorView;
use crate::lox_callable::CallableView;
use crate::lox_function::LoxFunctionView;
use crate::operators::answer;
use crate::operators::apply_binary;
use crate::operators::apply_unary;
use crate::operators::request_of;
use crate::operators::AnswerView;
use crate::operators::OperationView;
use crate::stmt::StmtView;
use crate::task::ControlFlowView;
use crate::task::EventView;
use crate::task::PendingView;
use crate::task::RequestView;
use crate::task::TaskView;
use crate::token::TokenType;
use crate::token::TokenView;
use crate::value::literal_value;
use crate::value::shown;
use crate::value::truthy;
use crate::value::ValueView;

verus! {

/// An interpreter as a mathematical machine: the scopes, the number of
/// the current one, the work before it as a stack of tasks, and the
/// values of the expressions under evaluation as a stack.
pub struct Machine {
    pub has_error: bool,
    pub environment: usize,
    pub scopes: Seq<ScopeView>,
    pub tasks: Seq<TaskView>,
    pub values: Seq<ValueView>,
}

/// How a task ends: in the ordinary way, with a signal that leaves the
/// statement, with an error, or with a request to the host.
pub enum Outcome {
    Normal,
    Signal(ControlFlowView),
    Failure(RunTimeErrorView),
    Ask(RequestView),
}

/// A machine after a task, and how the task ended.
pub struct Done {
    pub machine: Machine,
    pub outcome: Outcome,
}

impl Machine {
    /// The machine with more tasks on top.
    pub open spec fn with_tasks(self, tasks: Seq<TaskView>) -> Machine {
        Machine { tasks: self.tasks + tasks, ..self }
    }

    /// The machine with one more value on top.
    pub open spec fn with_value(self, value: ValueView) -> Machine {
        Machine { values: self.values.push(value), ..self }
    }

    /// The value on top. Where there is none, `nil` stands for it.
    pub open spec fn top(self) -> ValueView {
        if self.values.len() > 0 {
            self.values.last()
        } else {
            ValueView::Nil
        }
    }

    /// The machine without the value on top.
    pub open spec fn popped(self) -> Machine {
        if self.values.len() > 0 {
            Machine { values: self.values.drop_last(), ..self }
        } else {
            self
        }
    }

    /// The machine with other scopes.
    pub open spec fn with_scopes(self, scopes: Seq<ScopeView>) -> Machine {
        Machine { scopes, ..self }
    }

    /// The machine in another scope.
    pub open spec fn in_scope(self, environment: usize) -> Machine {
        Machine { environment, ..self }
    }

    /// The machine after a task that ended in the ordinary way.
    pub open spec fn normal(self) -> Done {
        Done { machine: self, outcome: Outcome::Normal }
    }

    /// The machine after a task that failed.
    pub open spec fn failure(self, token: TokenView, message: Seq<char>) -> Done {
        Done { machine: self, outcome: Outcome::Failure(RunTimeErrorView { token, message }) }
    }
}

/// The tasks that run statements one after the other: the first
/// statement is on top.
pub open spec fn scheduled(stmts: Seq<StmtView>) -> Seq<TaskView> {
    Seq::new(stmts.len(), |i: int| TaskView::Execute(stmts[stmts.len() - 1 - i]))
}

/// The tasks that evaluate expressions one after the other: the first
/// expression is on top.
pub open spec fn scheduled_exprs(exprs: Seq<ExprView>) -> Seq<TaskView> {
    Seq::new(exprs.len(), |i: int| TaskView::Evaluate(exprs[exprs.len() - 1 - i]))
}

/// The tasks that run the statements of a program one after the other,
/// each with the end that an error in it is handed up to.
pub open spec fn program_tasks(stmts: Seq<StmtView>, height: usize) -> Seq<TaskView> {
    Seq::new(
        2 * stmts.len(),
        |i: int|
            if i % 2 == 0 {
                TaskView::Recover(height)
            } else {
                TaskView::Execute(stmts[stmts.len() - 1 - i / 2])
            },
    )
}

/// Entering a block of statements in a scope: the scope becomes the
/// current one, and the one that was current is made current again when
/// the statements are through.
pub open spec fn enter_block(m: Machine, stmts: Seq<StmtView>, environment: usize) -> Machine {
    m.with_tasks(seq![TaskView::Restore(m.environment)] + scheduled(stmts)).in_scope(environment)
}

/// The `else` branch of an `if` statement, if it has one.
pub open spec fn unboxed(branch: Option<Box<StmtView>>) -> Option<StmtView> {
    match branch {
        Some(b) => Some(*b),
        None => None,
    }
}

/// Running a statement: what it does at once, and the tasks it leaves.
pub open spec fn execute(m: Machine, stmt: StmtView) -> Done {
    match stmt {
        StmtView::Print(e) => m.with_tasks(seq![TaskView::Print, TaskView::Evaluate(e)]).normal(),
        StmtView::Expresstion(e) => m.with_tasks(
            seq![TaskView::Discard, TaskView::Evaluate(e)],
        ).normal(),
        StmtView::Var(name, init) => match init {
            Some(e) => m.with_tasks(seq![TaskView::Define(name), TaskView::Evaluate(e)]).normal(),
            None => m.with_scopes(
                defined(m.scopes, m.environment as int, name.lexeme, ValueView::Nil),
            ).normal(),
        },
        StmtView::Block(stmts) => enter_block(
            m.with_scopes(opened(m.scopes, Some(m.environment))),
            stmts,
            m.scopes.len() as usize,
        ).normal(),
        StmtView::If(condition, then_branch, else_branch) => m.with_tasks(
            seq![
                TaskView::Branch(*then_branch, unboxed(else_branch)),
                TaskView::Evaluate(condition),
            ],
        ).normal(),
        StmtView::While(condition, body) => m.with_tasks(
            seq![TaskView::Loop(condition, *body)],
        ).normal(),
        StmtView::Break => Done { machine: m, outcome: Outcome::Signal(ControlFlowView::Break) },
        StmtView::Function(declaration) => m.with_scopes(
            defined(
                m.scopes,
                m.environment as int,
                declaration.name.lexeme,
                ValueView::Callable(
                    CallableView::Function(
                        LoxFunctionView { declaration, closure: m.environment },
                    ),
                ),
            ),
        ).normal(),
        StmtView::Return(keyword, value) => match value {
            Some(e) => m.with_tasks(seq![TaskView::Return, TaskView::Evaluate(e)]).normal(),
            None => Done { machine: m, outcome: Outcome::Signal(ControlFlowView::Return(None)) },
        },
    }
}

/// Evaluating an expression: what it does at once, and the tasks it
/// leaves. Operands are evaluated from left to right.
pub open spec fn evaluate(m: Machine, expr: ExprView) -> Done {
    match expr {
        ExprView::Literal { value } => m.with_value(literal_value(value)).normal(),
        ExprView::Grouping { expression } => m.with_tasks(
            seq![TaskView::Evaluate(*expression)],
        ).normal(),
        ExprView::Unary { operator, right } => m.with_tasks(
            seq![TaskView::Unary(operator), TaskView::Evaluate(*right)],
        ).normal(),
        ExprView::Binary { operator, left, right } => m.with_tasks(
            seq![TaskView::Binary(operator), TaskView::Evaluate(*right), TaskView::Evaluate(*left)],
        ).normal(),
        ExprView::Logical { operator, left, right } => m.with_tasks(
            seq![TaskView::ShortCircuit(operator, *right), TaskView::Evaluate(*left)],
        ).normal(),
        ExprView::Ternary { condition, left, right } => m.with_tasks(
            seq![TaskView::Choose(*left, *right), TaskView::Evaluate(*condition)],
        ).normal(),
        ExprView::Separator { left, right } => m.with_tasks(
            seq![TaskView::Evaluate(*right), TaskView::Discard, TaskView::Evaluate(*left)],
        ).normal(),
        ExprView::Variable { name } => match lookup(m.scopes, m.environment as int, name.lexeme) {
            Some(value) => m.with_value(value).normal(),
            None => Done { machine: m, outcome: Outcome::Failure(undefined_variable(name)) },
        },
        ExprView::Assgin { name, value } => m.with_tasks(
            seq![TaskView::Store(name), TaskView::Evaluate(*value)],
        ).normal(),
        ExprView::Call { callee, paren, arguments } => m.with_tasks(
            seq![TaskView::Callee(paren, arguments), TaskView::Evaluate(*callee)],
        ).normal(),
    }
}

/// Printing the value on top: a number goes to the host to be written
/// first, anything else is printed as it shows.
pub open spec fn print(m: Machine) -> Done {
    match m.top() {
        ValueView::Number(number) => m.popped().with_tasks(
            seq![TaskView::Await(PendingView::Show { number })],
        ).normal(),
        value => Done {
            machine: m.popped(),
            outcome: Outcome::Ask(RequestView::Print(shown(value, Seq::empty()))),
        },
    }
}

/// Assigning the value on top to a name. The value stays on top.
pub open spec fn store(m: Machine, name: TokenView) -> Done {
    if resolve(m.scopes, m.environment as int, name.lexeme) is Some {
        m.with_scopes(assigned(m.scopes, m.environment as int, name.lexeme, m.top())).normal()
    } else {
        Done { machine: m, outcome: Outcome::Failure(undefined_variable(name)) }
    }
}

/// Whether the left operand of `and` or `or` settles the value: a true
/// one settles `or`, one that is not true settles `and`.
pub open spec fn settles(operator: TokenType, left: ValueView) -> bool {
    if operator == TokenType::OR {
        truthy(left)
    } else {
        !truthy(left)
    }
}

/// The scopes after the parameters from `from` on have been bound in a
/// scope, each to the argument at its place, or to `nil` where there is
/// none.
pub open spec fn bind_parameters(
    scopes: Seq<ScopeView>,
    scope: int,
    params: Seq<TokenView>,
    arguments: Seq<ValueView>,
    from: int,
) -> Seq<ScopeView>
    decreases params.len() - from,
{
    if from < 0 || from >= params.len() {
        scopes
    } else {
        bind_parameters(
            defined(
                scopes,
                scope,
                params[from].lexeme,
                if from < arguments.len() {
                    arguments[from]
                } else {
                    ValueView::Nil
                },
            ),
            scope,
            params,
            arguments,
            from + 1,
        )
    }
}

/// Calling a function of the program: a new scope is opened inside the
/// scope in which the function was declared, the parameters are bound
/// there, and the body runs there. The current scope comes back when
/// the body is through.
pub open spec fn call_function(m: Machine, function: LoxFunctionView, arguments: Seq<ValueView>) -> Machine {
    let scope = m.scopes.len();
    let scopes = bind_parameters(
        opened(m.scopes, Some(function.closure)),
        scope as int,
        function.declaration.params,
        arguments,
        0,
    );
    m.with_scopes(scopes).with_tasks(
        seq![TaskView::CallBoundary(m.environment)] + scheduled(function.declaration.body),
    ).in_scope(scope as usize)
}

/// The number of values that a call takes from the top as its
/// arguments: as many as it names, or all there are.
pub open spec fn taken(m: Machine, count: usize) -> int {
    if count <= m.values.len() {
        count as int
    } else {
        m.values.len() as int
    }
}

/// Calling the value below the arguments on top.
pub open spec fn invoke(m: Machine, paren: TokenView, count: usize) -> Done {
    let first = m.values.len() - taken(m, count);
    let arguments = m.values.subrange(first, m.values.len() as int);
    let below = Machine { values: m.values.subrange(0, first), ..m };
    match below.top() {
        ValueView::Callable(CallableView::Function(function)) => call_function(
            below.popped(),
            function,
            arguments,
        ).normal(),
        ValueView::Callable(CallableView::Native(function)) => below.popped().with_tasks(
            seq![TaskView::Await(PendingView::Native { function, paren, arguments })],
        ).normal(),
        _ => below.popped().failure(paren, "not callable"@),
    }
}

/// What an operation leaves on the machine.
pub open spec fn applied(m: Machine, operator: TokenView, operation: OperationView) -> Done {
    match operation {
        OperationView::Value(value) => m.with_value(value).normal(),
        OperationView::Wait(pending) => m.with_tasks(seq![TaskView::Await(pending)]).normal(),
        OperationView::Failure(message) => m.failure(operator, message),
    }
}

/// What an answer of the host leaves on the machine.
pub open spec fn answered(m: Machine, pending: PendingView, event: EventView) -> Done {
    match answer(pending, event) {
        AnswerView::Value(value) => m.with_value(value).normal(),
        AnswerView::Wait(next) => m.with_tasks(seq![TaskView::Await(next)]).normal(),
        AnswerView::Failure(error) => Done { machine: m, outcome: Outcome::Failure(error) },
        AnswerView::Print(text) => Done {
            machine: m,
            outcome: Outcome::Ask(RequestView::Print(text)),
        },
        AnswerView::Unanswered => Done {
            machine: m.with_tasks(seq![TaskView::Await(pending)]),
            outcome: Outcome::Ask(request_of(pending)),
        },
    }
}

/// Doing one task, which has been taken from the stack already.
pub open spec fn perform(m: Machine, task: TaskView, event: EventView) -> Done {
    match task {
        TaskView::Execute(stmt) => execute(m, stmt),
        TaskView::Evaluate(expr) => evaluate(m, expr),
        TaskView::Recover(_) => m.normal(),
        TaskView::Discard => m.popped().normal(),
        TaskView::Print => print(m),
        TaskView::Define(name) => m.popped().with_scopes(
            defined(m.scopes, m.environment as int, name.lexeme, m.top()),
        ).normal(),
        TaskView::Store(name) => store(m, name),
        TaskView::Branch(then_branch, else_branch) => if truthy(m.top()) {
            m.popped().with_tasks(seq![TaskView::Execute(then_branch)]).normal()
        } else {
            match else_branch {
                Some(branch) => m.popped().with_tasks(seq![TaskView::Execute(branch)]).normal(),
                None => m.popped().normal(),
            }
        },
        TaskView::Choose(left, right) => if truthy(m.top()) {
            m.popped().with_tasks(seq![TaskView::Evaluate(left)]).normal()
        } else {
            m.popped().with_tasks(seq![TaskView::Evaluate(right)]).normal()
        },
        TaskView::ShortCircuit(operator, right) => if settles(operator.token_type, m.top()) {
            m.normal()
        } else {
            m.popped().with_tasks(seq![TaskView::Evaluate(right)]).normal()
        },
        TaskView::Loop(condition, body) => m.with_tasks(
            seq![TaskView::LoopTest(condition, body), TaskView::Evaluate(condition)],
        ).normal(),
        TaskView::LoopTest(condition, body) => if truthy(m.top()) {
            m.popped().with_tasks(
                seq![TaskView::Loop(condition, body), TaskView::Execute(body)],
            ).normal()
        } else {
            m.popped().normal()
        },
        TaskView::Restore(scope) => m.in_scope(scope).normal(),
        TaskView::Return => Done {
            machine: m.popped(),
            outcome: Outcome::Signal(ControlFlowView::Return(Some(m.top()))),
        },
        TaskView::CallBoundary(scope) => m.in_scope(scope).with_value(ValueView::Nil).normal(),
        TaskView::Callee(paren, arguments) => if m.top() is Callable {
            m.with_tasks(
                seq![TaskView::Invoke(paren, arguments.len() as usize)] + scheduled_exprs(
                    arguments,
                ),
            ).normal()
        } else {
            m.failure(paren, "not callable"@)
        },
        TaskView::Invoke(paren, count) => invoke(m, paren, count),
        TaskView::Unary(operator) => applied(
            m.popped(),
            operator,
            apply_unary(operator.token_type, m.top()),
        ),
        TaskView::Binary(operator) => applied(
            m.popped().popped(),
            operator,
            apply_binary(operator, m.popped().top(), m.top()),
        ),
        TaskView::Await(pending) => answered(m, pending, event),
    }
}

/// The value that a signal carries out of a call: that of a `return`
/// with a value, and `nil` otherwise.
pub open spec fn carried(flow: ControlFlowView) -> ValueView {
    match flow {
        ControlFlowView::Return(Some(value)) => value,
        _ => ValueView::Nil,
    }
}

/// Handing a signal up: the tasks on top are dropped until one takes the
/// signal. A block that is left on the way gives the current scope
/// back. A loop takes a `break`, and a `continue` as well, and lets a
/// `return` pass; a call takes every signal and has the value that the
/// signal carries; the end of a statement of the program takes what
/// comes that far.
pub open spec fn unwind(m: Machine, flow: ControlFlowView) -> Machine
    decreases m.tasks.len(),
{
    if m.tasks.len() == 0 {
        m
    } else {
        let rest = Machine { tasks: m.tasks.drop_last(), ..m };
        match m.tasks.last() {
            TaskView::Restore(scope) => unwind(rest.in_scope(scope), flow),
            TaskView::Recover(_) => rest,
            TaskView::CallBoundary(scope) => rest.in_scope(scope).with_value(carried(flow)),
            TaskView::Loop(_, _) => if flow is Return {
                unwind(rest, flow)
            } else {
                rest
            },
            _ => unwind(rest, flow),
        }
    }
}

/// The values cut back to a number of them.
pub open spec fn cut(values: Seq<ValueView>, height: usize) -> Seq<ValueView> {
    if height <= values.len() {
        values.subrange(0, height as int)
    } else {
        values
    }
}

/// Handing an error up: the tasks on top are dropped down to the end of
/// the statement of the program that was running, and the values that
/// the statement left are dropped. Blocks and calls that are left on
/// the way give the current scope back.
pub open spec fn abandon(m: Machine) -> Machine
    decreases m.tasks.len(),
{
    if m.tasks.len() == 0 {
        m
    } else {
        let rest = Machine { tasks: m.tasks.drop_last(), ..m };
        match m.tasks.last() {
            TaskView::Restore(scope) => abandon(rest.in_scope(scope)),
            TaskView::CallBoundary(scope) => abandon(rest.in_scope(scope)),
            TaskView::Recover(height) => Machine { values: cut(rest.values, height), ..rest },
            _ => abandon(rest),
        }
    }
}

/// Handing a signal up only drops tasks: what is left of them is the
/// bottom of the stack as it was. The scopes stay as they are, and no
/// value is dropped.
pub proof fn lemma_unwind_drops(m: Machine, flow: ControlFlowView)
    ensures
        unwind(m, flow).tasks.len() <= m.tasks.len(),
        unwind(m, flow).tasks == m.tasks.subrange(0, unwind(m, flow).tasks.len() as int),
        unwind(m, flow).scopes == m.scopes,
        unwind(m, flow).has_error == m.has_error,
        unwind(m, flow).values.len() >= m.values.len(),
    decreases m.tasks.len(),
{
    if m.tasks.len() > 0 {
        let rest = Machine { tasks: m.tasks.drop_last(), ..m };
        match m.tasks.last() {
            TaskView::Restore(scope) => {
                lemma_unwind_drops(rest.in_scope(scope), flow);
                let left = unwind(rest.in_scope(scope), flow).tasks;
                assert(left =~= m.tasks.subrange(0, left.len() as int));
            },
            TaskView::Recover(_) => {
                assert(rest.tasks =~= m.tasks.subrange(0, rest.tasks.len() as int));
            },
            TaskView::CallBoundary(scope) => {
                assert(rest.tasks =~= m.tasks.subrange(0, rest.tasks.len() as int));
            },
            TaskView::Loop(_, _) => {
                if flow is Return {
                    lemma_unwind_drops(rest, flow);
                    let left = unwind(rest, flow).tasks;
                    assert(left =~= m.tasks.subrange(0, left.len() as int));
                } else {
                    assert(rest.tasks =~= m.tasks.subrange(0, rest.tasks.len() as int));
                }
            },
            _ => {
                lemma_unwind_drops(rest, flow);
                let left = unwind(rest, flow).tasks;
                assert(left =~= m.tasks.subrange(0, left.len() as int));
            },
        }
    } else {
        assert(m.tasks =~= m.tasks.subrange(0, 0));
    }
}

/// Handing an error up only drops tasks and values: what is left of
/// them is the bottom of the stacks as they were. The scopes stay as
/// they are.
pub proof fn lemma_abandon_drops(m: Machine)
    ensures
        abandon(m).tasks.len() <= m.tasks.len(),
        abandon(m).tasks == m.tasks.subrange(0, abandon(m).tasks.len() as int),
        abandon(m).values.len() <= m.values.len(),
        abandon(m).values == m.values.subrange(0, abandon(m).values.len() as int),
        abandon(m).scopes == m.scopes,
    decreases m.tasks.len(),
{
    if m.tasks.len() > 0 {
        let rest = Machine { tasks: m.tasks.drop_last(), ..m };
        match m.tasks.last() {
            TaskView::Restore(scope) => {
                lemma_abandon_drops(rest.in_scope(scope));
                let left = abandon(rest.in_scope(scope)).tasks;
                assert(left =~= m.tasks.subrange(0, left.len() as int));
            },
            TaskView::CallBoundary(scope) => {
                lemma_abandon_drops(rest.in_scope(scope));
                let left = abandon(rest.in_scope(scope)).tasks;
                assert(left =~= m.tasks.subrange(0, left.len() as int));
            },
            TaskView::Recover(height) => {
                assert(rest.tasks =~= m.tasks.subrange(0, rest.tasks.len() as int));
                assert(cut(m.values, height) =~= m.values.subrange(
                    0,
                    cut(m.values, height).len() as int,
                ));
            },
            _ => {
                lemma_abandon_drops(rest);
                let left = abandon(rest).tasks;
                assert(left =~= m.tasks.subrange(0, left.len() as int));
            },
        }
    } else {
        assert(m.tasks =~= m.tasks.subrange(0, 0));
        assert(m.values =~= m.values.subrange(0, m.values.len() as int));
    }
}

/// What follows when a task has ended: nothing, the request, the
/// handing up of the signal, or the handing up of the error, which is
/// noted and reported.
pub open spec fn settle(done: Done) -> (Machine, RequestView) {
    match done.outcome {
        Outcome::Normal => (done.machine, RequestView::Continue),
        Outcome::Ask(request) => (done.machine, request),
        Outcome::Signal(flow) => (unwind(done.machine, flow), RequestView::Continue),
        Outcome::Failure(error) => (
            Machine { has_error: true, ..abandon(done.machine) },
            RequestView::Report(error),
        ),
    }
}

/// One step of the machine: the task on top is taken and done. A
/// machine without tasks has finished.
#[verifier::opaque]
pub open spec fn step(m: Machine, event: EventView) -> (Machine, RequestView) {
    if m.tasks.len() == 0 {
        (m, RequestView::Finished)
    } else {
        settle(perform(Machine { tasks: m.tasks.drop_last(), ..m }, m.tasks.last(), event))
    }
}

/// Steps taken one after the other for as long as they ask nothing of
/// the host, and `limit` of them at most: the machine they leave, and
/// the request of the last of them. The event goes to the first step.
pub open spec fn advance(m: Machine, event: EventView, limit: nat) -> (Machine, RequestView)
    decreases limit,
{
    if limit == 0 {
        (m, RequestView::Continue)
    } else if step(m, event).1 is Continue {
        advance(step(m, event).0, EventView::Resume, (limit - 1) as nat)
    } else {
        step(m, event)
    }
}

/// A machine after a number of steps, each with the event that the host
/// handed to it.
pub open spec fn run(m: Machine, events: Seq<EventView>) -> Machine
    decreases events.len(),
{
    if events.len() == 0 {
        m
    } else {
        run(step(m, events[0]).0, events.drop_first())
    }
}

} // verus!
