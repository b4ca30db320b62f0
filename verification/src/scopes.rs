//! The scopes of an interpreter only grow, and stay a tree.

use vstd::prelude::*;

use crate::environment::assigned;
use crate::environment::defined;
use crate::environment::opened;
use crate::environment::resolve;
use crate::environment::ScopeView;
use crate::semantics::bind_parameters;
use crate::semantics::call_function;
use crate::semantics::lemma_abandon_drops;
use crate::semantics::lemma_unwind_drops;
use crate::semantics::perform;
use crate::semantics::run;
use crate::semantics::step;
use crate::semantics::Machine;
use crate::semantics::Outcome;
use crate::stmt::StmtView;
use crate::task::EventView;
use crate::task::TaskView;
use crate::token::TokenView;
use crate::value::ValueView;

verus! {

/// Whether scopes form a tree: every scope that has an enclosing scope
/// was opened after it, so that every chain of enclosing scopes ends.
pub open spec fn tree(scopes: Seq<ScopeView>) -> bool {
    forall|i: int|
        0 <= i < scopes.len() ==> ((#[trigger] scopes[i]).enclosing matches Some(p) ==> p < i)
}

/// Whether scopes have come from earlier ones by binding names and
/// opening scopes: the earlier scopes are all there, each inside the
/// scope it was opened in, and the scopes form a tree if they did.
pub open spec fn grown(before: Seq<ScopeView>, after: Seq<ScopeView>) -> bool {
    &&& before.len() <= after.len()
    &&& forall|i: int|
        0 <= i < before.len() ==> (#[trigger] after[i]).enclosing == before[i].enclosing
    &&& tree(before) ==> tree(after)
}

/// The scopes of a new interpreter form a tree: there is the global
/// scope alone.
pub proof fn lemma_idle_tree()
    ensures
        tree(crate::interpreter::idle().scopes),
{
}

/// Scopes that have grown twice have grown.
pub proof fn lemma_grown_twice(first: Seq<ScopeView>, second: Seq<ScopeView>, third: Seq<ScopeView>)
    requires
        grown(first, second),
        grown(second, third),
    ensures
        grown(first, third),
{
    assert forall|i: int| 0 <= i < first.len() implies (#[trigger] third[i]).enclosing
        == first[i].enclosing by {
        assert(second[i].enclosing == first[i].enclosing);
    }
}

/// Binding a name opens no scope and moves none.
pub proof fn lemma_defined_grown(env: Seq<ScopeView>, scope: int, name: Seq<char>, value: ValueView)
    ensures
        grown(env, defined(env, scope, name, value)),
        defined(env, scope, name, value).len() == env.len(),
{
    let after = defined(env, scope, name, value);
    if tree(env) {
        assert forall|i: int| 0 <= i < after.len() implies ((#[trigger] after[i]).enclosing matches Some(
            p,
        ) ==> p < i) by {
            assert(after[i].enclosing == env[i].enclosing);
        }
    }
}

/// Assigning to a name opens no scope and moves none.
pub proof fn lemma_assigned_grown(env: Seq<ScopeView>, scope: int, name: Seq<char>, value: ValueView)
    ensures
        grown(env, assigned(env, scope, name, value)),
{
    match resolve(env, scope, name) {
        Some(s) => lemma_defined_grown(env, s, name, value),
        None => {},
    }
}

/// A scope that is opened comes behind all others, inside one of them
/// or alone.
pub proof fn lemma_opened_grown(env: Seq<ScopeView>, enclosing: Option<usize>)
    ensures
        grown(env, opened(env, enclosing)),
        opened(env, enclosing).len() == env.len() + 1,
{
    let after = opened(env, enclosing);
    if tree(env) {
        assert forall|i: int| 0 <= i < after.len() implies ((#[trigger] after[i]).enclosing matches Some(
            p,
        ) ==> p < i) by {
            if i < env.len() {
                assert(after[i] == env[i]);
            }
        }
    }
}

/// Binding the parameters of a function opens no scope and moves none.
pub proof fn lemma_bind_parameters_grown(
    scopes: Seq<ScopeView>,
    scope: int,
    params: Seq<TokenView>,
    arguments: Seq<ValueView>,
    from: int,
)
    ensures
        grown(scopes, bind_parameters(scopes, scope, params, arguments, from)),
    decreases params.len() - from,
{
    if 0 <= from < params.len() {
        let value = if from < arguments.len() {
            arguments[from]
        } else {
            ValueView::Nil
        };
        let next = defined(scopes, scope, params[from].lexeme, value);
        lemma_defined_grown(scopes, scope, params[from].lexeme, value);
        lemma_bind_parameters_grown(next, scope, params, arguments, from + 1);
        lemma_grown_twice(scopes, next, bind_parameters(next, scope, params, arguments, from + 1));
    }
}

/// Binding the parameters of a function changes no scope but the one
/// they are bound in.
pub proof fn lemma_bind_parameters_elsewhere(
    scopes: Seq<ScopeView>,
    scope: int,
    params: Seq<TokenView>,
    arguments: Seq<ValueView>,
    from: int,
    other: int,
)
    requires
        0 <= other < scopes.len(),
        other != scope,
    ensures
        bind_parameters(scopes, scope, params, arguments, from).len() == scopes.len(),
        bind_parameters(scopes, scope, params, arguments, from)[other] == scopes[other],
    decreases params.len() - from,
{
    if 0 <= from < params.len() {
        let value = if from < arguments.len() {
            arguments[from]
        } else {
            ValueView::Nil
        };
        let next = defined(scopes, scope, params[from].lexeme, value);
        lemma_bind_parameters_elsewhere(next, scope, params, arguments, from + 1, other);
    }
}

/// A call changes no scope that was there: the parameters are bound in
/// a scope of their own, which is opened for the call.
pub proof fn lemma_call_is_fresh(
    m: Machine,
    function: crate::lox_function::LoxFunctionView,
    arguments: Seq<ValueView>,
    other: int,
)
    requires
        0 <= other < m.scopes.len(),
    ensures
        call_function(m, function, arguments).scopes.len() == m.scopes.len() + 1,
        call_function(m, function, arguments).scopes[other] == m.scopes[other],
{
    let fresh = opened(m.scopes, Some(function.closure));
    lemma_bind_parameters_elsewhere(
        fresh,
        m.scopes.len() as int,
        function.declaration.params,
        arguments,
        0,
        other,
    );
}

/// A task only lets the scopes grow.
pub proof fn lemma_perform_grown(m: Machine, task: TaskView, event: EventView)
    ensures
        grown(m.scopes, perform(m, task, event).machine.scopes),
{
    match task {
        TaskView::Execute(stmt) => {
            match stmt {
                StmtView::Var(name, init) => {
                    lemma_defined_grown(
                        m.scopes,
                        m.environment as int,
                        name.lexeme,
                        ValueView::Nil,
                    );
                },
                StmtView::Block(_) => {
                    lemma_opened_grown(m.scopes, Some(m.environment));
                },
                StmtView::Function(declaration) => {
                    lemma_defined_grown(
                        m.scopes,
                        m.environment as int,
                        declaration.name.lexeme,
                        ValueView::Callable(
                            crate::lox_callable::CallableView::Function(
                                crate::lox_function::LoxFunctionView {
                                    declaration,
                                    closure: m.environment,
                                },
                            ),
                        ),
                    );
                },
                _ => {},
            }
        },
        TaskView::Define(name) => {
            lemma_defined_grown(m.scopes, m.environment as int, name.lexeme, m.top());
        },
        TaskView::Store(name) => {
            lemma_assigned_grown(m.scopes, m.environment as int, name.lexeme, m.top());
        },
        TaskView::Invoke(paren, count) => {
            let first = m.values.len() - crate::semantics::taken(m, count);
            let arguments = m.values.subrange(first, m.values.len() as int);
            let below = Machine { values: m.values.subrange(0, first), ..m };
            match below.top() {
                ValueView::Callable(crate::lox_callable::CallableView::Function(function)) => {
                    let opened_scopes = opened(m.scopes, Some(function.closure));
                    lemma_opened_grown(m.scopes, Some(function.closure));
                    lemma_bind_parameters_grown(
                        opened_scopes,
                        m.scopes.len() as int,
                        function.declaration.params,
                        arguments,
                        0,
                    );
                    lemma_grown_twice(
                        m.scopes,
                        opened_scopes,
                        bind_parameters(
                            opened_scopes,
                            m.scopes.len() as int,
                            function.declaration.params,
                            arguments,
                            0,
                        ),
                    );
                },
                _ => {},
            }
        },
        _ => {},
    }
}

/// A step only lets the scopes grow: no scope is ever dropped or put
/// inside another, so that a function finds the scope it was declared
/// in for as long as the interpreter lives.
pub proof fn lemma_step_grown(m: Machine, event: EventView)
    ensures
        grown(m.scopes, step(m, event).0.scopes),
{
    reveal(step);
    if m.tasks.len() > 0 {
        let popped = Machine { tasks: m.tasks.drop_last(), ..m };
        let done = perform(popped, m.tasks.last(), event);
        lemma_perform_grown(popped, m.tasks.last(), event);
        match done.outcome {
            Outcome::Signal(flow) => {
                lemma_unwind_drops(done.machine, flow);
            },
            Outcome::Failure(_) => {
                lemma_abandon_drops(done.machine);
            },
            _ => {},
        }
    }
}

/// Any number of steps only lets the scopes grow.
pub proof fn lemma_run_grown(m: Machine, events: Seq<EventView>)
    ensures
        grown(m.scopes, run(m, events).scopes),
    decreases events.len(),
{
    if events.len() > 0 {
        let next = step(m, events[0]).0;
        lemma_step_grown(m, events[0]);
        lemma_run_grown(next, events.drop_first());
        lemma_grown_twice(m.scopes, next.scopes, run(next, events.drop_first()).scopes);
    }
}

} // verus!
