//! Expressions without assignments and calls: their evaluation
//! changes nothing, and gives the same wherever it stands.

use vstd::prelude::*;

use crate::ast::expr::ExprView;
use crate::operators::answer;
use crate::operators::apply_binary;
use crate::operators::apply_unary;
use crate::operators::AnswerView;
use crate::operators::OperationView;
use crate::semantics::applied;
use crate::semantics::evaluate;
use crate::semantics::perform;
use crate::semantics::run;
use crate::semantics::step;
use crate::semantics::Done;
use crate::semantics::Machine;
use crate::semantics::Outcome;
use crate::task::EventView;
use crate::task::PendingView;
use crate::task::TaskView;
use crate::value::ValueView;

verus! {

/// Whether an expression is pure: it holds no assignment and no call, so
/// that evaluating it can change no variable and run no statement.
pub open spec fn pure(expr: ExprView) -> bool
    decreases expr,
{
    match expr {
        ExprView::Literal { .. } => true,
        ExprView::Variable { .. } => true,
        ExprView::Grouping { expression } => pure(*expression),
        ExprView::Unary { right, .. } => pure(*right),
        ExprView::Binary { left, right, .. } => pure(*left) && pure(*right),
        ExprView::Logical { left, right, .. } => pure(*left) && pure(*right),
        ExprView::Separator { left, right } => pure(*left) && pure(*right),
        ExprView::Ternary { condition, left, right } => pure(*condition) && pure(*left) && pure(
            *right,
        ),
        ExprView::Assgin { .. } => false,
        ExprView::Call { .. } => false,
    }
}

/// Whether work for the host belongs to the evaluation of a pure
/// expression: it is arithmetic, a comparison, or the writing of a
/// number behind a text.
pub open spec fn pure_pending(pending: PendingView) -> bool {
    !(pending is Show) && !(pending is Native)
}

/// Whether a task belongs to the evaluation of a pure expression.
pub open spec fn pure_task(task: TaskView) -> bool {
    match task {
        TaskView::Evaluate(expr) => pure(expr),
        TaskView::Discard => true,
        TaskView::Choose(left, right) => pure(left) && pure(right),
        TaskView::ShortCircuit(_, right) => pure(right),
        TaskView::Unary(_) => true,
        TaskView::Binary(_) => true,
        TaskView::Await(pending) => pure_pending(pending),
        _ => false,
    }
}

/// The number of values that a task of a pure evaluation takes from the
/// top.
pub open spec fn needs(task: TaskView) -> int {
    match task {
        TaskView::Discard => 1,
        TaskView::Choose(_, _) => 1,
        TaskView::ShortCircuit(_, _) => 1,
        TaskView::Unary(_) => 1,
        TaskView::Binary(_) => 2,
        _ => 0,
    }
}

/// The number of values by which the stack of values has grown when a
/// task of a pure evaluation, and all that it leaves, is through.
pub open spec fn gain(task: TaskView) -> int {
    match task {
        TaskView::Evaluate(_) => 1,
        TaskView::Await(_) => 1,
        TaskView::Discard => -1,
        TaskView::Binary(_) => -1,
        _ => 0,
    }
}

/// Whether a stack of tasks is the work of a pure evaluation that has
/// `have` values of its own: every task is one of a pure evaluation and
/// finds the values that it takes.
pub open spec fn sound(work: Seq<TaskView>, have: int) -> bool
    decreases work.len(),
{
    if work.len() == 0 {
        true
    } else {
        pure_task(work.last()) && have >= needs(work.last()) && sound(
            work.drop_last(),
            have + gain(work.last()),
        )
    }
}

/// A machine in a frame: below its tasks and its values lie those of the
/// frame, and the frame says whether an error was met before.
pub open spec fn framed(
    core: Machine,
    tasks: Seq<TaskView>,
    values: Seq<ValueView>,
    has_error: bool,
) -> Machine {
    Machine {
        has_error,
        tasks: tasks + core.tasks,
        values: values + core.values,
        environment: core.environment,
        scopes: core.scopes,
    }
}

/// Whether a machine gets through a sequence of events without an error
/// and without running out of tasks before the last of them.
pub open spec fn calm(m: Machine, events: Seq<EventView>) -> bool
    decreases events.len(),
{
    if events.len() == 0 {
        true
    } else {
        m.tasks.len() > 0 && !(step(m, events[0]).1 is Report) && calm(
            step(m, events[0]).0,
            events.drop_first(),
        )
    }
}

/// Sound work with one more task on top.
pub proof fn lemma_sound_push(work: Seq<TaskView>, task: TaskView, have: int)
    ensures
        sound(work.push(task), have) == (pure_task(task) && have >= needs(task) && sound(
            work,
            have + gain(task),
        )),
{
    assert(work.push(task).drop_last() =~= work);
}

proof fn lemma_framed_tasks(
    core: Machine,
    tasks: Seq<TaskView>,
    values: Seq<ValueView>,
    has_error: bool,
    more: Seq<TaskView>,
)
    ensures
        framed(core, tasks, values, has_error).with_tasks(more) == framed(
            core.with_tasks(more),
            tasks,
            values,
            has_error,
        ),
{
    assert((tasks + core.tasks) + more =~= tasks + (core.tasks + more));
}

proof fn lemma_framed_value(
    core: Machine,
    tasks: Seq<TaskView>,
    values: Seq<ValueView>,
    has_error: bool,
    value: ValueView,
)
    ensures
        framed(core, tasks, values, has_error).with_value(value) == framed(
            core.with_value(value),
            tasks,
            values,
            has_error,
        ),
{
    assert((values + core.values).push(value) =~= values + core.values.push(value));
}

proof fn lemma_framed_pop(
    core: Machine,
    tasks: Seq<TaskView>,
    values: Seq<ValueView>,
    has_error: bool,
)
    requires
        core.values.len() > 0,
    ensures
        framed(core, tasks, values, has_error).top() == core.top(),
        framed(core, tasks, values, has_error).popped() == framed(
            core.popped(),
            tasks,
            values,
            has_error,
        ),
{
    assert((values + core.values).drop_last() =~= values + core.values.drop_last());
}

/// What applying an operator leaves is the same in a frame, and is pure.
proof fn lemma_applied_framed(
    core: Machine,
    tasks: Seq<TaskView>,
    values: Seq<ValueView>,
    has_error: bool,
    operator: crate::token::TokenView,
    operation: OperationView,
)
    ensures
        applied(framed(core, tasks, values, has_error), operator, operation) == (Done {
            machine: framed(applied(core, operator, operation).machine, tasks, values, has_error),
            outcome: applied(core, operator, operation).outcome,
        }),
{
    match operation {
        OperationView::Value(value) => {
            lemma_framed_value(core, tasks, values, has_error, value);
        },
        OperationView::Wait(pending) => {
            lemma_framed_tasks(core, tasks, values, has_error, seq![TaskView::Await(pending)]);
        },
        OperationView::Failure(_) => {},
    }
}

/// What a pure task leaves is the same in a frame: the frame is not
/// touched, and neither are the scopes.
pub proof fn lemma_perform_framed(
    core: Machine,
    tasks: Seq<TaskView>,
    values: Seq<ValueView>,
    has_error: bool,
    task: TaskView,
    event: EventView,
)
    requires
        pure_task(task),
        core.values.len() >= needs(task),
    ensures
        perform(framed(core, tasks, values, has_error), task, event) == (Done {
            machine: framed(perform(core, task, event).machine, tasks, values, has_error),
            outcome: perform(core, task, event).outcome,
        }),
        perform(core, task, event).machine.scopes == core.scopes,
        perform(core, task, event).machine.environment == core.environment,
        !(perform(core, task, event).outcome is Signal),
        perform(core, task, event).outcome matches Outcome::Ask(request) ==> !(request is Print)
            && !(request is Report) && !(request is Call) && !(request is Finished),
{
    match task {
        TaskView::Evaluate(expr) => {
            match expr {
                ExprView::Literal { value } => {
                    lemma_framed_value(
                        core,
                        tasks,
                        values,
                        has_error,
                        crate::value::literal_value(value),
                    );
                },
                ExprView::Grouping { expression } => {
                    lemma_framed_tasks(
                        core,
                        tasks,
                        values,
                        has_error,
                        seq![TaskView::Evaluate(*expression)],
                    );
                },
                ExprView::Unary { operator, right } => {
                    lemma_framed_tasks(
                        core,
                        tasks,
                        values,
                        has_error,
                        seq![TaskView::Unary(operator), TaskView::Evaluate(*right)],
                    );
                },
                ExprView::Binary { operator, left, right } => {
                    lemma_framed_tasks(
                        core,
                        tasks,
                        values,
                        has_error,
                        seq![
                            TaskView::Binary(operator),
                            TaskView::Evaluate(*right),
                            TaskView::Evaluate(*left),
                        ],
                    );
                },
                ExprView::Logical { operator, left, right } => {
                    lemma_framed_tasks(
                        core,
                        tasks,
                        values,
                        has_error,
                        seq![TaskView::ShortCircuit(operator, *right), TaskView::Evaluate(*left)],
                    );
                },
                ExprView::Ternary { condition, left, right } => {
                    lemma_framed_tasks(
                        core,
                        tasks,
                        values,
                        has_error,
                        seq![TaskView::Choose(*left, *right), TaskView::Evaluate(*condition)],
                    );
                },
                ExprView::Separator { left, right } => {
                    lemma_framed_tasks(
                        core,
                        tasks,
                        values,
                        has_error,
                        seq![
                            TaskView::Evaluate(*right),
                            TaskView::Discard,
                            TaskView::Evaluate(*left),
                        ],
                    );
                },
                ExprView::Variable { name } => {
                    match crate::environment::lookup(
                        core.scopes,
                        core.environment as int,
                        name.lexeme,
                    ) {
                        Some(value) => {
                            lemma_framed_value(core, tasks, values, has_error, value);
                        },
                        None => {},
                    }
                },
                _ => {},
            }
        },
        TaskView::Discard => {
            lemma_framed_pop(core, tasks, values, has_error);
        },
        TaskView::Choose(left, right) => {
            lemma_framed_pop(core, tasks, values, has_error);
            lemma_framed_tasks(
                core.popped(),
                tasks,
                values,
                has_error,
                seq![TaskView::Evaluate(left)],
            );
            lemma_framed_tasks(
                core.popped(),
                tasks,
                values,
                has_error,
                seq![TaskView::Evaluate(right)],
            );
        },
        TaskView::ShortCircuit(operator, right) => {
            lemma_framed_pop(core, tasks, values, has_error);
            lemma_framed_tasks(
                core.popped(),
                tasks,
                values,
                has_error,
                seq![TaskView::Evaluate(right)],
            );
        },
        TaskView::Unary(operator) => {
            lemma_framed_pop(core, tasks, values, has_error);
            lemma_applied_framed(
                core.popped(),
                tasks,
                values,
                has_error,
                operator,
                apply_unary(operator.token_type, core.top()),
            );
        },
        TaskView::Binary(operator) => {
            lemma_framed_pop(core, tasks, values, has_error);
            lemma_framed_pop(core.popped(), tasks, values, has_error);
            lemma_applied_framed(
                core.popped().popped(),
                tasks,
                values,
                has_error,
                operator,
                apply_binary(operator, core.popped().top(), core.top()),
            );
        },
        TaskView::Await(pending) => {
            match answer(pending, event) {
                AnswerView::Value(value) => {
                    lemma_framed_value(core, tasks, values, has_error, value);
                },
                AnswerView::Wait(next) => {
                    lemma_framed_tasks(
                        core,
                        tasks,
                        values,
                        has_error,
                        seq![TaskView::Await(next)],
                    );
                },
                AnswerView::Unanswered => {
                    lemma_framed_tasks(
                        core,
                        tasks,
                        values,
                        has_error,
                        seq![TaskView::Await(pending)],
                    );
                },
                _ => {},
            }
        },
        _ => {},
    }
}

/// What an operation leaves of sound work is sound work.
proof fn lemma_applied_sound(
    core: Machine,
    operator: crate::token::TokenView,
    operation: OperationView,
    have: int,
)
    requires
        sound(core.tasks, have + 1),
        have == core.values.len(),
        operation matches OperationView::Wait(pending) ==> pure_pending(pending),
    ensures
        !(applied(core, operator, operation).outcome is Failure) ==> sound(
            applied(core, operator, operation).machine.tasks,
            applied(core, operator, operation).machine.values.len() as int,
        ),
{
    match operation {
        OperationView::Wait(pending) => {
            assert(core.tasks + seq![TaskView::Await(pending)] =~= core.tasks.push(
                TaskView::Await(pending),
            ));
            lemma_sound_push(core.tasks, TaskView::Await(pending), have);
        },
        _ => {},
    }
}

/// What a pure task leaves of sound work is sound work.
pub proof fn lemma_perform_sound(core: Machine, task: TaskView, event: EventView)
    requires
        sound(core.tasks.push(task), core.values.len() as int),
    ensures
        !(perform(core, task, event).outcome is Failure) ==> sound(
            perform(core, task, event).machine.tasks,
            perform(core, task, event).machine.values.len() as int,
        ),
{
    let have = core.values.len() as int;
    let rest = core.tasks;
    lemma_sound_push(rest, task, have);
    match task {
        TaskView::Evaluate(expr) => {
            match expr {
                ExprView::Grouping { expression } => {
                    let a = TaskView::Evaluate(*expression);
                    assert(rest + seq![a] =~= rest.push(a));
                    lemma_sound_push(rest, a, have);
                },
                ExprView::Unary { operator, right } => {
                    let a = TaskView::Unary(operator);
                    let b = TaskView::Evaluate(*right);
                    assert(rest + seq![a, b] =~= rest.push(a).push(b));
                    lemma_sound_push(rest.push(a), b, have);
                    lemma_sound_push(rest, a, have + 1);
                },
                ExprView::Binary { operator, left, right } => {
                    let a = TaskView::Binary(operator);
                    let b = TaskView::Evaluate(*right);
                    let c = TaskView::Evaluate(*left);
                    assert(rest + seq![a, b, c] =~= rest.push(a).push(b).push(c));
                    lemma_sound_push(rest.push(a).push(b), c, have);
                    lemma_sound_push(rest.push(a), b, have + 1);
                    lemma_sound_push(rest, a, have + 2);
                },
                ExprView::Logical { operator, left, right } => {
                    let a = TaskView::ShortCircuit(operator, *right);
                    let b = TaskView::Evaluate(*left);
                    assert(rest + seq![a, b] =~= rest.push(a).push(b));
                    lemma_sound_push(rest.push(a), b, have);
                    lemma_sound_push(rest, a, have + 1);
                },
                ExprView::Ternary { condition, left, right } => {
                    let a = TaskView::Choose(*left, *right);
                    let b = TaskView::Evaluate(*condition);
                    assert(rest + seq![a, b] =~= rest.push(a).push(b));
                    lemma_sound_push(rest.push(a), b, have);
                    lemma_sound_push(rest, a, have + 1);
                },
                ExprView::Separator { left, right } => {
                    let a = TaskView::Evaluate(*right);
                    let b = TaskView::Discard;
                    let c = TaskView::Evaluate(*left);
                    assert(rest + seq![a, b, c] =~= rest.push(a).push(b).push(c));
                    lemma_sound_push(rest.push(a).push(b), c, have);
                    lemma_sound_push(rest.push(a), b, have + 1);
                    lemma_sound_push(rest, a, have);
                },
                _ => {},
            }
        },
        TaskView::Choose(left, right) => {
            let a = TaskView::Evaluate(left);
            let b = TaskView::Evaluate(right);
            assert(rest + seq![a] =~= rest.push(a));
            assert(rest + seq![b] =~= rest.push(b));
            lemma_sound_push(rest, a, have - 1);
            lemma_sound_push(rest, b, have - 1);
        },
        TaskView::ShortCircuit(operator, right) => {
            let a = TaskView::Evaluate(right);
            assert(rest + seq![a] =~= rest.push(a));
            lemma_sound_push(rest, a, have - 1);
        },
        TaskView::Unary(operator) => {
            lemma_applied_sound(
                core.popped(),
                operator,
                apply_unary(operator.token_type, core.top()),
                have - 1,
            );
        },
        TaskView::Binary(operator) => {
            lemma_applied_sound(
                core.popped().popped(),
                operator,
                apply_binary(operator, core.popped().top(), core.top()),
                have - 2,
            );
        },
        TaskView::Await(pending) => {
            match answer(pending, event) {
                AnswerView::Wait(next) => {
                    let a = TaskView::Await(next);
                    assert(rest + seq![a] =~= rest.push(a));
                    lemma_sound_push(rest, a, have);
                },
                AnswerView::Unanswered => {
                    let a = TaskView::Await(pending);
                    assert(rest + seq![a] =~= rest.push(a));
                },
                _ => {},
            }
        },
        _ => {},
    }
}

/// A step of a pure evaluation is the same in a frame: unless it ends in
/// an error, it asks the host the same and leaves the same, it touches
/// neither the frame nor the scopes, and what is left is the work of a
/// pure evaluation again.
pub proof fn lemma_step_framed(
    core: Machine,
    tasks: Seq<TaskView>,
    values: Seq<ValueView>,
    has_error: bool,
    event: EventView,
)
    requires
        core.tasks.len() > 0,
        sound(core.tasks, core.values.len() as int),
    ensures
        step(framed(core, tasks, values, has_error), event).1 == step(core, event).1,
        !(step(core, event).1 is Report) ==> {
            &&& step(framed(core, tasks, values, has_error), event).0 == framed(
                step(core, event).0,
                tasks,
                values,
                has_error,
            )
            &&& step(core, event).0.scopes == core.scopes
            &&& step(core, event).0.environment == core.environment
            &&& sound(step(core, event).0.tasks, step(core, event).0.values.len() as int)
            &&& !(step(core, event).1 is Print)
            &&& !(step(core, event).1 is Call)
        },
{
    reveal(step);
    let task = core.tasks.last();
    let inner = Machine { tasks: core.tasks.drop_last(), ..core };
    let outer = framed(core, tasks, values, has_error);
    let popped = Machine { tasks: outer.tasks.drop_last(), ..outer };
    assert(outer.tasks.last() == task);
    assert(outer.tasks.drop_last() =~= tasks + core.tasks.drop_last());
    assert(popped == framed(inner, tasks, values, has_error));
    assert(inner.tasks.push(task) =~= core.tasks);
    lemma_sound_push(inner.tasks, task, core.values.len() as int);
    lemma_perform_framed(inner, tasks, values, has_error, task, event);
    lemma_perform_sound(inner, task, event);
}

/// A pure evaluation runs the same in a frame: as long as it meets no
/// error and has tasks left, every step leaves in the frame what it
/// leaves without, and the scopes stay as they are.
pub proof fn lemma_run_framed(
    core: Machine,
    tasks: Seq<TaskView>,
    values: Seq<ValueView>,
    has_error: bool,
    events: Seq<EventView>,
)
    requires
        sound(core.tasks, core.values.len() as int),
        calm(core, events),
    ensures
        run(framed(core, tasks, values, has_error), events) == framed(
            run(core, events),
            tasks,
            values,
            has_error,
        ),
        run(core, events).scopes == core.scopes,
        run(core, events).environment == core.environment,
    decreases events.len(),
{
    if events.len() > 0 {
        lemma_step_framed(core, tasks, values, has_error, events[0]);
        lemma_run_framed(step(core, events[0]).0, tasks, values, has_error, events.drop_first());
    }
}

/// The machine that has nothing but one expression to evaluate, in the
/// scopes of another machine.
pub open spec fn evaluation(m: Machine, expr: ExprView) -> Machine {
    Machine {
        has_error: false,
        environment: m.environment,
        scopes: m.scopes,
        tasks: seq![TaskView::Evaluate(expr)],
        values: Seq::empty(),
    }
}

/// Evaluating a pure expression twice gives the same value. However
/// much work and however many values two machines have before them: when
/// they stand in the same scopes and are given the same pure expression
/// to evaluate and the same answers by the host, then, as long as the
/// evaluation meets no error, they leave the same tasks and the same
/// values on top of what they had, and the scopes as they were.
pub proof fn lemma_pure_evaluation_repeats(
    first: Machine,
    second: Machine,
    expr: ExprView,
    events: Seq<EventView>,
)
    requires
        pure(expr),
        first.scopes == second.scopes,
        first.environment == second.environment,
        calm(evaluation(first, expr), events),
    ensures
        run(first.with_tasks(seq![TaskView::Evaluate(expr)]), events) == framed(
            run(evaluation(first, expr), events),
            first.tasks,
            first.values,
            first.has_error,
        ),
        run(second.with_tasks(seq![TaskView::Evaluate(expr)]), events) == framed(
            run(evaluation(first, expr), events),
            second.tasks,
            second.values,
            second.has_error,
        ),
        run(evaluation(first, expr), events).scopes == first.scopes,
        run(evaluation(first, expr), events).environment == first.environment,
{
    let core = evaluation(first, expr);
    assert(sound(core.tasks, 0)) by {
        assert(core.tasks =~= Seq::<TaskView>::empty().push(TaskView::Evaluate(expr)));
        lemma_sound_push(Seq::<TaskView>::empty(), TaskView::Evaluate(expr), 0);
    }
    assert(first.with_tasks(seq![TaskView::Evaluate(expr)]) == framed(
        core,
        first.tasks,
        first.values,
        first.has_error,
    )) by {
        assert(first.values + core.values =~= first.values);
    }
    assert(second.with_tasks(seq![TaskView::Evaluate(expr)]) == framed(
        core,
        second.tasks,
        second.values,
        second.has_error,
    )) by {
        assert(second.values + core.values =~= second.values);
    }
    lemma_run_framed(core, first.tasks, first.values, first.has_error, events);
    lemma_run_framed(core, second.tasks, second.values, second.has_error, events);
}

} // verus!
