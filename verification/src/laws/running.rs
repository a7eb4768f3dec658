//! What holds of the machine, whatever the program.

use vstd::prelude::*;
use crate::error::RuntimeFault;
use crate::ieee;
use crate::laws::parsing::{is_finished, value_is_finished};
use crate::operation::OperationType;
use crate::runtime::effect::Action;
use crate::runtime::executors::{applied, done, failed, mismatched};
use crate::runtime::machine::{ran, stepped, Level, Report, State, Stepped};
use crate::value::{Instruction, Value};

verus! {

/// A machine that is still running after `first` steps is, after `more` steps on
/// top of them, where `more` steps from there take it.
pub proof fn law_runs_add_up(state: State, first: nat, more: nat)
    requires
        ran(state, first).result == Ok::<Report, RuntimeFault>(Report::Running),
    ensures
        ran(state, first + more) == ran(ran(state, first).state, more),
    decreases first,
{
    if first > 0 {
        let step = stepped(state);
        if step.result == Ok::<Report, RuntimeFault>(Report::Running) {
            law_runs_add_up(step.state, (first - 1) as nat, more);
        }
    }
}

/// The steps that the runs of a body take from the `from`-th on, one more for each
/// run, to open it, and one more at the end, to close the loop.
pub open spec fn steps_of_runs(steps: Seq<nat>, from: int) -> nat
    decreases steps.len() - from,
{
    if from < 0 || from >= steps.len() {
        1
    } else {
        steps[from] + 1 + steps_of_runs(steps, from + 1)
    }
}

/// Whether the `run`-th run of the body of a `for` over `times` runs, begun on
/// `stacks[run]`, comes back to the `for` after `steps[run]` steps with
/// `stacks[run + 1]`.
pub open spec fn body_comes_back(
    below: Seq<Level>,
    body: Seq<Instruction>,
    times: i64,
    stacks: Seq<Seq<Value>>,
    steps: Seq<nat>,
    run: int,
) -> bool {
    ran(
        State {
            stack: stacks[run],
            frames: below.push(Level::Times { body, left: (times - 1 - run) as i64 }).push(
                Level::Block { code: body, next: 0 },
            ),
        },
        steps[run],
    ) == (Stepped {
        state: State {
            stack: stacks[run + 1],
            frames: below.push(Level::Times { body, left: (times - 1 - run) as i64 }),
        },
        result: Ok(Report::Running),
    })
}

/// The `for` law from the `from`-th run on.
proof fn lemma_for_from(
    below: Seq<Level>,
    body: Seq<Instruction>,
    times: i64,
    stacks: Seq<Seq<Value>>,
    steps: Seq<nat>,
    from: int,
)
    requires
        0 <= from <= times,
        stacks.len() == times + 1,
        steps.len() == times,
        forall|run: int|
            0 <= run < times ==> #[trigger] body_comes_back(below, body, times, stacks, steps, run),
    ensures
        ran(
            State {
                stack: stacks[from],
                frames: below.push(Level::Times { body, left: (times - from) as i64 }),
            },
            steps_of_runs(steps, from),
        ) == (Stepped {
            state: State { stack: stacks[times as int], frames: below },
            result: Ok(Report::Running),
        }),
    decreases times - from,
{
    let start = State {
        stack: stacks[from],
        frames: below.push(Level::Times { body, left: (times - from) as i64 }),
    };
    assert(start.frames.drop_last() =~= below);
    if from == times {
        assert(ran(stepped(start).state, 0) == stepped(start));
    } else {
        let opened = State {
            stack: stacks[from],
            frames: below.push(Level::Times { body, left: (times - 1 - from) as i64 }).push(
                Level::Block { code: body, next: 0 },
            ),
        };
        assert(body_comes_back(below, body, times, stacks, steps, from));
        let back = ran(opened, steps[from]).state;
        lemma_for_from(below, body, times, stacks, steps, from + 1);
        law_runs_add_up(opened, steps[from], steps_of_runs(steps, from + 1));
    }
}

/// A `for` with count `times` runs its body exactly `times` times: if each run of
/// the body, begun on the stack that the run before it left, comes back to the
/// `for`, then the machine opens the body `times` times, one run after the other,
/// and closes the `for` on the stack that the last run left.
pub proof fn law_for_runs_its_body_count_times(
    below: Seq<Level>,
    body: Seq<Instruction>,
    times: i64,
    stacks: Seq<Seq<Value>>,
    steps: Seq<nat>,
)
    requires
        0 <= times,
        stacks.len() == times + 1,
        steps.len() == times,
        forall|run: int|
            0 <= run < times ==> #[trigger] body_comes_back(below, body, times, stacks, steps, run),
    ensures
        ran(
            State { stack: stacks[0], frames: below.push(Level::Times { body, left: times }) },
            steps_of_runs(steps, 0),
        ) == (Stepped {
            state: State { stack: stacks[times as int], frames: below },
            result: Ok(Report::Running),
        }),
{
    lemma_for_from(below, body, times, stacks, steps, 0);
}

/// A `for` whose count is not positive never runs its body: the next step closes
/// it, and the stack stays as it is.
pub proof fn law_for_without_runs(
    stack: Seq<Value>,
    below: Seq<Level>,
    body: Seq<Instruction>,
    times: i64,
)
    requires
        times <= 0,
    ensures
        stepped(State { stack, frames: below.push(Level::Times { body, left: times }) }) == (Stepped {
            state: State { stack, frames: below },
            result: Ok(Report::Running),
        }),
{
    assert(below.push(Level::Times { body, left: times }).drop_last() =~= below);
}

/// A `while` stops the first time that it finds the top of the stack false: the
/// step that finds it so closes the `while`, which leaves the machine with its
/// body; the stack stays as it is.
pub proof fn law_while_stops_when_false(
    stack: Seq<Value>,
    below: Seq<Level>,
    body: Seq<Instruction>,
)
    requires
        stack.len() > 0,
        !stack.last().truthy(),
    ensures
        stepped(State { stack, frames: below.push(Level::Loop { body }) }) == (Stepped {
            state: State { stack, frames: below },
            result: Ok(Report::Running),
        }),
{
    assert(below.push(Level::Loop { body }).drop_last() =~= below);
}

/// A `while` that finds the top of the stack true runs its body once more and
/// stays, to look again when the body is done.
pub proof fn law_while_runs_when_true(
    stack: Seq<Value>,
    below: Seq<Level>,
    body: Seq<Instruction>,
)
    requires
        stack.len() > 0,
        stack.last().truthy(),
    ensures
        stepped(State { stack, frames: below.push(Level::Loop { body }) }) == (Stepped {
            state: State {
                stack,
                frames: below.push(Level::Loop { body }).push(Level::Block { code: body, next: 0 }),
            },
            result: Ok(Report::Running),
        }),
{
}

/// `if` on a true condition takes the condition and the scope off the stack and
/// runs the scope on what is left; on a false condition it takes both off and runs
/// nothing.
pub proof fn law_if_runs_its_scope_on_a_true_condition_only(
    rest: Seq<Value>,
    body: Seq<Instruction>,
    condition: Value,
    code: Seq<Instruction>,
    next: usize,
    below: Seq<Level>,
)
    requires
        next < code.len(),
        next < usize::MAX,
        code[next as int] == Instruction::Operation(OperationType::If),
    ensures
        stepped(
            State {
                stack: rest.push(Value::Scope(body)).push(condition),
                frames: below.push(Level::Block { code, next }),
            },
        ) == (Stepped {
            state: State {
                stack: rest,
                frames: if condition.truthy() {
                    below.push(Level::Block { code, next: (next + 1) as usize }).push(
                        Level::Block { code: body, next: 0 },
                    )
                } else {
                    below.push(Level::Block { code, next: (next + 1) as usize })
                },
            },
            result: Ok(Report::Running),
        }),
{
    let stack = rest.push(Value::Scope(body)).push(condition);
    assert(stack.take(stack.len() - 2) =~= rest);
    assert(below.push(Level::Block { code, next }).drop_last() =~= below);
}

/// `switch` twice, and `reverse` twice, leave the stack as it was; `copy` and then
/// `pop` do too.
pub proof fn law_stack_operations_undo(stack: Seq<Value>)
    ensures
        stack.len() >= 2 ==> applied(
            OperationType::Switch,
            applied(OperationType::Switch, stack).stack,
        ) == done(stack),
        applied(OperationType::Reverse, applied(OperationType::Reverse, stack).stack) == done(stack),
        stack.len() >= 1 ==> applied(OperationType::Pop, applied(OperationType::Copy, stack).stack)
            == done(stack),
{
    if stack.len() >= 2 {
        let once = applied(OperationType::Switch, stack).stack;
        assert(applied(OperationType::Switch, once).stack =~= stack);
    }
    assert(stack.reverse().reverse() =~= stack);
    if stack.len() >= 1 {
        assert(stack.push(stack.last()).drop_last() =~= stack);
    }
}

/// `pop` takes exactly the top value away, and `copy` adds exactly a second top:
/// every value below keeps its place.
pub proof fn law_pop_and_copy_touch_the_top_only(stack: Seq<Value>)
    requires
        stack.len() >= 1,
    ensures
        applied(OperationType::Pop, stack).stack.len() == stack.len() - 1,
        applied(OperationType::Copy, stack).stack.len() == stack.len() + 1,
        applied(OperationType::Copy, stack).stack.last() == stack.last(),
        forall|k: int|
            0 <= k < stack.len() - 1 ==> (#[trigger] applied(OperationType::Pop, stack).stack[k])
                == stack[k],
        forall|k: int|
            0 <= k < stack.len() ==> (#[trigger] applied(OperationType::Copy, stack).stack[k])
                == stack[k],
{
}

/// Whether every value of a stack is finished.
pub open spec fn stack_is_finished(stack: Seq<Value>) -> bool {
    forall|k: int| 0 <= k < stack.len() ==> value_is_finished(#[trigger] stack[k])
}

/// Whether a frame runs a finished program.
pub open spec fn level_is_finished(level: Level) -> bool {
    match level {
        Level::Block { code, .. } => is_finished(code),
        Level::Times { body, .. } => is_finished(body),
        Level::Loop { body } => is_finished(body),
    }
}

/// Whether a machine holds finished programs only, in its frames and in the scopes
/// on its stack.
pub open spec fn machine_is_finished(state: State) -> bool {
    &&& stack_is_finished(state.stack)
    &&& forall|k: int| 0 <= k < state.frames.len() ==> level_is_finished(#[trigger] state.frames[k])
}

/// Whether a failure is that of an operation that cannot be executed.
pub open spec fn is_invalid_operation(result: Result<Report, RuntimeFault>) -> bool {
    result matches Err(RuntimeFault::InvalidOperation { .. })
}

/// An operation of a finished program keeps the stack finished, asks for finished
/// scopes only to be run, and is never found invalid.
proof fn lemma_applied_finished(operation: OperationType, stack: Seq<Value>)
    requires
        stack_is_finished(stack),
        operation != OperationType::Macro,
        operation != OperationType::Const,
    ensures
        stack_is_finished(applied(operation, stack).stack),
        match applied(operation, stack).result {
            Ok(Action::Enter { body }) => is_finished(body),
            Ok(Action::Repeat { body, .. }) => is_finished(body),
            Ok(Action::Loop { body }) => is_finished(body),
            Ok(_) => true,
            Err(fault) => !(fault is InvalidOperation),
        },
{
    let after = applied(operation, stack);
    if stack.len() >= 1 {
        assert(value_is_finished(stack.last().negated())) by {
            assert(is_finished(Seq::<Instruction>::empty()));
            assert(is_finished(seq![Instruction::Value(Value::Bool(true))]));
        }
    }
    if stack.len() >= 2 {
    }
}

/// A step of a machine that holds finished programs only leaves it holding finished
/// programs only, and does not fail for an operation that cannot be executed.
proof fn lemma_stepped_finished(state: State)
    requires
        machine_is_finished(state),
    ensures
        machine_is_finished(stepped(state).state),
        !is_invalid_operation(stepped(state).result),
{
    if state.frames.len() > 0 {
        let below = state.frames.drop_last();
        match state.frames.last() {
            Level::Block { code, next } => {
                if next < code.len() {
                    let entry = code[next as int];
                    match entry {
                        Instruction::Operation(operation) => {
                            lemma_applied_finished(operation, state.stack);
                        },
                        _ => {},
                    }
                }
            },
            _ => {},
        }
    }
}

/// What the parser emits, the machine can execute: a machine that holds finished
/// programs only, in its frames and in the scopes on its stack, holds finished
/// programs only after any number of steps, and none of these steps fails for an
/// operation that cannot be executed.
pub proof fn law_finished_programs_hold_valid_operations(state: State, fuel: nat)
    requires
        machine_is_finished(state),
    ensures
        machine_is_finished(ran(state, fuel).state),
        !is_invalid_operation(ran(state, fuel).result),
    decreases fuel,
{
    if fuel > 0 {
        lemma_stepped_finished(state);
        let step = stepped(state);
        if step.result == Ok::<Report, RuntimeFault>(Report::Running) {
            law_finished_programs_hold_valid_operations(step.state, (fuel - 1) as nat);
        }
    }
}

/// The comparisons of doubles hang together: of two that are no NaN, exactly one
/// of less, equal and greater holds; less-or-equal is less or equal; with a NaN
/// every comparison is false; and a double is true as a condition exactly if it
/// does not equal zero.
pub proof fn law_comparisons_of_doubles_agree(a: u64, b: u64)
    ensures
        ieee::less_or_equal(a, b) == (ieee::less(a, b) || ieee::equal(a, b)),
        ieee::equal(a, b) == ieee::equal(b, a),
        !(ieee::less(a, b) && ieee::less(b, a)),
        !(ieee::less(a, b) && ieee::equal(a, b)),
        !ieee::is_nan(a) && !ieee::is_nan(b) ==> ieee::less(a, b) || ieee::equal(a, b)
            || ieee::less(b, a),
        ieee::is_nan(a) || ieee::is_nan(b) ==> !ieee::less(a, b) && !ieee::equal(a, b)
            && !ieee::less_or_equal(a, b),
        ieee::nonzero(a) == !ieee::equal(a, ieee::ZERO),
{
    assert(ieee::magnitude(ieee::ZERO) == 0 && !ieee::negative(ieee::ZERO)) by (bit_vector);
}

/// Whether the `run`-th run of the body of a `while`, begun on `stacks[run]`, comes
/// back to the `while` after `steps[run]` steps with `stacks[run + 1]`.
pub open spec fn body_comes_back_to_while(
    below: Seq<Level>,
    body: Seq<Instruction>,
    stacks: Seq<Seq<Value>>,
    steps: Seq<nat>,
    run: int,
) -> bool {
    ran(
        State {
            stack: stacks[run],
            frames: below.push(Level::Loop { body }).push(Level::Block { code: body, next: 0 }),
        },
        steps[run],
    ) == (Stepped {
        state: State { stack: stacks[run + 1], frames: below.push(Level::Loop { body }) },
        result: Ok(Report::Running),
    })
}

/// Whether the top of `stack` is true.
pub open spec fn top_is_true(stack: Seq<Value>) -> bool {
    stack.len() > 0 && stack.last().truthy()
}

/// The `while` law from the `from`-th run on.
proof fn lemma_while_from(
    below: Seq<Level>,
    body: Seq<Instruction>,
    stacks: Seq<Seq<Value>>,
    steps: Seq<nat>,
    from: int,
)
    requires
        0 <= from <= steps.len(),
        stacks.len() == steps.len() + 1,
        forall|run: int| 0 <= run < steps.len() ==> top_is_true(#[trigger] stacks[run]),
        forall|run: int|
            0 <= run < steps.len() ==> #[trigger] body_comes_back_to_while(
                below,
                body,
                stacks,
                steps,
                run,
            ),
        stacks.last().len() > 0,
        !stacks.last().last().truthy(),
    ensures
        ran(
            State { stack: stacks[from], frames: below.push(Level::Loop { body }) },
            steps_of_runs(steps, from),
        ) == (Stepped {
            state: State { stack: stacks.last(), frames: below },
            result: Ok(Report::Running),
        }),
    decreases steps.len() - from,
{
    let start = State { stack: stacks[from], frames: below.push(Level::Loop { body }) };
    assert(start.frames.drop_last() =~= below);
    if from == steps.len() {
        assert(steps_of_runs(steps, from) == 1);
        assert(ran(stepped(start).state, 0) == stepped(start));
    } else {
        assert(top_is_true(stacks[from]));
        let opened = State {
            stack: stacks[from],
            frames: below.push(Level::Loop { body }).push(Level::Block { code: body, next: 0 }),
        };
        assert(stepped(start) == Stepped { state: opened, result: Ok(Report::Running) });
        assert(body_comes_back_to_while(below, body, stacks, steps, from));
        lemma_while_from(below, body, stacks, steps, from + 1);
        law_runs_add_up(opened, steps[from], steps_of_runs(steps, from + 1));
        assert(ran(start, steps_of_runs(steps, from)) == ran(
            opened,
            (steps[from] + steps_of_runs(steps, from + 1)) as nat,
        ));
    }
}

/// A `while` runs its body for as long as it finds the top of the stack true, and
/// ends the first time that it finds it false: if each run of the body, begun on a
/// stack with a true top, comes back to the `while`, and the last of these runs
/// leaves a false top, then the machine closes the `while` on that stack, untouched,
/// and the body has run once for each true top and not once more.
pub proof fn law_while_runs_until_the_top_is_false(
    below: Seq<Level>,
    body: Seq<Instruction>,
    stacks: Seq<Seq<Value>>,
    steps: Seq<nat>,
)
    requires
        stacks.len() == steps.len() + 1,
        forall|run: int| 0 <= run < steps.len() ==> top_is_true(#[trigger] stacks[run]),
        forall|run: int|
            0 <= run < steps.len() ==> #[trigger] body_comes_back_to_while(
                below,
                body,
                stacks,
                steps,
                run,
            ),
        stacks.last().len() > 0,
        !stacks.last().last().truthy(),
    ensures
        ran(
            State { stack: stacks[0], frames: below.push(Level::Loop { body }) },
            steps_of_runs(steps, 0),
        ) == (Stepped {
            state: State { stack: stacks.last(), frames: below },
            result: Ok(Report::Running),
        }),
{
    lemma_while_from(below, body, stacks, steps, 0);
}

/// `if`, `for` and `while` need a scope below the top of the stack: where two
/// values are there and the lower one is no scope, `if` and `while` fail with a
/// mismatch that names it, whatever the top is, and so does `for` under an integer
/// count. Both values have then left the stack.
pub proof fn law_control_flow_needs_a_scope(stack: Seq<Value>)
    requires
        stack.len() >= 2,
        !(stack[stack.len() - 2] is Scope),
    ensures
        applied(OperationType::If, stack) == failed(
            stack.take(stack.len() - 2),
            mismatched("Scope"@, stack[stack.len() - 2]),
        ),
        applied(OperationType::While, stack) == failed(
            stack.take(stack.len() - 2),
            mismatched("Scope"@, stack[stack.len() - 2]),
        ),
        stack.last() is Int ==> applied(OperationType::For, stack) == failed(
            stack.take(stack.len() - 2),
            mismatched("Scope"@, stack[stack.len() - 2]),
        ),
        !(stack.last() is Int) ==> applied(OperationType::For, stack) == failed(
            stack.take(stack.len() - 2),
            mismatched("Int"@, stack.last()),
        ),
{
}

} // verus!
