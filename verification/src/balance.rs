//! The scopes that a running program opens are closed again: at every
//! state of the machine the environment holds the scopes it started with
//! and one more for each frame that holds a scope open, so that it is back
//! to the scopes it started with when the program ends, with a value or
//! with a failure.
use vstd::prelude::*;

use crate::ast::Tree;
use crate::environment::{assigned, declared, empty_scope, ScopeModel};
use crate::error::Error;
use crate::machine::{
    applies, binds, calls, concludes, delivers, enters, evaluates, fails, left, operands,
    resumes, runs, settles, step, tries, unwound, EventView, FocusModel, FrameModel, Machine,
    OperationModel, Step,
};
use crate::operations::ReplyModel;
use crate::reals::Answer;
use crate::values::Value;

verus! {

/// Whether a frame holds a scope open.
pub open spec fn holds_scope(frame: FrameModel) -> bool {
    frame is Scope || frame is Return
}

/// The number of frames that hold a scope open.
pub open spec fn held_open(frames: Seq<FrameModel>) -> nat
    decreases frames.len(),
{
    if frames.len() == 0 {
        0
    } else if holds_scope(frames.last()) {
        held_open(frames.drop_last()) + 1
    } else {
        held_open(frames.drop_last())
    }
}

/// The environment holds `base` scopes and one more for each frame that
/// holds a scope open.
pub open spec fn balanced(frames: Seq<FrameModel>, scopes: Seq<ScopeModel>, base: nat) -> bool {
    base >= 1 && scopes.len() == base + held_open(frames)
}

/// The outcome of a step is balanced.
pub open spec fn stays_balanced(outcome: Step, base: nat) -> bool {
    balanced(outcome.machine.frames, outcome.scopes, base)
}

pub proof fn lemma_held_open_push(frames: Seq<FrameModel>, frame: FrameModel)
    ensures
        held_open(frames.push(frame)) == held_open(frames) + if holds_scope(frame) {
            1nat
        } else {
            0nat
        },
{
    assert(frames.push(frame).drop_last() =~= frames);
}

pub proof fn lemma_unwound(frames: Seq<FrameModel>, scopes: Seq<ScopeModel>, base: nat)
    requires
        balanced(frames, scopes, base),
    ensures
        unwound(frames, scopes).len() == base,
    decreases frames.len(),
{
    if frames.len() > 0 {
        if holds_scope(frames.last()) {
            lemma_unwound(frames.drop_last(), left(scopes), base);
        } else {
            lemma_unwound(frames.drop_last(), scopes, base);
        }
    }
}

pub proof fn lemma_fails(frames: Seq<FrameModel>, scopes: Seq<ScopeModel>, error: Error, base: nat)
    requires
        balanced(frames, scopes, base),
    ensures
        stays_balanced(fails(frames, scopes, error), base),
        fails(frames, scopes, error).scopes.len() == base,
{
    lemma_unwound(frames, scopes, base);
}

pub proof fn lemma_assigned_length(scopes: Seq<ScopeModel>, name: Seq<char>, value: Value)
    ensures
        assigned(scopes, name, value) matches Some(changed) ==> changed.len() == scopes.len(),
    decreases scopes.len(),
{
    if scopes.len() > 0 {
        lemma_assigned_length(scopes.drop_last(), name, value);
    }
}

pub proof fn lemma_binds_length(
    scopes: Seq<ScopeModel>,
    parameters: Seq<Tree>,
    types: Seq<Option<Value>>,
    arguments: Seq<Value>,
    from: int,
)
    requires
        scopes.len() > 0,
    ensures
        binds(scopes, parameters, types, arguments, from) matches Ok(bound) ==> bound.len()
            == scopes.len(),
    decreases parameters.len() - from,
{
    if !(from < 0 || from >= parameters.len() || from >= types.len() || from >= arguments.len()) {
        match parameters[from] {
            Tree::Identifier(name) => {
                lemma_binds_length(
                    declared(scopes, name, arguments[from]),
                    parameters,
                    types,
                    arguments,
                    from + 1,
                );
            },
            _ => {},
        }
    }
}

pub proof fn lemma_settles(
    frames: Seq<FrameModel>,
    scopes: Seq<ScopeModel>,
    reply: ReplyModel,
    operator: Seq<char>,
    base: nat,
)
    requires
        balanced(frames, scopes, base),
    ensures
        stays_balanced(settles(frames, scopes, reply, operator), base),
{
    match reply {
        ReplyModel::Error(error) => {
            lemma_fails(frames, scopes, error, base);
        },
        ReplyModel::Pairwise(a, b) => {
            lemma_held_open_push(frames, FrameModel::Pairs(operator, a, b, Seq::empty()));
        },
        _ => {},
    }
}

pub proof fn lemma_concludes(
    frames: Seq<FrameModel>,
    scopes: Seq<ScopeModel>,
    result: Result<Value, Error>,
    base: nat,
)
    requires
        balanced(frames, scopes, base),
    ensures
        stays_balanced(concludes(frames, scopes, result), base),
{
    match result {
        Err(error) => {
            lemma_fails(frames, scopes, error, base);
        },
        _ => {},
    }
}

pub proof fn lemma_tries(
    frames: Seq<FrameModel>,
    scopes: Seq<ScopeModel>,
    scrutinee: Value,
    arms: Seq<Tree>,
    from: int,
    base: nat,
)
    requires
        balanced(frames, scopes, base),
    ensures
        stays_balanced(tries(frames, scopes, scrutinee, arms, from), base),
{
    let index = crate::machine::next_arm(arms, from);
    lemma_held_open_push(frames, FrameModel::Arms(scrutinee, arms, index));
}

pub proof fn lemma_calls(
    frames: Seq<FrameModel>,
    scopes: Seq<ScopeModel>,
    callee: Value,
    arguments: Seq<Value>,
    base: nat,
)
    requires
        balanced(frames, scopes, base),
    ensures
        stays_balanced(calls(frames, scopes, callee, arguments), base),
{
    reveal(calls);
    match callee {
        Value::Method(method, receiver, _) => {
            lemma_concludes(
                frames,
                scopes,
                crate::methods::method_result(method, *receiver, arguments),
                base,
            );
        },
        Value::Function(parameters, types, shown, body) => {
            if parameters.len() != arguments.len() || types.len() != arguments.len() {
                lemma_fails(
                    frames,
                    scopes,
                    Error::Arity {
                        declared: parameters.len() as usize,
                        given: arguments.len() as usize,
                    },
                    base,
                );
            } else {
                let inner = scopes.push(empty_scope());
                lemma_binds_length(inner, parameters, types, arguments, 0);
                match binds(inner, parameters, types, arguments, 0) {
                    Ok(bound) => {
                        let kept = match shown {
                            Some(value) => Some(*value),
                            None => None,
                        };
                        let first = frames.push(FrameModel::Return(kept));
                        lemma_held_open_push(frames, FrameModel::Return(kept));
                        match body {
                            Tree::Program(statements) => {
                                lemma_held_open_push(first, FrameModel::Sequence(statements, 0));
                            },
                            _ => {},
                        }
                    },
                    Err(error) => {
                        lemma_fails(frames, scopes, error, base);
                    },
                }
            }
        },
        _ => {},
    }
}

pub proof fn lemma_applies(
    frames: Seq<FrameModel>,
    scopes: Seq<ScopeModel>,
    operation: OperationModel,
    operands: Seq<Value>,
    base: nat,
)
    requires
        balanced(frames, scopes, base),
    ensures
        stays_balanced(applies(frames, scopes, operation, operands), base),
{
    reveal(applies);
    let first = if operands.len() > 0 {
        operands[0]
    } else {
        Value::Null
    };
    let second = if operands.len() > 1 {
        operands[1]
    } else {
        Value::Null
    };
    match operation {
        OperationModel::Relational(operator) => {
            lemma_settles(
                frames,
                scopes,
                crate::operations::relational(first, operator, second),
                operator,
                base,
            );
        },
        OperationModel::Call => {
            lemma_calls(frames, scopes, first, crate::machine::rest(operands), base);
        },
        OperationModel::Unary(sign) => {
            lemma_settles(frames, scopes, crate::operations::unary(sign, first), sign, base);
        },
        OperationModel::Assign(name) => {
            lemma_assigned_length(scopes, name, first);
            lemma_fails(frames, scopes, Error::UndefinedName, base);
        },
        OperationModel::Member => {
            lemma_concludes(frames, scopes, crate::operations::member(first, second), base);
        },
        OperationModel::Property(name) => {
            lemma_concludes(
                frames,
                scopes,
                crate::operations::member(
                    first,
                    match name {
                        Some(name) => Value::String(name),
                        None => Value::Null,
                    },
                ),
                base,
            );
        },
        OperationModel::Convert(target) => match target {
            Some(target) => {
                lemma_settles(
                    frames,
                    scopes,
                    crate::operations::conversion(first, target),
                    target,
                    base,
                );
            },
            None => {},
        },
        OperationModel::Function(name, parameters, typed, declares, body) => {
            lemma_fails(frames, scopes, Error::InvalidTarget, base);
        },
        OperationModel::Scrutinee(arms) => {
            lemma_tries(frames, scopes, first, arms, 0, base);
        },
        _ => {},
    }
}

pub proof fn lemma_operands(
    frames: Seq<FrameModel>,
    scopes: Seq<ScopeModel>,
    operation: OperationModel,
    pending: Seq<Tree>,
    base: nat,
)
    requires
        balanced(frames, scopes, base),
    ensures
        stays_balanced(operands(frames, scopes, operation, pending), base),
{
    reveal(operands);
    lemma_applies(frames, scopes, operation, Seq::empty(), base);
    lemma_held_open_push(frames, FrameModel::Operands(operation, pending, 1, Seq::empty()));
}

pub proof fn lemma_evaluates(
    frames: Seq<FrameModel>,
    scopes: Seq<ScopeModel>,
    node: Tree,
    base: nat,
)
    requires
        balanced(frames, scopes, base),
    ensures
        stays_balanced(evaluates(frames, scopes, node), base),
{
    reveal(evaluates);
    lemma_fails(frames, scopes, Error::UndefinedName, base);
    lemma_fails(frames, scopes, Error::InvalidTarget, base);
    match node {
        Tree::Program(statements) => {
            lemma_held_open_push(frames, FrameModel::Scope);
            lemma_held_open_push(frames.push(FrameModel::Scope), FrameModel::Sequence(statements, 0));
        },
        _ => {
            assert forall|operation: OperationModel, pending: Seq<Tree>|
                stays_balanced(#[trigger] operands(frames, scopes, operation, pending), base) by {
                lemma_operands(frames, scopes, operation, pending, base);
            }
        },
    }
}

pub proof fn lemma_delivers(
    frames: Seq<FrameModel>,
    scopes: Seq<ScopeModel>,
    value: Value,
    base: nat,
)
    requires
        balanced(frames, scopes, base),
    ensures
        stays_balanced(delivers(frames, scopes, value), base),
{
    reveal(delivers);
    if frames.len() > 0 {
        let below = frames.drop_last();
        match frames.last() {
            FrameModel::Operands(operation, pending, taken, done) => {
                lemma_held_open_push(
                    below,
                    FrameModel::Operands(operation, pending, taken + 1, done.push(value)),
                );
                lemma_applies(below, scopes, operation, done.push(value), base);
            },
            FrameModel::Sequence(statements, taken) => {
                lemma_held_open_push(below, FrameModel::Sequence(statements, taken + 1));
            },
            FrameModel::Scope => {},
            FrameModel::Return(shown) => match shown {
                Some(shown) => {
                    lemma_fails(
                        below,
                        left(scopes),
                        Error::TypeMismatch {
                            expected: crate::values::kind_of(shown),
                            found: crate::values::kind_of(value),
                        },
                        base,
                    );
                },
                None => {},
            },
            FrameModel::Arms(scrutinee, arms, index) => {
                lemma_tries(below, scopes, scrutinee, arms, index + 1, base);
            },
            FrameModel::Pairs(operator, a, b, done) => {
                lemma_held_open_push(below, FrameModel::Pairs(operator, a, b, done.push(value)));
            },
        }
    }
}

pub proof fn lemma_resumes(
    frames: Seq<FrameModel>,
    scopes: Seq<ScopeModel>,
    answer: Answer,
    event: EventView,
    base: nat,
)
    requires
        balanced(frames, scopes, base),
    ensures
        stays_balanced(resumes(frames, scopes, answer, event), base),
{
    lemma_fails(frames, scopes, Error::UnexpectedEvent, base);
    lemma_fails(
        frames,
        scopes,
        Error::TypeMismatch {
            expected: crate::error::Kind::Real,
            found: crate::error::Kind::String,
        },
        base,
    );
}

/// A step keeps the scopes balanced, and a program that has ended, with a
/// value or with a failure, has left the environment with as many scopes as
/// it found.
pub proof fn lemma_step_keeps_balance(
    machine: Machine,
    scopes: Seq<ScopeModel>,
    event: EventView,
    base: nat,
)
    requires
        balanced(machine.frames, scopes, base),
        machine.focus is Finished || machine.focus is Failed ==> machine.frames.len() == 0,
    ensures
        stays_balanced(step(machine, scopes, event), base),
        step(machine, scopes, event).machine.focus is Finished || step(
            machine,
            scopes,
            event,
        ).machine.focus is Failed ==> step(machine, scopes, event).machine.frames.len() == 0
            && step(machine, scopes, event).scopes.len() == base,
{
    lemma_fails(machine.frames, scopes, Error::DepthExceeded, base);
    match machine.focus {
        FocusModel::Await(answer) => {
            lemma_resumes(machine.frames, scopes, answer, event, base);
            lemma_ends(resumes(machine.frames, scopes, answer, event), base);
        },
        FocusModel::Evaluate(node) => {
            lemma_evaluates(machine.frames, scopes, node, base);
            lemma_evaluates_goes_on(machine.frames, scopes, node);
            lemma_ends(evaluates(machine.frames, scopes, node), base);
        },
        FocusModel::Value(value) => {
            lemma_delivers(machine.frames, scopes, value, base);
            lemma_delivers_goes_on(machine.frames, scopes, value);
            lemma_ends(delivers(machine.frames, scopes, value), base);
        },
        FocusModel::Combine(a, operator, b) => {
            let reply = crate::operations::binary(a, operator, b);
            lemma_settles(machine.frames, scopes, reply, operator, base);
            lemma_ends(settles(machine.frames, scopes, reply, operator), base);
        },
        _ => {},
    }
}

/// A state that has ended has an empty stack.
pub open spec fn ended_empty(outcome: Step) -> bool {
    outcome.machine.focus is Finished || outcome.machine.focus is Failed
        ==> outcome.machine.frames.len() == 0
}

proof fn lemma_ends(outcome: Step, base: nat)
    requires
        stays_balanced(outcome, base),
        ended_empty(outcome),
    ensures
        outcome.machine.focus is Finished || outcome.machine.focus is Failed
            ==> outcome.machine.frames.len() == 0 && outcome.scopes.len() == base,
{
}

proof fn lemma_calls_goes_on(
    frames: Seq<FrameModel>,
    scopes: Seq<ScopeModel>,
    callee: Value,
    arguments: Seq<Value>,
)
    ensures
        ended_empty(calls(frames, scopes, callee, arguments)),
{
    reveal(calls);
}

proof fn lemma_applies_goes_on(
    frames: Seq<FrameModel>,
    scopes: Seq<ScopeModel>,
    operation: OperationModel,
    operands: Seq<Value>,
)
    ensures
        ended_empty(applies(frames, scopes, operation, operands)),
{
    reveal(applies);
    assert forall|callee: Value, arguments: Seq<Value>|
        ended_empty(#[trigger] calls(frames, scopes, callee, arguments)) by {
        lemma_calls_goes_on(frames, scopes, callee, arguments);
    }
}

proof fn lemma_evaluates_goes_on(frames: Seq<FrameModel>, scopes: Seq<ScopeModel>, node: Tree)
    ensures
        ended_empty(evaluates(frames, scopes, node)),
{
    reveal(evaluates);
    reveal(operands);
    assert forall|operation: OperationModel, values: Seq<Value>|
        ended_empty(#[trigger] applies(frames, scopes, operation, values)) by {
        lemma_applies_goes_on(frames, scopes, operation, values);
    }
}

proof fn lemma_delivers_goes_on(frames: Seq<FrameModel>, scopes: Seq<ScopeModel>, value: Value)
    ensures
        ended_empty(delivers(frames, scopes, value)),
{
    reveal(delivers);
    if frames.len() > 0 {
        let below = frames.drop_last();
        assert forall|operation: OperationModel, values: Seq<Value>|
            ended_empty(#[trigger] applies(below, scopes, operation, values)) by {
            lemma_applies_goes_on(below, scopes, operation, values);
        }
    }
}

/// The state in which a program starts is balanced, whatever scopes the
/// environment holds.
pub proof fn lemma_start_is_balanced(program: Tree, scopes: Seq<ScopeModel>)
    requires
        scopes.len() >= 1,
    ensures
        balanced(crate::machine::started(program).frames, scopes, scopes.len()),
        !(crate::machine::started(program).focus is Finished),
        !(crate::machine::started(program).focus is Failed),
{
    match program {
        Tree::Program(statements) => {
            lemma_held_open_push(Seq::empty(), FrameModel::Sequence(statements, 0));
            assert(Seq::<FrameModel>::empty().push(FrameModel::Sequence(statements, 0))
                =~= seq![FrameModel::Sequence(statements, 0)]);
        },
        _ => {},
    }
}

/// What [`lemma_step_keeps_balance`] says of one step holds of steps in a
/// row.
pub proof fn lemma_run_keeps_balance(
    machine: Machine,
    scopes: Seq<ScopeModel>,
    event: EventView,
    budget: nat,
    base: nat,
)
    requires
        balanced(machine.frames, scopes, base),
        machine.focus is Finished || machine.focus is Failed ==> machine.frames.len() == 0,
    ensures
        stays_balanced(runs(machine, scopes, event, budget), base),
        ended_empty(runs(machine, scopes, event, budget)),
        runs(machine, scopes, event, budget).machine.focus is Finished || runs(
            machine,
            scopes,
            event,
            budget,
        ).machine.focus is Failed ==> runs(machine, scopes, event, budget).scopes.len() == base,
    decreases budget,
{
    lemma_step_keeps_balance(machine, scopes, event, base);
    let first = step(machine, scopes, event);
    if !(budget == 0 || !(first.action is Continue)) {
        lemma_run_keeps_balance(
            first.machine,
            first.scopes,
            EventView::Resume,
            (budget - 1) as nat,
            base,
        );
    }
}

} // verus!
