//! The evaluator: the machine of [`crate::machine`] in executable form.
use vstd::prelude::*;

use crate::ast::{
    boxed_tree, lemma_shape, optional_tree, optional_trees, trees, ASTNode, Tree,
};
use crate::built_in_functions::{input, print, tup};
use crate::environment::{declared, empty_scope, well_formed, Environment, ScopeModel};
use crate::equality::equals;
use crate::error::{Error, Kind};
use crate::machine::{
    applies, asks, binds, calls, concludes, delivers, enters, evaluates, fails, frame_models,
    goes, left, name_of, next_arm, operands, optional_text, rest, resumes, runs, settles,
    shown_or_null,
    shown_return, shown_types, started, step, tries, type_operands, typed_flags, unwound, Action,
    ActionModel, Event, EventView, Focus, FocusModel, Frame, FrameModel, Machine, Operation,
    OperationModel, Step, MAX_DEPTH,
};
use crate::methods::call_method;
use crate::operations::{
    evaluate_binary_expression, evaluate_conditional_expression, evaluate_conversion_expression,
    evaluate_member_expression, evaluate_unary_expression, Reply, ReplyModel,
};
use crate::reals::{Answer, Request};
use crate::values::{
    boxed_value, kind_of, lemma_value_shape, no_values, optional_value, optional_values,
    push_value, values, BuiltIn, RuntimeValue, Value,
};

verus! {

/// The outcome of a step, as the executable parts stand for it.
pub open spec fn outcome(
    focus: Focus,
    frames: Seq<Frame>,
    scopes: Seq<ScopeModel>,
    action: Action,
) -> Step {
    Step {
        machine: Machine { focus: focus.model(), frames: frame_models(frames) },
        scopes,
        action: action.model(),
    }
}

fn push_frame(frames: &mut Vec<Frame>, frame: Frame)
    ensures
        final(frames)@ == old(frames)@.push(frame),
        frame_models(final(frames)@) == frame_models(old(frames)@).push(frame.model()),
{
    frames.push(frame);
    assert(frame_models(frames@) =~= frame_models(old(frames)@).push(frame.model()));
}

fn pop_frame(frames: &mut Vec<Frame>) -> (frame: Frame)
    requires
        old(frames)@.len() > 0,
    ensures
        final(frames)@ == old(frames)@.drop_last(),
        frame == old(frames)@.last(),
        frame_models(final(frames)@) == frame_models(old(frames)@).drop_last(),
        frame.model() == frame_models(old(frames)@).last(),
{
    let frame = frames.pop().unwrap();
    assert(frame_models(frames@) =~= frame_models(old(frames)@).drop_last());
    frame
}

/// The value at `index`, or null where there is none.
fn operand(operands: &Vec<RuntimeValue>, index: usize) -> (value: RuntimeValue)
    ensures
        value.model() == if index < operands@.len() {
            values(operands@)[index as int]
        } else {
            Value::Null
        },
{
    if index < operands.len() {
        operands[index].duplicate()
    } else {
        RuntimeValue::Null
    }
}

fn one(node: ASTNode) -> (nodes: Vec<ASTNode>)
    ensures
        trees(nodes@) == seq![node.model()],
{
    let mut nodes: Vec<ASTNode> = Vec::new();
    nodes.push(node);
    assert(trees(nodes@) =~= seq![node.model()]);
    nodes
}

fn two(first: ASTNode, second: ASTNode) -> (nodes: Vec<ASTNode>)
    ensures
        trees(nodes@) == seq![first.model(), second.model()],
{
    let mut nodes: Vec<ASTNode> = Vec::new();
    nodes.push(first);
    nodes.push(second);
    assert(trees(nodes@) =~= seq![first.model(), second.model()]);
    nodes
}

fn in_front(first: ASTNode, others: Vec<ASTNode>) -> (nodes: Vec<ASTNode>)
    ensures
        trees(nodes@) == seq![first.model()] + trees(others@),
{
    let mut nodes: Vec<ASTNode> = Vec::new();
    let mut others = others;
    let ghost before = others@;
    nodes.push(first);
    nodes.append(&mut others);
    assert(trees(nodes@) =~= seq![first.model()] + trees(before));
    nodes
}

fn name(node: &ASTNode) -> (name: Option<String>)
    ensures
        optional_text(name) == name_of(node.model()),
{
    match node {
        ASTNode::Identifier(name) => Some(name.clone()),
        _ => None,
    }
}

/// Drops the stack and closes the scopes that its frames hold open.
fn fail(frames: &mut Vec<Frame>, environment: &mut Environment, error: Error) -> (result: (
    Focus,
    Action,
))
    requires
        old(environment).wf(),
    ensures
        final(environment).wf(),
        outcome(result.0, final(frames)@, final(environment).model(), result.1) == fails(
            frame_models(old(frames)@),
            old(environment).model(),
            error,
        ),
{
    while frames.len() > 0
        invariant
            environment.wf(),
            unwound(frame_models(frames@), environment.model()) == unwound(
                frame_models(old(frames)@),
                old(environment).model(),
            ),
        decreases frames@.len(),
    {
        let frame = pop_frame(frames);
        match frame {
            Frame::Scope => {
                environment.leave();
            },
            Frame::Return(_) => {
                environment.leave();
            },
            _ => {},
        }
    }
    assert(frame_models(frames@) =~= Seq::empty());
    (Focus::Failed(error), Action::Failed(error))
}

/// Goes on with the reply of an operation.
fn settle(
    frames: &mut Vec<Frame>,
    environment: &mut Environment,
    reply: Reply,
    operator: String,
) -> (result: (Focus, Action))
    requires
        old(environment).wf(),
    ensures
        final(environment).wf(),
        outcome(result.0, final(frames)@, final(environment).model(), result.1) == settles(
            frame_models(old(frames)@),
            old(environment).model(),
            reply.model(),
            operator@,
        ),
{
    match reply {
        Reply::Value(value) => (Focus::Value(value), Action::Continue),
        Reply::Request(request) => {
            let answer = request.answer();
            (Focus::Await(answer), Action::Real(request))
        },
        Reply::Error(error) => fail(frames, environment, error),
        Reply::Pairwise(a, b) => {
            if a.len() == 0 || b.len() == 0 {
                (Focus::Value(RuntimeValue::tuple(no_values())), Action::Continue)
            } else {
                let first = a[0].duplicate();
                let second = b[0].duplicate();
                let sign = operator.clone();
                push_frame(frames, Frame::Pairs(operator, a, b, no_values()));
                (Focus::Combine(first, sign, second), Action::Continue)
            }
        },
    }
}

/// Goes on with a result that is a value or a failure.
fn conclude(
    frames: &mut Vec<Frame>,
    environment: &mut Environment,
    result: Result<RuntimeValue, Error>,
) -> (outcome: (Focus, Action))
    requires
        old(environment).wf(),
    ensures
        final(environment).wf(),
        self::outcome(outcome.0, final(frames)@, final(environment).model(), outcome.1)
            == concludes(
            frame_models(old(frames)@),
            old(environment).model(),
            crate::operations::value_result(result),
        ),
{
    match result {
        Ok(value) => (Focus::Value(value), Action::Continue),
        Err(error) => fail(frames, environment, error),
    }
}

/// Turns to the first arm at or behind `from`.
#[verifier::loop_isolation(false)]
fn try_arms(
    frames: &mut Vec<Frame>,
    environment: &mut Environment,
    scrutinee: RuntimeValue,
    arms: Vec<ASTNode>,
    from: usize,
) -> (result: (Focus, Action))
    requires
        old(environment).wf(),
    ensures
        final(environment).wf(),
        outcome(result.0, final(frames)@, final(environment).model(), result.1) == tries(
            frame_models(old(frames)@),
            old(environment).model(),
            scrutinee.model(),
            trees(arms@),
            from as int,
        ),
{
    let mut index: usize = from;
    while index < arms.len()
        invariant
            from <= index,
            frames@ == old(frames)@,
            next_arm(trees(arms@), index as int) == next_arm(trees(arms@), from as int),
        decreases arms@.len() - index,
    {
        let ghost all = trees(arms@);
        assert(all[index as int] == arms@[index as int].model());
        match &arms[index] {
            ASTNode::Case(label, _) => {
                let label = label.duplicate();
                assert(all[index as int] is Case);
                assert(next_arm(all, index as int) == index);
                assert(*all[index as int]->Case_0 == label.model());
                push_frame(frames, Frame::Arms(scrutinee, arms, index));
                return (Focus::Evaluate(label), Action::Continue);
            },
            _ => {
                assert(!(all[index as int] is Case));
            },
        }
        index += 1;
    }
    assert(next_arm(trees(arms@), index as int) == arms@.len());
    (Focus::Value(RuntimeValue::Null), Action::Continue)
}

/// Binds the parameters to the arguments in the innermost scope.
fn bind(
    environment: &mut Environment,
    parameters: &Vec<ASTNode>,
    types: &Vec<Option<RuntimeValue>>,
    arguments: &Vec<RuntimeValue>,
) -> (result: Result<(), Error>)
    requires
        old(environment).wf(),
    ensures
        final(environment).wf(),
        final(environment).model().len() == old(environment).model().len(),
        final(environment).model().drop_last() == old(environment).model().drop_last(),
        match result {
            Ok(_) => binds(
                old(environment).model(),
                trees(parameters@),
                optional_values(types@),
                values(arguments@),
                0,
            ) == Ok::<Seq<ScopeModel>, Error>(final(environment).model()),
            Err(error) => binds(
                old(environment).model(),
                trees(parameters@),
                optional_values(types@),
                values(arguments@),
                0,
            ) == Err::<Seq<ScopeModel>, Error>(error),
        },
{
    let mut index: usize = 0;
    while index < parameters.len() && index < types.len() && index < arguments.len()
        invariant
            environment.wf(),
            environment.model().len() == old(environment).model().len(),
            environment.model().drop_last() == old(environment).model().drop_last(),
            binds(
                environment.model(),
                trees(parameters@),
                optional_values(types@),
                values(arguments@),
                index as int,
            ) == binds(
                old(environment).model(),
                trees(parameters@),
                optional_values(types@),
                values(arguments@),
                0,
            ),
        decreases parameters@.len() - index,
    {
        let ghost scopes = environment.model();
        let variable_name = match &parameters[index] {
            ASTNode::Identifier(variable_name) => variable_name.clone(),
            _ => {
                return Err(Error::InvalidTarget);
            },
        };
        match &types[index] {
            Some(shown) => {
                let expected = shown.kind();
                let found = arguments[index].kind();
                if expected != found {
                    return Err(Error::TypeMismatch { expected, found });
                }
            },
            None => {},
        }
        environment.declare_variable(variable_name, arguments[index].duplicate());
        proof {
            let after = environment.model();
            assert(after.drop_last() =~= scopes.drop_last());
        }
        index += 1;
    }
    Ok(())
}

/// Puts the body of a call on the stack.
fn enter_body(
    frames: &mut Vec<Frame>,
    shown: Option<RuntimeValue>,
    body: ASTNode,
    Ghost(scopes): Ghost<Seq<ScopeModel>>,
) -> (result: (Focus, Action))
    ensures
        outcome(result.0, final(frames)@, scopes, result.1) == enters(
            frame_models(old(frames)@),
            scopes,
            optional_value(shown),
            body.model(),
        ),
{
    proof {
        lemma_shape(body);
    }
    push_frame(frames, Frame::Return(shown));
    match body {
        ASTNode::Program(statements) => {
            push_frame(frames, Frame::Sequence(statements, 0));
        },
        _ => {},
    }
    (Focus::Value(RuntimeValue::Null), Action::Continue)
}

/// Calls a value with arguments that are evaluated already.
fn evaluate_call_expression(
    frames: &mut Vec<Frame>,
    environment: &mut Environment,
    callee: RuntimeValue,
    arguments: Vec<RuntimeValue>,
) -> (result: (Focus, Action))
    requires
        old(environment).wf(),
    ensures
        final(environment).wf(),
        outcome(result.0, final(frames)@, final(environment).model(), result.1) == calls(
            frame_models(old(frames)@),
            old(environment).model(),
            callee.model(),
            values(arguments@),
        ),
{
    reveal(calls);
    proof {
        lemma_value_shape(callee);
    }
    match callee {
        RuntimeValue::BuiltInFunction(BuiltIn::Print) => {
            (Focus::Await(Answer::Nothing), Action::Print(print(&arguments)))
        },
        RuntimeValue::BuiltInFunction(BuiltIn::Input) => {
            (Focus::Await(Answer::Line), Action::Input(print(&arguments)))
        },
        RuntimeValue::BuiltInFunction(BuiltIn::Tup) => {
            (Focus::Value(tup(arguments)), Action::Continue)
        },
        RuntimeValue::Method(method, receiver, _) => {
            let result = call_method(method, *receiver, arguments);
            conclude(frames, environment, result)
        },
        RuntimeValue::Function(parameters, types, shown, body) => {
            if parameters.len() != arguments.len() || types.len() != arguments.len() {
                fail(
                    frames,
                    environment,
                    Error::Arity { declared: parameters.len(), given: arguments.len() },
                )
            } else {
                let ghost scopes = environment.model();
                environment.enter();
                match bind(environment, &parameters, &types, &arguments) {
                    Ok(_) => {
                        let shown = match shown {
                            Some(value) => Some(*value),
                            None => None,
                        };
                        enter_body(frames, shown, body, Ghost(environment.model()))
                    },
                    Err(error) => {
                        environment.leave();
                        assert(environment.model() =~= scopes);
                        fail(frames, environment, error)
                    },
                }
            }
        },
        _ => (Focus::Value(RuntimeValue::Null), Action::Continue),
    }
}

/// The declared types of the parameters, as the operands show them.
fn types_shown(typed: &Vec<bool>, shown: &Vec<RuntimeValue>) -> (types: Vec<Option<RuntimeValue>>)
    ensures
        optional_values(types@) == shown_types(typed@, values(shown@)),
{
    let mut types: Vec<Option<RuntimeValue>> = Vec::new();
    let mut index: usize = 0;
    while index < typed.len()
        invariant
            index <= typed@.len(),
            types@.len() == index,
            forall|i: int|
                0 <= i < index ==> optional_value(types@[i]) == shown_types(
                    typed@,
                    values(shown@),
                )[i],
        decreases typed@.len() - index,
    {
        let entry = if typed[index] && index < shown.len() && index + 1 < shown.len() {
            Some(shown[index + 1].duplicate())
        } else {
            None
        };
        types.push(entry);
        index += 1;
    }
    assert(optional_values(types@) =~= shown_types(typed@, values(shown@)));
    types
}

/// Applies an operation to its operands.
fn apply(
    frames: &mut Vec<Frame>,
    environment: &mut Environment,
    operation: Operation,
    operands: Vec<RuntimeValue>,
) -> (result: (Focus, Action))
    requires
        old(environment).wf(),
    ensures
        final(environment).wf(),
        outcome(result.0, final(frames)@, final(environment).model(), result.1) == applies(
            frame_models(old(frames)@),
            old(environment).model(),
            operation.model(),
            values(operands@),
        ),
{
    reveal(applies);
    match operation {
        Operation::Array => (Focus::Value(RuntimeValue::array(operands)), Action::Continue),
        Operation::Relational(operator) => {
            let first = operand(&operands, 0);
            let second = operand(&operands, 1);
            let reply = evaluate_conditional_expression(&first, operator.as_str(), &second);
            settle(frames, environment, reply, operator)
        },
        Operation::Binary(operator) => {
            (
                Focus::Combine(operand(&operands, 0), operator, operand(&operands, 1)),
                Action::Continue,
            )
        },
        Operation::Call => {
            let callee = operand(&operands, 0);
            let mut arguments = operands;
            if arguments.len() > 0 {
                arguments.remove(0);
                assert(values(arguments@) =~= rest(values(operands@)));
            } else {
                assert(values(arguments@) =~= rest(values(operands@)));
            }
            evaluate_call_expression(frames, environment, callee, arguments)
        },
        Operation::Unary(sign) => {
            let reply = evaluate_unary_expression(sign.as_str(), operand(&operands, 0));
            settle(frames, environment, reply, sign)
        },
        Operation::Assign(variable_name) => {
            match environment.assign(variable_name, operand(&operands, 0)) {
                Ok(_) => (Focus::Value(RuntimeValue::Null), Action::Continue),
                Err(error) => fail(frames, environment, error),
            }
        },
        Operation::Member => {
            let property = operand(&operands, 1);
            let result = evaluate_member_expression(operand(&operands, 0), &property);
            conclude(frames, environment, result)
        },
        Operation::Property(property) => {
            let property = match property {
                Some(property) => RuntimeValue::String(property),
                None => RuntimeValue::Null,
            };
            let result = evaluate_member_expression(operand(&operands, 0), &property);
            conclude(frames, environment, result)
        },
        Operation::Convert(target) => match target {
            Some(target) => {
                let reply = evaluate_conversion_expression(operand(&operands, 0), target.as_str());
                settle(frames, environment, reply, target)
            },
            None => (Focus::Value(RuntimeValue::Null), Action::Continue),
        },
        Operation::Declare(variable_name) => {
            environment.declare_variable(variable_name, operand(&operands, 0));
            (Focus::Value(RuntimeValue::Null), Action::Continue)
        },
        Operation::Function(function_name, parameters, typed, declares, body) => {
            match function_name {
                Some(function_name) => {
                    let types = types_shown(&typed, &operands);
                    let shown = if declares && operands.len() > 0 {
                        Some(Box::new(operands[0].duplicate()))
                    } else {
                        None
                    };
                    let function = RuntimeValue::function(parameters, types, shown, body);
                    environment.declare_variable(function_name, function.duplicate());
                    (Focus::Value(function), Action::Continue)
                },
                None => fail(frames, environment, Error::InvalidTarget),
            }
        },
        Operation::Condition(body, alternative) => match operand(&operands, 0) {
            RuntimeValue::Boolean(true) => (Focus::Evaluate(body), Action::Continue),
            RuntimeValue::Boolean(false) => (Focus::Evaluate(alternative), Action::Continue),
            _ => (Focus::Value(RuntimeValue::Null), Action::Continue),
        },
        Operation::Scrutinee(arms) => {
            try_arms(frames, environment, operand(&operands, 0), arms, 0)
        },
    }
}

/// Turns to the operands of an operation.
fn start(
    frames: &mut Vec<Frame>,
    environment: &mut Environment,
    operation: Operation,
    pending: Vec<ASTNode>,
) -> (result: (Focus, Action))
    requires
        old(environment).wf(),
    ensures
        final(environment).wf(),
        outcome(result.0, final(frames)@, final(environment).model(), result.1) == operands(
            frame_models(old(frames)@),
            old(environment).model(),
            operation.model(),
            trees(pending@),
        ),
{
    reveal(operands);
    if pending.len() == 0 {
        apply(frames, environment, operation, no_values())
    } else {
        let first = pending[0].duplicate();
        push_frame(frames, Frame::Operands(operation, pending, 1, no_values()));
        (Focus::Evaluate(first), Action::Continue)
    }
}

/// The operands of a function declaration and the flags that say which of
/// them show a declared type.
fn type_nodes(types: &Vec<Option<ASTNode>>, shown: Option<Box<ASTNode>>) -> (result: (
    Vec<ASTNode>,
    Vec<bool>,
))
    ensures
        trees(result.0@) == type_operands(optional_trees(types@), boxed_tree(shown)),
        result.1@ == typed_flags(optional_trees(types@)),
{
    let mut nodes: Vec<ASTNode> = Vec::new();
    let mut flags: Vec<bool> = Vec::new();
    let first = match shown {
        Some(node) => *node,
        None => ASTNode::NullLiteral,
    };
    nodes.push(first);
    let mut index: usize = 0;
    while index < types.len()
        invariant
            index <= types@.len(),
            nodes@.len() == index + 1,
            flags@.len() == index,
            nodes@[0] == first,
            forall|i: int|
                0 <= i < index ==> nodes@[i + 1].model() == shown_or_null(
                    optional_trees(types@)[i],
                ),
            forall|i: int| 0 <= i < index ==> flags@[i] == (optional_trees(types@)[i] is Some),
        decreases types@.len() - index,
    {
        match &types[index] {
            Some(node) => {
                nodes.push(node.duplicate());
                flags.push(true);
            },
            None => {
                nodes.push(ASTNode::NullLiteral);
                flags.push(false);
            },
        }
        index += 1;
    }
    assert(trees(nodes@) =~= type_operands(optional_trees(types@), boxed_tree(shown)));
    assert(flags@ =~= typed_flags(optional_trees(types@)));
    (nodes, flags)
}

/// Evaluates a node.
fn evaluate(frames: &mut Vec<Frame>, environment: &mut Environment, node: ASTNode) -> (result: (
    Focus,
    Action,
))
    requires
        old(environment).wf(),
    ensures
        final(environment).wf(),
        outcome(result.0, final(frames)@, final(environment).model(), result.1) == evaluates(
            frame_models(old(frames)@),
            old(environment).model(),
            node.model(),
        ),
{
    reveal(evaluates);
    proof {
        lemma_shape(node);
    }
    match node {
        ASTNode::StringLiteral(text) => (Focus::Value(RuntimeValue::String(text)), Action::Continue),
        ASTNode::IntegerLiteral(value) => (
            Focus::Value(RuntimeValue::Integer(value)),
            Action::Continue,
        ),
        ASTNode::RealLiteral(text) => (
            Focus::Await(Answer::ParsedReal),
            Action::Real(Request::Parse(text)),
        ),
        ASTNode::ArrayLiteral(items) => start(frames, environment, Operation::Array, items),
        ASTNode::NullLiteral => (Focus::Value(RuntimeValue::Null), Action::Continue),
        ASTNode::Identifier(variable_name) => {
            let found = match environment.lookup(variable_name.as_str()) {
                Ok(value) => Ok(value.duplicate()),
                Err(error) => Err(error),
            };
            match found {
                Ok(value) => (Focus::Value(value), Action::Continue),
                Err(error) => fail(frames, environment, error),
            }
        },
        ASTNode::ConditionalExpression(left, operator, right) => start(
            frames,
            environment,
            Operation::Relational(operator),
            two(*left, *right),
        ),
        ASTNode::CallExpression(callee, arguments) => start(
            frames,
            environment,
            Operation::Call,
            in_front(*callee, arguments),
        ),
        ASTNode::BinaryExpression(left, operator, right) => start(
            frames,
            environment,
            Operation::Binary(operator),
            two(*left, *right),
        ),
        ASTNode::AssignmentExpression(target, value) => match name(&target) {
            Some(variable_name) => start(
                frames,
                environment,
                Operation::Assign(variable_name),
                one(*value),
            ),
            None => fail(frames, environment, Error::InvalidTarget),
        },
        ASTNode::UnaryExpression(sign, operand) => start(
            frames,
            environment,
            Operation::Unary(sign),
            one(*operand),
        ),
        ASTNode::MemberExpression(receiver, property, dot) => if dot {
            start(frames, environment, Operation::Property(name(&property)), one(*receiver))
        } else {
            start(frames, environment, Operation::Member, two(*receiver, *property))
        },
        ASTNode::ConversionExpression(value, target) => start(
            frames,
            environment,
            Operation::Convert(name(&target)),
            one(*value),
        ),
        ASTNode::VariableDeclaration(variable, value) => match name(&variable) {
            Some(variable_name) => start(
                frames,
                environment,
                Operation::Declare(variable_name),
                one(*value),
            ),
            None => fail(frames, environment, Error::InvalidTarget),
        },
        ASTNode::FunctionDeclaration(function, parameters, types, shown, body) => {
            let declares = shown.is_some();
            let (nodes, typed) = type_nodes(&types, shown);
            start(
                frames,
                environment,
                Operation::Function(name(&function), parameters, typed, declares, *body),
                nodes,
            )
        },
        ASTNode::IfStatement(condition, body, alternative) => start(
            frames,
            environment,
            Operation::Condition(*body, *alternative),
            one(*condition),
        ),
        ASTNode::Program(statements) => {
            environment.enter();
            push_frame(frames, Frame::Scope);
            push_frame(frames, Frame::Sequence(statements, 0));
            (Focus::Value(RuntimeValue::Null), Action::Continue)
        },
        ASTNode::CaseStatement(scrutinee, arms) => start(
            frames,
            environment,
            Operation::Scrutinee(arms),
            one(*scrutinee),
        ),
        ASTNode::Case(_, _) => (Focus::Value(RuntimeValue::Null), Action::Continue),
    }
}

/// Hands a value to the frame on top of the stack.
fn deliver(frames: &mut Vec<Frame>, environment: &mut Environment, value: RuntimeValue) -> (result:
    (Focus, Action))
    requires
        old(environment).wf(),
    ensures
        final(environment).wf(),
        outcome(result.0, final(frames)@, final(environment).model(), result.1) == delivers(
            frame_models(old(frames)@),
            old(environment).model(),
            value.model(),
        ),
{
    reveal(delivers);
    if frames.len() == 0 {
        assert(frame_models(frames@) =~= Seq::empty());
        let result = value.duplicate();
        return (Focus::Finished(value), Action::Finished(result));
    }
    match pop_frame(frames) {
        Frame::Operands(operation, pending, taken, done) => {
            let mut done = done;
            push_value(&mut done, value);
            if taken < pending.len() {
                let next = pending[taken].duplicate();
                push_frame(frames, Frame::Operands(operation, pending, taken + 1, done));
                (Focus::Evaluate(next), Action::Continue)
            } else {
                apply(frames, environment, operation, done)
            }
        },
        Frame::Sequence(statements, taken) => {
            if taken < statements.len() {
                let next = statements[taken].duplicate();
                push_frame(frames, Frame::Sequence(statements, taken + 1));
                (Focus::Evaluate(next), Action::Continue)
            } else {
                (Focus::Value(value), Action::Continue)
            }
        },
        Frame::Scope => {
            environment.leave();
            (Focus::Value(value), Action::Continue)
        },
        Frame::Return(shown) => {
            environment.leave();
            match shown {
                Some(shown) => {
                    let expected = shown.kind();
                    let found = value.kind();
                    if expected == found {
                        (Focus::Value(value), Action::Continue)
                    } else {
                        fail(frames, environment, Error::TypeMismatch { expected, found })
                    }
                },
                None => (Focus::Value(value), Action::Continue),
            }
        },
        Frame::Arms(scrutinee, arms, index) => {
            proof {
                lemma_value_shape(value);
            }
            let matches = match &value {
                RuntimeValue::Null => true,
                _ => equals(&scrutinee, &value),
            };
            if matches {
                if index < arms.len() {
                    match &arms[index] {
                        ASTNode::Case(_, body) => (Focus::Evaluate(body.duplicate()), Action::Continue),
                        _ => (Focus::Value(RuntimeValue::Null), Action::Continue),
                    }
                } else {
                    (Focus::Value(RuntimeValue::Null), Action::Continue)
                }
            } else if index < arms.len() {
                try_arms(frames, environment, scrutinee, arms, index + 1)
            } else {
                (Focus::Value(RuntimeValue::Null), Action::Continue)
            }
        },
        Frame::Pairs(operator, a, b, done) => {
            let mut done = done;
            push_value(&mut done, value);
            let count = done.len();
            if count < a.len() && count < b.len() {
                let first = a[count].duplicate();
                let second = b[count].duplicate();
                let sign = operator.clone();
                push_frame(frames, Frame::Pairs(operator, a, b, done));
                (Focus::Combine(first, sign, second), Action::Continue)
            } else {
                (Focus::Value(RuntimeValue::tuple(done)), Action::Continue)
            }
        },
    }
}

/// Takes the host's answer.
fn resume(
    frames: &mut Vec<Frame>,
    environment: &mut Environment,
    answer: Answer,
    event: Event,
) -> (result: (Focus, Action))
    requires
        old(environment).wf(),
    ensures
        final(environment).wf(),
        outcome(result.0, final(frames)@, final(environment).model(), result.1) == resumes(
            frame_models(old(frames)@),
            old(environment).model(),
            answer,
            event@,
        ),
{
    match (answer, event) {
        (Answer::Nothing, Event::Resume) => (Focus::Value(RuntimeValue::Null), Action::Continue),
        (Answer::Line, Event::Line(line)) => (Focus::Value(input(line)), Action::Continue),
        (Answer::Real, Event::Real(bits)) => (
            Focus::Value(RuntimeValue::Real(bits)),
            Action::Continue,
        ),
        (Answer::ParsedReal, Event::Real(bits)) => (
            Focus::Value(RuntimeValue::Real(bits)),
            Action::Continue,
        ),
        (Answer::ParsedReal, Event::Invalid) => fail(
            frames,
            environment,
            Error::TypeMismatch { expected: Kind::Real, found: Kind::String },
        ),
        (Answer::Boolean, Event::Boolean(value)) => (
            Focus::Value(RuntimeValue::Boolean(value)),
            Action::Continue,
        ),
        (Answer::Integer, Event::Integer(value)) => (
            Focus::Value(RuntimeValue::Integer(value)),
            Action::Continue,
        ),
        (Answer::Text, Event::Text(text)) => (
            Focus::Value(RuntimeValue::String(text)),
            Action::Continue,
        ),
        _ => fail(frames, environment, Error::UnexpectedEvent),
    }
}

/// A running program.
pub struct Interpreter {
    focus: Focus,
    frames: Vec<Frame>,
}

impl Interpreter {
    /// The state of the machine.
    pub closed spec fn model(&self) -> Machine {
        Machine { focus: self.focus.model(), frames: frame_models(self.frames@) }
    }

    /// A machine that is about to evaluate the statements of `program`.
    pub fn new(program: ASTNode) -> (interpreter: Interpreter)
        ensures
            interpreter.model() == started(program.model()),
    {
        proof {
            lemma_shape(program);
        }
        let mut frames: Vec<Frame> = Vec::new();
        assert(frame_models(frames@) =~= Seq::empty());
        match program {
            ASTNode::Program(body) => {
                let ghost statements = trees(body@);
                push_frame(&mut frames, Frame::Sequence(body, 0));
                assert(frame_models(frames@) =~= seq![FrameModel::Sequence(statements, 0)]);
            },
            _ => {},
        }
        Interpreter { focus: Focus::Value(RuntimeValue::Null), frames }
    }

    /// Takes one step: hands the event to the machine and returns what the
    /// host has to do next.
    ///
    /// The first event is [`Event::Resume`]. After [`Action::Continue`] and
    /// [`Action::Print`] the next event is [`Event::Resume`] again; after
    /// [`Action::Input`] it is the line that was read; after
    /// [`Action::Real`] it is the answer to the request.
    /// [`Action::Finished`] and [`Action::Failed`] end the run.
    pub fn interpret(&mut self, environment: &mut Environment, event: Event) -> (action: Action)
        requires
            old(environment).wf(),
        ensures
            final(environment).wf(),
            step(old(self).model(), old(environment).model(), event@) == (Step {
                machine: final(self).model(),
                scopes: final(environment).model(),
                action: action.model(),
            }),
    {
        let mut focus = Focus::Value(RuntimeValue::Null);
        core::mem::swap(&mut self.focus, &mut focus);
        let limit = self.frames.len() >= MAX_DEPTH;
        let (next, action) = match focus {
            Focus::Finished(value) => {
                let result = value.duplicate();
                (Focus::Finished(value), Action::Finished(result))
            },
            Focus::Failed(error) => (Focus::Failed(error), Action::Failed(error)),
            Focus::Await(answer) => resume(&mut self.frames, environment, answer, event),
            Focus::Evaluate(node) => if limit {
                fail(&mut self.frames, environment, Error::DepthExceeded)
            } else {
                evaluate(&mut self.frames, environment, node)
            },
            Focus::Value(value) => if limit {
                fail(&mut self.frames, environment, Error::DepthExceeded)
            } else {
                deliver(&mut self.frames, environment, value)
            },
            Focus::Combine(left, operator, right) => if limit {
                fail(&mut self.frames, environment, Error::DepthExceeded)
            } else {
                let reply = evaluate_binary_expression(left, operator.as_str(), right);
                settle(&mut self.frames, environment, reply, operator)
            },
        };
        self.focus = next;
        action
    }

    /// Takes steps until the host has something to do, the program ends, or
    /// `budget` steps were taken after the first: the first step takes the
    /// event, and every step that asks nothing of the host is followed by
    /// the next. What comes back is the action of the last step.
    pub fn run(&mut self, environment: &mut Environment, event: Event, budget: u64) -> (action:
        Action)
        requires
            old(environment).wf(),
        ensures
            final(environment).wf(),
            runs(old(self).model(), old(environment).model(), event@, budget as nat) == (Step {
                machine: final(self).model(),
                scopes: final(environment).model(),
                action: action.model(),
            }),
    {
        let mut action = self.interpret(environment, event);
        let mut rest = budget;
        loop
            invariant
                environment.wf(),
                runs(old(self).model(), old(environment).model(), event@, budget as nat) == (if rest
                    == 0 || !(action.model() is Continue) {
                    Step {
                        machine: self.model(),
                        scopes: environment.model(),
                        action: action.model(),
                    }
                } else {
                    runs(self.model(), environment.model(), EventView::Resume, (rest - 1) as nat)
                }),
            decreases rest,
        {
            if rest == 0 {
                return action;
            }
            match action {
                Action::Continue => {},
                other => {
                    return other;
                },
            }
            action = self.interpret(environment, Event::Resume);
            rest -= 1;
        }
    }
}

} // verus!
