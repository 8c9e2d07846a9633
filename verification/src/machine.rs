//! The evaluator as an abstract machine: its states, and the one step that
//! leads from a state and an event to the next state and an action.
//!
//! The machine walks the syntax tree with an explicit stack of frames. It
//! stops whenever the host has to act (write, read a line, compute on
//! reals) and goes on when the host hands back the result as an event.
use vstd::prelude::*;

use crate::ast::{optional_trees, trees, ASTNode, Tree};
use crate::built_in_functions::{printed, stripped};
use crate::display::Glyph;
use crate::environment::{assigned, declared, empty_scope, lookup_in, ScopeModel};
use crate::equality::equal;
use crate::error::{Error, Kind};
use crate::methods::method_result;
use crate::operations::{binary, conversion, member, relational, unary, ReplyModel};
use crate::reals::{answer_to, Answer, Request, RequestView};
use crate::values::{kind_of, values, BuiltIn, RuntimeValue, Value};

verus! {

/// The greatest number of frames with which the machine still takes a step
/// that is no end; beyond it the evaluation fails.
pub const MAX_DEPTH: usize = 10000;

/// What the host hands to the machine.
#[derive(Debug)]
pub enum Event {
    /// Nothing to report: the machine is to go on.
    Resume,
    /// The line that was read.
    Line(String),
    /// The real that was computed.
    Real(u64),
    /// The truth that was computed.
    Boolean(bool),
    /// The integer that was computed.
    Integer(i64),
    /// The text that was computed.
    Text(String),
    /// The text that was to be read spells no real.
    Invalid,
}

/// The mathematical model of [`Event`].
pub enum EventView {
    Resume,
    Line(Seq<char>),
    Real(u64),
    Boolean(bool),
    Integer(i64),
    Text(Seq<char>),
    Invalid,
}

impl View for Event {
    type V = EventView;

    open spec fn view(&self) -> EventView {
        match self {
            Event::Resume => EventView::Resume,
            Event::Line(line) => EventView::Line(line@),
            Event::Real(bits) => EventView::Real(*bits),
            Event::Boolean(value) => EventView::Boolean(*value),
            Event::Integer(value) => EventView::Integer(*value),
            Event::Text(text) => EventView::Text(text@),
            Event::Invalid => EventView::Invalid,
        }
    }
}

/// What the machine asks of the host.
#[derive(Debug)]
pub enum Action {
    /// Nothing: call again with [`Event::Resume`].
    Continue,
    /// Write the glyphs; then [`Event::Resume`].
    Print(Vec<Glyph>),
    /// Write the glyphs and read a line; then [`Event::Line`].
    Input(Vec<Glyph>),
    /// Compute on reals; then the event that answers the request.
    Real(Request),
    /// The program has come to this value.
    Finished(RuntimeValue),
    /// The program has failed.
    Failed(Error),
}

/// The mathematical model of [`Action`].
pub enum ActionModel {
    Continue,
    Print(Seq<Glyph>),
    Input(Seq<Glyph>),
    Real(RequestView),
    Finished(Value),
    Failed(Error),
}

impl Action {
    pub open spec fn model(&self) -> ActionModel {
        match self {
            Action::Continue => ActionModel::Continue,
            Action::Print(output) => ActionModel::Print(output@),
            Action::Input(output) => ActionModel::Input(output@),
            Action::Real(request) => ActionModel::Real(request@),
            Action::Finished(value) => ActionModel::Finished(value.model()),
            Action::Failed(error) => ActionModel::Failed(*error),
        }
    }
}

/// What is done with the values of the operands once all are there.
#[derive(Debug)]
pub enum Operation {
    /// Make an array of them.
    Array,
    /// Apply the relational operator to the two of them.
    Relational(String),
    /// Apply the arithmetic operator to the two of them.
    Binary(String),
    /// Call the first with the others.
    Call,
    /// Apply the sign to the one.
    Unary(String),
    /// Assign the one to the name.
    Assign(String),
    /// Read the property, which is the second, of the first.
    Member,
    /// Read the property of that name of the one; with no name, the
    /// property null.
    Property(Option<String>),
    /// Convert the one to the kind of that name; with no name, to nothing.
    Convert(Option<String>),
    /// Declare the name with the one as its value.
    Declare(String),
    /// Declare a function. The operands show the return type and then the
    /// type of each parameter; `declares` and `typed` say which of them
    /// count. The fields are the name, the parameters, `typed`, `declares`
    /// and the body.
    Function(Option<String>, Vec<ASTNode>, Vec<bool>, bool, ASTNode),
    /// Go on with the first block where the one is true, with the second
    /// where it is false.
    Condition(ASTNode, ASTNode),
    /// Try the arms against the one.
    Scrutinee(Vec<ASTNode>),
}

/// The mathematical model of [`Operation`].
pub enum OperationModel {
    Array,
    Relational(Seq<char>),
    Binary(Seq<char>),
    Call,
    Unary(Seq<char>),
    Assign(Seq<char>),
    Member,
    Property(Option<Seq<char>>),
    Convert(Option<Seq<char>>),
    Declare(Seq<char>),
    Function(Option<Seq<char>>, Seq<Tree>, Seq<bool>, bool, Tree),
    Condition(Tree, Tree),
    Scrutinee(Seq<Tree>),
}

pub open spec fn optional_text(text: Option<String>) -> Option<Seq<char>> {
    match text {
        Some(text) => Some(text@),
        None => None,
    }
}

impl Operation {
    pub open spec fn model(&self) -> OperationModel {
        match self {
            Operation::Array => OperationModel::Array,
            Operation::Relational(operator) => OperationModel::Relational(operator@),
            Operation::Binary(operator) => OperationModel::Binary(operator@),
            Operation::Call => OperationModel::Call,
            Operation::Unary(sign) => OperationModel::Unary(sign@),
            Operation::Assign(name) => OperationModel::Assign(name@),
            Operation::Member => OperationModel::Member,
            Operation::Property(name) => OperationModel::Property(optional_text(*name)),
            Operation::Convert(target) => OperationModel::Convert(optional_text(*target)),
            Operation::Declare(name) => OperationModel::Declare(name@),
            Operation::Function(name, parameters, typed, declares, body) => OperationModel::Function(
                optional_text(*name),
                trees(parameters@),
                typed@,
                *declares,
                body.model(),
            ),
            Operation::Condition(body, alternative) => OperationModel::Condition(
                body.model(),
                alternative.model(),
            ),
            Operation::Scrutinee(arms) => OperationModel::Scrutinee(trees(arms@)),
        }
    }
}

/// One entry of the machine's stack: what is waiting for a value.
#[derive(Debug)]
pub enum Frame {
    /// Operands that are evaluated from left to right: the operation, the
    /// operands, the number of operands taken up, the values so far.
    Operands(Operation, Vec<ASTNode>, usize, Vec<RuntimeValue>),
    /// Statements that are evaluated in order: the statements and the
    /// number of statements taken up.
    Sequence(Vec<ASTNode>, usize),
    /// A scope that is closed once its block has come to a value.
    Scope,
    /// The scope of a call, closed once the body has come to a value, which
    /// is held against the value that shows the declared return type.
    Return(Option<RuntimeValue>),
    /// The arms of a case statement: the scrutinee, the arms and the index
    /// of the arm whose label is being evaluated.
    Arms(RuntimeValue, Vec<ASTNode>, usize),
    /// Two tuples that are combined pair by pair: the operator, the two
    /// lists of items and the results so far.
    Pairs(String, Vec<RuntimeValue>, Vec<RuntimeValue>, Vec<RuntimeValue>),
}

/// The mathematical model of [`Frame`].
pub enum FrameModel {
    Operands(OperationModel, Seq<Tree>, int, Seq<Value>),
    Sequence(Seq<Tree>, int),
    Scope,
    Return(Option<Value>),
    Arms(Value, Seq<Tree>, int),
    Pairs(Seq<char>, Seq<Value>, Seq<Value>, Seq<Value>),
}

impl Frame {
    pub open spec fn model(&self) -> FrameModel {
        match self {
            Frame::Operands(operation, pending, taken, done) => FrameModel::Operands(
                operation.model(),
                trees(pending@),
                *taken as int,
                values(done@),
            ),
            Frame::Sequence(statements, taken) => FrameModel::Sequence(
                trees(statements@),
                *taken as int,
            ),
            Frame::Scope => FrameModel::Scope,
            Frame::Return(shown) => FrameModel::Return(
                match shown {
                    Some(value) => Some(value.model()),
                    None => None,
                },
            ),
            Frame::Arms(scrutinee, arms, index) => FrameModel::Arms(
                scrutinee.model(),
                trees(arms@),
                *index as int,
            ),
            Frame::Pairs(operator, left, right, done) => FrameModel::Pairs(
                operator@,
                values(left@),
                values(right@),
                values(done@),
            ),
        }
    }
}

pub open spec fn frame_models(frames: Seq<Frame>) -> Seq<FrameModel> {
    Seq::new(frames.len(), |i: int| frames[i].model())
}

/// What the machine is doing.
#[derive(Debug)]
pub enum Focus {
    /// The node is to be evaluated.
    Evaluate(ASTNode),
    /// The value is to be handed to the frame on top of the stack.
    Value(RuntimeValue),
    /// The arithmetic operator is to be applied to the two values.
    Combine(RuntimeValue, String, RuntimeValue),
    /// The host has been asked, and an answer of this kind is awaited.
    Await(Answer),
    /// The program has come to this value.
    Finished(RuntimeValue),
    /// The program has failed.
    Failed(Error),
}

/// The mathematical model of [`Focus`].
pub enum FocusModel {
    Evaluate(Tree),
    Value(Value),
    Combine(Value, Seq<char>, Value),
    Await(Answer),
    Finished(Value),
    Failed(Error),
}

impl Focus {
    pub open spec fn model(&self) -> FocusModel {
        match self {
            Focus::Evaluate(node) => FocusModel::Evaluate(node.model()),
            Focus::Value(value) => FocusModel::Value(value.model()),
            Focus::Combine(left, operator, right) => FocusModel::Combine(
                left.model(),
                operator@,
                right.model(),
            ),
            Focus::Await(answer) => FocusModel::Await(*answer),
            Focus::Finished(value) => FocusModel::Finished(value.model()),
            Focus::Failed(error) => FocusModel::Failed(*error),
        }
    }
}

/// A state of the machine.
pub struct Machine {
    pub focus: FocusModel,
    pub frames: Seq<FrameModel>,
}

/// The outcome of one step: the next state, the scopes, and what the host
/// is asked to do.
pub struct Step {
    pub machine: Machine,
    pub scopes: Seq<ScopeModel>,
    pub action: ActionModel,
}

/// The machine goes on by itself.
pub open spec fn goes(frames: Seq<FrameModel>, scopes: Seq<ScopeModel>, focus: FocusModel) -> Step {
    Step { machine: Machine { focus, frames }, scopes, action: ActionModel::Continue }
}

/// The machine stops until the host has performed the action.
pub open spec fn asks(
    frames: Seq<FrameModel>,
    scopes: Seq<ScopeModel>,
    action: ActionModel,
    answer: Answer,
) -> Step {
    Step { machine: Machine { focus: FocusModel::Await(answer), frames }, scopes, action }
}

/// The scopes without the innermost one; the root scope stays.
pub open spec fn left(scopes: Seq<ScopeModel>) -> Seq<ScopeModel> {
    if scopes.len() > 1 {
        scopes.drop_last()
    } else {
        scopes
    }
}

/// The scopes once every scope that a frame holds open is closed.
pub open spec fn unwound(frames: Seq<FrameModel>, scopes: Seq<ScopeModel>) -> Seq<ScopeModel>
    decreases frames.len(),
{
    if frames.len() == 0 {
        scopes
    } else {
        match frames.last() {
            FrameModel::Scope => unwound(frames.drop_last(), left(scopes)),
            FrameModel::Return(_) => unwound(frames.drop_last(), left(scopes)),
            _ => unwound(frames.drop_last(), scopes),
        }
    }
}

/// The evaluation fails: the stack is dropped and its scopes are closed.
pub open spec fn fails(frames: Seq<FrameModel>, scopes: Seq<ScopeModel>, error: Error) -> Step {
    Step {
        machine: Machine { focus: FocusModel::Failed(error), frames: Seq::empty() },
        scopes: unwound(frames, scopes),
        action: ActionModel::Failed(error),
    }
}

/// What the machine does with the reply of an operation: it goes on with a
/// value, asks the host, fails, or starts on the pairs of two tuples.
pub open spec fn settles(
    frames: Seq<FrameModel>,
    scopes: Seq<ScopeModel>,
    reply: ReplyModel,
    operator: Seq<char>,
) -> Step {
    match reply {
        ReplyModel::Value(value) => goes(frames, scopes, FocusModel::Value(value)),
        ReplyModel::Request(request) => asks(
            frames,
            scopes,
            ActionModel::Real(request),
            answer_to(request),
        ),
        ReplyModel::Error(error) => fails(frames, scopes, error),
        ReplyModel::Pairwise(a, b) => if a.len() == 0 || b.len() == 0 {
            goes(frames, scopes, FocusModel::Value(Value::Tuple(Seq::empty())))
        } else {
            goes(
                frames.push(FrameModel::Pairs(operator, a, b, Seq::empty())),
                scopes,
                FocusModel::Combine(a[0], operator, b[0]),
            )
        },
    }
}

/// What the machine does with a result that is a value or a failure.
pub open spec fn concludes(
    frames: Seq<FrameModel>,
    scopes: Seq<ScopeModel>,
    result: Result<Value, Error>,
) -> Step {
    match result {
        Ok(value) => goes(frames, scopes, FocusModel::Value(value)),
        Err(error) => fails(frames, scopes, error),
    }
}

/// The index of the first arm at or behind `from` that is an arm indeed;
/// the number of arms where there is none.
pub open spec fn next_arm(arms: Seq<Tree>, from: int) -> int
    decreases arms.len() - from,
{
    if from < 0 || from >= arms.len() {
        arms.len() as int
    } else if arms[from] is Case {
        from
    } else {
        next_arm(arms, from + 1)
    }
}

/// The machine turns to the next arm of a case statement: it evaluates the
/// label of the arm, or comes to null where no arm is left.
pub open spec fn tries(
    frames: Seq<FrameModel>,
    scopes: Seq<ScopeModel>,
    scrutinee: Value,
    arms: Seq<Tree>,
    from: int,
) -> Step {
    let index = next_arm(arms, from);
    if 0 <= index < arms.len() && arms[index] is Case {
        goes(
            frames.push(FrameModel::Arms(scrutinee, arms, index)),
            scopes,
            FocusModel::Evaluate(*arms[index]->Case_0),
        )
    } else {
        goes(frames, scopes, FocusModel::Value(Value::Null))
    }
}

/// The declared types of the parameters, as the operands of a function
/// declaration show them: the value behind the first for the first
/// parameter, and so on, where the parameter is typed.
pub open spec fn shown_types(typed: Seq<bool>, shown: Seq<Value>) -> Seq<Option<Value>> {
    Seq::new(
        typed.len(),
        |i: int|
            if typed[i] && i + 1 < shown.len() {
                Some(shown[i + 1])
            } else {
                None
            },
    )
}

/// The declared return type, as the first operand of a function
/// declaration shows it.
pub open spec fn shown_return(declares: bool, shown: Seq<Value>) -> Option<Box<Value>> {
    if declares && shown.len() > 0 {
        Some(Box::new(shown[0]))
    } else {
        None
    }
}

/// The scopes after the parameters from `from` on were bound to their
/// arguments in the innermost scope, or the failure that stopped the
/// binding: a parameter that is no name, or an argument whose kind is not
/// that of the parameter's declared type.
pub open spec fn binds(
    scopes: Seq<ScopeModel>,
    parameters: Seq<Tree>,
    types: Seq<Option<Value>>,
    arguments: Seq<Value>,
    from: int,
) -> Result<Seq<ScopeModel>, Error>
    decreases parameters.len() - from,
{
    if from < 0 || from >= parameters.len() || from >= types.len() || from >= arguments.len() {
        Ok(scopes)
    } else {
        match parameters[from] {
            Tree::Identifier(name) => match types[from] {
                Some(shown) => if kind_of(shown) == kind_of(arguments[from]) {
                    binds(
                        declared(scopes, name, arguments[from]),
                        parameters,
                        types,
                        arguments,
                        from + 1,
                    )
                } else {
                    Err(
                        Error::TypeMismatch {
                            expected: kind_of(shown),
                            found: kind_of(arguments[from]),
                        },
                    )
                },
                None => binds(
                    declared(scopes, name, arguments[from]),
                    parameters,
                    types,
                    arguments,
                    from + 1,
                ),
            },
            _ => Err(Error::InvalidTarget),
        }
    }
}

/// The machine starts on the body of a call, in the scope of the call: the
/// statements of a block in order; any other body comes to null.
pub open spec fn enters(
    frames: Seq<FrameModel>,
    scopes: Seq<ScopeModel>,
    shown: Option<Value>,
    body: Tree,
) -> Step {
    match body {
        Tree::Program(statements) => goes(
            frames.push(FrameModel::Return(shown)).push(FrameModel::Sequence(statements, 0)),
            scopes,
            FocusModel::Value(Value::Null),
        ),
        _ => goes(frames.push(FrameModel::Return(shown)), scopes, FocusModel::Value(Value::Null)),
    }
}

/// A call: a native function, a native method, or a function of the
/// program, which gets a scope of its own inside the scopes of the call
/// site; anything else comes to null.
#[verifier::opaque]
pub open spec fn calls(
    frames: Seq<FrameModel>,
    scopes: Seq<ScopeModel>,
    callee: Value,
    arguments: Seq<Value>,
) -> Step {
    match callee {
        Value::BuiltInFunction(BuiltIn::Print) => asks(
            frames,
            scopes,
            ActionModel::Print(printed(arguments)),
            Answer::Nothing,
        ),
        Value::BuiltInFunction(BuiltIn::Input) => asks(
            frames,
            scopes,
            ActionModel::Input(printed(arguments)),
            Answer::Line,
        ),
        Value::BuiltInFunction(BuiltIn::Tup) => goes(
            frames,
            scopes,
            FocusModel::Value(Value::Tuple(arguments)),
        ),
        Value::Method(method, receiver, _) => concludes(
            frames,
            scopes,
            method_result(method, *receiver, arguments),
        ),
        Value::Function(parameters, types, shown, body) => if parameters.len() != arguments.len()
            || types.len() != arguments.len() {
            fails(
                frames,
                scopes,
                Error::Arity {
                    declared: parameters.len() as usize,
                    given: arguments.len() as usize,
                },
            )
        } else {
            match binds(scopes.push(empty_scope()), parameters, types, arguments, 0) {
                Ok(bound) => enters(
                    frames,
                    bound,
                    match shown {
                        Some(value) => Some(*value),
                        None => None,
                    },
                    body,
                ),
                Err(error) => fails(frames, scopes, error),
            }
        },
        _ => goes(frames, scopes, FocusModel::Value(Value::Null)),
    }
}

/// The operands behind the first.
pub open spec fn rest(operands: Seq<Value>) -> Seq<Value> {
    if operands.len() > 0 {
        operands.subrange(1, operands.len() as int)
    } else {
        Seq::empty()
    }
}

/// What the machine does once the operands of an operation are evaluated.
#[verifier::opaque]
pub open spec fn applies(
    frames: Seq<FrameModel>,
    scopes: Seq<ScopeModel>,
    operation: OperationModel,
    operands: Seq<Value>,
) -> Step {
    let first = if operands.len() > 0 {
        operands[0]
    } else {
        Value::Null
    };
    let second = if operands.len() > 1 {
        operands[1]
    } else {
        Value::Null
    };
    match operation {
        OperationModel::Array => goes(frames, scopes, FocusModel::Value(Value::Array(operands))),
        OperationModel::Relational(operator) => settles(
            frames,
            scopes,
            relational(first, operator, second),
            operator,
        ),
        OperationModel::Binary(operator) => goes(
            frames,
            scopes,
            FocusModel::Combine(first, operator, second),
        ),
        OperationModel::Call => calls(frames, scopes, first, rest(operands)),
        OperationModel::Unary(sign) => settles(frames, scopes, unary(sign, first), sign),
        OperationModel::Assign(name) => match assigned(scopes, name, first) {
            Some(changed) => goes(frames, changed, FocusModel::Value(Value::Null)),
            None => fails(frames, scopes, Error::UndefinedName),
        },
        OperationModel::Member => concludes(frames, scopes, member(first, second)),
        OperationModel::Property(name) => concludes(
            frames,
            scopes,
            member(
                first,
                match name {
                    Some(name) => Value::String(name),
                    None => Value::Null,
                },
            ),
        ),
        OperationModel::Convert(target) => match target {
            Some(target) => settles(frames, scopes, conversion(first, target), target),
            None => goes(frames, scopes, FocusModel::Value(Value::Null)),
        },
        OperationModel::Declare(name) => goes(
            frames,
            declared(scopes, name, first),
            FocusModel::Value(Value::Null),
        ),
        OperationModel::Function(name, parameters, typed, declares, body) => match name {
            Some(name) => {
                let function = Value::Function(
                    parameters,
                    shown_types(typed, operands),
                    shown_return(declares, operands),
                    body,
                );
                goes(frames, declared(scopes, name, function), FocusModel::Value(function))
            },
            None => fails(frames, scopes, Error::InvalidTarget),
        },
        OperationModel::Condition(body, alternative) => match first {
            Value::Boolean(true) => goes(frames, scopes, FocusModel::Evaluate(body)),
            Value::Boolean(false) => goes(frames, scopes, FocusModel::Evaluate(alternative)),
            _ => goes(frames, scopes, FocusModel::Value(Value::Null)),
        },
        OperationModel::Scrutinee(arms) => tries(frames, scopes, first, arms, 0),
    }
}

/// The machine turns to operands: it evaluates the first of them, or
/// applies the operation at once where there is none.
#[verifier::opaque]
pub open spec fn operands(
    frames: Seq<FrameModel>,
    scopes: Seq<ScopeModel>,
    operation: OperationModel,
    pending: Seq<Tree>,
) -> Step {
    if pending.len() == 0 {
        applies(frames, scopes, operation, Seq::empty())
    } else {
        goes(
            frames.push(FrameModel::Operands(operation, pending, 1, Seq::empty())),
            scopes,
            FocusModel::Evaluate(pending[0]),
        )
    }
}

/// The name that a node spells, where it is an identifier.
pub open spec fn name_of(node: Tree) -> Option<Seq<char>> {
    match node {
        Tree::Identifier(name) => Some(name),
        _ => None,
    }
}

/// The node that shows a type, or the null literal in its place.
pub open spec fn shown_or_null(node: Option<Tree>) -> Tree {
    match node {
        Some(node) => node,
        None => Tree::NullLiteral,
    }
}

/// The operands of a function declaration: what shows the return type, and
/// what shows the type of each parameter, with a null literal wherever
/// nothing is declared.
pub open spec fn type_operands(types: Seq<Option<Tree>>, shown: Option<Box<Tree>>) -> Seq<Tree> {
    seq![
        match shown {
            Some(node) => *node,
            None => Tree::NullLiteral,
        },
    ] + Seq::new(types.len(), |i: int| shown_or_null(types[i]))
}

pub open spec fn typed_flags(types: Seq<Option<Tree>>) -> Seq<bool> {
    Seq::new(types.len(), |i: int| types[i] is Some)
}

/// The machine evaluates a node.
#[verifier::opaque]
pub open spec fn evaluates(frames: Seq<FrameModel>, scopes: Seq<ScopeModel>, node: Tree) -> Step {
    match node {
        Tree::StringLiteral(text) => goes(frames, scopes, FocusModel::Value(Value::String(text))),
        Tree::IntegerLiteral(value) => goes(
            frames,
            scopes,
            FocusModel::Value(Value::Integer(value)),
        ),
        Tree::RealLiteral(text) => asks(
            frames,
            scopes,
            ActionModel::Real(RequestView::Parse(text)),
            Answer::ParsedReal,
        ),
        Tree::ArrayLiteral(items) => operands(frames, scopes, OperationModel::Array, items),
        Tree::NullLiteral => goes(frames, scopes, FocusModel::Value(Value::Null)),
        Tree::Identifier(name) => match lookup_in(scopes, name) {
            Some(value) => goes(frames, scopes, FocusModel::Value(value)),
            None => fails(frames, scopes, Error::UndefinedName),
        },
        Tree::ConditionalExpression(l, operator, r) => operands(
            frames,
            scopes,
            OperationModel::Relational(operator),
            seq![*l, *r],
        ),
        Tree::CallExpression(callee, arguments) => operands(
            frames,
            scopes,
            OperationModel::Call,
            seq![*callee] + arguments,
        ),
        Tree::BinaryExpression(l, operator, r) => operands(
            frames,
            scopes,
            OperationModel::Binary(operator),
            seq![*l, *r],
        ),
        Tree::AssignmentExpression(target, value) => match name_of(*target) {
            Some(name) => operands(frames, scopes, OperationModel::Assign(name), seq![*value]),
            None => fails(frames, scopes, Error::InvalidTarget),
        },
        Tree::UnaryExpression(sign, operand) => operands(
            frames,
            scopes,
            OperationModel::Unary(sign),
            seq![*operand],
        ),
        Tree::MemberExpression(receiver, property, dot) => if dot {
            operands(
                frames,
                scopes,
                OperationModel::Property(name_of(*property)),
                seq![*receiver],
            )
        } else {
            operands(frames, scopes, OperationModel::Member, seq![*receiver, *property])
        },
        Tree::ConversionExpression(value, target) => operands(
            frames,
            scopes,
            OperationModel::Convert(name_of(*target)),
            seq![*value],
        ),
        Tree::VariableDeclaration(name, value) => match name_of(*name) {
            Some(name) => operands(frames, scopes, OperationModel::Declare(name), seq![*value]),
            None => fails(frames, scopes, Error::InvalidTarget),
        },
        Tree::FunctionDeclaration(name, parameters, types, shown, body) => operands(
            frames,
            scopes,
            OperationModel::Function(
                name_of(*name),
                parameters,
                typed_flags(types),
                shown is Some,
                *body,
            ),
            type_operands(types, shown),
        ),
        Tree::IfStatement(condition, body, alternative) => operands(
            frames,
            scopes,
            OperationModel::Condition(*body, *alternative),
            seq![*condition],
        ),
        Tree::Program(statements) => goes(
            frames.push(FrameModel::Scope).push(FrameModel::Sequence(statements, 0)),
            scopes.push(empty_scope()),
            FocusModel::Value(Value::Null),
        ),
        Tree::CaseStatement(scrutinee, arms) => operands(
            frames,
            scopes,
            OperationModel::Scrutinee(arms),
            seq![*scrutinee],
        ),
        Tree::Case(_, _) => goes(frames, scopes, FocusModel::Value(Value::Null)),
    }
}

/// The machine hands a value to the frame on top of the stack; with an
/// empty stack the program has come to that value.
#[verifier::opaque]
pub open spec fn delivers(frames: Seq<FrameModel>, scopes: Seq<ScopeModel>, value: Value) -> Step {
    if frames.len() == 0 {
        Step {
            machine: Machine { focus: FocusModel::Finished(value), frames },
            scopes,
            action: ActionModel::Finished(value),
        }
    } else {
        let below = frames.drop_last();
        match frames.last() {
            FrameModel::Operands(operation, pending, taken, done) => if 0 <= taken < pending.len() {
                goes(
                    below.push(
                        FrameModel::Operands(operation, pending, taken + 1, done.push(value)),
                    ),
                    scopes,
                    FocusModel::Evaluate(pending[taken]),
                )
            } else {
                applies(below, scopes, operation, done.push(value))
            },
            FrameModel::Sequence(statements, taken) => if 0 <= taken < statements.len() {
                goes(
                    below.push(FrameModel::Sequence(statements, taken + 1)),
                    scopes,
                    FocusModel::Evaluate(statements[taken]),
                )
            } else {
                goes(below, scopes, FocusModel::Value(value))
            },
            FrameModel::Scope => goes(below, left(scopes), FocusModel::Value(value)),
            FrameModel::Return(shown) => match shown {
                Some(shown) => if kind_of(shown) == kind_of(value) {
                    goes(below, left(scopes), FocusModel::Value(value))
                } else {
                    fails(
                        below,
                        left(scopes),
                        Error::TypeMismatch { expected: kind_of(shown), found: kind_of(value) },
                    )
                },
                None => goes(below, left(scopes), FocusModel::Value(value)),
            },
            FrameModel::Arms(scrutinee, arms, index) => if value is Null || equal(
                scrutinee,
                value,
            ) {
                if 0 <= index < arms.len() && arms[index] is Case {
                    goes(below, scopes, FocusModel::Evaluate(*arms[index]->Case_1))
                } else {
                    goes(below, scopes, FocusModel::Value(Value::Null))
                }
            } else {
                tries(below, scopes, scrutinee, arms, index + 1)
            },
            FrameModel::Pairs(operator, a, b, done) => {
                let results = done.push(value);
                if results.len() < a.len() && results.len() < b.len() {
                    goes(
                        below.push(FrameModel::Pairs(operator, a, b, results)),
                        scopes,
                        FocusModel::Combine(
                            a[results.len() as int],
                            operator,
                            b[results.len() as int],
                        ),
                    )
                } else {
                    goes(below, scopes, FocusModel::Value(Value::Tuple(results)))
                }
            },
        }
    }
}

/// The machine takes the host's answer: the value that the answer stands
/// for where it is of the kind that was awaited, else a failure.
pub open spec fn resumes(
    frames: Seq<FrameModel>,
    scopes: Seq<ScopeModel>,
    answer: Answer,
    event: EventView,
) -> Step {
    match (answer, event) {
        (Answer::Nothing, EventView::Resume) => goes(frames, scopes, FocusModel::Value(Value::Null)),
        (Answer::Line, EventView::Line(line)) => goes(
            frames,
            scopes,
            FocusModel::Value(Value::String(stripped(line))),
        ),
        (Answer::Real, EventView::Real(bits)) => goes(
            frames,
            scopes,
            FocusModel::Value(Value::Real(bits)),
        ),
        (Answer::ParsedReal, EventView::Real(bits)) => goes(
            frames,
            scopes,
            FocusModel::Value(Value::Real(bits)),
        ),
        (Answer::ParsedReal, EventView::Invalid) => fails(
            frames,
            scopes,
            Error::TypeMismatch { expected: Kind::Real, found: Kind::String },
        ),
        (Answer::Boolean, EventView::Boolean(value)) => goes(
            frames,
            scopes,
            FocusModel::Value(Value::Boolean(value)),
        ),
        (Answer::Integer, EventView::Integer(value)) => goes(
            frames,
            scopes,
            FocusModel::Value(Value::Integer(value)),
        ),
        (Answer::Text, EventView::Text(text)) => goes(
            frames,
            scopes,
            FocusModel::Value(Value::String(text)),
        ),
        _ => fails(frames, scopes, Error::UnexpectedEvent),
    }
}

/// One step of the machine.
///
/// A machine that has finished or failed stays as it is. One that awaits
/// an answer takes the event for it. Any other step ignores the event; it
/// fails where the stack has grown to [`MAX_DEPTH`] frames.
pub open spec fn step(machine: Machine, scopes: Seq<ScopeModel>, event: EventView) -> Step {
    match machine.focus {
        FocusModel::Finished(value) => Step { machine, scopes, action: ActionModel::Finished(value) },
        FocusModel::Failed(error) => Step { machine, scopes, action: ActionModel::Failed(error) },
        FocusModel::Await(answer) => resumes(machine.frames, scopes, answer, event),
        FocusModel::Evaluate(node) => if machine.frames.len() >= MAX_DEPTH {
            fails(machine.frames, scopes, Error::DepthExceeded)
        } else {
            evaluates(machine.frames, scopes, node)
        },
        FocusModel::Value(value) => if machine.frames.len() >= MAX_DEPTH {
            fails(machine.frames, scopes, Error::DepthExceeded)
        } else {
            delivers(machine.frames, scopes, value)
        },
        FocusModel::Combine(a, operator, b) => if machine.frames.len() >= MAX_DEPTH {
            fails(machine.frames, scopes, Error::DepthExceeded)
        } else {
            settles(machine.frames, scopes, binary(a, operator, b), operator)
        },
    }
}

/// Steps in a row: the first takes the event, each further one follows an
/// action that asks nothing of the host, and there are at most `budget`
/// further ones.
pub open spec fn runs(machine: Machine, scopes: Seq<ScopeModel>, event: EventView, budget: nat) -> Step
    decreases budget,
{
    let first = step(machine, scopes, event);
    if budget == 0 || !(first.action is Continue) {
        first
    } else {
        runs(first.machine, first.scopes, EventView::Resume, (budget - 1) as nat)
    }
}

/// The state in which the evaluation of a program starts: its statements
/// are waiting on the stack.
pub open spec fn started(program: Tree) -> Machine {
    match program {
        Tree::Program(statements) => Machine {
            focus: FocusModel::Value(Value::Null),
            frames: seq![FrameModel::Sequence(statements, 0)],
        },
        _ => Machine { focus: FocusModel::Value(Value::Null), frames: Seq::empty() },
    }
}

} // verus!
