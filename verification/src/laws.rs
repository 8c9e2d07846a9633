//! What holds of the language whatever the program: facts about the
//! operators, the native methods and the scopes, each proved from the
//! definitions that the executable code is verified against.
use vstd::prelude::*;
use vstd::utf8::encode_utf8;

use crate::environment::{
    assigned, declared, is_constant_name, variables_named_well, well_formed, ScopeModel,
};
use crate::error::Error;
use crate::fields::{bound, field_index, lemma_field_index};
use crate::ast::Tree;
use crate::error::Kind;
use crate::lexer::{end_of_input, lemma_scan_advances, scan, tokens_from, Scan, TokenView};
use crate::machine::{
    asks, binds, calls, delivers, fails, goes, step, ActionModel, EventView, FocusModel,
    FrameModel, Machine, MAX_DEPTH,
};
use crate::values::kind_of;
use crate::methods::{array_length_of, string_length_result};
use crate::operations::{
    binary, length_value, member, operator_of, relation_of, relational, repeated,
    string_length_of, truth, ReplyModel,
};
use crate::reals::{Answer, Number, Operator, Relation, RequestView};
use crate::values::Value;

verus! {

/// The texts of the five arithmetic operators spell those operators.
pub proof fn lemma_operators()
    ensures
        operator_of(seq!['+']) == Some(Operator::Add),
        operator_of(seq!['-']) == Some(Operator::Subtract),
        operator_of(seq!['*']) == Some(Operator::Multiply),
        operator_of(seq!['/']) == Some(Operator::Divide),
        operator_of(seq!['%']) == Some(Operator::Remainder),
{
    assert(seq!['+'][0] == '+');
    assert(seq!['-'][0] == '-');
    assert(seq!['*'][0] == '*');
    assert(seq!['/'][0] == '/');
    assert(seq!['%'][0] == '%');
}

/// The quotient of two integers is a real, whether or not the division
/// leaves a remainder: `a / b` asks the host to divide `a` by `b` as reals,
/// and the real that the host answers with is the value of the expression.
pub proof fn lemma_integer_division_is_real(
    a: i64,
    b: i64,
    frames: Seq<FrameModel>,
    scopes: Seq<ScopeModel>,
    event: EventView,
    quotient: u64,
)
    requires
        frames.len() < MAX_DEPTH,
    ensures
        binary(Value::Integer(a), seq!['/'], Value::Integer(b)) == ReplyModel::Request(
            RequestView::Arithmetic(Operator::Divide, Number::Integer(a), Number::Integer(b)),
        ),
        step(
            Machine {
                focus: FocusModel::Combine(Value::Integer(a), seq!['/'], Value::Integer(b)),
                frames,
            },
            scopes,
            event,
        ) == asks(
            frames,
            scopes,
            ActionModel::Real(
                RequestView::Arithmetic(Operator::Divide, Number::Integer(a), Number::Integer(b)),
            ),
            Answer::Real,
        ),
        step(
            Machine { focus: FocusModel::Await(Answer::Real), frames },
            scopes,
            EventView::Real(quotient),
        ) == goes(frames, scopes, FocusModel::Value(Value::Real(quotient))),
{
    lemma_operators();
}

/// The UTF-8 form of two texts in a row is the two UTF-8 forms in a row.
pub proof fn lemma_encoding_of_concatenation(first: Seq<char>, second: Seq<char>)
    ensures
        encode_utf8(first + second) == encode_utf8(first) + encode_utf8(second),
    decreases first.len(),
{
    if first.len() == 0 {
        assert(first + second =~= second);
        assert(encode_utf8(first) + encode_utf8(second) =~= encode_utf8(second));
    } else {
        assert((first + second).drop_first() =~= first.drop_first() + second);
        assert((first + second)[0] == first[0]);
        lemma_encoding_of_concatenation(first.drop_first(), second);
        assert(encode_utf8(first + second) =~= encode_utf8(first) + encode_utf8(second));
    }
}

/// A text written `count` times is `count` times as long as the text.
pub proof fn lemma_length_of_repetition(text: Seq<char>, count: nat)
    ensures
        string_length_of(repeated(text, count)) == count * string_length_of(text),
    decreases count,
{
    if count == 0 {
        assert(count * string_length_of(text) == 0);
    } else {
        lemma_length_of_repetition(text, (count - 1) as nat);
        lemma_encoding_of_concatenation(repeated(text, (count - 1) as nat), text);
        assert(count * string_length_of(text) == (count - 1) * string_length_of(text)
            + string_length_of(text)) by (nonlinear_arith);
    }
}

/// For a string `s` and an integer `n` that is not negative, `s * n` is `s`
/// repeated `n` times, and `(s * n).length()` is `s.length() * n`.
pub proof fn lemma_string_repetition(text: Seq<char>, count: i64)
    requires
        count >= 0,
    ensures
        binary(Value::String(text), seq!['*'], Value::Integer(count)) == ReplyModel::Value(
            Value::String(repeated(text, count as nat)),
        ),
        string_length_result(Value::String(repeated(text, count as nat))) == Value::Integer(
            length_value(string_length_of(text) * (count as nat)),
        ),
{
    lemma_operators();
    lemma_length_of_repetition(text, count as nat);
    assert(string_length_of(text) * (count as nat) == (count as nat) * string_length_of(text))
        by (nonlinear_arith);
}

/// For an array `arr` and a value `v`, `arr + v` is `arr` with `v` as a new
/// last item: its length is that of `arr` and one more, and its last item
/// is `v`.
pub proof fn lemma_array_append(items: Seq<Value>, item: Value)
    ensures
        binary(Value::Array(items), seq!['+'], item) == ReplyModel::Value(
            Value::Array(items.push(item)),
        ),
        array_length_of(Value::Array(items.push(item))) == Value::Integer(
            length_value(items.len() + 1),
        ),
        items.push(item).last() == item,
        items.push(item).drop_last() == items,
{
    lemma_operators();
    assert(items.push(item).drop_last() =~= items);
}

/// Nothing can be assigned to the name of a constant.
pub proof fn lemma_constants_are_out_of_reach(
    scopes: Seq<ScopeModel>,
    name: Seq<char>,
    value: Value,
)
    requires
        well_formed(scopes),
        is_constant_name(name),
    ensures
        assigned(scopes, name, value) is None,
    decreases scopes.len(),
{
    let variables = scopes.last().variables;
    lemma_field_index(variables, name);
    assert(scopes[scopes.len() - 1] == scopes.last());
    assert(variables_named_well(variables));
    if bound(variables, name) is Some {
        assert(variables[field_index(variables, name)].0 == name);
        assert(!is_constant_name(variables[field_index(variables, name)].0));
    }
    if scopes.len() > 1 {
        let outer = scopes.drop_last();
        assert forall|i: int| 0 <= i < outer.len() implies variables_named_well(
            (#[trigger] outer[i]).variables,
        ) by {
            assert(outer[i] == scopes[i]);
        }
        lemma_constants_are_out_of_reach(outer, name, value);
    } else {
        assert(scopes.drop_last().len() == 0);
        assert(assigned(scopes.drop_last(), name, value) is None);
    }
}

/// A declaration of a constant leaves the environment well formed.
pub proof fn lemma_constant_declared(scopes: Seq<ScopeModel>, name: Seq<char>, value: Value)
    requires
        well_formed(scopes),
        is_constant_name(name),
    ensures
        well_formed(declared(scopes, name, value)),
{
    let after = declared(scopes, name, value);
    assert forall|i: int| 0 <= i < after.len() implies variables_named_well(
        (#[trigger] after[i]).variables,
    ) by {
        if i < scopes.len() - 1 {
            assert(after[i] == scopes[i]);
        } else {
            assert(after[i].variables == scopes.last().variables);
        }
    }
}

/// An assignment to a name made of upper-case letters alone fails, also
/// right after the name was declared.
pub proof fn lemma_assignment_to_constant_fails(
    scopes: Seq<ScopeModel>,
    name: Seq<char>,
    value: Value,
    other: Value,
)
    requires
        well_formed(scopes),
        is_constant_name(name),
    ensures
        assigned(declared(scopes, name, value), name, other) is None,
{
    lemma_constant_declared(scopes, name, value);
    lemma_constants_are_out_of_reach(declared(scopes, name, value), name, other);
}

/// The texts of the six relational operators spell those operators.
pub proof fn lemma_relations()
    ensures
        relation_of(seq!['<']) == Some(Relation::Less),
        relation_of(seq!['<', '=']) == Some(Relation::LessEqual),
        relation_of(seq!['>']) == Some(Relation::Greater),
        relation_of(seq!['>', '=']) == Some(Relation::GreaterEqual),
        relation_of(seq!['=', '=']) == Some(Relation::Equal),
        relation_of(seq!['!', '=']) == Some(Relation::NotEqual),
{
    assert(seq!['<'].len() == 1 && seq!['>'].len() == 1);
    assert(seq!['<', '='].len() == 2 && seq!['>', '='].len() == 2 && seq!['=', '='].len() == 2
        && seq!['!', '='].len() == 2);
    assert(seq!['<'][0] == '<' && seq!['>'][0] == '>');
    assert(seq!['<', '='][0] == '<' && seq!['>', '='][0] == '>' && seq!['=', '='][0] == '='
        && seq!['!', '='][0] == '!');
}

/// Two strings compare by length under `<` and by content under `==`: a
/// string is below every longer one, and equal to none but itself.
pub proof fn lemma_strings_compare_by_length(left: Seq<char>, right: Seq<char>)
    ensures
        relational(Value::String(left), seq!['<'], Value::String(right)) == truth(
            length_value(string_length_of(left)) < length_value(string_length_of(right)),
        ),
        relational(Value::String(left), seq!['=', '='], Value::String(right)) == truth(
            left == right,
        ),
{
    lemma_relations();
}

/// An index outside a string finds a single space, and an index outside an
/// array finds null; neither fails.
pub proof fn lemma_index_out_of_range(text: Seq<char>, items: Seq<Value>, index: i64)
    ensures
        !(0 <= index < text.len()) ==> member(Value::String(text), Value::Integer(index)) == Ok::<
            Value,
            Error,
        >(Value::String(seq![' '])),
        !(0 <= index < items.len()) ==> member(Value::Array(items), Value::Integer(index)) == Ok::<
            Value,
            Error,
        >(Value::Null),
{
}

/// The tokens of a source text end with the end-of-input token.
pub proof fn lemma_tokens_end_with_the_end_of_input(source: Seq<char>, from: int)
    ensures
        match tokens_from(source, from) {
            Ok(tokens) => tokens.len() > 0 && tokens.last() == end_of_input(),
            Err(_) => true,
        },
    decreases source.len() - from,
{
    if 0 <= from < source.len() {
        lemma_scan_advances(source, from);
        match scan(source, from) {
            Scan::Skip { next } => {
                lemma_tokens_end_with_the_end_of_input(source, next);
            },
            Scan::Found { token, next } => {
                lemma_tokens_end_with_the_end_of_input(source, next);
            },
            Scan::Invalid { position } => {},
        }
    }
}

/// An arm of a case statement whose label comes to null matches whatever
/// the scrutinee is, and so does an arm whose label is equal to the
/// scrutinee: the machine goes on with the body of the arm and without the
/// frame of the case statement, so that no further arm is tried.
pub proof fn lemma_matching_arm_is_taken(
    frames: Seq<FrameModel>,
    scopes: Seq<ScopeModel>,
    scrutinee: Value,
    arms: Seq<Tree>,
    index: int,
    label: Value,
)
    requires
        0 <= index < arms.len(),
        arms[index] is Case,
        label is Null || crate::equality::equal(scrutinee, label),
    ensures
        delivers(frames.push(FrameModel::Arms(scrutinee, arms, index)), scopes, label) == goes(
            frames,
            scopes,
            FocusModel::Evaluate(*arms[index]->Case_1),
        ),
{
    reveal(delivers);
    let stack = frames.push(FrameModel::Arms(scrutinee, arms, index));
    assert(stack.drop_last() =~= frames);
    assert(stack.last() == FrameModel::Arms(scrutinee, arms, index));
}

/// A call whose first argument is not of the kind of the first parameter's
/// declared type fails with a type mismatch, and leaves the scopes as they
/// were but for what its frames held open.
pub proof fn lemma_argument_of_wrong_kind_fails(
    frames: Seq<FrameModel>,
    scopes: Seq<ScopeModel>,
    name: Seq<char>,
    parameters: Seq<Tree>,
    types: Seq<Option<Value>>,
    shown: Option<Box<Value>>,
    body: Tree,
    arguments: Seq<Value>,
)
    requires
        parameters.len() == arguments.len(),
        types.len() == arguments.len(),
        arguments.len() > 0,
        parameters[0] == Tree::Identifier(name),
        types[0] is Some,
        kind_of(types[0]->0) != kind_of(arguments[0]),
    ensures
        calls(frames, scopes, Value::Function(parameters, types, shown, body), arguments) == fails(
            frames,
            scopes,
            Error::TypeMismatch {
                expected: kind_of(types[0]->0),
                found: kind_of(arguments[0]),
            },
        ),
{
    reveal(calls);
}

} // verus!
