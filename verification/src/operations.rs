//! What the operators of the language compute on values.
//!
//! Whatever needs arithmetic on reals is not computed here: the function
//! answers with the [`Request`] that the host has to serve.
use vstd::prelude::*;
use vstd::string::{StringExecFns, StringSliceAdditionalSpecFns};
use vstd::utf8::encode_utf8;

use crate::equality::{equal, equals};
use crate::fields::{field_index, find_field};
use crate::error::{Error, Kind};
use crate::number::{integer_of, integer_text, integer_text_of, parse_integer};
use crate::reals::{equal_reals, real_equal, Number, Operator, Relation, Request, RequestView};
use crate::text::{characters, push_char, same_text, single};
use crate::values::{
    fields, kind_of, lemma_value_shape, push_value, values, Method, RuntimeValue, Value,
};

verus! {

/// What an operation comes to.
#[derive(Debug)]
pub enum Reply {
    /// A value.
    Value(RuntimeValue),
    /// Something the host has to compute; its answer is the value.
    Request(Request),
    /// Two tuples whose items have to be combined pair by pair.
    Pairwise(Vec<RuntimeValue>, Vec<RuntimeValue>),
    /// A failure.
    Error(Error),
}

/// The mathematical model of [`Reply`].
pub enum ReplyModel {
    Value(Value),
    Request(RequestView),
    Pairwise(Seq<Value>, Seq<Value>),
    Error(Error),
}

impl Reply {
    pub open spec fn model(&self) -> ReplyModel {
        match self {
            Reply::Value(value) => ReplyModel::Value(value.model()),
            Reply::Request(request) => ReplyModel::Request(request@),
            Reply::Pairwise(left, right) => ReplyModel::Pairwise(values(left@), values(right@)),
            Reply::Error(error) => ReplyModel::Error(*error),
        }
    }
}

/// The arithmetic operator that a text spells.
pub open spec fn operator_of(text: Seq<char>) -> Option<Operator> {
    if text == seq!['+'] {
        Some(Operator::Add)
    } else if text == seq!['-'] {
        Some(Operator::Subtract)
    } else if text == seq!['*'] {
        Some(Operator::Multiply)
    } else if text == seq!['/'] {
        Some(Operator::Divide)
    } else if text == seq!['%'] {
        Some(Operator::Remainder)
    } else {
        None
    }
}

/// The relational operator that a text spells.
pub open spec fn relation_of(text: Seq<char>) -> Option<Relation> {
    if text == seq!['<'] {
        Some(Relation::Less)
    } else if text == seq!['<', '='] {
        Some(Relation::LessEqual)
    } else if text == seq!['>'] {
        Some(Relation::Greater)
    } else if text == seq!['>', '='] {
        Some(Relation::GreaterEqual)
    } else if text == seq!['=', '='] {
        Some(Relation::Equal)
    } else if text == seq!['!', '='] {
        Some(Relation::NotEqual)
    } else {
        None
    }
}

pub fn read_operator(text: &str) -> (operator: Option<Operator>)
    ensures
        operator == operator_of(text@),
{
    match single(text) {
        Some(sign) => {
            assert(text@[0] == sign);
            assert(seq!['+'][0] == '+' && seq!['-'][0] == '-' && seq!['*'][0] == '*' && seq![
                '/',
            ][0] == '/' && seq!['%'][0] == '%');
            if sign == '+' {
                Some(Operator::Add)
            } else if sign == '-' {
                Some(Operator::Subtract)
            } else if sign == '*' {
                Some(Operator::Multiply)
            } else if sign == '/' {
                Some(Operator::Divide)
            } else if sign == '%' {
                Some(Operator::Remainder)
            } else {
                None
            }
        },
        None => None,
    }
}

pub fn read_relation(text: &str) -> (relation: Option<Relation>)
    ensures
        relation == relation_of(text@),
{
    let signs = characters(text);
    let ghost s = text@;
    proof {
        assert(seq!['<'].len() == 1 && seq!['>'].len() == 1);
        assert(seq!['<', '='].len() == 2 && seq!['>', '='].len() == 2 && seq!['=', '='].len() == 2
            && seq!['!', '='].len() == 2);
        assert(seq!['<'][0] == '<' && seq!['>'][0] == '>');
        assert(seq!['<', '='][0] == '<' && seq!['>', '='][0] == '>' && seq!['=', '='][0] == '='
            && seq!['!', '='][0] == '!');
        assert(seq!['<', '='][1] == '=' && seq!['>', '='][1] == '=' && seq!['=', '='][1] == '='
            && seq!['!', '='][1] == '=');
    }
    if signs.len() == 1 {
        if signs[0] == '<' {
            assert(s =~= seq!['<']);
            Some(Relation::Less)
        } else if signs[0] == '>' {
            assert(s =~= seq!['>']);
            Some(Relation::Greater)
        } else {
            None
        }
    } else if signs.len() == 2 && signs[1] == '=' {
        if signs[0] == '<' {
            assert(s =~= seq!['<', '=']);
            Some(Relation::LessEqual)
        } else if signs[0] == '>' {
            assert(s =~= seq!['>', '=']);
            Some(Relation::GreaterEqual)
        } else if signs[0] == '=' {
            assert(s =~= seq!['=', '=']);
            Some(Relation::Equal)
        } else if signs[0] == '!' {
            assert(s =~= seq!['!', '=']);
            Some(Relation::NotEqual)
        } else {
            None
        }
    } else {
        None
    }
}

pub open spec fn fits(value: int) -> bool {
    i64::MIN <= value <= i64::MAX
}

/// An integer result: the value where it fits 64 bits, else a failure.
pub open spec fn integer_reply(value: int) -> ReplyModel {
    if fits(value) {
        ReplyModel::Value(Value::Integer(value as i64))
    } else {
        ReplyModel::Error(Error::Arithmetic)
    }
}

pub open spec fn absolute(value: int) -> int {
    if value < 0 {
        -value
    } else {
        value
    }
}

/// The remainder of a division that rounds toward zero: it has the sign of
/// the dividend.
pub open spec fn remainder(dividend: int, divisor: int) -> int
    recommends
        divisor != 0,
{
    if dividend < 0 {
        -(absolute(dividend) % absolute(divisor))
    } else {
        dividend % absolute(divisor)
    }
}

/// `text` written `count` times in a row.
pub open spec fn repeated(text: Seq<char>, count: nat) -> Seq<char>
    decreases count,
{
    if count == 0 {
        Seq::empty()
    } else {
        repeated(text, (count - 1) as nat) + text
    }
}

/// The length of a string, which is that of its UTF-8 form in bytes.
pub open spec fn string_length_of(text: Seq<char>) -> nat {
    encode_utf8(text).len()
}

/// A length as an integer; one that does not fit is the largest integer.
pub open spec fn length_value(length: nat) -> i64 {
    if length <= i64::MAX {
        length as i64
    } else {
        i64::MAX
    }
}

pub fn length_integer(length: usize) -> (value: i64)
    ensures
        value == length_value(length as nat),
{
    if (length as u64) <= 0x7fff_ffff_ffff_ffff {
        length as i64
    } else {
        i64::MAX
    }
}

/// The length of a string as an integer.
pub fn string_size(text: &String) -> (value: i64)
    ensures
        value == length_value(string_length_of(text@)),
{
    let bytes = text.as_str().as_bytes();
    length_integer(bytes.len())
}

/// Integer arithmetic. Division is always a division of reals.
pub open spec fn integer_binary(operator: Option<Operator>, left: i64, right: i64) -> ReplyModel {
    match operator {
        Some(Operator::Add) => integer_reply(left + right),
        Some(Operator::Subtract) => integer_reply(left - right),
        Some(Operator::Multiply) => integer_reply(left * right),
        Some(Operator::Divide) => ReplyModel::Request(
            RequestView::Arithmetic(Operator::Divide, Number::Integer(left), Number::Integer(right)),
        ),
        Some(Operator::Remainder) => if right == 0 {
            ReplyModel::Error(Error::Arithmetic)
        } else {
            ReplyModel::Value(Value::Integer(remainder(left as int, right as int) as i64))
        },
        None => ReplyModel::Value(Value::Null),
    }
}

/// Arithmetic with at least one real operand.
pub open spec fn real_binary(operator: Option<Operator>, left: Number, right: Number) -> ReplyModel {
    match operator {
        Some(Operator::Remainder) => ReplyModel::Value(Value::Null),
        Some(operator) => ReplyModel::Request(RequestView::Arithmetic(operator, left, right)),
        None => ReplyModel::Value(Value::Null),
    }
}

/// What `left operator right` comes to. A combination of operands that no
/// rule covers comes to null, which is no failure.
pub open spec fn binary(left: Value, operator: Seq<char>, right: Value) -> ReplyModel {
    let sign = operator_of(operator);
    match (left, right) {
        (Value::Integer(a), Value::Integer(b)) => integer_binary(sign, a, b),
        (Value::Real(a), Value::Real(b)) => real_binary(sign, Number::Real(a), Number::Real(b)),
        (Value::Integer(a), Value::Real(b)) => real_binary(
            sign,
            Number::Integer(a),
            Number::Real(b),
        ),
        (Value::Real(a), Value::Integer(b)) => real_binary(
            sign,
            Number::Real(a),
            Number::Integer(b),
        ),
        (Value::String(a), Value::String(b)) => if sign == Some(Operator::Add) {
            ReplyModel::Value(Value::String(a + b))
        } else {
            ReplyModel::Value(Value::Null)
        },
        (Value::String(a), Value::Integer(count)) => if sign == Some(Operator::Multiply) {
            if count < 0 {
                ReplyModel::Error(Error::Arithmetic)
            } else {
                ReplyModel::Value(Value::String(repeated(a, count as nat)))
            }
        } else {
            ReplyModel::Value(Value::Null)
        },
        (Value::Array(items), item) => if sign == Some(Operator::Add) {
            ReplyModel::Value(Value::Array(items.push(item)))
        } else {
            ReplyModel::Value(Value::Null)
        },
        (Value::Tuple(a), Value::Tuple(b)) => ReplyModel::Pairwise(a, b),
        _ => ReplyModel::Value(Value::Null),
    }
}

fn integer_result(value: i128) -> (reply: Reply)
    ensures
        reply.model() == integer_reply(value as int),
{
    if value < -0x8000_0000_0000_0000 || value > 0x7fff_ffff_ffff_ffff {
        Reply::Error(Error::Arithmetic)
    } else {
        Reply::Value(RuntimeValue::Integer(value as i64))
    }
}

fn magnitude_of(value: i64) -> (result: u64)
    ensures
        result == absolute(value as int),
{
    if value == i64::MIN {
        0x8000_0000_0000_0000
    } else if value < 0 {
        (-value) as u64
    } else {
        value as u64
    }
}

fn integer_remainder(left: i64, right: i64) -> (result: i64)
    requires
        right != 0,
    ensures
        result == remainder(left as int, right as int),
{
    let rest = magnitude_of(left) % magnitude_of(right);
    if left < 0 {
        -(rest as i64)
    } else {
        rest as i64
    }
}

fn integer_operation(operator: Option<Operator>, left: i64, right: i64) -> (reply: Reply)
    ensures
        reply.model() == integer_binary(operator, left, right),
{
    match operator {
        Some(Operator::Add) => integer_result(left as i128 + right as i128),
        Some(Operator::Subtract) => integer_result(left as i128 - right as i128),
        Some(Operator::Multiply) => {
            assert(-0x4000_0000_0000_0000_0000_0000_0000_0000 <= left * right
                <= 0x4000_0000_0000_0000_0000_0000_0000_0000) by (nonlinear_arith)
                requires
                    -0x8000_0000_0000_0000 <= left <= 0x8000_0000_0000_0000,
                    -0x8000_0000_0000_0000 <= right <= 0x8000_0000_0000_0000,
            ;
            integer_result(left as i128 * right as i128)
        },
        Some(Operator::Divide) => Reply::Request(
            Request::Arithmetic(Operator::Divide, Number::Integer(left), Number::Integer(right)),
        ),
        Some(Operator::Remainder) => if right == 0 {
            Reply::Error(Error::Arithmetic)
        } else {
            Reply::Value(RuntimeValue::Integer(integer_remainder(left, right)))
        },
        None => Reply::Value(RuntimeValue::Null),
    }
}

fn real_operation(operator: Option<Operator>, left: Number, right: Number) -> (reply: Reply)
    ensures
        reply.model() == real_binary(operator, left, right),
{
    match operator {
        Some(Operator::Remainder) => Reply::Value(RuntimeValue::Null),
        Some(operator) => Reply::Request(Request::Arithmetic(operator, left, right)),
        None => Reply::Value(RuntimeValue::Null),
    }
}

/// `text` written `count` times in a row.
pub fn repeat(text: &str, count: u64) -> (result: String)
    ensures
        result@ == repeated(text@, count as nat),
{
    let mut result = String::new();
    let mut done: u64 = 0;
    while done < count
        invariant
            done <= count,
            result@ == repeated(text@, done as nat),
        decreases count - done,
    {
        result.append(text);
        done += 1;
    }
    result
}

/// Applies an arithmetic operator to two values.
pub fn evaluate_binary_expression(left: RuntimeValue, operand: &str, right: RuntimeValue) -> (reply:
    Reply)
    ensures
        reply.model() == binary(left.model(), operand@, right.model()),
{
    let sign = read_operator(operand);
    proof {
        lemma_value_shape(left);
        lemma_value_shape(right);
    }
    match (left, right) {
        (RuntimeValue::Integer(a), RuntimeValue::Integer(b)) => integer_operation(sign, a, b),
        (RuntimeValue::Real(a), RuntimeValue::Real(b)) => real_operation(
            sign,
            Number::Real(a),
            Number::Real(b),
        ),
        (RuntimeValue::Integer(a), RuntimeValue::Real(b)) => real_operation(
            sign,
            Number::Integer(a),
            Number::Real(b),
        ),
        (RuntimeValue::Real(a), RuntimeValue::Integer(b)) => real_operation(
            sign,
            Number::Real(a),
            Number::Integer(b),
        ),
        (RuntimeValue::String(a), RuntimeValue::String(b)) => match sign {
            Some(Operator::Add) => Reply::Value(RuntimeValue::String(a.concat(b.as_str()))),
            _ => Reply::Value(RuntimeValue::Null),
        },
        (RuntimeValue::String(a), RuntimeValue::Integer(count)) => match sign {
            Some(Operator::Multiply) => if count < 0 {
                Reply::Error(Error::Arithmetic)
            } else {
                Reply::Value(RuntimeValue::String(repeat(a.as_str(), count as u64)))
            },
            _ => Reply::Value(RuntimeValue::Null),
        },
        (RuntimeValue::Array(items), item) => match sign {
            Some(Operator::Add) => {
                let mut items = items;
                push_value(&mut items, item);
                Reply::Value(RuntimeValue::array(items))
            },
            _ => Reply::Value(RuntimeValue::Null),
        },
        (RuntimeValue::Tuple(a), RuntimeValue::Tuple(b)) => Reply::Pairwise(a, b),
        _ => Reply::Value(RuntimeValue::Null),
    }
}

/// Whether a relation holds between two integers.
pub open spec fn holds(relation: Relation, left: int, right: int) -> bool {
    match relation {
        Relation::Less => left < right,
        Relation::LessEqual => left <= right,
        Relation::Greater => left > right,
        Relation::GreaterEqual => left >= right,
        Relation::Equal => left == right,
        Relation::NotEqual => left != right,
    }
}

/// A relation that is decided by equality alone where it is `==` or `!=`,
/// and by two sizes where it is one of the other four.
pub open spec fn holds_by(relation: Relation, same: bool, left: int, right: int) -> bool {
    match relation {
        Relation::Equal => same,
        Relation::NotEqual => !same,
        _ => holds(relation, left, right),
    }
}

pub open spec fn truth(value: bool) -> ReplyModel {
    ReplyModel::Value(Value::Boolean(value))
}

/// What `left operator right` comes to for a relational operator.
///
/// Numbers compare by value. A string or an array against an integer
/// compares its length with the integer. Two strings, or two arrays,
/// compare by length under `< <= > >=` and by content under `==` and `!=`.
/// Booleans know `==` and `!=` only. Everything else is false.
pub open spec fn relational(left: Value, operator: Seq<char>, right: Value) -> ReplyModel {
    match relation_of(operator) {
        None => truth(false),
        Some(relation) => match (left, right) {
            (Value::Integer(a), Value::Integer(b)) => truth(holds(relation, a as int, b as int)),
            (Value::Integer(a), Value::Real(b)) => ReplyModel::Request(
                RequestView::Compare(relation, Number::Integer(a), Number::Real(b)),
            ),
            (Value::Real(a), Value::Integer(b)) => ReplyModel::Request(
                RequestView::Compare(relation, Number::Real(a), Number::Integer(b)),
            ),
            (Value::Real(a), Value::Real(b)) => if relation == Relation::Equal {
                truth(real_equal(a, b))
            } else if relation == Relation::NotEqual {
                truth(!real_equal(a, b))
            } else {
                ReplyModel::Request(
                    RequestView::Compare(relation, Number::Real(a), Number::Real(b)),
                )
            },
            (Value::String(a), Value::Integer(b)) => truth(
                holds(relation, length_value(string_length_of(a)) as int, b as int),
            ),
            (Value::Array(a), Value::Integer(b)) => truth(
                holds(relation, length_value(a.len()) as int, b as int),
            ),
            (Value::String(a), Value::String(b)) => truth(
                holds_by(
                    relation,
                    a == b,
                    length_value(string_length_of(a)) as int,
                    length_value(string_length_of(b)) as int,
                ),
            ),
            (Value::Array(a), Value::Array(b)) => truth(
                holds_by(
                    relation,
                    equal(left, right),
                    length_value(a.len()) as int,
                    length_value(b.len()) as int,
                ),
            ),
            (Value::Boolean(a), Value::Boolean(b)) => if relation == Relation::Equal {
                truth(a == b)
            } else if relation == Relation::NotEqual {
                truth(a != b)
            } else {
                truth(false)
            },
            _ => truth(false),
        },
    }
}

fn decide(relation: Relation, left: i64, right: i64) -> (result: bool)
    ensures
        result == holds(relation, left as int, right as int),
{
    match relation {
        Relation::Less => left < right,
        Relation::LessEqual => left <= right,
        Relation::Greater => left > right,
        Relation::GreaterEqual => left >= right,
        Relation::Equal => left == right,
        Relation::NotEqual => left != right,
    }
}

fn decide_by(relation: Relation, same: bool, left: i64, right: i64) -> (result: bool)
    ensures
        result == holds_by(relation, same, left as int, right as int),
{
    match relation {
        Relation::Equal => same,
        Relation::NotEqual => !same,
        _ => decide(relation, left, right),
    }
}

fn answer(value: bool) -> (reply: Reply)
    ensures
        reply.model() == truth(value),
{
    Reply::Value(RuntimeValue::Boolean(value))
}

/// Applies a relational operator to two values.
pub fn evaluate_conditional_expression(
    left: &RuntimeValue,
    operand: &str,
    right: &RuntimeValue,
) -> (reply: Reply)
    ensures
        reply.model() == relational(left.model(), operand@, right.model()),
{
    let relation = match read_relation(operand) {
        Some(relation) => relation,
        None => {
            return answer(false);
        },
    };
    proof {
        lemma_value_shape(*left);
        lemma_value_shape(*right);
    }
    match (left, right) {
        (RuntimeValue::Integer(a), RuntimeValue::Integer(b)) => answer(decide(relation, *a, *b)),
        (RuntimeValue::Integer(a), RuntimeValue::Real(b)) => Reply::Request(
            Request::Compare(relation, Number::Integer(*a), Number::Real(*b)),
        ),
        (RuntimeValue::Real(a), RuntimeValue::Integer(b)) => Reply::Request(
            Request::Compare(relation, Number::Real(*a), Number::Integer(*b)),
        ),
        (RuntimeValue::Real(a), RuntimeValue::Real(b)) => match relation {
            Relation::Equal => answer(equal_reals(*a, *b)),
            Relation::NotEqual => answer(!equal_reals(*a, *b)),
            _ => Reply::Request(Request::Compare(relation, Number::Real(*a), Number::Real(*b))),
        },
        (RuntimeValue::String(a), RuntimeValue::Integer(b)) => answer(
            decide(relation, string_size(a), *b),
        ),
        (RuntimeValue::Array(a), RuntimeValue::Integer(b)) => answer(
            decide(relation, length_integer(a.len()), *b),
        ),
        (RuntimeValue::String(a), RuntimeValue::String(b)) => answer(
            decide_by(
                relation,
                same_text(a.as_str(), b.as_str()),
                string_size(a),
                string_size(b),
            ),
        ),
        (RuntimeValue::Array(a), RuntimeValue::Array(b)) => answer(
            decide_by(
                relation,
                equals(left, right),
                length_integer(a.len()),
                length_integer(b.len()),
            ),
        ),
        (RuntimeValue::Boolean(a), RuntimeValue::Boolean(b)) => match relation {
            Relation::Equal => answer(*a == *b),
            Relation::NotEqual => answer(*a != *b),
            _ => answer(false),
        },
        _ => answer(false),
    }
}

/// What a prefix sign makes of a value: `-` and `!` negate a number and
/// invert a boolean, and fail on everything else; any other sign leaves the
/// value as it is.
pub open spec fn unary(sign: Seq<char>, value: Value) -> ReplyModel {
    if sign == seq!['-'] || sign == seq!['!'] {
        match value {
            Value::Boolean(b) => ReplyModel::Value(Value::Boolean(!b)),
            Value::Integer(i) => integer_reply(-i),
            Value::Real(bits) => ReplyModel::Request(RequestView::Negate(bits)),
            _ => ReplyModel::Error(
                Error::TypeMismatch { expected: Kind::Integer, found: kind_of(value) },
            ),
        }
    } else {
        ReplyModel::Value(value)
    }
}

/// Applies a prefix sign to a value.
pub fn evaluate_unary_expression(sign: &str, value: RuntimeValue) -> (reply: Reply)
    ensures
        reply.model() == unary(sign@, value.model()),
{
    let negates = match single(sign) {
        Some(character) => {
            assert(sign@[0] == character);
            assert(seq!['-'][0] == '-' && seq!['!'][0] == '!');
            character == '-' || character == '!'
        },
        None => false,
    };
    if negates {
        let found = value.kind();
        match value {
            RuntimeValue::Boolean(b) => Reply::Value(RuntimeValue::Boolean(!b)),
            RuntimeValue::Integer(i) => integer_result(-(i as i128)),
            RuntimeValue::Real(bits) => Reply::Request(Request::Negate(bits)),
            _ => Reply::Error(Error::TypeMismatch { expected: Kind::Integer, found }),
        }
    } else {
        Reply::Value(value)
    }
}

/// The text of a boolean.
pub open spec fn boolean_text_of(value: bool) -> Seq<char> {
    if value {
        "true"@
    } else {
        "false"@
    }
}

pub fn boolean_text(value: bool) -> (text: String)
    ensures
        text@ == boolean_text_of(value),
{
    if value {
        String::from_str("true")
    } else {
        String::from_str("false")
    }
}

/// Whether a value counts as true when it is converted to a boolean.
pub open spec fn truthy(value: Value) -> Option<bool> {
    match value {
        Value::Integer(i) => Some(i != 0),
        Value::Real(bits) => Some(!real_equal(bits, 0)),
        Value::Boolean(b) => Some(b),
        Value::String(text) => Some(text.len() > 0),
        Value::Array(items) => Some(items.len() > 0),
        Value::Object(entries) => Some(entries.len() > 0),
        Value::Tuple(items) => Some(items.len() > 0),
        _ => None,
    }
}

/// What `value as target` comes to. The targets are `integer`, `real`,
/// `boolean` and `string`; a pair of value and target that no rule covers
/// comes to null.
pub open spec fn conversion(value: Value, target: Seq<char>) -> ReplyModel {
    if target == "integer"@ {
        match value {
            Value::Integer(i) => ReplyModel::Value(value),
            Value::Real(bits) => ReplyModel::Request(RequestView::Truncate(bits)),
            Value::Boolean(b) => ReplyModel::Value(Value::Integer(if b { 1i64 } else { 0i64 })),
            Value::String(text) => match integer_of(text) {
                Some(i) => ReplyModel::Value(Value::Integer(i)),
                None => ReplyModel::Error(
                    Error::TypeMismatch { expected: Kind::Integer, found: Kind::String },
                ),
            },
            _ => ReplyModel::Value(Value::Null),
        }
    } else if target == "real"@ {
        match value {
            Value::Integer(i) => ReplyModel::Request(RequestView::Widen(i)),
            Value::Real(bits) => ReplyModel::Value(value),
            Value::String(text) => ReplyModel::Request(RequestView::Parse(text)),
            _ => ReplyModel::Value(Value::Null),
        }
    } else if target == "boolean"@ {
        match truthy(value) {
            Some(b) => ReplyModel::Value(Value::Boolean(b)),
            None => ReplyModel::Value(Value::Null),
        }
    } else if target == "string"@ {
        match value {
            Value::Integer(i) => ReplyModel::Value(Value::String(integer_text_of(i as int))),
            Value::Real(bits) => ReplyModel::Request(RequestView::Render(bits)),
            Value::Boolean(b) => ReplyModel::Value(Value::String(boolean_text_of(b))),
            Value::String(text) => ReplyModel::Value(value),
            _ => ReplyModel::Value(Value::Null),
        }
    } else {
        ReplyModel::Value(Value::Null)
    }
}

/// Converts a value to the kind that `target` names.
pub fn evaluate_conversion_expression(value: RuntimeValue, target: &str) -> (reply: Reply)
    ensures
        reply.model() == conversion(value.model(), target@),
{
    proof {
        lemma_value_shape(value);
    }
    if same_text(target, "integer") {
        match value {
            RuntimeValue::Integer(i) => Reply::Value(RuntimeValue::Integer(i)),
            RuntimeValue::Real(bits) => Reply::Request(Request::Truncate(bits)),
            RuntimeValue::Boolean(b) => Reply::Value(
                RuntimeValue::Integer(
                    if b {
                        1
                    } else {
                        0
                    },
                ),
            ),
            RuntimeValue::String(text) => match parse_integer(text.as_str()) {
                Some(i) => Reply::Value(RuntimeValue::Integer(i)),
                None => Reply::Error(
                    Error::TypeMismatch { expected: Kind::Integer, found: Kind::String },
                ),
            },
            _ => Reply::Value(RuntimeValue::Null),
        }
    } else if same_text(target, "real") {
        match value {
            RuntimeValue::Integer(i) => Reply::Request(Request::Widen(i)),
            RuntimeValue::Real(bits) => Reply::Value(RuntimeValue::Real(bits)),
            RuntimeValue::String(text) => Reply::Request(Request::Parse(text)),
            _ => Reply::Value(RuntimeValue::Null),
        }
    } else if same_text(target, "boolean") {
        match value {
            RuntimeValue::Integer(i) => Reply::Value(RuntimeValue::Boolean(i != 0)),
            RuntimeValue::Real(bits) => Reply::Value(RuntimeValue::Boolean(!equal_reals(bits, 0))),
            RuntimeValue::Boolean(b) => Reply::Value(RuntimeValue::Boolean(b)),
            RuntimeValue::String(text) => Reply::Value(
                RuntimeValue::Boolean(!text.as_str().is_empty()),
            ),
            RuntimeValue::Array(items) => Reply::Value(RuntimeValue::Boolean(items.len() > 0)),
            RuntimeValue::Object(entries) => Reply::Value(RuntimeValue::Boolean(entries.len() > 0)),
            RuntimeValue::Tuple(items) => Reply::Value(RuntimeValue::Boolean(items.len() > 0)),
            _ => Reply::Value(RuntimeValue::Null),
        }
    } else if same_text(target, "string") {
        match value {
            RuntimeValue::Integer(i) => Reply::Value(RuntimeValue::String(integer_text(i))),
            RuntimeValue::Real(bits) => Reply::Request(Request::Render(bits)),
            RuntimeValue::Boolean(b) => Reply::Value(RuntimeValue::String(boolean_text(b))),
            RuntimeValue::String(text) => Reply::Value(RuntimeValue::String(text)),
            _ => Reply::Value(RuntimeValue::Null),
        }
    } else {
        Reply::Value(RuntimeValue::Null)
    }
}

/// The native method that a value of kind `receiver` has under `name`.
pub open spec fn method_of(receiver: Kind, name: Seq<char>) -> Option<Method> {
    match receiver {
        Kind::String => if name == "length"@ {
            Some(Method::StringLength)
        } else if name == "is_empty"@ {
            Some(Method::StringIsEmpty)
        } else if name == "split"@ {
            Some(Method::StringSplit)
        } else {
            None
        },
        Kind::Array => if name == "length"@ {
            Some(Method::ArrayLength)
        } else if name == "is_empty"@ {
            Some(Method::ArrayIsEmpty)
        } else {
            None
        },
        Kind::Object => if name == "length"@ {
            Some(Method::ObjectLength)
        } else if name == "is_empty"@ {
            Some(Method::ObjectIsEmpty)
        } else {
            None
        },
        _ => None,
    }
}

/// Looks a native method up by the kind of its receiver and its name.
pub fn find_method(receiver: Kind, name: &str) -> (method: Option<Method>)
    ensures
        method == method_of(receiver, name@),
{
    match receiver {
        Kind::String => if same_text(name, "length") {
            Some(Method::StringLength)
        } else if same_text(name, "is_empty") {
            Some(Method::StringIsEmpty)
        } else if same_text(name, "split") {
            Some(Method::StringSplit)
        } else {
            None
        },
        Kind::Array => if same_text(name, "length") {
            Some(Method::ArrayLength)
        } else if same_text(name, "is_empty") {
            Some(Method::ArrayIsEmpty)
        } else {
            None
        },
        Kind::Object => if same_text(name, "length") {
            Some(Method::ObjectLength)
        } else if same_text(name, "is_empty") {
            Some(Method::ObjectIsEmpty)
        } else {
            None
        },
        _ => None,
    }
}

/// What the access `object.property` or `object[property]` comes to.
///
/// A name finds a native method first, bound to the receiver, and then, in
/// an object only, a field. An integer indexes a string by characters and
/// an array by items; outside the string it finds a single space, outside
/// the array null. Everything else is null.
pub open spec fn member(object: Value, property: Value) -> Result<Value, Error> {
    match (object, property) {
        (Value::Object(entries), Value::String(name)) => match method_of(Kind::Object, name) {
            Some(method) => Ok(Value::Method(method, Box::new(object), Seq::empty())),
            None => if field_index(entries, name) < entries.len() {
                Ok(entries[field_index(entries, name)].1)
            } else {
                Err(Error::PropertyNotFound)
            },
        },
        (Value::Array(_), Value::String(name)) => match method_of(Kind::Array, name) {
            Some(method) => Ok(Value::Method(method, Box::new(object), Seq::empty())),
            None => Err(Error::PropertyNotFound),
        },
        (Value::String(_), Value::String(name)) => match method_of(Kind::String, name) {
            Some(method) => Ok(Value::Method(method, Box::new(object), Seq::empty())),
            None => Err(Error::PropertyNotFound),
        },
        (Value::String(text), Value::Integer(index)) => if 0 <= index < text.len() {
            Ok(Value::String(seq![text[index as int]]))
        } else {
            Ok(Value::String(seq![' ']))
        },
        (Value::Array(items), Value::Integer(index)) => if 0 <= index < items.len() {
            Ok(items[index as int])
        } else {
            Ok(Value::Null)
        },
        _ => Ok(Value::Null),
    }
}

pub open spec fn value_result(result: Result<RuntimeValue, Error>) -> Result<Value, Error> {
    match result {
        Ok(value) => Ok(value.model()),
        Err(error) => Err(error),
    }
}

/// Reads a property of a value.
pub fn evaluate_member_expression(object: RuntimeValue, property: &RuntimeValue) -> (result: Result<
    RuntimeValue,
    Error,
>)
    ensures
        value_result(result) == member(object.model(), property.model()),
{
    proof {
        lemma_value_shape(object);
        lemma_value_shape(*property);
    }
    match property {
        RuntimeValue::String(name) => {
            let kind = object.kind();
            if kind == Kind::Object || kind == Kind::Array || kind == Kind::String {
                match find_method(kind, name.as_str()) {
                    Some(method) => Ok(RuntimeValue::method(method, object)),
                    None => match object {
                        RuntimeValue::Object(entries) => {
                            let found = find_field(&entries, name.as_str());
                            if found < entries.len() {
                                Ok(entries[found].1.duplicate())
                            } else {
                                Err(Error::PropertyNotFound)
                            }
                        },
                        _ => Err(Error::PropertyNotFound),
                    },
                }
            } else {
                Ok(RuntimeValue::Null)
            }
        },
        RuntimeValue::Integer(index) => match &object {
            RuntimeValue::String(text) => {
                let mut found = String::new();
                let length = text.as_str().unicode_len();
                if 0 <= *index && (*index as u64) < length as u64 {
                    push_char(&mut found, text.as_str().get_char(*index as usize));
                    assert(found@ =~= seq![text@[*index as int]]);
                } else {
                    push_char(&mut found, ' ');
                    assert(found@ =~= seq![' ']);
                }
                Ok(RuntimeValue::String(found))
            },
            RuntimeValue::Array(items) => {
                if 0 <= *index && (*index as u64) < items.len() as u64 {
                    Ok(items[*index as usize].duplicate())
                } else {
                    Ok(RuntimeValue::Null)
                }
            },
            _ => Ok(RuntimeValue::Null),
        },
        _ => Ok(RuntimeValue::Null),
    }
}

} // verus!
