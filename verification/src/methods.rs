//! The native methods of arrays, strings and objects.
use vstd::prelude::*;

use crate::error::{Error, Kind};
use crate::operations::{length_integer, length_value, string_length_of, string_size, value_result};
use crate::text::{characters, push_char, single};
use crate::values::{
    kind_of, lemma_value_shape, no_values, push_value, values, Method, RuntimeValue, Value,
};

verus! {

/// The number of items of an array, or null for another receiver.
pub open spec fn array_length_of(object: Value) -> Value {
    match object {
        Value::Array(items) => Value::Integer(length_value(items.len())),
        _ => Value::Null,
    }
}

/// Whether an array has no items, or null for another receiver.
pub open spec fn array_is_empty_of(object: Value) -> Value {
    match object {
        Value::Array(items) => Value::Boolean(items.len() == 0),
        _ => Value::Null,
    }
}

/// The length of a string, or null for another receiver.
pub open spec fn string_length_result(object: Value) -> Value {
    match object {
        Value::String(text) => Value::Integer(length_value(string_length_of(text))),
        _ => Value::Null,
    }
}

/// Whether a string has no characters; for another receiver, a failure.
pub open spec fn string_is_empty_of(object: Value) -> Result<Value, Error> {
    match object {
        Value::String(text) => Ok(Value::Boolean(text.len() == 0)),
        _ => Err(Error::TypeMismatch { expected: Kind::String, found: kind_of(object) }),
    }
}

/// The number of fields of an object, or null for another receiver.
pub open spec fn object_length_of(object: Value) -> Value {
    match object {
        Value::Object(entries) => Value::Integer(length_value(entries.len())),
        _ => Value::Null,
    }
}

/// Whether an object has no fields, or null for another receiver.
pub open spec fn object_is_empty_of(object: Value) -> Value {
    match object {
        Value::Object(entries) => Value::Boolean(entries.len() == 0),
        _ => Value::Null,
    }
}

/// The pieces of `text` from position `at` on: `current` is the piece
/// being read, `done` the pieces that a separator has ended.
pub open spec fn pieces_from(
    text: Seq<char>,
    separator: char,
    at: int,
    current: Seq<char>,
    done: Seq<Value>,
) -> Seq<Value>
    decreases text.len() - at,
{
    if at < 0 || at >= text.len() {
        done
    } else if text[at] == separator {
        pieces_from(text, separator, at + 1, Seq::empty(), done.push(Value::String(current)))
    } else {
        pieces_from(text, separator, at + 1, current.push(text[at]), done)
    }
}

/// A string split at every occurrence of the first character of the one
/// argument, which is a string. Each occurrence ends a piece; what follows
/// the last occurrence belongs to no piece.
pub open spec fn string_split_of(object: Value, arguments: Seq<Value>) -> Result<Value, Error> {
    if arguments.len() != 1 {
        Err(Error::Arity { declared: 1, given: arguments.len() as usize })
    } else {
        match (arguments[0], object) {
            (Value::String(separator), Value::String(text)) => if text.len() == 0 {
                Ok(Value::Array(Seq::empty()))
            } else if separator.len() == 0 {
                Err(Error::EmptySeparator)
            } else {
                Ok(
                    Value::Array(
                        pieces_from(text, separator[0], 0, Seq::empty(), Seq::empty()),
                    ),
                )
            },
            (Value::String(_), _) => Err(
                Error::TypeMismatch { expected: Kind::String, found: kind_of(object) },
            ),
            _ => Err(
                Error::TypeMismatch { expected: Kind::String, found: kind_of(arguments[0]) },
            ),
        }
    }
}

/// `.length()` of an array.
pub fn array_length(object: RuntimeValue, arguments: Vec<RuntimeValue>) -> (result: RuntimeValue)
    ensures
        result.model() == array_length_of(object.model()),
{
    proof {
        lemma_value_shape(object);
    }
    match &object {
        RuntimeValue::Array(items) => RuntimeValue::Integer(length_integer(items.len())),
        _ => RuntimeValue::Null,
    }
}

/// `.is_empty()` of an array.
pub fn array_is_empty(object: RuntimeValue, arguments: Vec<RuntimeValue>) -> (result: RuntimeValue)
    ensures
        result.model() == array_is_empty_of(object.model()),
{
    proof {
        lemma_value_shape(object);
    }
    match &object {
        RuntimeValue::Array(items) => RuntimeValue::Boolean(items.len() == 0),
        _ => RuntimeValue::Null,
    }
}

/// `.length()` of a string.
pub fn string_length(object: RuntimeValue, arguments: Vec<RuntimeValue>) -> (result: RuntimeValue)
    ensures
        result.model() == string_length_result(object.model()),
{
    match &object {
        RuntimeValue::String(text) => RuntimeValue::Integer(string_size(text)),
        _ => RuntimeValue::Null,
    }
}

/// `.is_empty()` of a string.
pub fn string_is_empty(object: RuntimeValue, arguments: Vec<RuntimeValue>) -> (result: Result<
    RuntimeValue,
    Error,
>)
    ensures
        value_result(result) == string_is_empty_of(object.model()),
{
    match &object {
        RuntimeValue::String(text) => Ok(RuntimeValue::Boolean(text.as_str().is_empty())),
        _ => Err(Error::TypeMismatch { expected: Kind::String, found: object.kind() }),
    }
}

/// `.split(separator)` of a string.
pub fn string_split(object: RuntimeValue, arguments: Vec<RuntimeValue>) -> (result: Result<
    RuntimeValue,
    Error,
>)
    ensures
        value_result(result) == string_split_of(object.model(), values(arguments@)),
{
    if arguments.len() != 1 {
        return Err(Error::Arity { declared: 1, given: arguments.len() });
    }
    let separator = match &arguments[0] {
        RuntimeValue::String(separator) => separator,
        other => {
            return Err(Error::TypeMismatch { expected: Kind::String, found: other.kind() });
        },
    };
    let text = match &object {
        RuntimeValue::String(text) => characters(text.as_str()),
        other => {
            return Err(Error::TypeMismatch { expected: Kind::String, found: other.kind() });
        },
    };
    let mut splitted_string = no_values();
    if text.len() == 0 {
        return Ok(RuntimeValue::array(splitted_string));
    }
    if separator.as_str().unicode_len() == 0 {
        return Err(Error::EmptySeparator);
    }
    let split_char = separator.as_str().get_char(0);
    let mut split = String::new();
    let mut at: usize = 0;
    while at < text.len()
        invariant
            at <= text@.len(),
            pieces_from(text@, split_char, at as int, split@, values(splitted_string@))
                == pieces_from(text@, split_char, 0, Seq::empty(), Seq::empty()),
        decreases text@.len() - at,
    {
        if text[at] == split_char {
            push_value(&mut splitted_string, RuntimeValue::String(split));
            split = String::new();
        } else {
            push_char(&mut split, text[at]);
        }
        at += 1;
    }
    Ok(RuntimeValue::array(splitted_string))
}

/// `.length()` of an object.
pub fn object_length(object: RuntimeValue, arguments: Vec<RuntimeValue>) -> (result: RuntimeValue)
    ensures
        result.model() == object_length_of(object.model()),
{
    proof {
        lemma_value_shape(object);
    }
    match &object {
        RuntimeValue::Object(entries) => RuntimeValue::Integer(length_integer(entries.len())),
        _ => RuntimeValue::Null,
    }
}

/// `.is_empty()` of an object.
pub fn object_is_empty(object: RuntimeValue, arguments: Vec<RuntimeValue>) -> (result: RuntimeValue)
    ensures
        result.model() == object_is_empty_of(object.model()),
{
    proof {
        lemma_value_shape(object);
    }
    match &object {
        RuntimeValue::Object(entries) => RuntimeValue::Boolean(entries.len() == 0),
        _ => RuntimeValue::Null,
    }
}

/// What a call of a native method comes to.
pub open spec fn method_result(method: Method, object: Value, arguments: Seq<Value>) -> Result<
    Value,
    Error,
> {
    match method {
        Method::ArrayLength => Ok(array_length_of(object)),
        Method::ArrayIsEmpty => Ok(array_is_empty_of(object)),
        Method::StringLength => Ok(string_length_result(object)),
        Method::StringIsEmpty => string_is_empty_of(object),
        Method::StringSplit => string_split_of(object, arguments),
        Method::ObjectLength => Ok(object_length_of(object)),
        Method::ObjectIsEmpty => Ok(object_is_empty_of(object)),
    }
}

/// Calls a native method on its receiver.
pub fn call_method(method: Method, object: RuntimeValue, arguments: Vec<RuntimeValue>) -> (result:
    Result<RuntimeValue, Error>)
    ensures
        value_result(result) == method_result(method, object.model(), values(arguments@)),
{
    match method {
        Method::ArrayLength => Ok(array_length(object, arguments)),
        Method::ArrayIsEmpty => Ok(array_is_empty(object, arguments)),
        Method::StringLength => Ok(string_length(object, arguments)),
        Method::StringIsEmpty => string_is_empty(object, arguments),
        Method::StringSplit => string_split(object, arguments),
        Method::ObjectLength => Ok(object_length(object, arguments)),
        Method::ObjectIsEmpty => Ok(object_is_empty(object, arguments)),
    }
}

} // verus!
