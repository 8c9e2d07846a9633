//! The values that a program computes with.
use vstd::prelude::*;

use crate::ast::{duplicate_all, trees, ASTNode, Tree};
use crate::error::Kind;

verus! {

/// The native functions that every program finds in its root scope.
#[derive(Clone, Copy, Debug, PartialEq, Eq, Structural)]
pub enum BuiltIn {
    Print,
    Input,
    Tup,
}

/// The native methods of strings, arrays and objects.
#[derive(Clone, Copy, Debug, PartialEq, Eq, Structural)]
pub enum Method {
    ArrayLength,
    ArrayIsEmpty,
    StringLength,
    StringIsEmpty,
    StringSplit,
    ObjectLength,
    ObjectIsEmpty,
}

/// A runtime value. A real is held as the 64 bits of its IEEE 754 binary64
/// form; nothing in this crate computes with them but [`crate::reals`].
#[derive(Debug)]
pub enum RuntimeValue {
    Null,
    Integer(i64),
    Real(u64),
    Boolean(bool),
    Tuple(Vec<RuntimeValue>),
    String(String),
    Array(Vec<RuntimeValue>),
    /// Fields by name; no name occurs twice in a well-formed object.
    Object(Vec<(String, RuntimeValue)>),
    BuiltInFunction(BuiltIn),
    /// A native method, the receiver it was taken from, and arguments
    /// already bound to it.
    Method(Method, Box<RuntimeValue>, Vec<RuntimeValue>),
    /// Parameters, the value that shows each parameter's declared type, the
    /// value that shows the declared return type, body.
    Function(Vec<ASTNode>, Vec<Option<RuntimeValue>>, Option<Box<RuntimeValue>>, ASTNode),
}

/// The mathematical model of [`RuntimeValue`].
pub enum Value {
    Null,
    Integer(i64),
    Real(u64),
    Boolean(bool),
    Tuple(Seq<Value>),
    String(Seq<char>),
    Array(Seq<Value>),
    Object(Seq<(Seq<char>, Value)>),
    BuiltInFunction(BuiltIn),
    Method(Method, Box<Value>, Seq<Value>),
    Function(Seq<Tree>, Seq<Option<Value>>, Option<Box<Value>>, Tree),
}

/// The models of a sequence of values.
pub open spec fn values(items: Seq<RuntimeValue>) -> Seq<Value> {
    Seq::new(items.len(), |i: int| items[i].model())
}

pub open spec fn optional_value(item: Option<RuntimeValue>) -> Option<Value> {
    match item {
        Some(value) => Some(value.model()),
        None => None,
    }
}

pub open spec fn optional_values(items: Seq<Option<RuntimeValue>>) -> Seq<Option<Value>> {
    Seq::new(items.len(), |i: int| optional_value(items[i]))
}

pub open spec fn boxed_value(item: Option<Box<RuntimeValue>>) -> Option<Box<Value>> {
    match item {
        Some(value) => Some(Box::new(value.model())),
        None => None,
    }
}

/// The models of the fields of an object.
pub open spec fn fields(entries: Seq<(String, RuntimeValue)>) -> Seq<(Seq<char>, Value)> {
    Seq::new(entries.len(), |i: int| (entries[i].0@, entries[i].1.model()))
}

impl RuntimeValue {
    /// The value that this runtime value stands for.
    pub open spec fn model(&self) -> Value
        decreases self,
    {
        match self {
            RuntimeValue::Null => Value::Null,
            RuntimeValue::Integer(value) => Value::Integer(*value),
            RuntimeValue::Real(bits) => Value::Real(*bits),
            RuntimeValue::Boolean(value) => Value::Boolean(*value),
            RuntimeValue::Tuple(items) => Value::Tuple(
                Seq::new(
                    items@.len(),
                    |i: int|
                        if 0 <= i < items@.len() {
                            items@[i].model()
                        } else {
                            Value::Null
                        },
                ),
            ),
            RuntimeValue::String(text) => Value::String(text@),
            RuntimeValue::Array(items) => Value::Array(
                Seq::new(
                    items@.len(),
                    |i: int|
                        if 0 <= i < items@.len() {
                            items@[i].model()
                        } else {
                            Value::Null
                        },
                ),
            ),
            RuntimeValue::Object(entries) => Value::Object(
                Seq::new(
                    entries@.len(),
                    |i: int|
                        if 0 <= i < entries@.len() {
                            (entries@[i].0@, entries@[i].1.model())
                        } else {
                            (Seq::empty(), Value::Null)
                        },
                ),
            ),
            RuntimeValue::BuiltInFunction(function) => Value::BuiltInFunction(*function),
            RuntimeValue::Method(method, receiver, bound) => Value::Method(
                *method,
                Box::new(receiver.model()),
                Seq::new(
                    bound@.len(),
                    |i: int|
                        if 0 <= i < bound@.len() {
                            bound@[i].model()
                        } else {
                            Value::Null
                        },
                ),
            ),
            RuntimeValue::Function(parameters, types, return_type, body) => Value::Function(
                trees(parameters@),
                Seq::new(
                    types@.len(),
                    |i: int|
                        if 0 <= i < types@.len() {
                            match types@[i] {
                                Some(value) => Some(value.model()),
                                None => None,
                            }
                        } else {
                            None
                        },
                ),
                match return_type {
                    Some(value) => Some(Box::new(value.model())),
                    None => None,
                },
                body.model(),
            ),
        }
    }

    /// The same value as [`RuntimeValue::model`], written over the models of
    /// the parts.
    pub open spec fn shape(&self) -> Value {
        match self {
            RuntimeValue::Tuple(items) => Value::Tuple(values(items@)),
            RuntimeValue::Array(items) => Value::Array(values(items@)),
            RuntimeValue::Object(entries) => Value::Object(fields(entries@)),
            RuntimeValue::Method(method, receiver, bound) => Value::Method(
                *method,
                Box::new(receiver.model()),
                values(bound@),
            ),
            RuntimeValue::Function(parameters, types, return_type, body) => Value::Function(
                trees(parameters@),
                optional_values(types@),
                boxed_value(*return_type),
                body.model(),
            ),
            _ => self.model(),
        }
    }

    /// The runtime tag of this value.
    pub fn kind(&self) -> (kind: Kind)
        ensures
            kind == kind_of(self.model()),
    {
        match self {
            RuntimeValue::Null => Kind::Null,
            RuntimeValue::Integer(_) => Kind::Integer,
            RuntimeValue::Real(_) => Kind::Real,
            RuntimeValue::Boolean(_) => Kind::Boolean,
            RuntimeValue::Tuple(_) => Kind::Tuple,
            RuntimeValue::String(_) => Kind::String,
            RuntimeValue::Array(_) => Kind::Array,
            RuntimeValue::Object(_) => Kind::Object,
            RuntimeValue::BuiltInFunction(_) => Kind::BuiltInFunction,
            RuntimeValue::Method(_, _, _) => Kind::Method,
            RuntimeValue::Function(_, _, _, _) => Kind::Function,
        }
    }

    /// An array of the given items.
    pub fn array(values: Vec<RuntimeValue>) -> (array: RuntimeValue)
        ensures
            array.model() == Value::Array(self::values(values@)),
    {
        let array = RuntimeValue::Array(values);
        proof {
            lemma_value_shape(array);
        }
        array
    }

    /// A string with the given contents.
    pub fn string(values: String) -> (string: RuntimeValue)
        ensures
            string.model() == Value::String(values@),
    {
        RuntimeValue::String(values)
    }

    /// An object with the given fields. Where a name occurs twice, the
    /// later field takes the place of the earlier one.
    pub fn object(values: Vec<(String, RuntimeValue)>) -> (object: RuntimeValue)
        ensures
            object.model() == Value::Object(crate::fields::collected(fields(values@))),
            crate::fields::distinct_names(crate::fields::collected(fields(values@))),
    {
        proof {
            crate::fields::lemma_collected_distinct(fields(values@));
        }
        let mut entries: Vec<(String, RuntimeValue)> = Vec::new();
        let mut values = values;
        let ghost all = fields(values@);
        let ghost length = values@.len();
        let mut index: usize = 0;
        assert(all.subrange(0, 0) =~= Seq::empty());
        assert(fields(entries@) =~= Seq::empty());
        while index < values.len()
            invariant
                index <= values@.len(),
                values@.len() == length,
                all.len() == length,
                forall|i: int| index <= i < length ==> fields(values@)[i] == all[i],
                fields(entries@) == crate::fields::collected(all.subrange(0, index as int)),
            decreases values@.len() - index,
        {
            let mut entry = (String::new(), RuntimeValue::Null);
            let ghost before = fields(values@);
            values.set_and_swap(index, &mut entry);
            proof {
                assert(before[index as int] == all[index as int]);
                assert(entry.0@ == all[index as int].0);
                assert(entry.1.model() == all[index as int].1);
                let longer = all.subrange(0, index + 1);
                assert(longer.drop_last() =~= all.subrange(0, index as int));
                assert(longer.last() == all[index as int]);
                assert forall|i: int| index + 1 <= i < length implies fields(values@)[i]
                    == all[i] by {
                    assert(fields(values@)[i] == before[i]);
                }
            }
            crate::fields::store(&mut entries, entry.0, entry.1);
            index += 1;
        }
        assert(all.subrange(0, index as int) =~= all);
        let object = RuntimeValue::Object(entries);
        proof {
            lemma_value_shape(object);
        }
        object
    }

    /// A tuple of the given items.
    pub fn tuple(values: Vec<RuntimeValue>) -> (tuple: RuntimeValue)
        ensures
            tuple.model() == Value::Tuple(self::values(values@)),
    {
        let tuple = RuntimeValue::Tuple(values);
        proof {
            lemma_value_shape(tuple);
        }
        tuple
    }

    /// A native method bound to its receiver.
    pub fn method(method: Method, receiver: RuntimeValue) -> (bound: RuntimeValue)
        ensures
            bound.model() == Value::Method(method, Box::new(receiver.model()), Seq::empty()),
    {
        let arguments: Vec<RuntimeValue> = Vec::new();
        let bound = RuntimeValue::Method(method, Box::new(receiver), arguments);
        proof {
            lemma_value_shape(bound);
            assert(values(arguments@) =~= Seq::<Value>::empty());
        }
        bound
    }

    /// A function value.
    pub fn function(
        parameters: Vec<ASTNode>,
        types: Vec<Option<RuntimeValue>>,
        return_type: Option<Box<RuntimeValue>>,
        body: ASTNode,
    ) -> (function: RuntimeValue)
        ensures
            function.model() == Value::Function(
                trees(parameters@),
                optional_values(types@),
                boxed_value(return_type),
                body.model(),
            ),
    {
        let function = RuntimeValue::Function(parameters, types, return_type, body);
        proof {
            lemma_value_shape(function);
        }
        function
    }

    /// A deep copy of this value.
    pub fn duplicate(&self) -> (copy: RuntimeValue)
        ensures
            copy.model() == self.model(),
        decreases self,
    {
        proof {
            lemma_value_shape(*self);
        }
        let copy = match self {
            RuntimeValue::Null => RuntimeValue::Null,
            RuntimeValue::Integer(value) => RuntimeValue::Integer(*value),
            RuntimeValue::Real(bits) => RuntimeValue::Real(*bits),
            RuntimeValue::Boolean(value) => RuntimeValue::Boolean(*value),
            RuntimeValue::Tuple(items) => RuntimeValue::Tuple(duplicate_values(items)),
            RuntimeValue::String(text) => RuntimeValue::String(text.clone()),
            RuntimeValue::Array(items) => RuntimeValue::Array(duplicate_values(items)),
            RuntimeValue::Object(entries) => RuntimeValue::Object(duplicate_fields(entries)),
            RuntimeValue::BuiltInFunction(function) => RuntimeValue::BuiltInFunction(*function),
            RuntimeValue::Method(method, receiver, bound) => RuntimeValue::Method(
                *method,
                Box::new(receiver.duplicate()),
                duplicate_values(bound),
            ),
            RuntimeValue::Function(parameters, types, return_type, body) => {
                let return_copy = match return_type {
                    Some(value) => Some(Box::new(value.duplicate())),
                    None => None,
                };
                RuntimeValue::Function(
                    duplicate_all(parameters),
                    duplicate_types(types),
                    return_copy,
                    body.duplicate(),
                )
            },
        };
        proof {
            lemma_value_shape(copy);
        }
        copy
    }
}

impl Clone for RuntimeValue {
    fn clone(&self) -> (copy: RuntimeValue)
        ensures
            copy.model() == self.model(),
    {
        self.duplicate()
    }
}

/// The runtime tag of a value.
pub open spec fn kind_of(value: Value) -> Kind {
    match value {
        Value::Null => Kind::Null,
        Value::Integer(_) => Kind::Integer,
        Value::Real(_) => Kind::Real,
        Value::Boolean(_) => Kind::Boolean,
        Value::Tuple(_) => Kind::Tuple,
        Value::String(_) => Kind::String,
        Value::Array(_) => Kind::Array,
        Value::Object(_) => Kind::Object,
        Value::BuiltInFunction(_) => Kind::BuiltInFunction,
        Value::Method(_, _, _) => Kind::Method,
        Value::Function(_, _, _, _) => Kind::Function,
    }
}

/// A value's model is made of the models of its parts.
pub proof fn lemma_value_shape(value: RuntimeValue)
    ensures
        value.model() == value.shape(),
{
    reveal_with_fuel(RuntimeValue::model, 2);
    match value {
        RuntimeValue::Tuple(items) => {
            assert(value.model()->Tuple_0 =~= values(items@));
        },
        RuntimeValue::Array(items) => {
            assert(value.model()->Array_0 =~= values(items@));
        },
        RuntimeValue::Object(entries) => {
            assert(value.model()->Object_0 =~= fields(entries@));
        },
        RuntimeValue::Method(method, receiver, bound) => {
            assert(value.model()->Method_2 =~= values(bound@));
        },
        RuntimeValue::Function(parameters, types, return_type, body) => {
            assert(value.model()->Function_1 =~= optional_values(types@));
        },
        _ => {},
    }
}

/// Deep copies of the values of a vector.
pub fn duplicate_values(items: &Vec<RuntimeValue>) -> (copies: Vec<RuntimeValue>)
    ensures
        values(copies@) == values(items@),
        copies@.len() == items@.len(),
    decreases items,
{
    let mut copies: Vec<RuntimeValue> = Vec::new();
    let mut index: usize = 0;
    while index < items.len()
        invariant
            index <= items@.len(),
            copies@.len() == index,
            forall|i: int| 0 <= i < index ==> copies@[i].model() == items@[i].model(),
        decreases items@.len() - index,
    {
        copies.push(items[index].duplicate());
        index += 1;
    }
    assert(values(copies@) =~= values(items@));
    copies
}

fn duplicate_types(items: &Vec<Option<RuntimeValue>>) -> (copies: Vec<Option<RuntimeValue>>)
    ensures
        optional_values(copies@) == optional_values(items@),
    decreases items,
{
    let mut copies: Vec<Option<RuntimeValue>> = Vec::new();
    let mut index: usize = 0;
    while index < items.len()
        invariant
            index <= items@.len(),
            copies@.len() == index,
            forall|i: int|
                0 <= i < index ==> optional_value(copies@[i]) == optional_value(items@[i]),
        decreases items@.len() - index,
    {
        let copy = match &items[index] {
            Some(value) => Some(value.duplicate()),
            None => None,
        };
        copies.push(copy);
        index += 1;
    }
    assert(optional_values(copies@) =~= optional_values(items@));
    copies
}

fn duplicate_fields(entries: &Vec<(String, RuntimeValue)>) -> (copies: Vec<(String, RuntimeValue)>)
    ensures
        fields(copies@) == fields(entries@),
    decreases entries,
{
    let mut copies: Vec<(String, RuntimeValue)> = Vec::new();
    let mut index: usize = 0;
    while index < entries.len()
        invariant
            index <= entries@.len(),
            copies@.len() == index,
            forall|i: int|
                0 <= i < index ==> copies@[i].0@ == entries@[i].0@ && copies@[i].1.model()
                    == entries@[i].1.model(),
        decreases entries@.len() - index,
    {
        let entry = &entries[index];
        copies.push((entry.0.clone(), entry.1.duplicate()));
        index += 1;
    }
    assert(fields(copies@) =~= fields(entries@));
    copies
}

/// Appends a value to a list of values.
pub fn push_value(items: &mut Vec<RuntimeValue>, value: RuntimeValue)
    ensures
        final(items)@ == old(items)@.push(value),
        values(final(items)@) == values(old(items)@).push(value.model()),
{
    items.push(value);
    assert(values(items@) =~= values(old(items)@).push(value.model()));
}

/// An empty list of values.
pub fn no_values() -> (items: Vec<RuntimeValue>)
    ensures
        items@.len() == 0,
        values(items@) == Seq::<Value>::empty(),
{
    let items: Vec<RuntimeValue> = Vec::new();
    assert(values(items@) =~= Seq::<Value>::empty());
    items
}

} // verus!
