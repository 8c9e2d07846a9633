//! Structural equality of values.
use vstd::prelude::*;

use crate::ast::{lemma_shape, optional_tree, optional_trees, trees, ASTNode, Tree};
use crate::reals::{equal_reals, real_equal};
use crate::text::same_text;
use crate::fields::{field_index, find_field};
use crate::values::{
    fields, lemma_value_shape, optional_value, optional_values, values, RuntimeValue, Value,
};

verus! {

/// Whether two values are equal: the same kind and equal contents. Reals
/// compare as numbers, arrays and tuples item by item, objects field by
/// field whatever the order of their fields.
pub open spec fn equal(left: Value, right: Value) -> bool
    decreases left,
{
    match (left, right) {
        (Value::Null, Value::Null) => true,
        (Value::Integer(a), Value::Integer(b)) => a == b,
        (Value::Real(a), Value::Real(b)) => real_equal(a, b),
        (Value::Boolean(a), Value::Boolean(b)) => a == b,
        (Value::Tuple(a), Value::Tuple(b)) => a.len() == b.len() && forall|i: int|
            0 <= i < a.len() ==> equal(a[i], #[trigger] b[i]),
        (Value::String(a), Value::String(b)) => a == b,
        (Value::Array(a), Value::Array(b)) => a.len() == b.len() && forall|i: int|
            0 <= i < a.len() ==> equal(a[i], #[trigger] b[i]),
        (Value::Object(a), Value::Object(b)) => a.len() == b.len() && forall|i: int|
            0 <= i < a.len() ==> field_index(b, (#[trigger] a[i]).0) < b.len() && equal(
                a[i].1,
                b[field_index(b, a[i].0)].1,
            ),
        (Value::BuiltInFunction(a), Value::BuiltInFunction(b)) => a == b,
        (Value::Method(m, r, a), Value::Method(n, s, b)) => m == n && equal(*r, *s) && a.len()
            == b.len() && forall|i: int| 0 <= i < a.len() ==> equal(a[i], #[trigger] b[i]),
        (Value::Function(p, t, r, body), Value::Function(q, u, s, other)) => p == q && body
            == other && t.len() == u.len() && (forall|i: int|
            0 <= i < t.len() ==> match (t[i], #[trigger] u[i]) {
                (Some(x), Some(y)) => equal(x, y),
                (None, None) => true,
                _ => false,
            }) && match (r, s) {
            (Some(x), Some(y)) => equal(*x, *y),
            (None, None) => true,
            _ => false,
        },
        _ => false,
    }
}

/// Whether two nodes stand for the same tree.
pub fn same_tree(left: &ASTNode, right: &ASTNode) -> (result: bool)
    ensures
        result == (left.model() == right.model()),
    decreases left,
{
    proof {
        lemma_shape(*left);
        lemma_shape(*right);
    }
    match (left, right) {
        (ASTNode::StringLiteral(a), ASTNode::StringLiteral(b)) => same_text(a.as_str(), b.as_str()),
        (ASTNode::IntegerLiteral(a), ASTNode::IntegerLiteral(b)) => *a == *b,
        (ASTNode::RealLiteral(a), ASTNode::RealLiteral(b)) => same_text(a.as_str(), b.as_str()),
        (ASTNode::ArrayLiteral(a), ASTNode::ArrayLiteral(b)) => same_trees(a, b),
        (ASTNode::NullLiteral, ASTNode::NullLiteral) => true,
        (ASTNode::Identifier(a), ASTNode::Identifier(b)) => same_text(a.as_str(), b.as_str()),
        (
            ASTNode::ConditionalExpression(a, o, b),
            ASTNode::ConditionalExpression(c, p, d),
        ) => same_text(o.as_str(), p.as_str()) && same_tree(a, c) && same_tree(b, d),
        (ASTNode::CallExpression(a, x), ASTNode::CallExpression(b, y)) => same_tree(a, b)
            && same_trees(x, y),
        (ASTNode::BinaryExpression(a, o, b), ASTNode::BinaryExpression(c, p, d)) => same_text(
            o.as_str(),
            p.as_str(),
        ) && same_tree(a, c) && same_tree(b, d),
        (ASTNode::AssignmentExpression(a, b), ASTNode::AssignmentExpression(c, d)) => same_tree(
            a,
            c,
        ) && same_tree(b, d),
        (ASTNode::UnaryExpression(o, a), ASTNode::UnaryExpression(p, b)) => same_text(
            o.as_str(),
            p.as_str(),
        ) && same_tree(a, b),
        (ASTNode::MemberExpression(a, b, x), ASTNode::MemberExpression(c, d, y)) => *x == *y
            && same_tree(a, c) && same_tree(b, d),
        (ASTNode::ConversionExpression(a, b), ASTNode::ConversionExpression(c, d)) => same_tree(
            a,
            c,
        ) && same_tree(b, d),
        (ASTNode::VariableDeclaration(a, b), ASTNode::VariableDeclaration(c, d)) => same_tree(
            a,
            c,
        ) && same_tree(b, d),
        (
            ASTNode::FunctionDeclaration(a, x, t, r, b),
            ASTNode::FunctionDeclaration(c, y, u, s, d),
        ) => {
            let outcomes = match (r, s) {
                (Some(m), Some(n)) => same_tree(m, n),
                (None, None) => true,
                _ => false,
            };
            outcomes && same_tree(a, c) && same_trees(x, y) && same_optional_trees(t, u)
                && same_tree(b, d)
        },
        (ASTNode::IfStatement(a, b, e), ASTNode::IfStatement(c, d, f)) => same_tree(a, c)
            && same_tree(b, d) && same_tree(e, f),
        (ASTNode::Program(a), ASTNode::Program(b)) => same_trees(a, b),
        (ASTNode::CaseStatement(a, x), ASTNode::CaseStatement(b, y)) => same_tree(a, b)
            && same_trees(x, y),
        (ASTNode::Case(a, b), ASTNode::Case(c, d)) => same_tree(a, c) && same_tree(b, d),
        _ => false,
    }
}

/// Whether two lists of nodes stand for the same trees.
pub fn same_trees(left: &Vec<ASTNode>, right: &Vec<ASTNode>) -> (result: bool)
    ensures
        result == (trees(left@) == trees(right@)),
    decreases left,
{
    if left.len() != right.len() {
        assert(trees(left@).len() != trees(right@).len());
        return false;
    }
    let mut index: usize = 0;
    while index < left.len()
        invariant
            left@.len() == right@.len(),
            index <= left@.len(),
            forall|i: int| 0 <= i < index ==> left@[i].model() == right@[i].model(),
        decreases left@.len() - index,
    {
        if !same_tree(&left[index], &right[index]) {
            assert(trees(left@)[index as int] != trees(right@)[index as int]);
            return false;
        }
        index += 1;
    }
    assert(trees(left@) =~= trees(right@));
    true
}

fn same_optional_trees(left: &Vec<Option<ASTNode>>, right: &Vec<Option<ASTNode>>) -> (result: bool)
    ensures
        result == (optional_trees(left@) == optional_trees(right@)),
    decreases left,
{
    if left.len() != right.len() {
        assert(optional_trees(left@).len() != optional_trees(right@).len());
        return false;
    }
    let mut index: usize = 0;
    while index < left.len()
        invariant
            left@.len() == right@.len(),
            index <= left@.len(),
            forall|i: int|
                0 <= i < index ==> optional_tree(left@[i]) == optional_tree(right@[i]),
        decreases left@.len() - index,
    {
        let same = match (&left[index], &right[index]) {
            (Some(a), Some(b)) => same_tree(a, b),
            (None, None) => true,
            _ => false,
        };
        if !same {
            assert(optional_trees(left@)[index as int] != optional_trees(right@)[index as int]);
            return false;
        }
        index += 1;
    }
    assert(optional_trees(left@) =~= optional_trees(right@));
    true
}

/// Whether two values are equal.
pub fn equals(left: &RuntimeValue, right: &RuntimeValue) -> (result: bool)
    ensures
        result == equal(left.model(), right.model()),
    decreases left,
{
    proof {
        lemma_value_shape(*left);
        lemma_value_shape(*right);
    }
    match (left, right) {
        (RuntimeValue::Null, RuntimeValue::Null) => true,
        (RuntimeValue::Integer(a), RuntimeValue::Integer(b)) => *a == *b,
        (RuntimeValue::Real(a), RuntimeValue::Real(b)) => equal_reals(*a, *b),
        (RuntimeValue::Boolean(a), RuntimeValue::Boolean(b)) => *a == *b,
        (RuntimeValue::Tuple(a), RuntimeValue::Tuple(b)) => all_equal(a, b),
        (RuntimeValue::String(a), RuntimeValue::String(b)) => same_text(a.as_str(), b.as_str()),
        (RuntimeValue::Array(a), RuntimeValue::Array(b)) => all_equal(a, b),
        (RuntimeValue::Object(a), RuntimeValue::Object(b)) => fields_equal(a, b),
        (RuntimeValue::BuiltInFunction(a), RuntimeValue::BuiltInFunction(b)) => *a == *b,
        (RuntimeValue::Method(m, r, a), RuntimeValue::Method(n, s, b)) => *m == *n && equals(r, s)
            && all_equal(a, b),
        (RuntimeValue::Function(p, t, r, body), RuntimeValue::Function(q, u, s, other)) => {
            let outcomes = match (r, s) {
                (Some(x), Some(y)) => equals(x, y),
                (None, None) => true,
                _ => false,
            };
            same_trees(p, q) && same_tree(body, other) && types_equal(t, u) && outcomes
        },
        _ => false,
    }
}

fn all_equal(left: &Vec<RuntimeValue>, right: &Vec<RuntimeValue>) -> (result: bool)
    ensures
        result == (left@.len() == right@.len() && forall|i: int|
            0 <= i < left@.len() ==> equal(values(left@)[i], #[trigger] values(right@)[i])),
    decreases left,
{
    if left.len() != right.len() {
        return false;
    }
    let mut index: usize = 0;
    while index < left.len()
        invariant
            left@.len() == right@.len(),
            index <= left@.len(),
            forall|i: int|
                0 <= i < index ==> equal(values(left@)[i], #[trigger] values(right@)[i]),
        decreases left@.len() - index,
    {
        if !equals(&left[index], &right[index]) {
            assert(!equal(values(left@)[index as int], values(right@)[index as int]));
            return false;
        }
        index += 1;
    }
    true
}

fn types_equal(left: &Vec<Option<RuntimeValue>>, right: &Vec<Option<RuntimeValue>>) -> (result:
    bool)
    ensures
        result == (left@.len() == right@.len() && forall|i: int|
            0 <= i < left@.len() ==> match (
                optional_values(left@)[i],
                #[trigger] optional_values(right@)[i],
            ) {
                (Some(x), Some(y)) => equal(x, y),
                (None, None) => true,
                _ => false,
            }),
    decreases left,
{
    if left.len() != right.len() {
        return false;
    }
    let mut index: usize = 0;
    while index < left.len()
        invariant
            left@.len() == right@.len(),
            index <= left@.len(),
            forall|i: int|
                0 <= i < index ==> match (
                    optional_values(left@)[i],
                    #[trigger] optional_values(right@)[i],
                ) {
                    (Some(x), Some(y)) => equal(x, y),
                    (None, None) => true,
                    _ => false,
                },
        decreases left@.len() - index,
    {
        let same = match (&left[index], &right[index]) {
            (Some(a), Some(b)) => equals(a, b),
            (None, None) => true,
            _ => false,
        };
        if !same {
            assert(!(match (
                optional_values(left@)[index as int],
                optional_values(right@)[index as int],
            ) {
                (Some(x), Some(y)) => equal(x, y),
                (None, None) => true,
                _ => false,
            }));
            return false;
        }
        index += 1;
    }
    true
}

fn fields_equal(left: &Vec<(String, RuntimeValue)>, right: &Vec<(String, RuntimeValue)>) -> (result:
    bool)
    ensures
        result == (left@.len() == right@.len() && forall|i: int|
            0 <= i < left@.len() ==> field_index(
                fields(right@),
                (#[trigger] fields(left@)[i]).0,
            ) < right@.len() && equal(
                fields(left@)[i].1,
                fields(right@)[field_index(fields(right@), fields(left@)[i].0)].1,
            )),
    decreases left,
{
    if left.len() != right.len() {
        return false;
    }
    let mut index: usize = 0;
    while index < left.len()
        invariant
            left@.len() == right@.len(),
            index <= left@.len(),
            forall|i: int|
                0 <= i < index ==> field_index(fields(right@), (#[trigger] fields(left@)[i]).0)
                    < right@.len() && equal(
                    fields(left@)[i].1,
                    fields(right@)[field_index(fields(right@), fields(left@)[i].0)].1,
                ),
        decreases left@.len() - index,
    {
        let found = find_field(right, left[index].0.as_str());
        let ghost entry = fields(left@)[index as int];
        if found >= right.len() {
            assert(!(field_index(fields(right@), entry.0) < right@.len()));
            return false;
        }
        if !equals(&left[index].1, &right[found].1) {
            assert(!equal(entry.1, fields(right@)[field_index(fields(right@), entry.0)].1));
            return false;
        }
        index += 1;
    }
    true
}

} // verus!
