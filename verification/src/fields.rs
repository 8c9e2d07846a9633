//! Lists of named values: the fields of an object, the bindings of a scope.
use vstd::prelude::*;

use crate::text::same_text;
use crate::values::{fields, RuntimeValue, Value};

verus! {

/// The index of the first field called `name`, or the number of fields
/// where there is none.
pub open spec fn field_index(entries: Seq<(Seq<char>, Value)>, name: Seq<char>) -> int
    decreases entries.len(),
{
    if entries.len() == 0 {
        0
    } else if entries[0].0 == name {
        0
    } else {
        1 + field_index(entries.drop_first(), name)
    }
}

pub proof fn lemma_field_index(entries: Seq<(Seq<char>, Value)>, name: Seq<char>)
    ensures
        0 <= field_index(entries, name) <= entries.len(),
        field_index(entries, name) < entries.len() ==> entries[field_index(entries, name)].0
            == name,
        forall|i: int| 0 <= i < field_index(entries, name) ==> entries[i].0 != name,
    decreases entries.len(),
{
    if entries.len() > 0 && entries[0].0 != name {
        let rest = entries.drop_first();
        lemma_field_index(rest, name);
        assert forall|i: int| 0 <= i < field_index(entries, name) implies entries[i].0
            != name by {
            if i > 0 {
                assert(entries[i] == rest[i - 1]);
            }
        }
    }
}

/// The value bound to `name`, if there is one.
pub open spec fn bound(entries: Seq<(Seq<char>, Value)>, name: Seq<char>) -> Option<Value> {
    if field_index(entries, name) < entries.len() {
        Some(entries[field_index(entries, name)].1)
    } else {
        None
    }
}

/// The bindings with `name` bound to `value`, in place of what it was bound
/// to before.
pub open spec fn stored(entries: Seq<(Seq<char>, Value)>, name: Seq<char>, value: Value) -> Seq<
    (Seq<char>, Value),
> {
    if field_index(entries, name) < entries.len() {
        entries.update(field_index(entries, name), (name, value))
    } else {
        entries.push((name, value))
    }
}

/// The position of the first field called `name`.
pub fn find_field(entries: &Vec<(String, RuntimeValue)>, name: &str) -> (index: usize)
    ensures
        index == field_index(fields(entries@), name@),
        index <= entries@.len(),
{
    let mut index: usize = 0;
    let ghost all = fields(entries@);
    assert(all.subrange(0, all.len() as int) == all);
    while index < entries.len()
        invariant
            index <= entries@.len(),
            all == fields(entries@),
            field_index(all, name@) == index + field_index(
                all.subrange(index as int, all.len() as int),
                name@,
            ),
        decreases entries@.len() - index,
    {
        let ghost rest = all.subrange(index as int, all.len() as int);
        assert(rest[0] == all[index as int]);
        assert(rest.drop_first() == all.subrange(index + 1, all.len() as int));
        if same_text(entries[index].0.as_str(), name) {
            return index;
        }
        index += 1;
    }
    assert(all.subrange(0, all.len() as int) == all);
    index
}

/// Binds `name` to `value`, in place of what it was bound to before.
pub fn store(entries: &mut Vec<(String, RuntimeValue)>, name: String, value: RuntimeValue)
    ensures
        fields(final(entries)@) == stored(fields(old(entries)@), name@, value.model()),
{
    let found = find_field(entries, name.as_str());
    let ghost before = fields(entries@);
    if found < entries.len() {
        entries.set(found, (name, value));
        assert(fields(entries@) =~= before.update(found as int, (name@, value.model())));
    } else {
        entries.push((name, value));
        assert(fields(entries@) =~= before.push((name@, value.model())));
    }
}

/// The fields that a list of entries comes to when each entry is bound in
/// turn, a later one in place of an earlier one of the same name.
pub open spec fn collected(entries: Seq<(Seq<char>, Value)>) -> Seq<(Seq<char>, Value)>
    decreases entries.len(),
{
    if entries.len() == 0 {
        Seq::empty()
    } else {
        stored(collected(entries.drop_last()), entries.last().0, entries.last().1)
    }
}

/// No two fields have the same name.
pub open spec fn distinct_names(entries: Seq<(Seq<char>, Value)>) -> bool {
    forall|i: int, j: int|
        0 <= i < j < entries.len() ==> (#[trigger] entries[i]).0 != (#[trigger] entries[j]).0
}

/// Binding a name keeps the names distinct.
pub proof fn lemma_stored_distinct(entries: Seq<(Seq<char>, Value)>, name: Seq<char>, value: Value)
    requires
        distinct_names(entries),
    ensures
        distinct_names(stored(entries, name, value)),
{
    lemma_field_index(entries, name);
    let at = field_index(entries, name);
    let after = stored(entries, name, value);
    assert forall|i: int, j: int| 0 <= i < j < after.len() implies (#[trigger] after[i]).0 != (
    #[trigger] after[j]).0 by {
        if at < entries.len() {
            assert(after[i].0 == entries[i].0);
            assert(after[j].0 == entries[j].0);
        } else if j == entries.len() {
            assert(after[i] == entries[i]);
        } else {
            assert(after[i] == entries[i]);
            assert(after[j] == entries[j]);
        }
    }
}

/// What [`collected`] gives has no name twice.
pub proof fn lemma_collected_distinct(entries: Seq<(Seq<char>, Value)>)
    ensures
        distinct_names(collected(entries)),
    decreases entries.len(),
{
    if entries.len() > 0 {
        lemma_collected_distinct(entries.drop_last());
        lemma_stored_distinct(
            collected(entries.drop_last()),
            entries.last().0,
            entries.last().1,
        );
    }
}

} // verus!
