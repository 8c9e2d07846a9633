//! The native functions `print`, `input` and `tup`, without their I/O: what
//! is to be written, and what a line that was read becomes.
use vstd::prelude::*;

use crate::display::{glyphs, lemma_glyphs_push, letter, render, rendering, Glyph};
use crate::text::{characters, string_from};
use crate::values::{values, RuntimeValue, Value};

verus! {

/// The renderings of the values, one after the other.
pub open spec fn written(arguments: Seq<Value>) -> Seq<Glyph>
    decreases arguments.len(),
{
    if arguments.len() == 0 {
        Seq::empty()
    } else {
        written(arguments.drop_last()) + rendering(arguments.last())
    }
}

/// What `print` writes: its arguments in order with nothing between them,
/// and a line feed.
pub open spec fn printed(arguments: Seq<Value>) -> Seq<Glyph> {
    written(arguments) + glyphs(seq!['\n'])
}

/// A line without the line feeds and carriage returns at its end.
pub open spec fn stripped(line: Seq<char>) -> Seq<char>
    decreases line.len(),
{
    if line.len() > 0 && (line.last() == '\n' || line.last() == '\r') {
        stripped(line.drop_last())
    } else {
        line
    }
}

/// What `print` has to write for the given arguments. Its value is null.
pub fn print(arguments: &Vec<RuntimeValue>) -> (output: Vec<Glyph>)
    ensures
        output@ == printed(values(arguments@)),
{
    let mut output: Vec<Glyph> = Vec::new();
    let mut index: usize = 0;
    let ghost all = values(arguments@);
    assert(all.subrange(0, 0) =~= Seq::<Value>::empty());
    while index < arguments.len()
        invariant
            index <= arguments@.len(),
            all == values(arguments@),
            output@ == written(all.subrange(0, index as int)),
        decreases arguments@.len() - index,
    {
        render(&arguments[index], &mut output);
        proof {
            let longer = all.subrange(0, index + 1);
            assert(longer.drop_last() =~= all.subrange(0, index as int));
            assert(longer.last() == arguments@[index as int].model());
        }
        index += 1;
    }
    assert(all.subrange(0, index as int) =~= all);
    output.push(Glyph::Character('\n'));
    proof {
        lemma_glyphs_push(Seq::empty(), '\n');
        assert(output@ =~= written(all) + seq![letter('\n')]);
    }
    output
}

/// The value of `input`, given the line that was read: the line as a
/// string, without the line break at its end.
pub fn input(line: String) -> (value: RuntimeValue)
    ensures
        value.model() == Value::String(stripped(line@)),
{
    let source = characters(line.as_str());
    let mut end: usize = source.len();
    assert(source@.subrange(0, end as int) == source@);
    while end > 0 && (source[end - 1] == '\n' || source[end - 1] == '\r')
        invariant
            end <= source@.len(),
            stripped(source@.subrange(0, end as int)) == stripped(source@),
        decreases end,
    {
        assert(source@.subrange(0, end as int).drop_last() == source@.subrange(0, end - 1));
        end -= 1;
    }
    RuntimeValue::String(string_from(&source, 0, end))
}

/// The value of `tup`: its arguments as a tuple.
pub fn tup(values: Vec<RuntimeValue>) -> (value: RuntimeValue)
    ensures
        value.model() == Value::Tuple(crate::values::values(values@)),
{
    RuntimeValue::tuple(values)
}

} // verus!
