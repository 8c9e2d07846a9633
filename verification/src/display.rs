//! How values are written out.
//!
//! A value is written as a sequence of glyphs: characters, and reals that
//! the host has yet to put into decimal notation.
use vstd::prelude::*;

use crate::number::{integer_text, integer_text_of};
use crate::operations::{boolean_text, boolean_text_of};
use crate::text::characters;
use crate::values::{fields, lemma_value_shape, values, RuntimeValue, Value};

verus! {

/// One unit of output.
#[derive(Clone, Copy, Debug, PartialEq, Eq, Structural)]
pub enum Glyph {
    Character(char),
    /// A real, to be written in decimal notation.
    Real(u64),
}

/// The glyph of a character.
pub open spec fn letter(character: char) -> Glyph {
    Glyph::Character(character)
}

/// A text as glyphs.
pub open spec fn glyphs(text: Seq<char>) -> Seq<Glyph>
    decreases text.len(),
{
    if text.len() == 0 {
        Seq::empty()
    } else {
        glyphs(text.drop_last()).push(letter(text.last()))
    }
}

/// The first `count` items as they are written, with `, ` between each two
/// of them.
#[verifier::opaque]
pub open spec fn rendering_items(items: Seq<Value>, count: nat) -> Seq<Glyph>
    decreases items, count,
{
    if count == 0 || count > items.len() {
        Seq::empty()
    } else if count == 1 {
        rendering(items[0])
    } else {
        rendering_items(items, (count - 1) as nat) + glyphs(seq![',', ' ']) + rendering(
            items[count - 1],
        )
    }
}

/// The first `count` fields as they are written, each as name, `: ` and
/// value, with `, ` between each two of them.
#[verifier::opaque]
pub open spec fn rendering_fields(entries: Seq<(Seq<char>, Value)>, count: nat) -> Seq<Glyph>
    decreases entries, count,
{
    if count == 0 || count > entries.len() {
        Seq::empty()
    } else if count == 1 {
        glyphs(entries[0].0) + glyphs(seq![':', ' ']) + rendering(entries[0].1)
    } else {
        rendering_fields(entries, (count - 1) as nat) + glyphs(seq![',', ' ']) + (glyphs(
            entries[count - 1].0,
        ) + glyphs(seq![':', ' ']) + rendering(entries[count - 1].1))
    }
}

/// How a value is written: integers and reals as numbers, booleans as
/// `true` and `false`, null as `null`, a string as its contents, an array
/// as `[a, b]`, a tuple as `(a, b)`, an object as `{name: a, other: b}`.
#[verifier::opaque]
pub open spec fn rendering(value: Value) -> Seq<Glyph>
    decreases value, 0nat,
{
    match value {
        Value::Null => glyphs("null"@),
        Value::Integer(i) => glyphs(integer_text_of(i as int)),
        Value::Real(bits) => seq![Glyph::Real(bits)],
        Value::Boolean(b) => glyphs(boolean_text_of(b)),
        Value::String(text) => glyphs(text),
        Value::Array(items) => glyphs(seq!['[']) + rendering_items(items, items.len()) + glyphs(
            seq![']'],
        ),
        Value::Tuple(items) => glyphs(seq!['(']) + rendering_items(items, items.len()) + glyphs(
            seq![')'],
        ),
        Value::Object(entries) => glyphs(seq!['{']) + rendering_fields(entries, entries.len())
            + glyphs(seq!['}']),
        Value::BuiltInFunction(_) => glyphs("<built-in function>"@),
        Value::Method(_, _, _) => glyphs("<method>"@),
        Value::Function(_, _, _, _) => glyphs("<function>"@),
    }
}

/// The definition of [`rendering`], for one value.
pub proof fn unfold_rendering(value: Value)
    ensures
        rendering(value) == match value {
            Value::Null => glyphs("null"@),
            Value::Integer(i) => glyphs(integer_text_of(i as int)),
            Value::Real(bits) => seq![Glyph::Real(bits)],
            Value::Boolean(b) => glyphs(boolean_text_of(b)),
            Value::String(text) => glyphs(text),
            Value::Array(items) => glyphs(seq!['[']) + rendering_items(items, items.len())
                + glyphs(seq![']']),
            Value::Tuple(items) => glyphs(seq!['(']) + rendering_items(items, items.len())
                + glyphs(seq![')']),
            Value::Object(entries) => glyphs(seq!['{']) + rendering_fields(
                entries,
                entries.len(),
            ) + glyphs(seq!['}']),
            Value::BuiltInFunction(_) => glyphs("<built-in function>"@),
            Value::Method(_, _, _) => glyphs("<method>"@),
            Value::Function(_, _, _, _) => glyphs("<function>"@),
        },
{
    reveal(rendering);
    reveal(rendering_items);
    reveal(rendering_fields);
}

/// The definition of [`rendering_items`], for one count.
pub proof fn unfold_rendering_items(items: Seq<Value>, count: nat)
    ensures
        rendering_items(items, count) == if count == 0 || count > items.len() {
            Seq::empty()
        } else if count == 1 {
            rendering(items[0])
        } else {
            rendering_items(items, (count - 1) as nat) + glyphs(seq![',', ' ']) + rendering(
                items[count - 1],
            )
        },
{
    reveal(rendering);
    reveal(rendering_items);
}

/// The definition of [`rendering_fields`], for one count.
pub proof fn unfold_rendering_fields(entries: Seq<(Seq<char>, Value)>, count: nat)
    ensures
        rendering_fields(entries, count) == if count == 0 || count > entries.len() {
            Seq::empty()
        } else if count == 1 {
            glyphs(entries[0].0) + glyphs(seq![':', ' ']) + rendering(entries[0].1)
        } else {
            rendering_fields(entries, (count - 1) as nat) + glyphs(seq![',', ' ']) + (glyphs(
                entries[count - 1].0,
            ) + glyphs(seq![':', ' ']) + rendering(entries[count - 1].1))
        },
{
    reveal(rendering);
    reveal(rendering_fields);
}

pub proof fn lemma_glyphs_push(text: Seq<char>, character: char)
    ensures
        glyphs(text.push(character)) == glyphs(text).push(letter(character)),
        glyphs(Seq::<char>::empty()) == Seq::<Glyph>::empty(),
        glyphs(seq![character]) == seq![letter(character)],
{
    reveal_with_fuel(glyphs, 3);
    assert(text.push(character).drop_last() =~= text);
    assert(seq![character].drop_last() =~= Seq::<char>::empty());
    assert(glyphs(Seq::<char>::empty()) =~= Seq::<Glyph>::empty());
    assert(glyphs(seq![character]) =~= seq![letter(character)]);
}

pub proof fn lemma_glyphs_pair(first: char, second: char)
    ensures
        glyphs(seq![first, second]) == seq![letter(first), letter(second)],
{
    lemma_glyphs_push(seq![first], second);
    lemma_glyphs_push(Seq::empty(), first);
    assert(seq![first, second] =~= seq![first].push(second));
    assert(seq![letter(first)].push(letter(second)) =~= seq![
        letter(first),
        letter(second),
    ]);
}

/// Appends a text to the output.
pub fn write_text(out: &mut Vec<Glyph>, text: &str)
    ensures
        final(out)@ == old(out)@ + glyphs(text@),
{
    let source = characters(text);
    let mut index: usize = 0;
    let ghost start = out@;
    proof {
        lemma_glyphs_push(Seq::empty(), ' ');
        assert(text@.subrange(0, 0) =~= Seq::<char>::empty());
        assert(out@ =~= start + Seq::<Glyph>::empty());
    }
    while index < source.len()
        invariant
            index <= source@.len(),
            source@ == text@,
            out@ == start + glyphs(text@.subrange(0, index as int)),
        decreases source@.len() - index,
    {
        out.push(Glyph::Character(source[index]));
        proof {
            let shorter = text@.subrange(0, index as int);
            lemma_glyphs_push(shorter, source@[index as int]);
            assert(text@.subrange(0, index + 1) =~= shorter.push(source@[index as int]));
            assert(out@ =~= start + glyphs(shorter).push(letter(source@[index as int])));
        }
        index += 1;
    }
    assert(text@.subrange(0, index as int) == text@);
}

fn write_char(out: &mut Vec<Glyph>, character: char)
    ensures
        final(out)@ == old(out)@ + glyphs(seq![character]),
{
    out.push(Glyph::Character(character));
    proof {
        lemma_glyphs_push(Seq::empty(), character);
        assert(out@ =~= old(out)@ + seq![letter(character)]);
    }
}

fn write_separator(out: &mut Vec<Glyph>, first: char)
    ensures
        final(out)@ == old(out)@ + glyphs(seq![first, ' ']),
{
    out.push(Glyph::Character(first));
    out.push(Glyph::Character(' '));
    proof {
        lemma_glyphs_pair(first, ' ');
        assert(out@ =~= old(out)@ + seq![letter(first), letter(' ')]);
    }
}

/// Appends a value to the output.
pub fn render(value: &RuntimeValue, out: &mut Vec<Glyph>)
    ensures
        final(out)@ == old(out)@ + rendering(value.model()),
    decreases value,
{
    proof {
        lemma_value_shape(*value);
        unfold_rendering(value.model());
    }
    match value {
        RuntimeValue::Null => write_text(out, "null"),
        RuntimeValue::Integer(i) => {
            let text = integer_text(*i);
            write_text(out, text.as_str());
        },
        RuntimeValue::Real(bits) => {
            out.push(Glyph::Real(*bits));
            assert(out@ =~= old(out)@ + seq![Glyph::Real(*bits)]);
        },
        RuntimeValue::Boolean(b) => {
            let text = boolean_text(*b);
            write_text(out, text.as_str());
        },
        RuntimeValue::String(text) => write_text(out, text.as_str()),
        RuntimeValue::Array(items) => {
            write_char(out, '[');
            render_items(items, out);
            write_char(out, ']');
            assert(out@ =~= old(out)@ + (glyphs(seq!['[']) + rendering_items(
                values(items@),
                items@.len(),
            ) + glyphs(seq![']'])));
        },
        RuntimeValue::Tuple(items) => {
            write_char(out, '(');
            render_items(items, out);
            write_char(out, ')');
            assert(out@ =~= old(out)@ + (glyphs(seq!['(']) + rendering_items(
                values(items@),
                items@.len(),
            ) + glyphs(seq![')'])));
        },
        RuntimeValue::Object(entries) => {
            write_char(out, '{');
            render_fields(entries, out);
            write_char(out, '}');
            assert(out@ =~= old(out)@ + (glyphs(seq!['{']) + rendering_fields(
                fields(entries@),
                entries@.len(),
            ) + glyphs(seq!['}'])));
        },
        RuntimeValue::BuiltInFunction(_) => write_text(out, "<built-in function>"),
        RuntimeValue::Method(_, _, _) => write_text(out, "<method>"),
        RuntimeValue::Function(_, _, _, _) => write_text(out, "<function>"),
    }
}

fn render_items(items: &Vec<RuntimeValue>, out: &mut Vec<Glyph>)
    ensures
        final(out)@ == old(out)@ + rendering_items(values(items@), items@.len()),
    decreases items,
{
    let ghost all = values(items@);
    let ghost start = out@;
    let mut index: usize = 0;
    proof {
        unfold_rendering_items(all, 0);
        assert(out@ =~= start + rendering_items(all, 0));
    }
    while index < items.len()
        invariant
            index <= items@.len(),
            all == values(items@),
            out@ == start + rendering_items(all, index as nat),
        decreases items@.len() - index,
    {
        if index > 0 {
            write_separator(out, ',');
        }
        render(&items[index], out);
        proof {
            unfold_rendering_items(all, index as nat);
            unfold_rendering_items(all, (index + 1) as nat);
            assert(all[index as int] == items@[index as int].model());
            let item = rendering(all[index as int]);
            let earlier = rendering_items(all, index as nat);
            if index == 0 {
                assert(out@ =~= start + item);
            } else {
                assert(out@ =~= start + (earlier + glyphs(seq![',', ' ']) + item));
            }
        }
        index += 1;
    }
}

fn render_fields(entries: &Vec<(String, RuntimeValue)>, out: &mut Vec<Glyph>)
    ensures
        final(out)@ == old(out)@ + rendering_fields(fields(entries@), entries@.len()),
    decreases entries,
{
    let ghost all = fields(entries@);
    let ghost start = out@;
    let mut index: usize = 0;
    proof {
        unfold_rendering_fields(all, 0);
        assert(out@ =~= start + rendering_fields(all, 0));
    }
    while index < entries.len()
        invariant
            index <= entries@.len(),
            all == fields(entries@),
            out@ == start + rendering_fields(all, index as nat),
        decreases entries@.len() - index,
    {
        if index > 0 {
            write_separator(out, ',');
        }
        let entry = &entries[index];
        write_text(out, entry.0.as_str());
        write_separator(out, ':');
        render(&entry.1, out);
        proof {
            unfold_rendering_fields(all, index as nat);
            unfold_rendering_fields(all, (index + 1) as nat);
            assert(all[index as int] == (entry.0@, entry.1.model()));
            let item = glyphs(entry.0@) + glyphs(seq![':', ' ']) + rendering(entry.1.model());
            let earlier = rendering_fields(all, index as nat);
            if index == 0 {
                assert(out@ =~= start + item);
            } else {
                assert(out@ =~= start + (earlier + glyphs(seq![',', ' ']) + item));
            }
        }
        index += 1;
    }
}

} // verus!
