//! Helpers on strings: the few operations on `String` that the rest of the
//! crate builds on.
use vstd::prelude::*;
use vstd::std_specs::iter::IteratorSpec;

verus! {

/// Appends one character to a string.
///
/// Trusted: calls `String::push`, which appends the given `char` to the end
/// of the string and changes nothing else.
#[verifier::external_body]
pub(crate) fn push_char(text: &mut String, character: char)
    ensures
        final(text)@ == old(text)@.push(character),
{
    text.push(character)
}

/// The characters of a string, in order.
pub fn characters(text: &str) -> (result: Vec<char>)
    ensures
        result@ == text@,
{
    let mut result: Vec<char> = Vec::new();
    let mut rest = text.chars();
    loop
        invariant
            rest.obeys_prophetic_iter_laws(),
            rest.decrease() is Some,
            result@ + rest.remaining() == text@,
        decreases rest.decrease()->0,
    {
        match rest.next() {
            Some(character) => {
                result.push(character);
            },
            None => {
                return result;
            },
        }
    }
}

/// The string made of `characters[from..to]`.
pub fn string_from(characters: &Vec<char>, from: usize, to: usize) -> (result: String)
    requires
        from <= to <= characters@.len(),
    ensures
        result@ == characters@.subrange(from as int, to as int),
{
    let mut result = String::new();
    let mut index: usize = from;
    while index < to
        invariant
            from <= index <= to <= characters@.len(),
            result@ == characters@.subrange(from as int, index as int),
        decreases to - index,
    {
        push_char(&mut result, characters[index]);
        index += 1;
        assert(characters@.subrange(from as int, index as int) == characters@.subrange(
            from as int,
            index - 1,
        ).push(characters@[index - 1]));
    }
    result
}

/// Whether two strings hold the same characters.
pub fn same_text(left: &str, right: &str) -> (result: bool)
    ensures
        result == (left@ == right@),
{
    let a = characters(left);
    let b = characters(right);
    if a.len() != b.len() {
        return false;
    }
    let mut index: usize = 0;
    while index < a.len()
        invariant
            a@ == left@,
            b@ == right@,
            a@.len() == b@.len(),
            index <= a@.len(),
            a@.subrange(0, index as int) == b@.subrange(0, index as int),
        decreases a.len() - index,
    {
        if a[index] != b[index] {
            assert(left@[index as int] != right@[index as int]);
            return false;
        }
        index += 1;
        assert(a@.subrange(0, index as int) == a@.subrange(0, index - 1).push(a@[index - 1]));
        assert(b@.subrange(0, index as int) == b@.subrange(0, index - 1).push(b@[index - 1]));
    }
    assert(a@ == a@.subrange(0, a@.len() as int));
    assert(b@ == b@.subrange(0, b@.len() as int));
    true
}

/// The only character of a string that is one character long.
pub fn single(text: &str) -> (result: Option<char>)
    ensures
        match result {
            Some(character) => text@ == seq![character],
            None => text@.len() != 1,
        },
{
    if text.unicode_len() == 1 {
        let character = text.get_char(0);
        assert(text@ =~= seq![character]);
        Some(character)
    } else {
        None
    }
}

} // verus!
