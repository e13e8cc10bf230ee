//! Strings as sequences of characters.

use vstd::prelude::*;

verus! {

/// `String::push` appends the character to the end of the string.
pub assume_specification[ String::push ](s: &mut String, c: char)
    ensures
        final(s)@ == old(s)@.push(c),
;

/// The characters of a string, in order.
pub fn chars_of(string: &str) -> (r: Vec<char>)
    ensures
        r@ == string@,
{
    let mut out: Vec<char> = Vec::new();
    for c in it: string.chars()
        invariant
            out@ == it.seq().take(it.index() as int),
            it.seq() == string@,
    {
        out.push(c);
    }
    out
}

/// The string made of the given characters, in order.
pub fn string_of(chars: &Vec<char>) -> (r: String)
    ensures
        r@ == chars@,
{
    let mut out = String::new();
    let mut i: usize = 0;
    while i < chars.len()
        invariant
            i <= chars.len(),
            out@ == chars@.take(i as int),
        decreases chars.len() - i,
    {
        out.push(chars[i]);
        i += 1;
    }
    out
}

} // verus!
