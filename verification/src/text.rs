//! Texts as sequences of codepoints.

use vstd::prelude::*;

verus! {

/// `String::push` of the standard library appends one `char` to the end of a
/// string and leaves the characters before it as they were. Verus takes this
/// on trust: the standard library's code is not verified here.
pub assume_specification[ String::push ](s: &mut String, ch: char)
    ensures
        final(s)@ == old(s)@.push(ch),
;

/// The codepoints of each string of a list.
pub open spec fn texts(strings: Seq<String>) -> Seq<Seq<char>> {
    Seq::new(strings.len(), |k: int| strings[k]@)
}

/// The codepoints of `text`, in order.
pub fn codepoints(text: &str) -> (chars: Vec<char>)
    ensures
        chars@ == text@,
{
    let mut chars: Vec<char> = Vec::new();
    for c in it: text.chars()
        invariant
            it.seq() == text@,
            chars@ == text@.take(it.index() as int),
    {
        chars.push(c);
    }
    chars
}

/// The `len` codepoints of `chars` that start at `start`, as a string.
pub(crate) fn window(chars: &Vec<char>, start: usize, len: usize) -> (key: String)
    requires
        start + len <= chars.len(),
    ensures
        key@ == chars@.subrange(start as int, start + len),
{
    let mut key = String::new();
    let mut taken: usize = 0;
    while taken < len
        invariant
            taken <= len,
            start + len <= chars.len(),
            key@ == chars@.subrange(start as int, start + taken),
        decreases len - taken,
    {
        key.push(chars[start + taken]);
        taken += 1;
    }
    key
}

} // verus!
