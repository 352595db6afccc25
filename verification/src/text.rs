//! Conversions between strings and their character sequences.
//!
//! All editing in this crate is by character index. These helpers move between
//! a `String` and the vector of its characters, so that the editing code can
//! index and splice characters directly.

use vstd::prelude::*;
use vstd::utf8::{encode_scalar, encode_utf8};

verus! {

/// Appends one character to a string.
///
/// Trusted: calls `String::push`, which appends the given `char` to the end
/// of the string. The contract claims that the characters of the string
/// afterwards are those before, followed by `c`.
#[verifier::external_body]
pub(crate) fn push_char(s: &mut String, c: char)
    ensures
        final(s)@ == old(s)@.push(c),
{
    s.push(c)
}

/// The characters of `s`, in order.
///
/// The bytes of a string can be counted in a `usize`; this is passed on to
/// the caller, for whom it bounds everything that is counted per byte.
pub fn to_chars(s: &str) -> (chars: Vec<char>)
    ensures
        chars@ == s@,
        encode_utf8(s@).len() <= usize::MAX,
{
    let mut chars: Vec<char> = Vec::new();
    if s.as_bytes().len() == 0 {
        assert(s@.len() == 0) by {
            if s@.len() > 0 {
                assert(encode_utf8(s@).len() >= encode_scalar(s@[0] as u32).len());
            }
        }
        assert(s@ =~= chars@);
        return chars;
    }
    for c in it: s.chars()
        invariant
            it.seq() == s@,
            chars@ == it.seq().take(it.index()),
    {
        chars.push(c);
    }
    chars
}

/// The string made of the characters of `chars`, in order.
pub fn from_chars(chars: &Vec<char>) -> (s: String)
    ensures
        s@ == chars@,
{
    let mut s = String::new();
    let mut i: usize = 0;
    while i < chars.len()
        invariant
            i <= chars.len(),
            s@ == chars@.take(i as int),
        decreases chars.len() - i,
    {
        push_char(&mut s, chars[i]);
        i += 1;
    }
    s
}

} // verus!
