//! Characters and strings: the few conversions the rest of the crate needs.
use vstd::prelude::*;

verus! {

/// Whether `v` is a Unicode scalar value: a code point up to `U+10FFFF`
/// outside the surrogate range.
pub open spec fn is_scalar_value(v: u32) -> bool {
    v <= 0xD7FF || (0xE000 <= v && v <= 0x10FFFF)
}

/// The character whose code point is `v`, if there is one.
pub open spec fn scalar_char(v: u32) -> Option<char> {
    if is_scalar_value(v) {
        Some(v as char)
    } else {
        None
    }
}

/// `char::from_u32` gives the character with the code point `v`, and `None`
/// where `v` is a surrogate or lies above `U+10FFFF`.
pub assume_specification[ char::from_u32 ](v: u32) -> (c: Option<char>)
    ensures
        c == scalar_char(v),
;

/// `String::push` appends one character to the end of the string.
pub assume_specification[ String::push ](s: &mut String, c: char)
    ensures
        final(s)@ == old(s)@.push(c),
;

/// The characters of `s`, one by one.
pub fn chars_of(s: &str) -> (chars: Vec<char>)
    ensures
        chars@ == s@,
{
    let mut chars: Vec<char> = Vec::new();
    for c in it: s.chars()
        invariant
            it.seq() == s@,
            chars@ == s@.take(it.index()),
    {
        proof {
            assert(s@.take(it.index() + 1) =~= s@.take(it.index()).push(s@[it.index()]));
        }
        chars.push(c);
    }
    proof {
        assert(s@.take(s@.len() as int) =~= s@);
    }
    chars
}

} // verus!
