//! Pure input helpers: case normalization of key names.

use vstd::prelude::*;

use crate::text::{chars_of, string_of};

verus! {

/// ASCII uppercase of one character; everything else is unchanged.
pub open spec fn upper_char(c: char) -> char {
    if 'a' <= c && c <= 'z' {
        ((c as u32) - 32) as char
    } else {
        c
    }
}

/// ASCII uppercase of a character sequence.
pub open spec fn ascii_upper(s: Seq<char>) -> Seq<char> {
    Seq::new(s.len(), |i: int| upper_char(s[i]))
}

/// ASCII uppercase of one character.
pub fn upper_char_exec(c: char) -> (r: char)
    ensures
        r == upper_char(c),
{
    if 'a' <= c && c <= 'z' {
        let b = c as u8;
        assert(b as u32 == c as u32);
        let r = (b - 32) as char;
        r
    } else {
        c
    }
}

/// ASCII uppercase of a character slice.
pub fn upper_chars(v: &[char]) -> (r: Vec<char>)
    ensures
        r@ == ascii_upper(v@),
{
    let mut r: Vec<char> = Vec::new();
    let mut i: usize = 0;
    while i < v.len()
        invariant
            i <= v@.len(),
            r@ =~= ascii_upper(v@.take(i as int)),
        decreases v@.len() - i,
    {
        let c = upper_char_exec(v[i]);
        r.push(c);
        i = i + 1;
        assert(r@ =~= ascii_upper(v@.take(i as int)));
    }
    assert(v@.take(v@.len() as int) =~= v@);
    r
}

/// Normalize a key name for case-insensitive matching (`down` -> `DOWN`).
pub fn normalize_key(name: &str) -> (r: String)
    ensures
        r@ == ascii_upper(name@),
{
    let chars = chars_of(name);
    let upper = upper_chars(chars.as_slice());
    string_of(upper.as_slice())
}

} // verus!
