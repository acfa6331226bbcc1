//! Command-line value parsing.

use vstd::prelude::*;

use crate::input::encoding::{parse_u16, parse_u16_exec};
use crate::text::{chars_of, debug_str, push_str, quote_debug};

verus! {

/// Index of the first `x` in `s`.
pub open spec fn first_x(s: Seq<char>) -> Option<int>
    decreases s.len(),
{
    if s.len() == 0 {
        None
    } else if s[0] == 'x' {
        Some(0)
    } else {
        match first_x(s.drop_first()) {
            Some(i) => Some(i + 1),
            None => None,
        }
    }
}

/// `WxH` terminal geometry, or the message refusing it.
pub open spec fn terminal_of_arg(raw: Seq<char>) -> Result<(u16, u16), Seq<char>> {
    match first_x(raw) {
        None => Err("expected WxH, got "@ + debug_str(raw)),
        Some(i) => match parse_u16(raw.take(i)) {
            None => Err("bad width in "@ + debug_str(raw)),
            Some(w) => match parse_u16(raw.skip(i + 1)) {
                None => Err("bad height in "@ + debug_str(raw)),
                Some(h) => Ok((w, h)),
            },
        },
    }
}

proof fn lemma_first_x(s: Seq<char>, i: int)
    requires
        0 <= i <= s.len(),
        forall|k: int| 0 <= k < i ==> s[k] != 'x',
    ensures
        i < s.len() && s[i] == 'x' ==> first_x(s) == Some(i),
        i == s.len() ==> first_x(s) is None,
    decreases s.len(),
{
    if i > 0 {
        lemma_first_x(s.drop_first(), i - 1);
    }
}

fn message_with(prefix: &str, raw: &str) -> (r: String)
    ensures
        r@ == prefix@ + debug_str(raw@),
{
    let mut r = String::new();
    push_str(&mut r, prefix);
    let q = quote_debug(raw);
    push_str(&mut r, q.as_str());
    r
}

/// Parse `120x40` terminal geometry.
pub fn parse_terminal(raw: &str) -> (r: Result<(u16, u16), String>)
    ensures
        match r {
            Ok(wh) => terminal_of_arg(raw@) == Ok::<(u16, u16), Seq<char>>(wh),
            Err(m) => terminal_of_arg(raw@) == Err::<(u16, u16), Seq<char>>(m@),
        },
{
    let chars = chars_of(raw);
    let mut i: usize = 0;
    while i < chars.len() && chars[i] != 'x'
        invariant
            chars@ == raw@,
            i <= chars@.len(),
            forall|k: int| 0 <= k < i ==> chars@[k] != 'x',
        decreases chars@.len() - i,
    {
        i = i + 1;
    }
    proof {
        lemma_first_x(raw@, i as int);
    }
    if i == chars.len() {
        return Err(message_with("expected WxH, got ", raw));
    }
    let mut width_part: Vec<char> = Vec::new();
    let mut k: usize = 0;
    while k < i
        invariant
            k <= i,
            i < chars@.len(),
            width_part@ == chars@.take(k as int),
        decreases i - k,
    {
        width_part.push(chars[k]);
        k = k + 1;
        assert(width_part@ =~= chars@.take(k as int));
    }
    let mut height_part: Vec<char> = Vec::new();
    let mut k: usize = i + 1;
    while k < chars.len()
        invariant
            i + 1 <= k <= chars@.len(),
            height_part@ == chars@.subrange(i + 1, k as int),
        decreases chars@.len() - k,
    {
        height_part.push(chars[k]);
        k = k + 1;
        assert(height_part@ =~= chars@.subrange(i + 1, k as int));
    }
    assert(height_part@ =~= raw@.skip(i + 1));
    let width = match parse_u16_exec(width_part.as_slice()) {
        Some(w) => w,
        None => return Err(message_with("bad width in ", raw)),
    };
    let height = match parse_u16_exec(height_part.as_slice()) {
        Some(h) => h,
        None => return Err(message_with("bad height in ", raw)),
    };
    Ok((width, height))
}

} // verus!
