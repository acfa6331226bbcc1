//! Key and text encoding to terminal bytes.
//!
//! Named keys follow xterm sequences; mouse actions follow SGR (see
//! [`crate::input::mouse`]). Unknown names are an error, not silent garbage.

use vstd::prelude::*;
use vstd::utf8::encode_utf8;

use crate::input::error::InputError;
use crate::input::mouse::{
    mouse_press, mouse_release, mouse_scroll_down, mouse_scroll_up, sgr_bytes, MouseButton,
};
use crate::input::utils::{ascii_upper, upper_char, upper_chars};
use crate::text::{
    dec_chars,
    chars_of, eq_lit, is_white_space, is_white_space_exec, push_str, starts_with_lit, string_of,
};
use crate::utf8::{encode_chars, lemma_encode_utf8_single, push_encoded_chars};

verus! {

/// xterm bytes of a canonical (uppercase) key name, if it is one.
pub open spec fn named_bytes(u: Seq<char>) -> Option<Seq<u8>> {
    if u == "ENTER"@ {
        Some(seq![0x0du8])
    } else if u == "ESC"@ {
        Some(seq![0x1bu8])
    } else if u == "TAB"@ {
        Some(seq![0x09u8])
    } else if u == "BACKTAB"@ {
        Some(seq![0x1bu8, 0x5b, 0x5a])
    } else if u == "UP"@ {
        Some(seq![0x1bu8, 0x5b, 0x41])
    } else if u == "DOWN"@ {
        Some(seq![0x1bu8, 0x5b, 0x42])
    } else if u == "RIGHT"@ {
        Some(seq![0x1bu8, 0x5b, 0x43])
    } else if u == "LEFT"@ {
        Some(seq![0x1bu8, 0x5b, 0x44])
    } else if u == "HOME"@ {
        Some(seq![0x1bu8, 0x5b, 0x48])
    } else if u == "END"@ {
        Some(seq![0x1bu8, 0x5b, 0x46])
    } else if u == "PGUP"@ {
        Some(seq![0x1bu8, 0x5b, 0x35, 0x7e])
    } else if u == "PGDN"@ {
        Some(seq![0x1bu8, 0x5b, 0x36, 0x7e])
    } else if u == "INSERT"@ {
        Some(seq![0x1bu8, 0x5b, 0x32, 0x7e])
    } else if u == "DELETE"@ {
        Some(seq![0x1bu8, 0x5b, 0x33, 0x7e])
    } else if u == "F1"@ {
        Some(seq![0x1bu8, 0x4f, 0x50])
    } else if u == "F2"@ {
        Some(seq![0x1bu8, 0x4f, 0x51])
    } else if u == "F3"@ {
        Some(seq![0x1bu8, 0x4f, 0x52])
    } else if u == "F4"@ {
        Some(seq![0x1bu8, 0x4f, 0x53])
    } else if u == "F5"@ {
        Some(seq![0x1bu8, 0x5b, 0x31, 0x35, 0x7e])
    } else if u == "F6"@ {
        Some(seq![0x1bu8, 0x5b, 0x31, 0x37, 0x7e])
    } else if u == "F7"@ {
        Some(seq![0x1bu8, 0x5b, 0x31, 0x38, 0x7e])
    } else if u == "F8"@ {
        Some(seq![0x1bu8, 0x5b, 0x31, 0x39, 0x7e])
    } else if u == "F9"@ {
        Some(seq![0x1bu8, 0x5b, 0x32, 0x30, 0x7e])
    } else if u == "F10"@ {
        Some(seq![0x1bu8, 0x5b, 0x32, 0x31, 0x7e])
    } else if u == "F11"@ {
        Some(seq![0x1bu8, 0x5b, 0x32, 0x33, 0x7e])
    } else if u == "F12"@ {
        Some(seq![0x1bu8, 0x5b, 0x32, 0x34, 0x7e])
    } else {
        None
    }
}

/// Characters after `CTRL+` that map to control codes besides letters.
pub open spec fn is_ctrl_punct(c: char) -> bool {
    c == '@' || c == '[' || c == '\\' || c == ']' || c == '^' || c == '_'
}

/// `CTRL+x` encoding of the text after the prefix.
pub open spec fn spec_ctrl(rest: Seq<char>) -> Result<Seq<u8>, Seq<char>> {
    if rest.len() == 1 && (('A' <= rest[0] && rest[0] <= 'Z') || is_ctrl_punct(rest[0])) {
        Ok(seq![((rest[0] as u32) - 64) as u8])
    } else if rest.len() == 1 && rest[0] == '?' {
        Ok(seq![0x7fu8])
    } else {
        Err("CTRL+"@ + rest)
    }
}

/// `ALT+x` encoding: ESC then the UTF-8 bytes of the text after the prefix.
pub open spec fn spec_alt(rest: Seq<char>) -> Result<Seq<u8>, Seq<char>> {
    if rest.len() == 0 {
        Err("ALT+"@)
    } else {
        Ok(seq![0x1bu8] + encode_utf8(rest))
    }
}

/// Scanning state of whitespace splitting: finished tokens, current token.
pub open spec fn ws_split_state(s: Seq<char>) -> (Seq<Seq<char>>, Seq<char>)
    decreases s.len(),
{
    if s.len() == 0 {
        (seq![], seq![])
    } else {
        let (toks, cur) = ws_split_state(s.drop_last());
        let c = s.last();
        if is_white_space(c) {
            if cur.len() > 0 {
                (toks.push(cur), seq![])
            } else {
                (toks, cur)
            }
        } else {
            (toks, cur.push(c))
        }
    }
}

/// The maximal non-whitespace runs of `s` (`str::split_whitespace`).
pub open spec fn split_ws(s: Seq<char>) -> Seq<Seq<char>> {
    let (toks, cur) = ws_split_state(s);
    if cur.len() > 0 {
        toks.push(cur)
    } else {
        toks
    }
}

/// ASCII decimal digit.
pub open spec fn is_digit(c: char) -> bool {
    '0' <= c && c <= '9'
}

/// Value of a run of decimal digits.
pub open spec fn digits_value(s: Seq<char>) -> nat
    decreases s.len(),
{
    if s.len() == 0 {
        0
    } else {
        digits_value(s.drop_last()) * 10 + ((s.last() as u32) - 48) as nat
    }
}

/// The digits of an unsigned number after an optional `+`.
pub open spec fn unsigned_digits(t: Seq<char>) -> Seq<char> {
    if t.len() > 0 && t[0] == '+' {
        t.skip(1)
    } else {
        t
    }
}

/// `u16::from_str`: optional `+`, then one or more ASCII digits, in range.
pub open spec fn parse_u16(t: Seq<char>) -> Option<u16> {
    let d = unsigned_digits(t);
    if d.len() > 0 && (forall|i: int| 0 <= i < d.len() ==> is_digit(#[trigger] d[i]))
        && digits_value(d) <= 65535 {
        Some(digits_value(d) as u16)
    } else {
        None
    }
}

/// The mouse gesture names that take two coordinates.
pub open spec fn is_mouse_word(k: Seq<char>) -> bool {
    k == "CLICK"@ || k == "RIGHT_CLICK"@ || k == "MIDDLE_CLICK"@ || k == "RELEASE"@ || k
        == "SCROLL_UP"@ || k == "SCROLL_DOWN"@
}

/// SGR bytes of a two-coordinate mouse gesture.
pub open spec fn mouse_word_bytes(k: Seq<char>, x: u16, y: u16) -> Seq<u8> {
    if k == "CLICK"@ {
        sgr_bytes(0, x, y, false)
    } else if k == "RIGHT_CLICK"@ {
        sgr_bytes(2, x, y, false)
    } else if k == "MIDDLE_CLICK"@ {
        sgr_bytes(1, x, y, false)
    } else if k == "RELEASE"@ {
        sgr_bytes(0, x, y, true)
    } else if k == "SCROLL_UP"@ {
        sgr_bytes(64, x, y, false)
    } else {
        sgr_bytes(65, x, y, false)
    }
}

/// Mouse gesture encoding of a normalized name: `None` when the name is
/// not a mouse gesture, so other interpretations apply.
pub open spec fn spec_mouse(u: Seq<char>) -> Option<Result<Seq<u8>, Seq<char>>> {
    let toks = split_ws(u);
    if toks.len() == 0 {
        None
    } else {
        let kind = toks[0];
        let rest = toks.skip(1);
        if exists|i: int| 0 <= i < rest.len() && parse_u16(#[trigger] rest[i]) is None {
            if is_mouse_word(kind) || kind == "DRAG"@ {
                Some(Err(u + ": coordinates must be integers"@))
            } else {
                None
            }
        } else if is_mouse_word(kind) && rest.len() == 2 {
            Some(Ok(mouse_word_bytes(kind, parse_u16(rest[0])->0, parse_u16(rest[1])->0)))
        } else if is_mouse_word(kind) {
            Some(Err(u + ": expected 2 coordinates: e.g. CLICK 10 5"@))
        } else {
            None
        }
    }
}

/// Whether `s` begins with `p`.
pub open spec fn has_prefix(s: Seq<char>, p: Seq<char>) -> bool {
    p.len() <= s.len() && s.take(p.len() as int) == p
}

/// Encoding of a `press` argument; `Err` carries the name reported as
/// unknown.
pub open spec fn spec_encode_key(name: Seq<char>) -> Result<Seq<u8>, Seq<char>> {
    let u = ascii_upper(name);
    if named_bytes(u) is Some {
        Ok(named_bytes(u)->0)
    } else if has_prefix(u, "CTRL+"@) {
        spec_ctrl(u.skip(5))
    } else if has_prefix(u, "ALT+"@) {
        spec_alt(name.skip(4))
    } else if spec_mouse(u) is Some {
        spec_mouse(u)->0
    } else if name.len() == 1 {
        Ok(encode_utf8(name))
    } else {
        Err(name)
    }
}

/// ASCII lowercase of a character sequence.
pub open spec fn ascii_lower(s: Seq<char>) -> Seq<char> {
    Seq::new(
        s.len(),
        |i: int|
            if 'A' <= s[i] && s[i] <= 'Z' {
                ((s[i] as u32) + 32) as char
            } else {
                s[i]
            },
    )
}

/// Key names are case-insensitive: a name of two or more characters that
/// is not an `ALT+` chord encodes as its uppercase and its lowercase do
/// (only single characters and what follows `ALT+` keep their case).
pub proof fn lemma_key_names_ignore_case(name: Seq<char>)
    requires
        name.len() >= 2,
        !has_prefix(ascii_upper(name), "ALT+"@),
    ensures
        spec_encode_key(name) is Ok ==> spec_encode_key(name) == spec_encode_key(ascii_upper(name)),
        spec_encode_key(name) is Ok ==> spec_encode_key(name) == spec_encode_key(ascii_lower(name)),
        spec_encode_key(name) is Err <==> spec_encode_key(ascii_upper(name)) is Err,
        spec_encode_key(name) is Err <==> spec_encode_key(ascii_lower(name)) is Err,
{
    let u = ascii_upper(name);
    let l = ascii_lower(name);
    assert forall|i: int| 0 <= i < name.len() implies upper_char(upper_char(name[i])) == upper_char(name[i]) by {
        let c = name[i];
        if 'a' <= c && c <= 'z' {
            assert(((c as u32) - 32) as char <= 'Z');
        }
    }
    assert(ascii_upper(u) =~= u);
    assert forall|i: int| 0 <= i < name.len() implies upper_char(#[trigger] l[i]) == upper_char(name[i]) by {
        let c = name[i];
        if 'A' <= c && c <= 'Z' {
            assert('a' <= ((c as u32) + 32) as char <= 'z');
            assert((((((c as u32) + 32) as char) as u32) - 32) as char == c);
        }
    }
    assert(ascii_upper(l) =~= u);
}

proof fn lemma_named_short(u: Seq<char>)
    requires
        named_bytes(u) is Some,
    ensures
        u.len() <= 7,
        u.len() == 7 ==> u[0] == 'B',
        u.len() == 5 ==> u[0] != 'C',
{
    reveal_strlit("ENTER");
    reveal_strlit("ESC");
    reveal_strlit("TAB");
    reveal_strlit("BACKTAB");
    reveal_strlit("UP");
    reveal_strlit("DOWN");
    reveal_strlit("RIGHT");
    reveal_strlit("LEFT");
    reveal_strlit("HOME");
    reveal_strlit("END");
    reveal_strlit("PGUP");
    reveal_strlit("PGDN");
    reveal_strlit("INSERT");
    reveal_strlit("DELETE");
    reveal_strlit("F1");
    reveal_strlit("F2");
    reveal_strlit("F3");
    reveal_strlit("F4");
    reveal_strlit("F5");
    reveal_strlit("F6");
    reveal_strlit("F7");
    reveal_strlit("F8");
    reveal_strlit("F9");
    reveal_strlit("F10");
    reveal_strlit("F11");
    reveal_strlit("F12");
}

proof fn lemma_ws_state_append_run(s: Seq<char>, t: Seq<char>)
    requires
        forall|i: int| 0 <= i < t.len() ==> !is_white_space(#[trigger] t[i]),
    ensures
        ws_split_state(s + t) == (ws_split_state(s).0, ws_split_state(s).1 + t),
    decreases t.len(),
{
    if t.len() > 0 {
        let p = t.drop_last();
        lemma_ws_state_append_run(s, p);
        assert((s + t).drop_last() =~= s + p);
        assert((s + t).last() == t.last());
        assert(ws_split_state(s).1 + p.push(t.last()) =~= ws_split_state(s).1 + t);
        assert((ws_split_state(s).1 + p).push(t.last()) =~= ws_split_state(s).1 + t);
    } else {
        assert(s + t =~= s);
        assert(ws_split_state(s).1 + t =~= ws_split_state(s).1);
    }
}

proof fn lemma_split_three(a: Seq<char>, b: Seq<char>, c: Seq<char>)
    requires
        a.len() > 0,
        b.len() > 0,
        c.len() > 0,
        forall|i: int| 0 <= i < a.len() ==> !is_white_space(#[trigger] a[i]),
        forall|i: int| 0 <= i < b.len() ==> !is_white_space(#[trigger] b[i]),
        forall|i: int| 0 <= i < c.len() ==> !is_white_space(#[trigger] c[i]),
    ensures
        split_ws(a + seq![' '] + b + seq![' '] + c) == seq![a, b, c],
{
    let e = Seq::<char>::empty();
    lemma_ws_state_append_run(e, a);
    assert(e + a =~= a);
    let s1 = a + seq![' '];
    assert(s1.drop_last() =~= a);
    assert(ws_split_state(s1) == (seq![a], e));
    lemma_ws_state_append_run(s1, b);
    let s2 = s1 + b + seq![' '];
    assert(s2.drop_last() =~= s1 + b);
    assert(e + b =~= b);
    assert(ws_split_state(s2) == (seq![a].push(b), e));
    lemma_ws_state_append_run(s2, c);
    assert(e + c =~= c);
    assert(s2 + c =~= a + seq![' '] + b + seq![' '] + c);
    assert(seq![a].push(b).push(c) =~= seq![a, b, c]);
}

proof fn lemma_dec_parses(n: u16)
    ensures
        parse_u16(dec_chars(n as nat)) == Some(n),
        dec_chars(n as nat).len() > 0,
        forall|i: int| 0 <= i < dec_chars(n as nat).len() ==> !is_white_space(#[trigger] dec_chars(n as nat)[i])
            && upper_char(dec_chars(n as nat)[i]) == dec_chars(n as nat)[i],
{
    crate::protocol::steps::lemma_dec_chars_read_back(n as nat);
    let d = dec_chars(n as nat);
    assert(is_digit(d[0]));
    assert(unsigned_digits(d) == d);
}

/// Mouse gestures encode for every pair of coordinates: `CLICK x y` is a
/// left press at (x, y), `RIGHT_CLICK` and `MIDDLE_CLICK` the other
/// buttons, `RELEASE` a left release, `SCROLL_UP` and `SCROLL_DOWN` the
/// wheel, each as its SGR sequence.
pub proof fn lemma_mouse_gestures(k: Seq<char>, x: u16, y: u16)
    requires
        is_mouse_word(k),
    ensures
        spec_encode_key(k + seq![' '] + dec_chars(x as nat) + seq![' '] + dec_chars(y as nat))
            == Ok::<Seq<u8>, Seq<char>>(mouse_word_bytes(k, x, y)),
{
    reveal_strlit("CLICK");
    reveal_strlit("RIGHT_CLICK");
    reveal_strlit("MIDDLE_CLICK");
    reveal_strlit("RELEASE");
    reveal_strlit("SCROLL_UP");
    reveal_strlit("SCROLL_DOWN");
    reveal_strlit("CTRL+");
    reveal_strlit("ALT+");
    let dx = dec_chars(x as nat);
    let dy = dec_chars(y as nat);
    lemma_dec_parses(x);
    lemma_dec_parses(y);
    let name = k + seq![' '] + dx + seq![' '] + dy;
    assert(k.len() >= 5);
    assert(forall|i: int| 0 <= i < k.len() ==> !is_white_space(#[trigger] k[i]) && upper_char(k[i]) == k[i]);
    assert forall|i: int| 0 <= i < name.len() implies upper_char(#[trigger] name[i]) == name[i] by {
        if i < k.len() {
            assert(name[i] == k[i]);
        } else if i == k.len() {
        } else if i < k.len() + 1 + dx.len() {
            assert(name[i] == dx[i - k.len() - 1]);
        } else if i == k.len() + 1 + dx.len() {
        } else {
            assert(name[i] == dy[i - k.len() - 2 - dx.len()]);
        }
    }
    assert(ascii_upper(name) =~= name);
    if named_bytes(name) is Some {
        lemma_named_short(name);
    }
    assert(name[0] == k[0] && name[1] == k[1]);
    assert(!has_prefix(name, "CTRL+"@)) by {
        if has_prefix(name, "CTRL+"@) {
            assert(name.take(5)[1] == "CTRL+"@[1]);
        }
    }
    assert(!has_prefix(name, "ALT+"@)) by {
        if has_prefix(name, "ALT+"@) {
            assert(name.take(4)[0] == "ALT+"@[0]);
        }
    }
    lemma_split_three(k, dx, dy);
    let toks = split_ws(name);
    let rest = toks.skip(1);
    assert(rest =~= seq![dx, dy]);
    assert(toks[0] == k);
    assert(forall|i: int| 0 <= i < rest.len() ==> parse_u16(#[trigger] rest[i]) is Some);
}

/// A gesture word followed by coordinates, each after one space.
pub open spec fn with_coords(k: Seq<char>, cs: Seq<u16>) -> Seq<char>
    decreases cs.len(),
{
    if cs.len() == 0 {
        k
    } else {
        with_coords(k, cs.drop_last()) + seq![' '] + dec_chars(cs.last() as nat)
    }
}

/// The decimal tokens of a list of coordinates.
pub open spec fn coord_tokens(cs: Seq<u16>) -> Seq<Seq<char>> {
    cs.map_values(|c: u16| dec_chars(c as nat))
}

/// How a word followed by coordinates splits and what case it has.
proof fn lemma_with_coords(k: Seq<char>, cs: Seq<u16>)
    requires
        k.len() > 0,
        forall|i: int| 0 <= i < k.len() ==> !is_white_space(#[trigger] k[i]) && upper_char(k[i])
            == k[i],
    ensures
        ws_split_state(with_coords(k, cs)).1.len() > 0,
        ws_split_state(with_coords(k, cs)).0.push(ws_split_state(with_coords(k, cs)).1) == seq![k]
            + coord_tokens(cs),
        with_coords(k, cs).len() >= k.len() + 2 * cs.len(),
        forall|i: int| 0 <= i < k.len() ==> #[trigger] with_coords(k, cs)[i] == k[i],
        forall|i: int|
            0 <= i < with_coords(k, cs).len() ==> upper_char(#[trigger] with_coords(k, cs)[i])
                == with_coords(k, cs)[i],
    decreases cs.len(),
{
    let w = with_coords(k, cs);
    let e = Seq::<char>::empty();
    if cs.len() == 0 {
        lemma_ws_state_append_run(e, k);
        assert(e + k =~= k);
        assert(Seq::<Seq<char>>::empty().push(k) =~= seq![k] + coord_tokens(cs));
    } else {
        let p = cs.drop_last();
        let w0 = with_coords(k, p);
        lemma_with_coords(k, p);
        let d = dec_chars(cs.last() as nat);
        lemma_dec_parses(cs.last());
        let s1 = w0 + seq![' '];
        assert(s1.drop_last() =~= w0);
        let st0 = ws_split_state(w0);
        assert(ws_split_state(s1) == (st0.0.push(st0.1), e));
        lemma_ws_state_append_run(s1, d);
        assert(s1 + d =~= w);
        assert(e + d =~= d);
        assert(coord_tokens(cs) =~= coord_tokens(p).push(d));
        assert(st0.0.push(st0.1).push(d) =~= seq![k] + coord_tokens(cs));
        assert forall|i: int| 0 <= i < w.len() implies upper_char(#[trigger] w[i]) == w[i] by {
            if i < w0.len() {
                assert(w[i] == w0[i]);
            } else if i > w0.len() {
                assert(w[i] == d[i - w0.len() - 1]);
            }
        }
        assert forall|i: int| 0 <= i < k.len() implies #[trigger] w[i] == k[i] by {
            assert(w[i] == w0[i]);
        }
    }
}

/// A mouse gesture takes exactly two coordinates: a gesture word followed
/// by any other number of them is refused, with the message that asks for
/// two (`CLICK 10 5` is the two-coordinate form).
pub proof fn lemma_mouse_words_need_two_coordinates(k: Seq<char>, cs: Seq<u16>)
    requires
        is_mouse_word(k),
        cs.len() != 2,
    ensures
        spec_encode_key(with_coords(k, cs)) == Err::<Seq<u8>, Seq<char>>(
            with_coords(k, cs) + ": expected 2 coordinates: e.g. CLICK 10 5"@,
        ),
{
    reveal_strlit("CLICK");
    reveal_strlit("RIGHT_CLICK");
    reveal_strlit("MIDDLE_CLICK");
    reveal_strlit("RELEASE");
    reveal_strlit("SCROLL_UP");
    reveal_strlit("SCROLL_DOWN");
    reveal_strlit("CTRL+");
    reveal_strlit("ALT+");
    let w = with_coords(k, cs);
    assert(forall|i: int| 0 <= i < k.len() ==> !is_white_space(#[trigger] k[i]) && upper_char(k[i])
        == k[i]);
    lemma_with_coords(k, cs);
    assert(ascii_upper(w) =~= w);
    assert(w[0] == k[0] && w[1] == k[1]);
    if named_bytes(w) is Some {
        lemma_named_short(w);
    }
    assert(!has_prefix(w, "CTRL+"@)) by {
        if has_prefix(w, "CTRL+"@) {
            assert(w.take(5)[1] == "CTRL+"@[1]);
        }
    }
    assert(!has_prefix(w, "ALT+"@)) by {
        if has_prefix(w, "ALT+"@) {
            assert(w.take(4)[0] == "ALT+"@[0]);
        }
    }
    let toks = split_ws(w);
    assert(toks == seq![k] + coord_tokens(cs));
    let rest = toks.skip(1);
    assert(rest =~= coord_tokens(cs));
    assert(toks[0] == k);
    assert forall|i: int| 0 <= i < rest.len() implies parse_u16(#[trigger] rest[i]) is Some by {
        lemma_dec_parses(cs[i]);
    }
}

/// Whether an encoding result matches its specification.
pub open spec fn key_result_matches(
    r: Result<Vec<u8>, InputError>,
    s: Result<Seq<u8>, Seq<char>>,
) -> bool {
    match r {
        Ok(bytes) => s == Ok::<Seq<u8>, Seq<char>>(bytes@),
        Err(e) => e is UnknownKey && s == Err::<Seq<u8>, Seq<char>>(e->UnknownKey_0@),
    }
}

fn lit_bytes(b: &[u8]) -> (v: Vec<u8>)
    ensures
        v@ == b@,
{
    let mut v: Vec<u8> = Vec::new();
    let mut i: usize = 0;
    while i < b.len()
        invariant
            i <= b@.len(),
            v@ == b@.take(i as int),
        decreases b@.len() - i,
    {
        v.push(b[i]);
        i = i + 1;
        assert(v@ =~= b@.take(i as int));
    }
    assert(b@.take(b@.len() as int) =~= b@);
    v
}

/// Encode a `press` argument: a named key, `CTRL+x`, `ALT+x`, a mouse
/// gesture, or a single character. Matching is case-insensitive.
pub fn encode_key(name: &str) -> (r: Result<Vec<u8>, InputError>)
    ensures
        key_result_matches(r, spec_encode_key(name@)),
{
    let chars = chars_of(name);
    let upper = upper_chars(chars.as_slice());
    if let Some(bytes) = named(upper.as_slice()) {
        return Ok(bytes);
    }
    if starts_with_lit(upper.as_slice(), "CTRL+") {
        proof {
            reveal_strlit("CTRL+");
        }
        let rest = tail_from(upper.as_slice(), 5);
        return match ctrl(rest.as_slice()) {
            Ok(bytes) => Ok(bytes),
            Err(message) => Err(InputError::UnknownKey(message)),
        };
    }
    if starts_with_lit(upper.as_slice(), "ALT+") {
        proof {
            reveal_strlit("ALT+");
        }
        let rest = tail_from(chars.as_slice(), 4);
        return match alt(rest.as_slice()) {
            Ok(bytes) => Ok(bytes),
            Err(message) => Err(InputError::UnknownKey(message)),
        };
    }
    if let Some(result) = mouse(upper.as_slice()) {
        return match result {
            Ok(bytes) => Ok(bytes),
            Err(message) => Err(InputError::UnknownKey(message)),
        };
    }
    if chars.len() == 1 {
        return Ok(encode_chars(chars.as_slice()));
    }
    Err(InputError::UnknownKey(string_of(chars.as_slice())))
}

/// Encode a `type` argument verbatim as UTF-8 (no Enter appended).
pub fn encode_text(text: &str) -> (r: Vec<u8>)
    ensures
        r@ == encode_utf8(text@),
{
    let chars = chars_of(text);
    encode_chars(chars.as_slice())
}

/// `v[from..]` as a vector.
fn tail_from(v: &[char], from: usize) -> (r: Vec<char>)
    requires
        from <= v@.len(),
    ensures
        r@ == v@.skip(from as int),
{
    let mut r: Vec<char> = Vec::new();
    let mut i = from;
    while i < v.len()
        invariant
            from <= i <= v@.len(),
            r@ == v@.subrange(from as int, i as int),
        decreases v@.len() - i,
    {
        r.push(v[i]);
        i = i + 1;
        assert(r@ =~= v@.subrange(from as int, i as int));
    }
    assert(r@ =~= v@.skip(from as int));
    r
}

fn named(u: &[char]) -> (r: Option<Vec<u8>>)
    ensures
        match r {
            Some(b) => named_bytes(u@) == Some(b@),
            None => named_bytes(u@) is None,
        },
{
    if eq_lit(u, "ENTER") {
        Some(lit_bytes(&[0x0d]))
    } else if eq_lit(u, "ESC") {
        Some(lit_bytes(&[0x1b]))
    } else if eq_lit(u, "TAB") {
        Some(lit_bytes(&[0x09]))
    } else if eq_lit(u, "BACKTAB") {
        Some(lit_bytes(&[0x1b, 0x5b, 0x5a]))
    } else if eq_lit(u, "UP") {
        Some(lit_bytes(&[0x1b, 0x5b, 0x41]))
    } else if eq_lit(u, "DOWN") {
        Some(lit_bytes(&[0x1b, 0x5b, 0x42]))
    } else if eq_lit(u, "RIGHT") {
        Some(lit_bytes(&[0x1b, 0x5b, 0x43]))
    } else if eq_lit(u, "LEFT") {
        Some(lit_bytes(&[0x1b, 0x5b, 0x44]))
    } else if eq_lit(u, "HOME") {
        Some(lit_bytes(&[0x1b, 0x5b, 0x48]))
    } else if eq_lit(u, "END") {
        Some(lit_bytes(&[0x1b, 0x5b, 0x46]))
    } else if eq_lit(u, "PGUP") {
        Some(lit_bytes(&[0x1b, 0x5b, 0x35, 0x7e]))
    } else if eq_lit(u, "PGDN") {
        Some(lit_bytes(&[0x1b, 0x5b, 0x36, 0x7e]))
    } else if eq_lit(u, "INSERT") {
        Some(lit_bytes(&[0x1b, 0x5b, 0x32, 0x7e]))
    } else if eq_lit(u, "DELETE") {
        Some(lit_bytes(&[0x1b, 0x5b, 0x33, 0x7e]))
    } else if eq_lit(u, "F1") {
        Some(lit_bytes(&[0x1b, 0x4f, 0x50]))
    } else if eq_lit(u, "F2") {
        Some(lit_bytes(&[0x1b, 0x4f, 0x51]))
    } else if eq_lit(u, "F3") {
        Some(lit_bytes(&[0x1b, 0x4f, 0x52]))
    } else if eq_lit(u, "F4") {
        Some(lit_bytes(&[0x1b, 0x4f, 0x53]))
    } else if eq_lit(u, "F5") {
        Some(lit_bytes(&[0x1b, 0x5b, 0x31, 0x35, 0x7e]))
    } else if eq_lit(u, "F6") {
        Some(lit_bytes(&[0x1b, 0x5b, 0x31, 0x37, 0x7e]))
    } else if eq_lit(u, "F7") {
        Some(lit_bytes(&[0x1b, 0x5b, 0x31, 0x38, 0x7e]))
    } else if eq_lit(u, "F8") {
        Some(lit_bytes(&[0x1b, 0x5b, 0x31, 0x39, 0x7e]))
    } else if eq_lit(u, "F9") {
        Some(lit_bytes(&[0x1b, 0x5b, 0x32, 0x30, 0x7e]))
    } else if eq_lit(u, "F10") {
        Some(lit_bytes(&[0x1b, 0x5b, 0x32, 0x31, 0x7e]))
    } else if eq_lit(u, "F11") {
        Some(lit_bytes(&[0x1b, 0x5b, 0x32, 0x33, 0x7e]))
    } else if eq_lit(u, "F12") {
        Some(lit_bytes(&[0x1b, 0x5b, 0x32, 0x34, 0x7e]))
    } else {
        None
    }
}


/// `CTRL+A`..`CTRL+Z`, `CTRL+[@[\]^_]` and `CTRL+?` to control codes.
fn ctrl(rest: &[char]) -> (r: Result<Vec<u8>, String>)
    ensures
        match r {
            Ok(b) => spec_ctrl(rest@) == Ok::<Seq<u8>, Seq<char>>(b@),
            Err(m) => spec_ctrl(rest@) == Err::<Seq<u8>, Seq<char>>(m@),
        },
{
    if rest.len() == 1 {
        let c = rest[0];
        if ('A' <= c && c <= 'Z') || c == '@' || c == '[' || c == '\\' || c == ']' || c == '^'
            || c == '_' {
            let b = c as u8;
            assert(b as u32 == c as u32);
            let mut v: Vec<u8> = Vec::new();
            v.push(b - 64);
            assert(v@ =~= seq![((c as u32) - 64) as u8]);
            return Ok(v);
        }
        if c == '?' {
            let mut v: Vec<u8> = Vec::new();
            v.push(0x7f);
            assert(v@ =~= seq![0x7fu8]);
            return Ok(v);
        }
    }
    let mut m = String::new();
    push_str(&mut m, "CTRL+");
    let tail = string_of(rest);
    push_str(&mut m, tail.as_str());
    Err(m)
}

/// `ALT+x`: ESC followed by the character bytes.
fn alt(rest: &[char]) -> (r: Result<Vec<u8>, String>)
    ensures
        match r {
            Ok(b) => spec_alt(rest@) == Ok::<Seq<u8>, Seq<char>>(b@),
            Err(m) => spec_alt(rest@) == Err::<Seq<u8>, Seq<char>>(m@),
        },
{
    if rest.len() == 0 {
        let mut m = String::new();
        push_str(&mut m, "ALT+");
        return Err(m);
    }
    let mut bytes: Vec<u8> = Vec::new();
    bytes.push(0x1b);
    push_encoded_chars(&mut bytes, rest);
    assert(bytes@ =~= seq![0x1bu8] + encode_utf8(rest@));
    Ok(bytes)
}

/// The character sequences held by a sequence of character vectors.
pub open spec fn vecs_view(v: Seq<Vec<char>>) -> Seq<Seq<char>> {
    Seq::new(v.len(), |i: int| v[i]@)
}

/// `str::split_whitespace` over characters.
fn split_whitespace(u: &[char]) -> (toks: Vec<Vec<char>>)
    ensures
        vecs_view(toks@) == split_ws(u@),
{
    let mut toks: Vec<Vec<char>> = Vec::new();
    let mut cur: Vec<char> = Vec::new();
    let mut i: usize = 0;
    while i < u.len()
        invariant
            i <= u@.len(),
            (vecs_view(toks@), cur@) == ws_split_state(u@.take(i as int)),
        decreases u@.len() - i,
    {
        let c = u[i];
        proof {
            assert(u@.take(i + 1).drop_last() =~= u@.take(i as int));
            assert(u@.take(i + 1).last() == c);
        }
        if is_white_space_exec(c) {
            if cur.len() > 0 {
                let ghost before = toks@;
                let ghost token = cur;
                toks.push(cur);
                cur = Vec::new();
                assert(toks@ == before.push(token));
                assert(vecs_view(toks@) =~= vecs_view(before).push(token@));
            }
        } else {
            cur.push(c);
        }
        i = i + 1;
        assert((vecs_view(toks@), cur@) == ws_split_state(u@.take(i as int)));
    }
    assert(u@.take(u@.len() as int) =~= u@);
    if cur.len() > 0 {
        let ghost before = toks@;
        let ghost token = cur;
        toks.push(cur);
        assert(toks@ == before.push(token));
        assert(vecs_view(toks@) =~= vecs_view(before).push(token@));
    }
    toks
}

/// Digits value, capped just above the `u16` range.
pub open spec fn capped_value(s: Seq<char>) -> nat {
    if digits_value(s) > 65535 {
        65536
    } else {
        digits_value(s)
    }
}

/// `str::parse::<u16>` over characters.
pub fn parse_u16_exec(t: &[char]) -> (r: Option<u16>)
    ensures
        r == parse_u16(t@),
{
    let start: usize = if t.len() > 0 && t[0] == '+' {
        1
    } else {
        0
    };
    let ghost d = unsigned_digits(t@);
    assert(d =~= t@.subrange(start as int, t@.len() as int));
    if start == t.len() {
        assert(d.len() == 0);
        return None;
    }
    let mut val: u32 = 0;
    let mut i = start;
    while i < t.len()
        invariant
            start <= i <= t@.len(),
            d == t@.subrange(start as int, t@.len() as int),
            d == unsigned_digits(t@),
            val == capped_value(d.take(i - start)),
            forall|j: int| 0 <= j < i - start ==> is_digit(#[trigger] d[j]),
        decreases t@.len() - i,
    {
        let c = t[i];
        if !('0' <= c && c <= '9') {
            assert(d[i - start] == c);
            assert(!is_digit(d[i - start]));
            assert(!(forall|j: int| 0 <= j < d.len() ==> is_digit(#[trigger] d[j])));
            assert(unsigned_digits(t@) == d);
            return None;
        }
        proof {
            assert(d.take(i - start + 1).drop_last() =~= d.take(i - start));
            assert(d.take(i - start + 1).last() == c);
        }
        let digit = (c as u32) - 48;
        if val > 65535 {
            val = 65536;
        } else {
            val = val * 10 + digit;
            if val > 65535 {
                val = 65536;
            }
        }
        i = i + 1;
    }
    assert(d.take(d.len() as int) =~= d);
    if val > 65535 {
        None
    } else {
        Some(val as u16)
    }
}

/// `str::parse` of an unsigned integer bounded by `max`: optional `+`,
/// then one or more ASCII digits, with value at most `max`.
pub open spec fn parse_unsigned(t: Seq<char>, max: nat) -> Option<nat> {
    let d = unsigned_digits(t);
    if d.len() > 0 && (forall|i: int| 0 <= i < d.len() ==> is_digit(#[trigger] d[i]))
        && digits_value(d) <= max {
        Some(digits_value(d))
    } else {
        None
    }
}

/// `str::parse::<u64>`-style parsing, bounded by `max`.
pub fn parse_decimal(t: &[char], max: u64) -> (r: Option<u64>)
    ensures
        match r {
            Some(v) => parse_unsigned(t@, max as nat) == Some(v as nat),
            None => parse_unsigned(t@, max as nat) is None,
        },
{
    let start: usize = if t.len() > 0 && t[0] == '+' {
        1
    } else {
        0
    };
    let ghost d = unsigned_digits(t@);
    assert(d =~= t@.subrange(start as int, t@.len() as int));
    if start == t.len() {
        assert(d.len() == 0);
        return None;
    }
    let cap: u128 = max as u128 + 1;
    let mut val: u128 = 0;
    let mut i = start;
    while i < t.len()
        invariant
            start <= i <= t@.len(),
            cap == max + 1,
            d == t@.subrange(start as int, t@.len() as int),
            d == unsigned_digits(t@),
            val == (if digits_value(d.take(i - start)) > max { cap as nat } else { digits_value(d.take(i - start)) }),
            forall|j: int| 0 <= j < i - start ==> is_digit(#[trigger] d[j]),
        decreases t@.len() - i,
    {
        let c = t[i];
        if !('0' <= c && c <= '9') {
            assert(d[i - start] == c);
            assert(!is_digit(d[i - start]));
            assert(!(forall|j: int| 0 <= j < d.len() ==> is_digit(#[trigger] d[j])));
            return None;
        }
        proof {
            assert(d.take(i - start + 1).drop_last() =~= d.take(i - start));
            assert(d.take(i - start + 1).last() == c);
        }
        let digit = (c as u32) - 48;
        if val >= cap {
            val = cap;
        } else {
            val = val * 10 + digit as u128;
            if val > max as u128 {
                val = cap;
            }
        }
        i = i + 1;
    }
    assert(d.take(d.len() as int) =~= d);
    if val > max as u128 {
        None
    } else {
        Some(val as u64)
    }
}

/// Mouse actions: `CLICK x y`, `RIGHT_CLICK x y`, `MIDDLE_CLICK x y`,
/// `RELEASE x y`, `SCROLL_UP x y`, `SCROLL_DOWN x y` (1-based cells).
/// `None` means "not a mouse name" so other interpretations apply.
fn mouse(u: &[char]) -> (r: Option<Result<Vec<u8>, String>>)
    ensures
        match r {
            None => spec_mouse(u@) is None,
            Some(Ok(b)) => spec_mouse(u@) == Some(Ok::<Seq<u8>, Seq<char>>(b@)),
            Some(Err(m)) => spec_mouse(u@) == Some(Err::<Seq<u8>, Seq<char>>(m@)),
        },
{
    let toks = split_whitespace(u);
    let ghost tv = vecs_view(toks@);
    if toks.len() == 0 {
        return None;
    }
    let kind = &toks[0];
    assert(kind@ == tv[0]);
    let ghost rest = tv.skip(1);
    let is_word = eq_lit(kind.as_slice(), "CLICK") || eq_lit(kind.as_slice(), "RIGHT_CLICK")
        || eq_lit(kind.as_slice(), "MIDDLE_CLICK") || eq_lit(kind.as_slice(), "RELEASE")
        || eq_lit(kind.as_slice(), "SCROLL_UP") || eq_lit(kind.as_slice(), "SCROLL_DOWN");
    assert(is_word == is_mouse_word(tv[0]));
    let mut coords: Vec<u16> = Vec::new();
    let mut k: usize = 1;
    while k < toks.len()
        invariant
            1 <= k <= toks@.len(),
            tv == vecs_view(toks@),
            tv == split_ws(u@),
            toks@.len() > 0,
            kind@ == tv[0],
            is_word == is_mouse_word(tv[0]),
            rest == tv.skip(1),
            coords@.len() == k - 1,
            forall|j: int| 0 <= j < k - 1 ==> parse_u16(#[trigger] rest[j]) == Some(coords@[j]),
        decreases toks@.len() - k,
    {
        assert(toks[k as int]@ == rest[k - 1]);
        match parse_u16_exec(toks[k].as_slice()) {
            Some(v) => {
                coords.push(v);
            },
            None => {
                assert(parse_u16(rest[k - 1]) is None);
                if is_word || eq_lit(kind.as_slice(), "DRAG") {
                    let mut m = string_of(u);
                    push_str(&mut m, ": coordinates must be integers");
                    return Some(Err(m));
                }
                return None;
            },
        }
        k = k + 1;
    }
    assert(!exists|i: int| 0 <= i < rest.len() && parse_u16(#[trigger] rest[i]) is None);
    if is_word && coords.len() == 2 {
        let x = coords[0];
        let y = coords[1];
        let bytes = if eq_lit(kind.as_slice(), "CLICK") {
            mouse_press(MouseButton::Left, x, y)
        } else if eq_lit(kind.as_slice(), "RIGHT_CLICK") {
            mouse_press(MouseButton::Right, x, y)
        } else if eq_lit(kind.as_slice(), "MIDDLE_CLICK") {
            mouse_press(MouseButton::Middle, x, y)
        } else if eq_lit(kind.as_slice(), "RELEASE") {
            mouse_release(MouseButton::Left, x, y)
        } else if eq_lit(kind.as_slice(), "SCROLL_UP") {
            mouse_scroll_up(x, y)
        } else {
            mouse_scroll_down(x, y)
        };
        return Some(Ok(bytes));
    }
    if is_word {
        let mut m = string_of(u);
        push_str(&mut m, ": expected 2 coordinates: e.g. CLICK 10 5");
        return Some(Err(m));
    }
    None
}

} // verus!
