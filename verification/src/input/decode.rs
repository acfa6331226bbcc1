//! Key decoding: raw terminal bytes to key events.
//!
//! Inverse of [`crate::input::encoding`] for the recorder: parses complete
//! key sequences (arrows, function keys, CTRL/ALT chords, UTF-8 text) out of
//! a byte stream. `None` means the buffer holds only the start of a key
//! (a lone ESC, `ESC [`, `ESC [ 1`, the first bytes of a character); the
//! caller feeds more bytes, except for a trailing lone ESC, which the caller
//! resolves with its own deadline. Bytes that can never become a key are
//! still consumed, each dead end whole: an escape sequence nobody knows is
//! read as `ESC` spanning all of its bytes, and bytes that can never become
//! a character as one U+FFFD spanning the start that broke off and the byte
//! that broke it.

use vstd::prelude::*;
use vstd::utf8::*;

use crate::input::encoding::{
    has_prefix, is_mouse_word, named_bytes, spec_ctrl, spec_encode_key, spec_mouse, split_ws,
    ws_split_state,
};
use crate::input::utils::{ascii_upper, upper_char};
use crate::utf8::{decode_scalar_at, first_scalar_len, lemma_encode_utf8_single};

verus! {

/// A decoded keypress.
#[derive(Debug, Clone, PartialEq, Eq)]
pub enum Key {
    /// Named key from the key table (`ENTER`, `DOWN`, `F5`, …).
    Named(&'static str),
    /// Printable character (runs coalesce into `type` steps).
    Char(char),
    /// `CTRL+X` (already uppercased).
    Ctrl(char),
    /// `ALT+x` (case preserved).
    Alt(char),
}

/// Mathematical view of a key: the name as characters.
pub enum KeyView {
    Named(Seq<char>),
    Char(char),
    Ctrl(char),
    Alt(char),
}

impl View for Key {
    type V = KeyView;

    open spec fn view(&self) -> KeyView {
        match self {
            Key::Named(n) => KeyView::Named(n@),
            Key::Char(c) => KeyView::Char(*c),
            Key::Ctrl(c) => KeyView::Ctrl(*c),
            Key::Alt(c) => KeyView::Alt(*c),
        }
    }
}

/// Index of the first byte at or after `i` that is not an ASCII digit, if
/// the buffer has one: where the parameter of `ESC [ <n> ~` ends.
pub open spec fn csi_end(s: Seq<u8>, i: int) -> Option<int>
    decreases s.len() - i,
{
    if i < 0 || i >= s.len() {
        None
    } else if 0x30 <= s[i] && s[i] <= 0x39 {
        csi_end(s, i + 1)
    } else {
        Some(i)
    }
}

/// What an escape sequence nobody knows is read as: `ESC`, spanning all
/// `n` bytes of the sequence.
pub open spec fn unknown_escape(n: int) -> Option<(KeyView, int)> {
    Some((KeyView::Named("ESC"@), n))
}

/// Whether the second byte of a multi-byte character may follow its lead
/// (no overlong form, no surrogate, nothing above U+10FFFF).
pub open spec fn second_ok(b0: u8, b1: u8) -> bool {
    &&& 0x80 <= b1 && b1 <= 0xbf
    &&& b0 == 0xe0 ==> b1 >= 0xa0
    &&& b0 == 0xed ==> b1 <= 0x9f
    &&& b0 == 0xf0 ==> b1 >= 0x90
    &&& b0 == 0xf4 ==> b1 <= 0x8f
}

/// How many bytes a character with lead byte `b0` has (0: not a lead of a
/// multi-byte character).
pub open spec fn lead_width(b0: u8) -> int {
    if 0xc2 <= b0 && b0 <= 0xdf {
        2
    } else if 0xe0 <= b0 && b0 <= 0xef {
        3
    } else if 0xf0 <= b0 && b0 <= 0xf4 {
        4
    } else {
        0
    }
}

/// Whether `s` is the start, but not the whole, of a UTF-8 character: more
/// bytes can still complete it.
pub open spec fn scalar_prefix(s: Seq<u8>) -> bool {
    &&& s.len() >= 1
    &&& s.len() < lead_width(s[0])
    &&& s.len() >= 2 ==> second_ok(s[0], s[1])
    &&& s.len() >= 3 ==> 0x80 <= s[2] && s[2] <= 0xbf
}

/// How many bytes a dead end spans when `s` can never become a character:
/// the longest start of `s` that still could have, and the byte that ruled
/// it out.
pub open spec fn dead_len(s: Seq<u8>) -> int {
    if s.len() <= 1 || !scalar_prefix(s.take(1)) {
        1
    } else if s.len() <= 2 || !scalar_prefix(s.take(2)) {
        2
    } else if s.len() <= 3 || !scalar_prefix(s.take(3)) {
        3
    } else {
        4
    }
}

/// Key named by the parameter of `ESC [ <n> ~`.
pub open spec fn tilde_name(num: Seq<u8>) -> Option<Seq<char>> {
    if num.len() == 1 && num[0] == 0x32 {
        Some("INSERT"@)
    } else if num.len() == 1 && num[0] == 0x33 {
        Some("DELETE"@)
    } else if num.len() == 1 && num[0] == 0x35 {
        Some("PGUP"@)
    } else if num.len() == 1 && num[0] == 0x36 {
        Some("PGDN"@)
    } else if num.len() == 2 && num[0] == 0x31 && num[1] == 0x35 {
        Some("F5"@)
    } else if num.len() == 2 && num[0] == 0x31 && num[1] == 0x37 {
        Some("F6"@)
    } else if num.len() == 2 && num[0] == 0x31 && num[1] == 0x38 {
        Some("F7"@)
    } else if num.len() == 2 && num[0] == 0x31 && num[1] == 0x39 {
        Some("F8"@)
    } else if num.len() == 2 && num[0] == 0x32 && num[1] == 0x30 {
        Some("F9"@)
    } else if num.len() == 2 && num[0] == 0x32 && num[1] == 0x31 {
        Some("F10"@)
    } else if num.len() == 2 && num[0] == 0x32 && num[1] == 0x33 {
        Some("F11"@)
    } else if num.len() == 2 && num[0] == 0x32 && num[1] == 0x34 {
        Some("F12"@)
    } else {
        None
    }
}

/// `ESC [ …` sequences.
pub open spec fn spec_decode_csi(buf: Seq<u8>) -> Option<(KeyView, int)> {
    if buf.len() < 3 {
        None
    } else {
        let b = buf[2];
        if b == 0x41 {
            Some((KeyView::Named("UP"@), 3))
        } else if b == 0x42 {
            Some((KeyView::Named("DOWN"@), 3))
        } else if b == 0x43 {
            Some((KeyView::Named("RIGHT"@), 3))
        } else if b == 0x44 {
            Some((KeyView::Named("LEFT"@), 3))
        } else if b == 0x48 {
            Some((KeyView::Named("HOME"@), 3))
        } else if b == 0x46 {
            Some((KeyView::Named("END"@), 3))
        } else if b == 0x5a {
            Some((KeyView::Named("BACKTAB"@), 3))
        } else if 0x30 <= b && b <= 0x39 {
            match csi_end(buf, 2) {
                None => None,
                Some(end) => if buf[end] == 0x7e {
                    match tilde_name(buf.subrange(2, end)) {
                        Some(name) => Some((KeyView::Named(name), end + 1)),
                        None => unknown_escape(end + 1),
                    }
                } else {
                    unknown_escape(end + 1)
                },
            }
        } else {
            unknown_escape(3)
        }
    }
}

/// Sequences starting with ESC: CSI, SS3 function keys, or an Alt chord.
pub open spec fn spec_decode_escape(buf: Seq<u8>) -> Option<(KeyView, int)> {
    if buf.len() < 2 {
        None
    } else if buf[1] == 0x5b {
        spec_decode_csi(buf)
    } else if buf[1] == 0x4f {
        if buf.len() < 3 {
            None
        } else if buf[2] == 0x50 {
            Some((KeyView::Named("F1"@), 3))
        } else if buf[2] == 0x51 {
            Some((KeyView::Named("F2"@), 3))
        } else if buf[2] == 0x52 {
            Some((KeyView::Named("F3"@), 3))
        } else if buf[2] == 0x53 {
            Some((KeyView::Named("F4"@), 3))
        } else {
            unknown_escape(3)
        }
    } else {
        let tail = buf.skip(1);
        if valid_first_scalar(tail) {
            Some((KeyView::Alt(decode_first_scalar(tail) as char), 1 + length_of_first_scalar(tail)))
        } else if scalar_prefix(tail) {
            None
        } else {
            unknown_escape(1 + dead_len(tail))
        }
    }
}

/// C0 controls reported as `CTRL` chords.
pub open spec fn is_ctrl_byte(b: u8) -> bool {
    b <= 0x08 || b == 0x0b || b == 0x0c || (0x0e <= b && b <= 0x1a) || (0x1c <= b && b <= 0x1f)
}

/// The first key of `buf` and the number of bytes it spans.
pub open spec fn spec_decode_key(buf: Seq<u8>) -> Option<(KeyView, int)> {
    if buf.len() == 0 {
        None
    } else {
        let b = buf[0];
        if b == 0x0d || b == 0x0a {
            Some((KeyView::Named("ENTER"@), 1))
        } else if b == 0x09 {
            Some((KeyView::Named("TAB"@), 1))
        } else if b == 0x7f {
            Some((KeyView::Char('\u{7f}'), 1))
        } else if is_ctrl_byte(b) {
            Some((KeyView::Ctrl(((b as u32) + 64) as char), 1))
        } else if 0x20 <= b && b <= 0x7e {
            Some((KeyView::Char(b as char), 1))
        } else if b == 0x1b {
            spec_decode_escape(buf)
        } else if valid_first_scalar(buf) {
            Some((KeyView::Char(decode_first_scalar(buf) as char), length_of_first_scalar(buf)))
        } else if scalar_prefix(buf) {
            None
        } else {
            Some((KeyView::Char('\u{fffd}'), dead_len(buf)))
        }
    }
}

/// Whether a decode result matches its specification.
pub open spec fn decode_matches(r: Option<(Key, usize)>, s: Option<(KeyView, int)>) -> bool {
    match r {
        None => s is None,
        Some((k, n)) => s == Some((k@, n as int)),
    }
}

proof fn lemma_csi_end(s: Seq<u8>, i: int, j: int)
    requires
        0 <= i <= j <= s.len(),
        forall|k: int| i <= k < j ==> 0x30 <= #[trigger] s[k] && s[k] <= 0x39,
    ensures
        j < s.len() && !(0x30 <= s[j] && s[j] <= 0x39) ==> csi_end(s, i) == Some(j),
        j == s.len() ==> csi_end(s, i) is None,
    decreases j - i,
{
    if i < j {
        lemma_csi_end(s, i + 1, j);
    }
}

proof fn lemma_csi_end_bound(s: Seq<u8>, i: int)
    requires
        0 <= i,
    ensures
        csi_end(s, i) matches Some(e) ==> i <= e < s.len() && !(0x30 <= s[e] && s[e] <= 0x39)
            && forall|k: int| i <= k < e ==> 0x30 <= #[trigger] s[k] && s[k] <= 0x39,
    decreases s.len() - i,
{
    if i < s.len() && 0x30 <= s[i] && s[i] <= 0x39 {
        lemma_csi_end_bound(s, i + 1);
    }
}

/// A decoded key spans at least one byte, and no more than the buffer holds.
pub proof fn lemma_decoded_len(buf: Seq<u8>)
    ensures
        spec_decode_key(buf) matches Some((k, n)) ==> 1 <= n <= buf.len(),
{
    lemma_csi_end_bound(buf, 2);
    if buf.len() > 1 {
        let tail = buf.skip(1);
        assert(tail.len() > 0);
        if !valid_first_scalar(tail) && !scalar_prefix(tail) {
            lemma_dead_end(tail, Seq::empty());
        }
    }
    if buf.len() >= 1 && !valid_first_scalar(buf) && !scalar_prefix(buf) {
        lemma_dead_end(buf, Seq::empty());
    }
}

/// A proper start of a well-formed character passes [`scalar_prefix`].
proof fn lemma_prefix_of_valid(u: Seq<u8>, m: int)
    requires
        valid_first_scalar(u),
        1 <= m < length_of_first_scalar(u),
    ensures
        scalar_prefix(u.take(m)),
{
    let t = u.take(m);
    let b0 = u[0];
    assert(t[0] == b0);
    if is_leading_byte_width_2(b0) {
        let b1 = u[1];
        let cp: u32 = (((b0 & 0x1F) as u32) << 6) | ((b1 & 0x3f) as u32);
        assert(cp == decode_first_codepoint(u));
        assert(0xc0 <= b0 && b0 <= 0xdf && cp >= 0x80 ==> b0 >= 0xc2) by (bit_vector)
            requires
                cp == (((b0 & 0x1F) as u32) << 6) | ((b1 & 0x3f) as u32),
        ;
    } else if is_leading_byte_width_3(b0) {
        let b1 = u[1];
        let b2 = u[2];
        let cp: u32 = (((b0 & 0x0F) as u32) << 12) | (((b1 & 0x3f) as u32) << 6) | ((b2 & 0x3f) as u32);
        assert(cp == decode_first_codepoint(u));
        assert(b0 == 0xe0 && 0x80 <= b1 && b1 <= 0xbf && cp >= 0x800 ==> b1 >= 0xa0) by (bit_vector)
            requires
                cp == (((b0 & 0x0F) as u32) << 12) | (((b1 & 0x3f) as u32) << 6) | ((b2 & 0x3f) as u32),
        ;
        assert(b0 == 0xed && 0x80 <= b1 && b1 <= 0xbf && !(0xd800 <= cp && cp <= 0xdfff) ==> b1
            <= 0x9f) by (bit_vector)
            requires
                cp == (((b0 & 0x0F) as u32) << 12) | (((b1 & 0x3f) as u32) << 6) | ((b2 & 0x3f) as u32),
        ;
        if m >= 2 {
            assert(t[1] == b1);
        }
    } else {
        let b1 = u[1];
        let b2 = u[2];
        let b3 = u[3];
        let cp: u32 = (((b0 & 0x07) as u32) << 18) | (((b1 & 0x3f) as u32) << 12) | (((b2 & 0x3f) as u32)
            << 6) | ((b3 & 0x3f) as u32);
        assert(cp == decode_first_codepoint(u));
        assert(0xf0 <= b0 && b0 <= 0xf7 && 0x80 <= b1 && b1 <= 0xbf && 0x10000 <= cp && cp
            <= 0x10ffff ==> b0 <= 0xf4 && (b0 == 0xf0 ==> b1 >= 0x90) && (b0 == 0xf4 ==> b1
            <= 0x8f)) by (bit_vector)
            requires
                cp == (((b0 & 0x07) as u32) << 18) | (((b1 & 0x3f) as u32) << 12) | (((b2 & 0x3f)
                    as u32) << 6) | ((b3 & 0x3f) as u32),
        ;
        if m >= 2 {
            assert(t[1] == b1);
        }
        if m >= 3 {
            assert(t[2] == b2);
        }
    }
}

/// Extra bytes after the first character do not change what it is, nor
/// turn bytes that can never start a character into a start.
proof fn lemma_first_char_local(t: Seq<u8>, ext: Seq<u8>)
    requires
        t.len() >= 1,
    ensures
        valid_first_scalar(t) ==> valid_first_scalar(t + ext) && decode_first_scalar(t + ext)
            == decode_first_scalar(t) && length_of_first_scalar(t + ext)
            == length_of_first_scalar(t),
        !valid_first_scalar(t) && !scalar_prefix(t) ==> !valid_first_scalar(t + ext)
            && !scalar_prefix(t + ext),
{
    let u = t + ext;
    assert(forall|i: int| 0 <= i < t.len() ==> u[i] == t[i]);
    if !valid_first_scalar(t) && !scalar_prefix(t) {
        if valid_first_scalar(u) {
            let n = length_of_first_scalar(u);
            if t.len() < n {
                lemma_prefix_of_valid(u, t.len() as int);
                assert(u.take(t.len() as int) =~= t);
            } else {
                assert(valid_first_scalar(t));
            }
        }
    }
}

/// A dead end spans at least one byte and no more than there are; its bytes
/// alone are the same dead end, and bytes after it do not change it.
proof fn lemma_dead_end(s: Seq<u8>, ext: Seq<u8>)
    requires
        s.len() >= 1,
        !valid_first_scalar(s),
        !scalar_prefix(s),
    ensures
        1 <= dead_len(s) <= s.len(),
        !valid_first_scalar(s.take(dead_len(s))),
        !scalar_prefix(s.take(dead_len(s))),
        dead_len(s.take(dead_len(s))) == dead_len(s),
        dead_len(s + ext) == dead_len(s),
{
    let m = dead_len(s);
    let t = s.take(m);
    let u = s + ext;
    assert(forall|j: int| 0 <= j <= s.len() ==> #[trigger] u.take(j) =~= s.take(j));
    assert(forall|j: int| 0 <= j <= m ==> #[trigger] t.take(j) =~= s.take(j));
    assert(s.take(s.len() as int) =~= s);
    assert(t =~= s.take(m));
    if s.len() > 4 {
        assert(!scalar_prefix(s.take(4)));
    }
    assert(s =~= t + s.skip(m));
    lemma_first_char_local(t, s.skip(m));
}

/// Every buffer that decodes to nothing yet decodes to a key once one more
/// byte arrives: `None` only ever means "feed more bytes".
pub proof fn lemma_undecoded_is_incomplete(buf: Seq<u8>)
    requires
        spec_decode_key(buf) is None,
    ensures
        spec_decode_key(buf + seq![0xffu8]) is Some,
{
    let u = buf + seq![0xffu8];
    assert(u[buf.len() as int] == 0xff);
    assert(forall|i: int| 0 <= i < buf.len() ==> u[i] == buf[i]);
    if buf.len() >= 2 && buf[0] == 0x1b && buf[1] == 0x5b && buf.len() >= 3 {
        assert(csi_end(buf, 2) is None);
        lemma_csi_end_run(buf, 2);
        lemma_csi_end(u, 2, buf.len() as int);
    }
    if buf.len() >= 2 && buf[0] == 0x1b && buf[1] != 0x5b && buf[1] != 0x4f {
        let tail = buf.skip(1);
        assert(u.skip(1) =~= tail + seq![0xffu8]);
        lemma_prefix_then_ff(tail);
    }
    if buf.len() >= 1 && buf[0] >= 0x80 {
        lemma_prefix_then_ff(buf);
    }
}

proof fn lemma_csi_end_run(s: Seq<u8>, i: int)
    requires
        0 <= i <= s.len(),
        csi_end(s, i) is None,
    ensures
        forall|k: int| i <= k < s.len() ==> 0x30 <= #[trigger] s[k] && s[k] <= 0x39,
    decreases s.len() - i,
{
    if i < s.len() {
        lemma_csi_end_run(s, i + 1);
    }
}

proof fn lemma_prefix_then_ff(t: Seq<u8>)
    requires
        !valid_first_scalar(t),
    ensures
        !valid_first_scalar(t + seq![0xffu8]),
        !scalar_prefix(t + seq![0xffu8]),
{
    let u = t + seq![0xffu8];
    assert(u[t.len() as int] == 0xff);
    assert(forall|i: int| 0 <= i < t.len() ==> u[i] == t[i]);
    if t.len() >= 1 && !scalar_prefix(t) {
        lemma_first_char_local(t, seq![0xffu8]);
    }
}

/// The first key depends only on its own bytes: more bytes after it leave
/// it as it is, and its bytes alone decode to it.
pub proof fn lemma_decoded_key_is_local(buf: Seq<u8>, ext: Seq<u8>, k: KeyView, n: int)
    requires
        spec_decode_key(buf) == Some((k, n)),
    ensures
        spec_decode_key(buf + ext) == Some((k, n)),
        spec_decode_key(buf.take(n)) == Some((k, n)),
{
    let u = buf + ext;
    let t = buf.take(n);
    lemma_decoded_len(buf);
    assert(forall|i: int| 0 <= i < buf.len() ==> u[i] == buf[i]);
    assert(forall|i: int| 0 <= i < n ==> t[i] == buf[i]);
    let b = buf[0];
    if b == 0x1b {
        if buf[1] == 0x5b {
            let c = buf[2];
            if 0x30 <= c && c <= 0x39 {
                lemma_csi_end_bound(buf, 2);
                let e = csi_end(buf, 2)->0;
                lemma_csi_end(u, 2, e);
                assert(u.subrange(2, e) =~= buf.subrange(2, e));
                lemma_csi_end(t, 2, e);
                assert(t.subrange(2, e) =~= buf.subrange(2, e));
            }
        } else if buf[1] != 0x4f {
            let tail = buf.skip(1);
            let tt = t.skip(1);
            assert(u.skip(1) =~= tail + ext);
            lemma_first_char_local(tail, ext);
            if valid_first_scalar(tail) {
                lemma_first_scalar_alone(tail);
                assert(tt =~= take_first_scalar(tail));
            } else {
                lemma_dead_end(tail, ext);
                assert(tt =~= tail.take(dead_len(tail)));
            }
        }
    } else if b >= 0x80 {
        lemma_first_char_local(buf, ext);
        if valid_first_scalar(buf) {
            lemma_first_scalar_alone(buf);
            assert(t =~= take_first_scalar(buf));
        } else {
            lemma_dead_end(buf, ext);
        }
    }
}

/// Decode the first key in `buf`: `(key, bytes consumed)`.
///
/// `None` means incomplete: wait for more bytes (or apply the lone-ESC
/// rule). A dead end, bytes that can never complete a key, is consumed
/// whole: an unknown escape sequence as `ESC`, bytes that can never become
/// a character as U+FFFD.
pub fn decode_key(buf: &[u8]) -> (r: Option<(Key, usize)>)
    ensures
        decode_matches(r, spec_decode_key(buf@)),
{
    if buf.len() == 0 {
        return None;
    }
    let first = buf[0];
    if first == 0x0d || first == 0x0a {
        return Some((Key::Named("ENTER"), 1));
    }
    if first == 0x09 {
        return Some((Key::Named("TAB"), 1));
    }
    if first == 0x7f {
        return Some((Key::Char('\u{7f}'), 1));
    }
    if first <= 0x08 || first == 0x0b || first == 0x0c || (0x0e <= first && first <= 0x1a) || (
    0x1c <= first && first <= 0x1f) {
        let c = (first + 64) as char;
        assert(c == ((first as u32) + 64) as char);
        return Some((Key::Ctrl(c), 1));
    }
    if 0x20 <= first && first <= 0x7e {
        return Some((Key::Char(first as char), 1));
    }
    if first == 0x1b {
        if buf.len() < 2 {
            return None;
        }
        let second = buf[1];
        if second == 0x5b {
            return decode_csi(buf);
        }
        if second == 0x4f {
            if buf.len() < 3 {
                return None;
            }
            let third = buf[2];
            if third == 0x50 {
                return Some((Key::Named("F1"), 3));
            } else if third == 0x51 {
                return Some((Key::Named("F2"), 3));
            } else if third == 0x52 {
                return Some((Key::Named("F3"), 3));
            } else if third == 0x53 {
                return Some((Key::Named("F4"), 3));
            }
            return Some((Key::Named("ESC"), 3));
        }
        // ESC followed by anything else: an Alt chord over the next character.
        assert(buf@.skip(1) =~= buf@.subrange(1, buf@.len() as int));
        let n = first_scalar_len(buf, 1);
        if n != 0 {
            let c = decode_scalar_at(buf, 1, n);
            return Some((Key::Alt(c), 1 + n));
        }
        if scalar_prefix_at(buf, 1, buf.len()) {
            return None;
        }
        let d = dead_len_at(buf, 1);
        return Some((Key::Named("ESC"), 1 + d));
    }
    // Non-ASCII: the first character's bytes alone decide.
    assert(buf@ =~= buf@.subrange(0, buf@.len() as int));
    let n = first_scalar_len(buf, 0);
    if n != 0 {
        let c = decode_scalar_at(buf, 0, n);
        return Some((Key::Char(c), n));
    }
    if scalar_prefix_at(buf, 0, buf.len()) {
        return None;
    }
    let d = dead_len_at(buf, 0);
    Some((Key::Char('\u{fffd}'), d))
}

/// Whether `b[i..j]` is the start, but not the whole, of a UTF-8 character.
fn scalar_prefix_at(b: &[u8], i: usize, j: usize) -> (r: bool)
    requires
        i < j <= b@.len(),
    ensures
        r == scalar_prefix(b@.subrange(i as int, j as int)),
{
    let ghost s = b@.subrange(i as int, j as int);
    let len = j - i;
    let b0 = b[i];
    let width: usize = if 0xc2 <= b0 && b0 <= 0xdf {
        2
    } else if 0xe0 <= b0 && b0 <= 0xef {
        3
    } else if 0xf0 <= b0 && b0 <= 0xf4 {
        4
    } else {
        0
    };
    if len >= width {
        return false;
    }
    if len >= 2 {
        let b1 = b[i + 1];
        let ok = 0x80 <= b1 && b1 <= 0xbf && (b0 != 0xe0 || b1 >= 0xa0) && (b0 != 0xed || b1
            <= 0x9f) && (b0 != 0xf0 || b1 >= 0x90) && (b0 != 0xf4 || b1 <= 0x8f);
        if !ok {
            return false;
        }
    }
    if len >= 3 {
        let b2 = b[i + 2];
        if !(0x80 <= b2 && b2 <= 0xbf) {
            return false;
        }
    }
    true
}

/// How many bytes the dead end at `b[i..]` spans, when those bytes can
/// never become a character.
fn dead_len_at(b: &[u8], i: usize) -> (r: usize)
    requires
        i < b@.len(),
    ensures
        r == dead_len(b@.subrange(i as int, b@.len() as int)),
{
    let ghost s = b@.subrange(i as int, b@.len() as int);
    let len = b.len() - i;
    proof {
        assert(forall|m: int| 1 <= m <= s.len() ==> #[trigger] s.take(m) =~= b@.subrange(
            i as int,
            i + m,
        ));
    }
    if len <= 1 || !scalar_prefix_at(b, i, i + 1) {
        return 1;
    }
    if len <= 2 || !scalar_prefix_at(b, i, i + 2) {
        return 2;
    }
    if len <= 3 || !scalar_prefix_at(b, i, i + 3) {
        return 3;
    }
    4
}

/// Decode `ESC [ …` sequences.
fn decode_csi(buf: &[u8]) -> (r: Option<(Key, usize)>)
    requires
        buf@.len() >= 2,
        buf@[0] == 0x1b,
        buf@[1] == 0x5b,
    ensures
        decode_matches(r, spec_decode_csi(buf@)),
{
    if buf.len() < 3 {
        return None;
    }
    let b = buf[2];
    if b == 0x41 {
        return Some((Key::Named("UP"), 3));
    } else if b == 0x42 {
        return Some((Key::Named("DOWN"), 3));
    } else if b == 0x43 {
        return Some((Key::Named("RIGHT"), 3));
    } else if b == 0x44 {
        return Some((Key::Named("LEFT"), 3));
    } else if b == 0x48 {
        return Some((Key::Named("HOME"), 3));
    } else if b == 0x46 {
        return Some((Key::Named("END"), 3));
    } else if b == 0x5a {
        return Some((Key::Named("BACKTAB"), 3));
    }
    if !(0x30 <= b && b <= 0x39) {
        return Some((Key::Named("ESC"), 3));
    }
    // `ESC [ <n> ~`: find where the digits end.
    let mut end: usize = 2;
    while end < buf.len() && 0x30 <= buf[end] && buf[end] <= 0x39
        invariant
            2 <= end <= buf@.len(),
            forall|k: int| 2 <= k < end ==> 0x30 <= #[trigger] buf@[k] && buf@[k] <= 0x39,
        decreases buf@.len() - end,
    {
        end = end + 1;
    }
    proof {
        lemma_csi_end(buf@, 2, end as int);
    }
    if end == buf.len() {
        return None;
    }
    if buf[end] != 0x7e {
        return Some((Key::Named("ESC"), end + 1));
    }
    assert(end >= 3);
    let ghost num = buf@.subrange(2, end as int);
    let len = end - 2;
    let name: Option<&'static str> = if len == 1 {
        let d = buf[2];
        if d == 0x32 {
            Some("INSERT")
        } else if d == 0x33 {
            Some("DELETE")
        } else if d == 0x35 {
            Some("PGUP")
        } else if d == 0x36 {
            Some("PGDN")
        } else {
            None
        }
    } else if len == 2 {
        let d0 = buf[2];
        let d1 = buf[3];
        if d0 == 0x31 && d1 == 0x35 {
            Some("F5")
        } else if d0 == 0x31 && d1 == 0x37 {
            Some("F6")
        } else if d0 == 0x31 && d1 == 0x38 {
            Some("F7")
        } else if d0 == 0x31 && d1 == 0x39 {
            Some("F8")
        } else if d0 == 0x32 && d1 == 0x30 {
            Some("F9")
        } else if d0 == 0x32 && d1 == 0x31 {
            Some("F10")
        } else if d0 == 0x32 && d1 == 0x33 {
            Some("F11")
        } else if d0 == 0x32 && d1 == 0x34 {
            Some("F12")
        } else {
            None
        }
    } else {
        None
    };
    match name {
        Some(n) => {
            assert(tilde_name(num) == Some(n@));
            Some((Key::Named(n), end + 1))
        },
        None => {
            assert(tilde_name(num) is None);
            Some((Key::Named("ESC"), end + 1))
        },
    }
}

/// The `press` argument that names a decoded key, as the recorder writes it.
pub open spec fn key_name(k: KeyView) -> Seq<char> {
    match k {
        KeyView::Named(n) => n,
        KeyView::Char(c) => seq![c],
        KeyView::Ctrl(c) => "CTRL+"@ + seq![c],
        KeyView::Alt(c) => "ALT+"@ + seq![c],
    }
}

/// Every canonical key name is at least two characters long and starts
/// with neither `C` nor `A`.
proof fn lemma_named_shape(u: Seq<char>)
    requires
        named_bytes(u) is Some,
    ensures
        u.len() >= 2,
        u[0] != 'C',
        u[0] != 'A',
        ascii_upper(u) == u,
{
    reveal_strlit("ENTER");
    reveal_strlit("ESC");
    reveal_strlit("TAB");
    reveal_strlit("BACKTAB");
    reveal_strlit("UP");
    reveal_strlit("DOWN");
    reveal_strlit("RIGHT");
    reveal_strlit("LEFT");
    reveal_strlit("HOME");
    reveal_strlit("END");
    reveal_strlit("PGUP");
    reveal_strlit("PGDN");
    reveal_strlit("INSERT");
    reveal_strlit("DELETE");
    reveal_strlit("F1");
    reveal_strlit("F2");
    reveal_strlit("F3");
    reveal_strlit("F4");
    reveal_strlit("F5");
    reveal_strlit("F6");
    reveal_strlit("F7");
    reveal_strlit("F8");
    reveal_strlit("F9");
    reveal_strlit("F10");
    reveal_strlit("F11");
    reveal_strlit("F12");
    assert(ascii_upper(u) =~= u);
}

/// No mouse gesture word is a single character.
proof fn lemma_mouse_words_are_long(k: Seq<char>)
    requires
        is_mouse_word(k),
    ensures
        k.len() > 1,
{
    reveal_strlit("CLICK");
    reveal_strlit("RIGHT_CLICK");
    reveal_strlit("MIDDLE_CLICK");
    reveal_strlit("RELEASE");
    reveal_strlit("SCROLL_UP");
    reveal_strlit("SCROLL_DOWN");
}

/// A single character that is not a key name encodes as its own UTF-8 bytes.
proof fn lemma_single_char_encodes(c: char)
    ensures
        spec_encode_key(seq![c]) == Ok::<Seq<u8>, Seq<char>>(encode_utf8(seq![c])),
{
    let name = seq![c];
    let u = ascii_upper(name);
    assert(u =~= seq![upper_char(c)]);
    if named_bytes(u) is Some {
        lemma_named_shape(u);
    }
    reveal_strlit("CTRL+");
    reveal_strlit("ALT+");
    assert(!has_prefix(u, "CTRL+"@));
    assert(!has_prefix(u, "ALT+"@));
    assert(ws_split_state(u.drop_last()) == (Seq::<Seq<char>>::empty(), Seq::<char>::empty()));
    let toks = split_ws(u);
    if toks.len() > 0 {
        assert(toks =~= seq![seq![upper_char(c)]]);
        assert(toks.skip(1).len() == 0);
        if is_mouse_word(toks[0]) {
            lemma_mouse_words_are_long(toks[0]);
        }
    }
    assert(spec_mouse(u) is None);
}

/// The xterm bytes of each key name that decoding produces. (Any two
/// names differ in length or within their first three characters.)
#[verifier::rlimit(40)]
proof fn lemma_named_table()
    ensures
        named_bytes("ENTER"@) == Some(seq![0x0du8]),
        named_bytes("TAB"@) == Some(seq![0x09u8]),
        named_bytes("ESC"@) == Some(seq![0x1bu8]),
        named_bytes("BACKTAB"@) == Some(seq![0x1bu8, 0x5b, 0x5a]),
        named_bytes("UP"@) == Some(seq![0x1bu8, 0x5b, 0x41]),
        named_bytes("DOWN"@) == Some(seq![0x1bu8, 0x5b, 0x42]),
        named_bytes("RIGHT"@) == Some(seq![0x1bu8, 0x5b, 0x43]),
        named_bytes("LEFT"@) == Some(seq![0x1bu8, 0x5b, 0x44]),
        named_bytes("HOME"@) == Some(seq![0x1bu8, 0x5b, 0x48]),
        named_bytes("END"@) == Some(seq![0x1bu8, 0x5b, 0x46]),
        named_bytes("PGUP"@) == Some(seq![0x1bu8, 0x5b, 0x35, 0x7e]),
        named_bytes("PGDN"@) == Some(seq![0x1bu8, 0x5b, 0x36, 0x7e]),
        named_bytes("INSERT"@) == Some(seq![0x1bu8, 0x5b, 0x32, 0x7e]),
        named_bytes("DELETE"@) == Some(seq![0x1bu8, 0x5b, 0x33, 0x7e]),
        named_bytes("F1"@) == Some(seq![0x1bu8, 0x4f, 0x50]),
        named_bytes("F2"@) == Some(seq![0x1bu8, 0x4f, 0x51]),
        named_bytes("F3"@) == Some(seq![0x1bu8, 0x4f, 0x52]),
        named_bytes("F4"@) == Some(seq![0x1bu8, 0x4f, 0x53]),
        named_bytes("F5"@) == Some(seq![0x1bu8, 0x5b, 0x31, 0x35, 0x7e]),
        named_bytes("F6"@) == Some(seq![0x1bu8, 0x5b, 0x31, 0x37, 0x7e]),
        named_bytes("F7"@) == Some(seq![0x1bu8, 0x5b, 0x31, 0x38, 0x7e]),
        named_bytes("F8"@) == Some(seq![0x1bu8, 0x5b, 0x31, 0x39, 0x7e]),
        named_bytes("F9"@) == Some(seq![0x1bu8, 0x5b, 0x32, 0x30, 0x7e]),
        named_bytes("F10"@) == Some(seq![0x1bu8, 0x5b, 0x32, 0x31, 0x7e]),
        named_bytes("F11"@) == Some(seq![0x1bu8, 0x5b, 0x32, 0x33, 0x7e]),
        named_bytes("F12"@) == Some(seq![0x1bu8, 0x5b, 0x32, 0x34, 0x7e]),
{
    reveal_strlit("ENTER");
    assert("ENTER"@.len() == 5);
    assert("ENTER"@[0] == 'E');
    assert("ENTER"@[1] == 'N');
    assert("ENTER"@[2] == 'T');
    reveal_strlit("ESC");
    assert("ESC"@.len() == 3);
    assert("ESC"@[0] == 'E');
    assert("ESC"@[1] == 'S');
    assert("ESC"@[2] == 'C');
    reveal_strlit("TAB");
    assert("TAB"@.len() == 3);
    assert("TAB"@[0] == 'T');
    assert("TAB"@[1] == 'A');
    assert("TAB"@[2] == 'B');
    reveal_strlit("BACKTAB");
    assert("BACKTAB"@.len() == 7);
    assert("BACKTAB"@[0] == 'B');
    assert("BACKTAB"@[1] == 'A');
    assert("BACKTAB"@[2] == 'C');
    reveal_strlit("UP");
    assert("UP"@.len() == 2);
    assert("UP"@[0] == 'U');
    assert("UP"@[1] == 'P');
    reveal_strlit("DOWN");
    assert("DOWN"@.len() == 4);
    assert("DOWN"@[0] == 'D');
    assert("DOWN"@[1] == 'O');
    assert("DOWN"@[2] == 'W');
    reveal_strlit("RIGHT");
    assert("RIGHT"@.len() == 5);
    assert("RIGHT"@[0] == 'R');
    assert("RIGHT"@[1] == 'I');
    assert("RIGHT"@[2] == 'G');
    reveal_strlit("LEFT");
    assert("LEFT"@.len() == 4);
    assert("LEFT"@[0] == 'L');
    assert("LEFT"@[1] == 'E');
    assert("LEFT"@[2] == 'F');
    reveal_strlit("HOME");
    assert("HOME"@.len() == 4);
    assert("HOME"@[0] == 'H');
    assert("HOME"@[1] == 'O');
    assert("HOME"@[2] == 'M');
    reveal_strlit("END");
    assert("END"@.len() == 3);
    assert("END"@[0] == 'E');
    assert("END"@[1] == 'N');
    assert("END"@[2] == 'D');
    reveal_strlit("PGUP");
    assert("PGUP"@.len() == 4);
    assert("PGUP"@[0] == 'P');
    assert("PGUP"@[1] == 'G');
    assert("PGUP"@[2] == 'U');
    reveal_strlit("PGDN");
    assert("PGDN"@.len() == 4);
    assert("PGDN"@[0] == 'P');
    assert("PGDN"@[1] == 'G');
    assert("PGDN"@[2] == 'D');
    reveal_strlit("INSERT");
    assert("INSERT"@.len() == 6);
    assert("INSERT"@[0] == 'I');
    assert("INSERT"@[1] == 'N');
    assert("INSERT"@[2] == 'S');
    reveal_strlit("DELETE");
    assert("DELETE"@.len() == 6);
    assert("DELETE"@[0] == 'D');
    assert("DELETE"@[1] == 'E');
    assert("DELETE"@[2] == 'L');
    reveal_strlit("F1");
    assert("F1"@.len() == 2);
    assert("F1"@[0] == 'F');
    assert("F1"@[1] == '1');
    reveal_strlit("F2");
    assert("F2"@.len() == 2);
    assert("F2"@[0] == 'F');
    assert("F2"@[1] == '2');
    reveal_strlit("F3");
    assert("F3"@.len() == 2);
    assert("F3"@[0] == 'F');
    assert("F3"@[1] == '3');
    reveal_strlit("F4");
    assert("F4"@.len() == 2);
    assert("F4"@[0] == 'F');
    assert("F4"@[1] == '4');
    reveal_strlit("F5");
    assert("F5"@.len() == 2);
    assert("F5"@[0] == 'F');
    assert("F5"@[1] == '5');
    reveal_strlit("F6");
    assert("F6"@.len() == 2);
    assert("F6"@[0] == 'F');
    assert("F6"@[1] == '6');
    reveal_strlit("F7");
    assert("F7"@.len() == 2);
    assert("F7"@[0] == 'F');
    assert("F7"@[1] == '7');
    reveal_strlit("F8");
    assert("F8"@.len() == 2);
    assert("F8"@[0] == 'F');
    assert("F8"@[1] == '8');
    reveal_strlit("F9");
    assert("F9"@.len() == 2);
    assert("F9"@[0] == 'F');
    assert("F9"@[1] == '9');
    reveal_strlit("F10");
    assert("F10"@.len() == 3);
    assert("F10"@[0] == 'F');
    assert("F10"@[1] == '1');
    assert("F10"@[2] == '0');
    reveal_strlit("F11");
    assert("F11"@.len() == 3);
    assert("F11"@[0] == 'F');
    assert("F11"@[1] == '1');
    assert("F11"@[2] == '1');
    reveal_strlit("F12");
    assert("F12"@.len() == 3);
    assert("F12"@[0] == 'F');
    assert("F12"@[1] == '1');
    assert("F12"@[2] == '2');
}

/// A canonical key name encodes as its table bytes.
proof fn lemma_named_encodes(u: Seq<char>)
    requires
        named_bytes(u) is Some,
    ensures
        spec_encode_key(u) == Ok::<Seq<u8>, Seq<char>>(named_bytes(u)->0),
{
    lemma_named_shape(u);
}

/// `CTRL+` and a character from `@` to `_` encodes as that character's
/// control code.
proof fn lemma_ctrl_encodes(c: char)
    requires
        '@' <= c <= '_',
    ensures
        spec_encode_key("CTRL+"@ + seq![c]) == Ok::<Seq<u8>, Seq<char>>(
            seq![((c as u32) - 64) as u8],
        ),
{
    reveal_strlit("CTRL+");
    let name = "CTRL+"@ + seq![c];
    let u = ascii_upper(name);
    assert(u =~= name);
    assert(u[0] == 'C');
    if named_bytes(u) is Some {
        lemma_named_shape(u);
    }
    assert(u.take(5) =~= "CTRL+"@);
    assert(u.skip(5) =~= seq![c]);
}

/// `ALT+` and a character encodes as ESC followed by the character's UTF-8
/// bytes.
proof fn lemma_alt_encodes(c: char)
    ensures
        spec_encode_key("ALT+"@ + seq![c]) == Ok::<Seq<u8>, Seq<char>>(
            seq![0x1bu8] + encode_utf8(seq![c]),
        ),
{
    reveal_strlit("ALT+");
    reveal_strlit("CTRL+");
    let name = "ALT+"@ + seq![c];
    let u = ascii_upper(name);
    assert(u =~= "ALT+"@ + seq![upper_char(c)]);
    assert(u[0] == 'A');
    if named_bytes(u) is Some {
        lemma_named_shape(u);
    }
    assert(u.take(5)[0] == 'A');
    assert(!has_prefix(u, "CTRL+"@));
    assert(u.take(4) =~= "ALT+"@);
    assert(name.skip(4) =~= seq![c]);
}

/// The bytes of a character, on their own, are well-formed UTF-8 that
/// decodes to the same character.
proof fn lemma_first_scalar_alone(s: Seq<u8>)
    requires
        valid_first_scalar(s),
    ensures
        valid_utf8(take_first_scalar(s)),
        decode_first_scalar(take_first_scalar(s)) == decode_first_scalar(s),
        take_first_scalar(take_first_scalar(s)) == take_first_scalar(s),
        take_first_scalar(s).len() == length_of_first_scalar(s),
{
    let n = length_of_first_scalar(s);
    let t = take_first_scalar(s);
    assert(1 <= n <= 4 && n <= s.len());
    assert(t.len() == n);
    assert(forall|i: int| 0 <= i < n ==> t[i] == s[i]);
    assert(valid_first_scalar(t));
    assert(length_of_first_scalar(t) == n);
    assert(t.subrange(0, n) =~= t);
    assert(pop_first_scalar(t) =~= Seq::<u8>::empty());
    reveal_with_fuel(valid_utf8, 2);
}

/// The escape-sequence half of [`lemma_decoded_keys_reencode`].
proof fn lemma_escape_reencodes(buf: Seq<u8>, k: KeyView, n: int)
    requires
        buf.len() > 0,
        buf[0] == 0x1b,
        spec_decode_escape(buf) == Some((k, n)),
        k != KeyView::Named("ESC"@),
    ensures
        spec_encode_key(key_name(k)) == Ok::<Seq<u8>, Seq<char>>(buf.take(n)),
{
    lemma_named_table();
    if buf[1] == 0x5b {
        let b = buf[2];
        if 0x30 <= b && b <= 0x39 && !(b == 0x41 || b == 0x42 || b == 0x43 || b == 0x44
            || b == 0x48 || b == 0x46 || b == 0x5a) {
            let end = csi_end(buf, 2)->0;
            lemma_csi_end_bound(buf, 2);
            let num = buf.subrange(2, end);
            assert(num.len() == 1 ==> buf.take(n) =~= seq![0x1bu8, 0x5b, num[0], 0x7e]);
            assert(num.len() == 2 ==> buf.take(n) =~= seq![0x1bu8, 0x5b, num[0], num[1], 0x7e]);
        } else {
            assert(buf.take(3) =~= seq![0x1bu8, 0x5b, b]);
        }
        match k {
            KeyView::Named(name) => lemma_named_encodes(name),
            _ => {},
        }
    } else if buf[1] == 0x4f {
        assert(buf.take(3) =~= seq![0x1bu8, 0x4f, buf[2]]);
        match k {
            KeyView::Named(name) => lemma_named_encodes(name),
            _ => {},
        }
    } else {
        let tail = buf.skip(1);
        let c = decode_first_scalar(tail) as char;
        lemma_alt_encodes(c);
        lemma_first_scalar_alone(tail);
        decode_utf8_first_scalar(take_first_scalar(tail));
        lemma_encode_utf8_single(c);
        assert(buf.take(n) =~= seq![0x1bu8] + take_first_scalar(tail));
    }
}

/// Every decoded key re-encodes to exactly the bytes it was decoded from,
/// so a recorded session replays the bytes the user typed. The exceptions:
/// a lone LF decodes as `ENTER`, which encodes as CR, and a dead end
/// decodes as `ESC` or U+FFFD, which encode as their own bytes.
pub proof fn lemma_decoded_keys_reencode(buf: Seq<u8>, k: KeyView, n: int)
    requires
        spec_decode_key(buf) == Some((k, n)),
        buf[0] != 0x0a,
        k != KeyView::Named("ESC"@),
        k == KeyView::Char('\u{fffd}') ==> valid_first_scalar(buf),
    ensures
        spec_encode_key(key_name(k)) == Ok::<Seq<u8>, Seq<char>>(buf.take(n)),
{
    let b = buf[0];
    lemma_named_table();
    if b == 0x0d || b == 0x09 {
        assert(buf.take(1) =~= seq![b]);
        match k {
            KeyView::Named(name) => lemma_named_encodes(name),
            _ => {},
        }
    } else if b == 0x7f || (0x20 <= b && b <= 0x7e) {
        let c = b as char;
        assert(k == KeyView::Char(c));
        lemma_single_char_encodes(c);
        assert(is_ascii_chars(seq![c]));
        is_ascii_chars_encode_utf8(seq![c]);
        assert(encode_utf8(seq![c]) =~= buf.take(1));
    } else if is_ctrl_byte(b) {
        let c = ((b as u32) + 64) as char;
        lemma_ctrl_encodes(c);
        assert(buf.take(1) =~= seq![((c as u32) - 64) as u8]);
    } else if b == 0x1b {
        lemma_escape_reencodes(buf, k, n);
    } else {
        let c = decode_first_scalar(buf) as char;
        lemma_single_char_encodes(c);
        lemma_first_scalar_alone(buf);
        decode_utf8_first_scalar(take_first_scalar(buf));
        lemma_encode_utf8_single(c);
        assert(buf.take(n) =~= take_first_scalar(buf));
    }
}

} // verus!