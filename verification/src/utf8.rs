//! UTF-8 on byte buffers, against vstd's UTF-8 definitions: encoding of
//! characters, validation of byte runs and decoding of the first scalar.

use vstd::prelude::*;
use vstd::utf8::*;

verus! {

/// UTF-8 encoding distributes over concatenation.
pub proof fn lemma_encode_utf8_append(a: Seq<char>, b: Seq<char>)
    ensures
        encode_utf8(a + b) == encode_utf8(a) + encode_utf8(b),
    decreases a.len(),
{
    if a.len() == 0 {
        assert(a + b =~= b);
    } else {
        assert((a + b).drop_first() =~= a.drop_first() + b);
        lemma_encode_utf8_append(a.drop_first(), b);
        assert(encode_utf8(a + b) =~= encode_utf8(a) + encode_utf8(b));
    }
}

/// The encoding of a single character.
pub proof fn lemma_encode_utf8_single(c: char)
    ensures
        encode_utf8(seq![c]) == encode_scalar(c as u32),
{
    let s = seq![c];
    assert(s.drop_first() =~= Seq::<char>::empty());
    assert(encode_utf8(s.drop_first()) == Seq::<u8>::empty());
    assert(encode_utf8(s) == encode_scalar(s[0] as u32) + encode_utf8(s.drop_first()));
    assert(encode_utf8(s) =~= encode_scalar(c as u32));
}

/// Append the UTF-8 encoding of `c` to `out`.
pub fn push_encoded_char(out: &mut Vec<u8>, c: char)
    ensures
        final(out)@ == old(out)@ + encode_scalar(c as u32),
{
    proof {
        char_is_scalar(c);
    }
    let v = c as u32;
    if v <= 0x7F {
        out.push((v & 0x7F) as u8);
        assert(out@ =~= old(out)@ + encode_scalar(c as u32));
    } else if v <= 0x7FF {
        out.push(0xC0 | ((v >> 6) & 0x1F) as u8);
        out.push(0x80 | (v & 0x3F) as u8);
        assert(out@ =~= old(out)@ + encode_scalar(c as u32));
    } else if v <= 0xFFFF {
        out.push(0xE0 | ((v >> 12) & 0x0F) as u8);
        out.push(0x80 | ((v >> 6) & 0x3F) as u8);
        out.push(0x80 | (v & 0x3F) as u8);
        assert(out@ =~= old(out)@ + encode_scalar(c as u32));
    } else {
        out.push(0xF0 | ((v >> 18) & 0x7) as u8);
        out.push(0x80 | ((v >> 12) & 0x3F) as u8);
        out.push(0x80 | ((v >> 6) & 0x3F) as u8);
        out.push(0x80 | (v & 0x3F) as u8);
        assert(out@ =~= old(out)@ + encode_scalar(c as u32));
    }
}

/// Append the UTF-8 encoding of `v` to `out`.
pub fn push_encoded_chars(out: &mut Vec<u8>, v: &[char])
    ensures
        final(out)@ == old(out)@ + encode_utf8(v@),
{
    let ghost start = out@;
    let mut i: usize = 0;
    while i < v.len()
        invariant
            i <= v@.len(),
            out@ == start + encode_utf8(v@.take(i as int)),
        decreases v@.len() - i,
    {
        push_encoded_char(out, v[i]);
        proof {
            lemma_encode_utf8_append(v@.take(i as int), seq![v@[i as int]]);
            lemma_encode_utf8_single(v@[i as int]);
            assert(v@.take(i + 1) =~= v@.take(i as int) + seq![v@[i as int]]);
        }
        i = i + 1;
        assert(out@ =~= start + encode_utf8(v@.take(i as int)));
    }
    assert(v@.take(v@.len() as int) =~= v@);
}

/// The UTF-8 encoding of `v`.
pub fn encode_chars(v: &[char]) -> (out: Vec<u8>)
    ensures
        out@ == encode_utf8(v@),
{
    let mut out: Vec<u8> = Vec::new();
    push_encoded_chars(&mut out, v);
    assert(out@ =~= encode_utf8(v@));
    out
}

/// Length of the well-formed scalar starting at `b[i]`, or 0 when the bytes
/// there do not start with one.
pub fn first_scalar_len(b: &[u8], i: usize) -> (n: usize)
    requires
        i < b@.len(),
    ensures
        (n != 0) == valid_first_scalar(b@.subrange(i as int, b@.len() as int)),
        n != 0 ==> n as int == length_of_first_scalar(b@.subrange(i as int, b@.len() as int)),
        n != 0 ==> i + n <= b@.len(),
{
    let ghost s = b@.subrange(i as int, b@.len() as int);
    let len = b.len();
    let b0 = b[i];
    if b0 <= 0x7f {
        return 1;
    }
    if 0xc0 <= b0 && b0 <= 0xdf {
        if len - i < 2 {
            return 0;
        }
        let b1 = b[i + 1];
        if !(0x80 <= b1 && b1 <= 0xbf) {
            return 0;
        }
        let cp: u32 = (((b0 & 0x1F) as u32) << 6) | ((b1 & 0x3f) as u32);
        assert(cp == decode_first_codepoint(s));
        assert(((((b0 & 0x1F) as u32) << 6) | ((b1 & 0x3f) as u32)) <= 0x7FF) by (bit_vector);
        if cp < 0x80 {
            return 0;
        }
        return 2;
    }
    if 0xe0 <= b0 && b0 <= 0xef {
        if len - i < 3 {
            return 0;
        }
        let b1 = b[i + 1];
        let b2 = b[i + 2];
        if !(0x80 <= b1 && b1 <= 0xbf) || !(0x80 <= b2 && b2 <= 0xbf) {
            return 0;
        }
        let cp: u32 = (((b0 & 0x0F) as u32) << 12) | (((b1 & 0x3f) as u32) << 6) | ((b2
            & 0x3f) as u32);
        assert(cp == decode_first_codepoint(s));
        if cp < 0x800 || (0xD800 <= cp && cp <= 0xDFFF) {
            return 0;
        }
        return 3;
    }
    if 0xf0 <= b0 && b0 <= 0xf7 {
        if len - i < 4 {
            return 0;
        }
        let b1 = b[i + 1];
        let b2 = b[i + 2];
        let b3 = b[i + 3];
        if !(0x80 <= b1 && b1 <= 0xbf) || !(0x80 <= b2 && b2 <= 0xbf) || !(0x80 <= b3 && b3
            <= 0xbf) {
            return 0;
        }
        let cp: u32 = (((b0 & 0x07) as u32) << 18) | (((b1 & 0x3f) as u32) << 12) | (((b2
            & 0x3f) as u32) << 6) | ((b3 & 0x3f) as u32);
        assert(cp == decode_first_codepoint(s));
        if cp < 0x10000 || cp > 0x10ffff || (0xD800 <= cp && cp <= 0xDFFF) {
            return 0;
        }
        return 4;
    }
    0
}

/// Whether `b[i..]` is well-formed UTF-8.
pub fn valid_utf8_from(b: &[u8], i: usize) -> (r: bool)
    requires
        i <= b@.len(),
    ensures
        r == valid_utf8(b@.subrange(i as int, b@.len() as int)),
{
    let len = b.len();
    let mut j = i;
    while j < len
        invariant
            len == b@.len(),
            i <= j <= len,
            valid_utf8(b@.subrange(i as int, len as int)) == valid_utf8(
                b@.subrange(j as int, len as int),
            ),
        decreases len - j,
    {
        let n = first_scalar_len(b, j);
        if n == 0 {
            return false;
        }
        proof {
            let s = b@.subrange(j as int, len as int);
            assert(pop_first_scalar(s) =~= b@.subrange(j + n, len as int));
        }
        j = j + n;
    }
    proof {
        assert(b@.subrange(j as int, len as int).len() == 0);
    }
    true
}

/// `char::from_u32`: the character of a Unicode scalar value. For a
/// scalar value it returns `Some` of the character whose code is `v`.
#[verifier::external_body]
pub(crate) fn char_of_scalar(v: u32) -> (c: char)
    requires
        is_scalar(v),
    ensures
        c as u32 == v,
{
    char::from_u32(v).unwrap()
}

/// Decode the scalar at `b[i]`, given that it is well-formed there.
pub fn decode_scalar_at(b: &[u8], i: usize, n: usize) -> (c: char)
    requires
        i < b@.len(),
        valid_first_scalar(b@.subrange(i as int, b@.len() as int)),
        n as int == length_of_first_scalar(b@.subrange(i as int, b@.len() as int)),
        i + n <= b@.len(),
    ensures
        c == decode_first_scalar(b@.subrange(i as int, b@.len() as int)) as char,
{
    let ghost s = b@.subrange(i as int, b@.len() as int);
    let b0 = b[i];
    let cp: u32 = if n == 1 {
        (b0 & 0x7F) as u32
    } else if n == 2 {
        (((b0 & 0x1F) as u32) << 6) | ((b[i + 1] & 0x3f) as u32)
    } else if n == 3 {
        (((b0 & 0x0F) as u32) << 12) | (((b[i + 1] & 0x3f) as u32) << 6) | ((b[i + 2]
            & 0x3f) as u32)
    } else {
        (((b0 & 0x07) as u32) << 18) | (((b[i + 1] & 0x3f) as u32) << 12) | (((b[i + 2]
            & 0x3f) as u32) << 6) | ((b[i + 3] & 0x3f) as u32)
    };
    assert(cp == decode_first_scalar(s));
    proof {
        lemma_first_scalar_is_scalar(s);
    }
    let c = char_of_scalar(cp);
    proof {
        char_u32_cast(c, cp);
    }
    c
}

/// A well-formed first scalar decodes to a Unicode scalar value.
pub proof fn lemma_first_scalar_is_scalar(s: Seq<u8>)
    requires
        valid_first_scalar(s),
    ensures
        is_scalar(decode_first_scalar(s)),
{
    let b0 = s[0];
    if is_leading_byte_width_1(b0) {
        assert((b0 & 0x7F) as u32 <= 0x7F) by (bit_vector);
    } else if is_leading_byte_width_2(b0) {
        let b1 = s[1];
        assert(((((b0 & 0x1F) as u32) << 6) | ((b1 & 0x3F) as u32)) <= 0x7FF) by (bit_vector);
    } else if is_leading_byte_width_3(b0) {
        let b1 = s[1];
        let b2 = s[2];
        assert(((((b0 & 0x0F) as u32) << 12) | (((b1 & 0x3F) as u32) << 6) | ((b2
            & 0x3F) as u32)) <= 0xFFFF) by (bit_vector);
    } else {
    }
}

} // verus!
