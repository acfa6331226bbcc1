//! Character-level helpers shared by every module: decimal rendering,
//! literal comparison and string assembly.

use vstd::prelude::*;

verus! {

/// ASCII decimal digits of `n`, most significant first, as bytes.
pub open spec fn dec_digits(n: nat) -> Seq<u8>
    decreases n,
{
    if n < 10 {
        seq![(48 + n) as u8]
    } else {
        dec_digits(n / 10).push((48 + n % 10) as u8)
    }
}

/// ASCII decimal digits of `n`, most significant first, as characters.
pub open spec fn dec_chars(n: nat) -> Seq<char>
    decreases n,
{
    if n < 10 {
        seq![((48 + n) as u8) as char]
    } else {
        dec_chars(n / 10).push(((48 + n % 10) as u8) as char)
    }
}

/// Signed decimal rendering (`-` then the magnitude's digits).
pub open spec fn dec_chars_signed(n: int) -> Seq<char> {
    if n < 0 {
        seq!['-'] + dec_chars((-n) as nat)
    } else {
        dec_chars(n as nat)
    }
}

/// Decimal digits of `n` as bytes.
pub fn dec_bytes_u64(n: u64) -> (v: Vec<u8>)
    ensures
        v@ == dec_digits(n as nat),
    decreases n,
{
    if n < 10 {
        let mut v = Vec::new();
        v.push((48 + n) as u8);
        v
    } else {
        let mut v = dec_bytes_u64(n / 10);
        v.push((48 + n % 10) as u8);
        v
    }
}

/// Append the decimal digits of `n` to `out`.
pub fn push_dec_u64(out: &mut String, n: u64)
    ensures
        final(out)@ == old(out)@ + dec_chars(n as nat),
    decreases n,
{
    if n < 10 {
        push_char(out, ((48 + n) as u8) as char);
    } else {
        push_dec_u64(out, n / 10);
        push_char(out, ((48 + n % 10) as u8) as char);
    }
}

/// Append the decimal digits of `n` to `out`.
pub fn push_dec_u128(out: &mut String, n: u128)
    ensures
        final(out)@ == old(out)@ + dec_chars(n as nat),
    decreases n,
{
    if n < 10 {
        push_char(out, ((48 + n) as u8) as char);
    } else {
        push_dec_u128(out, n / 10);
        push_char(out, ((48 + n % 10) as u8) as char);
    }
}

/// Append the signed decimal rendering of `n` to `out`.
pub fn push_dec_i64(out: &mut String, n: i64)
    ensures
        final(out)@ == old(out)@ + dec_chars_signed(n as int),
{
    if n < 0 {
        push_char(out, '-');
        let magnitude: u64 = if n == i64::MIN {
            9223372036854775808u64
        } else {
            (-n) as u64
        };
        let ghost mid = out@;
        push_dec_u64(out, magnitude);
        assert(out@ =~= old(out)@ + dec_chars_signed(n as int));
    } else {
        push_dec_u64(out, n as u64);
    }
}

/// `String::push`: appends one character.
#[verifier::external_body]
pub(crate) fn push_char(s: &mut String, c: char)
    ensures
        final(s)@ == old(s)@.push(c),
{
    s.push(c);
}

/// Append the characters of a string slice.
pub fn push_str(s: &mut String, t: &str)
    ensures
        final(s)@ == old(s)@ + t@,
{
    s.append(t);
}

/// The characters of `s`, in order.
pub fn chars_of(s: &str) -> (v: Vec<char>)
    ensures
        v@ == s@,
{
    let mut v: Vec<char> = Vec::new();
    let n = s.unicode_len();
    let mut i: usize = 0;
    while i < n
        invariant
            n == s@.len(),
            i <= n,
            v@ == s@.take(i as int),
        decreases n - i,
    {
        let c = s.get_char(i);
        v.push(c);
        i = i + 1;
        assert(v@ =~= s@.take(i as int));
    }
    assert(s@.take(n as int) =~= s@);
    v
}

/// A `String` holding exactly the characters of `v`.
pub fn string_of(v: &[char]) -> (s: String)
    ensures
        s@ == v@,
{
    let mut s = String::new();
    let mut i: usize = 0;
    while i < v.len()
        invariant
            i <= v@.len(),
            s@ == v@.take(i as int),
        decreases v@.len() - i,
    {
        push_char(&mut s, v[i]);
        i = i + 1;
        assert(s@ =~= v@.take(i as int));
    }
    assert(v@.take(v@.len() as int) =~= v@);
    s
}

/// Whether `v` holds exactly the characters of `lit`.
pub fn eq_lit(v: &[char], lit: &str) -> (r: bool)
    ensures
        r == (v@ == lit@),
{
    let n = lit.unicode_len();
    if v.len() != n {
        return false;
    }
    let mut i: usize = 0;
    while i < n
        invariant
            n == lit@.len(),
            n == v@.len(),
            i <= n,
            forall|j: int| 0 <= j < i ==> v@[j] == lit@[j],
        decreases n - i,
    {
        if v[i] != lit.get_char(i) {
            return false;
        }
        i = i + 1;
    }
    assert(v@ =~= lit@);
    true
}

/// Whether `v` begins with the characters of `lit`.
pub fn starts_with_lit(v: &[char], lit: &str) -> (r: bool)
    ensures
        r == (lit@.len() <= v@.len() && v@.take(lit@.len() as int) == lit@),
{
    let n = lit.unicode_len();
    if v.len() < n {
        return false;
    }
    let mut i: usize = 0;
    while i < n
        invariant
            n == lit@.len(),
            n <= v@.len(),
            i <= n,
            forall|j: int| 0 <= j < i ==> v@[j] == lit@[j],
        decreases n - i,
    {
        if v[i] != lit.get_char(i) {
            return false;
        }
        i = i + 1;
    }
    assert(v@.take(n as int) =~= lit@);
    true
}

/// Whether two string slices hold the same characters.
pub fn str_eq(a: &str, b: &str) -> (r: bool)
    ensures
        r == (a@ == b@),
{
    let n = a.unicode_len();
    if b.unicode_len() != n {
        return false;
    }
    let mut i: usize = 0;
    while i < n
        invariant
            n == a@.len(),
            n == b@.len(),
            i <= n,
            forall|j: int| 0 <= j < i ==> a@[j] == b@[j],
        decreases n - i,
    {
        if a.get_char(i) != b.get_char(i) {
            return false;
        }
        i = i + 1;
    }
    assert(a@ =~= b@);
    true
}

/// Unicode `White_Space` (what `char::is_whitespace` tests).
pub open spec fn is_white_space(c: char) -> bool {
    let v = c as u32;
    (0x09 <= v && v <= 0x0d) || v == 0x20 || v == 0x85 || v == 0xa0 || v == 0x1680 || (0x2000
        <= v && v <= 0x200a) || v == 0x2028 || v == 0x2029 || v == 0x202f || v == 0x205f || v
        == 0x3000
}

/// Unicode `White_Space` test.
pub fn is_white_space_exec(c: char) -> (r: bool)
    ensures
        r == is_white_space(c),
{
    let v = c as u32;
    (0x09 <= v && v <= 0x0d) || v == 0x20 || v == 0x85 || v == 0xa0 || v == 0x1680 || (0x2000
        <= v && v <= 0x200a) || v == 0x2028 || v == 0x2029 || v == 0x202f || v == 0x205f || v
        == 0x3000
}

/// `s` without its leading white space.
pub open spec fn trim_start(s: Seq<char>) -> Seq<char>
    decreases s.len(),
{
    if s.len() > 0 && is_white_space(s[0]) {
        trim_start(s.drop_first())
    } else {
        s
    }
}

/// `s` without its trailing white space.
pub open spec fn trim_end(s: Seq<char>) -> Seq<char>
    decreases s.len(),
{
    if s.len() > 0 && is_white_space(s.last()) {
        trim_end(s.drop_last())
    } else {
        s
    }
}

/// `str::trim`: `s` without leading and trailing white space.
pub open spec fn trim(s: Seq<char>) -> Seq<char> {
    trim_end(trim_start(s))
}

/// The characters of `str::trim(s)`.
pub fn trim_chars(s: &[char]) -> (r: Vec<char>)
    ensures
        r@ == trim(s@),
{
    let n = s.len();
    let mut start: usize = 0;
    assert(s@.skip(0) =~= s@);
    while start < n && is_white_space_exec(s[start])
        invariant
            n == s@.len(),
            start <= n,
            trim_start(s@) == trim_start(s@.skip(start as int)),
        decreases n - start,
    {
        assert(s@.skip(start as int).drop_first() =~= s@.skip(start + 1));
        start = start + 1;
    }
    let ghost t = s@.skip(start as int);
    assert(trim_start(s@) == t);
    let mut end: usize = n;
    assert(t.take((end - start) as int) =~= t);
    while end > start && is_white_space_exec(s[end - 1])
        invariant
            n == s@.len(),
            start <= end <= n,
            t == s@.skip(start as int),
            trim_end(t) == trim_end(t.take((end - start) as int)),
        decreases end - start,
    {
        assert(t.take((end - start) as int).drop_last() =~= t.take((end - 1 - start) as int));
        assert(t.take((end - start) as int).last() == s@[end - 1]);
        end = end - 1;
    }
    let mut r: Vec<char> = Vec::new();
    let mut i: usize = start;
    while i < end
        invariant
            start <= i <= end <= n,
            n == s@.len(),
            r@ == s@.subrange(start as int, i as int),
        decreases end - i,
    {
        r.push(s[i]);
        i = i + 1;
        assert(r@ =~= s@.subrange(start as int, i as int));
    }
    assert(t.take((end - start) as int) =~= s@.subrange(start as int, end as int));
    r
}

/// How `{:?}` renders a string: quoted, with escapes.
pub uninterp spec fn debug_str(s: Seq<char>) -> Seq<char>;

/// `<str as Debug>::fmt` through `format!("{:?}")`: the quoted, escaped
/// rendering of `s`. Its result is named by [`debug_str`]; nothing more is
/// claimed of the escaping.
#[verifier::external_body]
pub(crate) fn quote_debug(s: &str) -> (r: String)
    ensures
        r@ == debug_str(s@),
{
    format!("{s:?}")
}

/// The Unicode `Alphabetic` property of a non-ASCII character.
pub uninterp spec fn alphabetic(c: char) -> bool;

/// `char::is_alphabetic`: among ASCII characters exactly the letters;
/// beyond ASCII, the Unicode `Alphabetic` property.
pub open spec fn is_alpha(c: char) -> bool {
    if (c as u32) < 128 {
        ('a' <= c && c <= 'z') || ('A' <= c && c <= 'Z')
    } else {
        alphabetic(c)
    }
}

/// `char::is_alphabetic`: the Unicode `Alphabetic` property. Among ASCII
/// characters exactly the letters have it; beyond ASCII the property is
/// named by [`alphabetic`].
#[verifier::external_body]
pub(crate) fn is_alphabetic(c: char) -> (r: bool)
    ensures
        r == is_alpha(c),
        (c as u32) >= 128 ==> r == alphabetic(c),
{
    c.is_alphabetic()
}

/// How `{:?}` renders a duration of `secs` seconds and `nanos` nanoseconds.
pub uninterp spec fn duration_debug(secs: nat, nanos: nat) -> Seq<char>;

/// `<Duration as Debug>::fmt` through `format!("{:?}")` of
/// `Duration::new(secs, nanos)` (e.g. `3s`, `500ms`, `1.5s`). Its result is
/// named by [`duration_debug`]; nothing more is claimed of the rendering.
#[verifier::external_body]
pub(crate) fn debug_duration(secs: u64, nanos: u32) -> (r: String)
    requires
        nanos < 1000000000,
    ensures
        r@ == duration_debug(secs as nat, nanos as nat),
{
    format!("{:?}", std::time::Duration::new(secs, nanos))
}

/// The pieces of `s` between line feeds (one more than there are feeds).
pub open spec fn split_lf(s: Seq<char>) -> Seq<Seq<char>>
    decreases s.len(),
{
    if s.len() == 0 {
        seq![Seq::<char>::empty()]
    } else {
        let prev = split_lf(s.drop_last());
        if s.last() == '\n' {
            prev.push(Seq::<char>::empty())
        } else {
            prev.update(prev.len() - 1, prev.last().push(s.last()))
        }
    }
}

/// A line without the carriage return that ended it.
pub open spec fn strip_cr(l: Seq<char>) -> Seq<char> {
    if l.len() > 0 && l.last() == '\r' {
        l.drop_last()
    } else {
        l
    }
}

/// `str::lines`: lines end at `\n` or `\r\n`; the final line ending is
/// optional, and a final empty piece is no line.
pub open spec fn lines_of(s: Seq<char>) -> Seq<Seq<char>> {
    let pieces = split_lf(s);
    let ended = Seq::new((pieces.len() - 1) as nat, |i: int| strip_cr(pieces[i]));
    if pieces.last().len() == 0 {
        ended
    } else {
        ended.push(pieces.last())
    }
}

proof fn lemma_split_lf_nonempty(s: Seq<char>)
    ensures
        split_lf(s).len() >= 1,
    decreases s.len(),
{
    if s.len() > 0 {
        lemma_split_lf_nonempty(s.drop_last());
    }
}

fn strip_cr_exec(l: Vec<char>) -> (r: Vec<char>)
    ensures
        r@ == strip_cr(l@),
{
    let mut l = l;
    if l.len() > 0 && l[l.len() - 1] == '\r' {
        l.pop();
    }
    l
}

/// The lines of `s`, as `str::lines` gives them.
pub fn lines(s: &str) -> (r: Vec<Vec<char>>)
    ensures
        r@.len() == lines_of(s@).len(),
        forall|i: int| 0 <= i < r@.len() ==> #[trigger] r@[i]@ == lines_of(s@)[i],
{
    let chars = chars_of(s);
    let mut out: Vec<Vec<char>> = Vec::new();
    let mut cur: Vec<char> = Vec::new();
    let mut i: usize = 0;
    while i < chars.len()
        invariant
            chars@ == s@,
            i <= chars@.len(),
            split_lf(chars@.take(i as int)).len() == out@.len() + 1,
            cur@ == split_lf(chars@.take(i as int)).last(),
            forall|j: int| 0 <= j < out@.len() ==> #[trigger] out@[j]@ == strip_cr(split_lf(chars@.take(i as int))[j]),
        decreases chars@.len() - i,
    {
        let c = chars[i];
        let ghost prefix = chars@.take(i as int);
        assert(chars@.take(i + 1).drop_last() =~= prefix);
        assert(chars@.take(i + 1).last() == c);
        proof {
            lemma_split_lf_nonempty(prefix);
        }
        if c == '\n' {
            let mut line: Vec<char> = Vec::new();
            std::mem::swap(&mut line, &mut cur);
            out.push(strip_cr_exec(line));
        } else {
            cur.push(c);
        }
        i = i + 1;
    }
    assert(chars@.take(chars@.len() as int) =~= s@);
    let ghost pieces = split_lf(s@);
    if cur.len() > 0 {
        out.push(cur);
    }
    assert(lines_of(s@).len() == out@.len());
    out
}

} // verus!
