//! Pure session helpers.

use vstd::prelude::*;

use crate::engine::constants::DEFAULT_TIMEOUT_MS;
use crate::input::encoding::digits_value;
use crate::text::{dec_chars, push_char, push_dec_u64, push_str};

verus! {

/// Normalize a caller-supplied timeout: zero means "use the default".
pub fn clamp_timeout_ms(ms: u64) -> (r: u64)
    ensures
        r == (if ms == 0 {
            DEFAULT_TIMEOUT_MS
        } else {
            ms
        }),
{
    if ms == 0 {
        DEFAULT_TIMEOUT_MS
    } else {
        ms
    }
}

/// Decimal digits left-padded with zeros to at least three characters.
pub open spec fn zero_pad3(d: Seq<char>) -> Seq<char> {
    if d.len() == 1 {
        seq!['0', '0'] + d
    } else if d.len() == 2 {
        seq!['0'] + d
    } else {
        d
    }
}

/// The session id of a counter: `sess_` and the counter, zero-padded to
/// three digits (`sess_007`).
pub open spec fn session_id_text(counter: nat) -> Seq<char> {
    "sess_"@ + zero_pad3(dec_chars(counter))
}

/// Decimal renderings have one digit below 10 and two below 100.
pub proof fn lemma_dec_chars_len(n: nat)
    ensures
        dec_chars(n).len() >= 1,
        (dec_chars(n).len() == 1) == (n < 10),
        (dec_chars(n).len() <= 2) == (n < 100),
    decreases n,
{
    if n >= 10 {
        lemma_dec_chars_len(n / 10);
    }
}

/// Format a session id from a counter (`sess_001`, ...). Shared by every
/// frontend so ids look the same everywhere.
pub fn session_id(counter: u64) -> (r: String)
    ensures
        r@ == session_id_text(counter as nat),
{
    proof {
        lemma_dec_chars_len(counter as nat);
    }
    let mut r = String::new();
    push_str(&mut r, "sess_");
    if counter < 10 {
        push_char(&mut r, '0');
        push_char(&mut r, '0');
    } else if counter < 100 {
        push_char(&mut r, '0');
    }
    push_dec_u64(&mut r, counter);
    assert(r@ =~= session_id_text(counter as nat));
    r
}

/// Leading zeros do not change the value of a digit run.
proof fn lemma_digits_value_leading_zero(d: Seq<char>)
    ensures
        digits_value(seq!['0'] + d) == digits_value(d),
    decreases d.len(),
{
    assert(('0' as u32) == 48);
    if d.len() == 0 {
        assert((seq!['0'] + d).drop_last() =~= Seq::<char>::empty());
        assert((seq!['0'] + d).last() == '0');
        assert(digits_value(Seq::<char>::empty()) == 0);
        assert(digits_value(seq!['0'] + d) == 0);
        assert(d =~= Seq::<char>::empty());
    } else {
        assert((seq!['0'] + d).drop_last() =~= seq!['0'] + d.drop_last());
        assert((seq!['0'] + d).last() == d.last());
        lemma_digits_value_leading_zero(d.drop_last());
        assert(digits_value(seq!['0'] + d) == digits_value((seq!['0'] + d).drop_last()) * 10 + (((seq!['0'] + d).last() as u32) - 48) as nat);
        assert(digits_value(d) == digits_value(d.drop_last()) * 10 + ((d.last() as u32) - 48) as nat);
    }
}

/// The counter can be read back from its padded digits.
proof fn lemma_zero_pad3_value(n: nat)
    ensures
        digits_value(zero_pad3(dec_chars(n))) == n,
{
    crate::protocol::steps::lemma_dec_chars_read_back(n);
    let d = dec_chars(n);
    lemma_digits_value_leading_zero(d);
    lemma_digits_value_leading_zero(seq!['0'] + d);
    assert(seq!['0', '0'] + d =~= seq!['0'] + (seq!['0'] + d));
}

/// Distinct counters give distinct session ids.
pub proof fn lemma_session_id_injective(a: nat, b: nat)
    requires
        a != b,
    ensures
        session_id_text(a) != session_id_text(b),
{
    reveal_strlit("sess_");
    lemma_zero_pad3_value(a);
    lemma_zero_pad3_value(b);
    if session_id_text(a) == session_id_text(b) {
        assert(session_id_text(a).skip(5) =~= zero_pad3(dec_chars(a)));
        assert(session_id_text(b).skip(5) =~= zero_pad3(dec_chars(b)));
    }
}

} // verus!
