//! The recorder's synthesis rules: which screen line becomes a
//! `wait_for_text`, how keystrokes become `press` and `type` steps, and how
//! a finished session becomes a suite.
//!
//! Recording itself (driving the terminal, pacing beats, waiting for the
//! screen to settle) is I/O and lives with the command-line program; each
//! decision it takes is one of the functions below.

use vstd::prelude::*;
use crate::text::{
    is_white_space, is_white_space_exec, trim, trim_chars, string_of, chars_of, lines, lines_of,
    str_eq, push_char, push_str,
};
use crate::utf8::encode_chars;
use crate::protocol::actions::strings_view;
use crate::protocol::steps::{
    Step, StepView, WaitForText, steps_view, TestFile, TestFileView, Application, ApplicationView,
    TerminalConfig, SuiteAssertion, ProtocolErrorView, canonical_file, canonical_step,
    durations_fit, file_durations_fit, file_outcome, lemma_test_file_roundtrip, test_file_tree,
};
use crate::protocol::constants::SCHEMA_ID;
use crate::input::decode::{decode_key, Key, KeyView, spec_decode_key, key_name, lemma_decoded_len};
use crate::cli::constants::{REC_CHUNK_BYTES, REC_FINISH_BYTE, REC_STABLE_POLLS};

verus! {

/// Characters a recorded line is stripped of at both ends: padding and
/// box-drawing borders.
pub open spec fn is_frame(c: char) -> bool {
    is_white_space(c) || c == '\u{2502}' || c == '\u{250c}' || c == '\u{2510}' || c == '\u{2514}'
        || c == '\u{2518}' || c == '\u{2500}'
}

fn is_frame_exec(c: char) -> (r: bool)
    ensures
        r == is_frame(c),
{
    is_white_space_exec(c) || c == '\u{2502}' || c == '\u{250c}' || c == '\u{2510}' || c
        == '\u{2514}' || c == '\u{2518}' || c == '\u{2500}'
}

/// `s` without its leading frame characters.
pub open spec fn trim_frame_start(s: Seq<char>) -> Seq<char>
    decreases s.len(),
{
    if s.len() > 0 && is_frame(s[0]) {
        trim_frame_start(s.drop_first())
    } else {
        s
    }
}

/// `s` without its trailing frame characters.
pub open spec fn trim_frame_end(s: Seq<char>) -> Seq<char>
    decreases s.len(),
{
    if s.len() > 0 && is_frame(s.last()) {
        trim_frame_end(s.drop_last())
    } else {
        s
    }
}

/// A terminal row reduced to its human content: frame characters trimmed,
/// then the list highlight marker `> ` dropped, then white space trimmed.
pub open spec fn clean(line: Seq<char>) -> Seq<char> {
    let t = trim_frame_end(trim_frame_start(line));
    if t.len() >= 2 && t[0] == '>' && t[1] == ' ' {
        trim(t.skip(2))
    } else {
        trim(t)
    }
}

fn trim_frame_chars(s: &[char]) -> (r: Vec<char>)
    ensures
        r@ == trim_frame_end(trim_frame_start(s@)),
{
    let n = s.len();
    let mut start: usize = 0;
    assert(s@.skip(0) =~= s@);
    while start < n && is_frame_exec(s[start])
        invariant
            n == s@.len(),
            start <= n,
            trim_frame_start(s@) == trim_frame_start(s@.skip(start as int)),
        decreases n - start,
    {
        assert(s@.skip(start as int).drop_first() =~= s@.skip(start + 1));
        start = start + 1;
    }
    let ghost t = s@.skip(start as int);
    assert(trim_frame_start(s@) == t);
    let mut end: usize = n;
    assert(t.take((end - start) as int) =~= t);
    while end > start && is_frame_exec(s[end - 1])
        invariant
            n == s@.len(),
            start <= end <= n,
            t == s@.skip(start as int),
            trim_frame_end(t) == trim_frame_end(t.take((end - start) as int)),
        decreases end - start,
    {
        assert(t.take((end - start) as int).drop_last() =~= t.take((end - 1 - start) as int));
        assert(t.take((end - start) as int).last() == s@[end - 1]);
        end = end - 1;
    }
    let mut r: Vec<char> = Vec::new();
    let mut i: usize = start;
    while i < end
        invariant
            start <= i <= end <= n,
            n == s@.len(),
            r@ == s@.subrange(start as int, i as int),
        decreases end - i,
    {
        r.push(s[i]);
        i = i + 1;
        assert(r@ =~= s@.subrange(start as int, i as int));
    }
    assert(t.take((end - start) as int) =~= s@.subrange(start as int, end as int));
    r
}

fn clean_chars(line: &[char]) -> (r: Vec<char>)
    ensures
        r@ == clean(line@),
{
    let t = trim_frame_chars(line);
    if t.len() >= 2 && t[0] == '>' && t[1] == ' ' {
        let mut rest: Vec<char> = Vec::new();
        let mut i: usize = 2;
        while i < t.len()
            invariant
                2 <= i <= t@.len(),
                rest@ == t@.subrange(2, i as int),
            decreases t@.len() - i,
        {
            rest.push(t[i]);
            i = i + 1;
            assert(rest@ =~= t@.subrange(2, i as int));
        }
        assert(rest@ =~= t@.skip(2));
        trim_chars(rest.as_slice())
    } else {
        trim_chars(t.as_slice())
    }
}

/// Reduce a terminal row to its human content: `│> alpha-table   │`
/// becomes `alpha-table`, the string a human would assert on.
pub fn clean_line(line: &str) -> (r: String)
    ensures
        r@ == clean(line@),
{
    let v = chars_of(line);
    let c = clean_chars(v.as_slice());
    string_of(c.as_slice())
}

/// The cleaned lines of a screen dump.
pub open spec fn cleaned_lines(text: Seq<char>) -> Seq<Seq<char>> {
    Seq::new(lines_of(text).len(), |i: int| clean(lines_of(text)[i]))
}

/// The cleaned lines of a screen: what the next wait target is compared
/// against.
pub fn last_stable_lines(text: &str) -> (r: Vec<String>)
    ensures
        strings_view(r@) == cleaned_lines(text@),
{
    let ls = lines(text);
    let mut r: Vec<String> = Vec::new();
    let mut i: usize = 0;
    while i < ls.len()
        invariant
            i <= ls@.len(),
            ls@.len() == lines_of(text@).len(),
            forall|j: int| 0 <= j < ls@.len() ==> #[trigger] ls@[j]@ == lines_of(text@)[j],
            r@.len() == i,
            forall|j: int| 0 <= j < i ==> #[trigger] r@[j]@ == clean(lines_of(text@)[j]),
        decreases ls@.len() - i,
    {
        let c = clean_chars(ls[i].as_slice());
        r.push(string_of(c.as_slice()));
        i = i + 1;
    }
    assert(strings_view(r@) =~= cleaned_lines(text@));
    r
}

/// A cleaned line that can serve as a wait target: not empty, and at most
/// 100 bytes of UTF-8.
pub open spec fn wait_candidate(l: Seq<char>) -> bool {
    l.len() > 0 && vstd::utf8::encode_utf8(l).len() <= 100
}

/// The first of `lines`, cleaned, that can serve as a wait target and is
/// not among `before`.
pub open spec fn first_new(before: Seq<Seq<char>>, lines: Seq<Seq<char>>) -> Option<Seq<char>>
    decreases lines.len(),
{
    if lines.len() == 0 {
        None
    } else {
        let l = clean(lines[0]);
        if wait_candidate(l) && !before.contains(l) {
            Some(l)
        } else {
            first_new(before, lines.drop_first())
        }
    }
}

/// The wait target is the topmost fresh line of the screen: a line that,
/// cleaned, can serve as a wait target and was not on the previous screen,
/// with no fresh line above it. There is none exactly when no line is
/// fresh.
pub proof fn lemma_first_new_is_topmost(before: Seq<Seq<char>>, lines: Seq<Seq<char>>)
    ensures
        first_new(before, lines) is None <==> (forall|j: int|
            0 <= j < lines.len() ==> !(wait_candidate(#[trigger] clean(lines[j])) && !before.contains(
                clean(lines[j]),
            ))),
        first_new(before, lines) matches Some(s) ==> exists|k: int|
            0 <= k < lines.len() && #[trigger] clean(lines[k]) == s && wait_candidate(s)
                && !before.contains(s) && forall|j: int|
                0 <= j < k ==> !(wait_candidate(#[trigger] clean(lines[j])) && !before.contains(
                    clean(lines[j]),
                )),
    decreases lines.len(),
{
    if lines.len() > 0 {
        let rest = lines.drop_first();
        lemma_first_new_is_topmost(before, rest);
        assert forall|j: int| 0 <= j < rest.len() implies #[trigger] rest[j] == lines[j + 1] by {}
        let l = clean(lines[0]);
        if wait_candidate(l) && !before.contains(l) {
            assert(clean(lines[0]) == l);
        } else {
            if first_new(before, rest) is None {
                assert forall|j: int| 0 <= j < lines.len() implies !(wait_candidate(
                    #[trigger] clean(lines[j]),
                ) && !before.contains(clean(lines[j]))) by {
                    if j > 0 {
                        assert(clean(rest[j - 1]) == clean(lines[j]));
                    }
                }
            } else {
                let s = first_new(before, rest)->0;
                let k = choose|k: int|
                    0 <= k < rest.len() && #[trigger] clean(rest[k]) == s && wait_candidate(s)
                        && !before.contains(s) && forall|j: int|
                        0 <= j < k ==> !(wait_candidate(#[trigger] clean(rest[j])) && !before.contains(
                            clean(rest[j]),
                        ));
                assert(clean(lines[k + 1]) == s);
                assert forall|j: int| 0 <= j < k + 1 implies !(wait_candidate(
                    #[trigger] clean(lines[j]),
                ) && !before.contains(clean(lines[j]))) by {
                    if j > 0 {
                        assert(clean(rest[j - 1]) == clean(lines[j]));
                    }
                }
            }
        }
    }
}

fn contains_line(before: &[String], line: &str) -> (r: bool)
    ensures
        r == strings_view(before@).contains(line@),
{
    let mut i: usize = 0;
    while i < before.len()
        invariant
            i <= before@.len(),
            forall|j: int| 0 <= j < i ==> before@[j]@ != line@,
        decreases before@.len() - i,
    {
        if str_eq(before[i].as_str(), line) {
            assert(strings_view(before@)[i as int] == line@);
            return true;
        }
        i = i + 1;
    }
    proof {
        if strings_view(before@).contains(line@) {
            let j = choose|j: int| 0 <= j < strings_view(before@).len() && strings_view(before@)[j] == line@;
            assert(before@[j]@ == line@);
        }
    }
    false
}

/// The first screen line (cleaned, short, not empty) absent from the
/// previous screen's lines.
pub fn first_new_line(before: &[String], after: &str) -> (r: Option<String>)
    ensures
        match r {
            Some(s) => first_new(strings_view(before@), lines_of(after@)) == Some(s@),
            None => first_new(strings_view(before@), lines_of(after@)) is None,
        },
{
    let ls = lines(after);
    let ghost all = lines_of(after@);
    let ghost bv = strings_view(before@);
    let mut i: usize = 0;
    assert(all.skip(0) =~= all);
    while i < ls.len()
        invariant
            i <= ls@.len(),
            ls@.len() == all.len(),
            all == lines_of(after@),
            bv == strings_view(before@),
            forall|j: int| 0 <= j < ls@.len() ==> #[trigger] ls@[j]@ == all[j],
            first_new(bv, all) == first_new(bv, all.skip(i as int)),
        decreases ls@.len() - i,
    {
        let c = clean_chars(ls[i].as_slice());
        let bytes = encode_chars(c.as_slice());
        let s = string_of(c.as_slice());
        assert(all.skip(i as int)[0] == all[i as int]);
        assert(all.skip(i as int).drop_first() =~= all.skip(i + 1));
        if c.len() > 0 && bytes.len() <= 100 && !contains_line(before, s.as_str()) {
            return Some(s);
        }
        i = i + 1;
    }
    None
}

/// The step that waits for `text` to appear.
pub open spec fn wait_step(text: Seq<char>) -> StepView {
    StepView::WaitForText { text, regex: false, timeout_ms: None }
}

/// Append a `wait_for_text` for the first new stable line, if there is one.
pub fn emit_wait_for(steps: &mut Vec<Step>, before_lines: &[String], after: &str)
    ensures
        steps_view(final(steps)@) == match first_new(strings_view(before_lines@), lines_of(after@)) {
            Some(t) => steps_view(old(steps)@).push(wait_step(t)),
            None => steps_view(old(steps)@),
        },
{
    match first_new_line(before_lines, after) {
        Some(target) => {
            steps.push(Step::WaitForText(WaitForText { text: target, regex: false, timeout_ms: None }));
            assert(steps_view(steps@) =~= steps_view(old(steps)@).push(
                wait_step(first_new(strings_view(before_lines@), lines_of(after@))->0),
            ));
        },
        None => {},
    }
}

/// Waiting for the screen to hold still: the last screen polled and how
/// many polls in a row have shown it again.
pub struct Settling {
    pub last: String,
    pub steady: usize,
}

impl Settling {
    /// Nothing polled yet: the last screen is empty.
    pub fn new() -> (s: Settling)
        ensures
            s.last@ == Seq::<char>::empty(),
            s.steady == 0,
    {
        Settling { last: String::new(), steady: 0 }
    }

    /// Take one polled screen. A repeat of the last screen counts towards
    /// holding still; a different one becomes the last screen and starts
    /// the count again. Returns whether the screen has now repeated
    /// `REC_STABLE_POLLS` times in a row, when the wait ends.
    pub fn observe(&mut self, current: String) -> (settled: bool)
        requires
            old(self).steady < REC_STABLE_POLLS,
        ensures
            current@ == old(self).last@ ==> final(self).last@ == old(self).last@
                && final(self).steady == old(self).steady + 1,
            current@ != old(self).last@ ==> final(self).last@ == current@ && final(self).steady
                == 0,
            settled == (final(self).steady >= REC_STABLE_POLLS),
    {
        if str_eq(current.as_str(), self.last.as_str()) {
            self.steady = self.steady + 1;
        } else {
            self.steady = 0;
            self.last = current;
        }
        self.steady >= REC_STABLE_POLLS
    }
}

/// Whether a polled screen differs from `baseline`, white space around
/// both set aside, and shows something: what ends the wait for a slow
/// start, or for piped input to take effect.
pub fn screen_changed(current: &str, baseline: &str) -> (r: bool)
    ensures
        r == (trim(current@) != trim(baseline@) && trim(current@).len() > 0),
{
    let c = trim_chars(chars_of(current).as_slice());
    if c.len() == 0 {
        return false;
    }
    let b = trim_chars(chars_of(baseline).as_slice());
    let cs = string_of(c.as_slice());
    let bs = string_of(b.as_slice());
    !str_eq(cs.as_str(), bs.as_str())
}


/// Whether every step is a `press`, a `type` or a `wait_for_text`: what the
/// recorder emits (it never emits a `sleep`).
pub open spec fn recordable(s: Seq<StepView>) -> bool {
    forall|i: int|
        0 <= i < s.len() ==> (#[trigger] s[i] is Press || s[i] is Type || s[i] is WaitForText)
}

/// `pending` with the typing run `run`, if any, appended as one `type` step.
pub open spec fn flushed(pending: Seq<StepView>, run: Seq<char>) -> Seq<StepView> {
    if run.len() > 0 {
        pending.push(StepView::Type(run))
    } else {
        pending
    }
}

/// Move the typing buffer into a single `type` step.
pub fn flush_typing(pending: &mut Vec<Step>, type_run: &mut String)
    ensures
        steps_view(final(pending)@) == flushed(steps_view(old(pending)@), old(type_run)@),
        final(type_run)@ == Seq::<char>::empty(),
{
    let mut run = String::new();
    std::mem::swap(&mut run, type_run);
    if !run.as_str().is_empty() {
        pending.push(Step::Type(run));
        assert(steps_view(pending@) =~= steps_view(old(pending)@).push(StepView::Type(old(type_run)@)));
    }
}

/// Flush the typing run and move the pending inputs to the recorded steps.
pub fn commit_pending(steps: &mut Vec<Step>, pending: &mut Vec<Step>, type_run: &mut String)
    ensures
        steps_view(final(steps)@) == steps_view(old(steps)@) + flushed(
            steps_view(old(pending)@),
            old(type_run)@,
        ),
        final(pending)@.len() == 0,
        final(type_run)@ == Seq::<char>::empty(),
{
    flush_typing(pending, type_run);
    let ghost mid = pending@;
    steps.append(pending);
    assert(steps_view(steps@) =~= steps_view(old(steps)@) + steps_view(mid));
}

/// The text of a `type` step.
pub open spec fn typed(x: StepView) -> Seq<char> {
    match x {
        StepView::Type(t) => t,
        _ => Seq::empty(),
    }
}

/// Adjacent `type` steps merged into one, left to right.
pub open spec fn coalesce(s: Seq<StepView>) -> Seq<StepView>
    decreases s.len(),
{
    if s.len() == 0 {
        s
    } else {
        let c = coalesce(s.drop_last());
        let x = s.last();
        if c.len() > 0 && c.last() is Type && x is Type {
            c.update(c.len() - 1, StepView::Type(typed(c.last()) + typed(x)))
        } else {
            c.push(x)
        }
    }
}

/// All typed text, in order.
pub open spec fn typed_text(s: Seq<StepView>) -> Seq<char>
    decreases s.len(),
{
    if s.len() == 0 {
        Seq::empty()
    } else {
        typed_text(s.drop_last()) + typed(s.last())
    }
}

/// The steps that are not `type` steps, in order.
pub open spec fn untyped(s: Seq<StepView>) -> Seq<StepView>
    decreases s.len(),
{
    if s.len() == 0 {
        s
    } else if s.last() is Type {
        untyped(s.drop_last())
    } else {
        untyped(s.drop_last()).push(s.last())
    }
}

/// No two neighbouring steps are both `type` steps.
pub open spec fn no_adjacent_types(s: Seq<StepView>) -> bool {
    forall|i: int| 0 <= i < s.len() - 1 ==> !(#[trigger] s[i] is Type && s[i + 1] is Type)
}

/// Merging typing runs leaves no two `type` steps side by side, keeps every
/// typed character in order, keeps every other step in order, and emits
/// only what the recorder emits.
pub proof fn lemma_coalesce(s: Seq<StepView>)
    ensures
        no_adjacent_types(coalesce(s)),
        typed_text(coalesce(s)) == typed_text(s),
        untyped(coalesce(s)) == untyped(s),
        coalesce(s).len() <= s.len(),
        recordable(s) ==> recordable(coalesce(s)),
    decreases s.len(),
{
    if s.len() > 0 {
        let p = s.drop_last();
        lemma_coalesce(p);
        let c = coalesce(p);
        let x = s.last();
        if c.len() > 0 && c.last() is Type && x is Type {
            let m = c.update(c.len() - 1, StepView::Type(typed(c.last()) + typed(x)));
            assert(m.drop_last() =~= c.drop_last());
            assert(typed_text(c) == typed_text(c.drop_last()) + typed(c.last()));
            assert(typed_text(m) =~= typed_text(c) + typed(x));
            assert(untyped(c) == untyped(c.drop_last()));
            assert(untyped(m) == untyped(m.drop_last()));
            if recordable(s) {
                assert forall|i: int| 0 <= i < m.len() implies (#[trigger] m[i] is Press || m[i]
                    is Type || m[i] is WaitForText) by {
                    if i < c.len() - 1 {
                        assert(m[i] == c[i]);
                        assert(recordable(p)) by {
                            assert forall|j: int| 0 <= j < p.len() implies (#[trigger] p[j] is Press
                                || p[j] is Type || p[j] is WaitForText) by {
                                assert(p[j] == s[j]);
                            }
                        }
                    }
                }
            }
        } else {
            let m = c.push(x);
            assert(m.drop_last() =~= c);
            if recordable(s) {
                assert(recordable(p)) by {
                    assert forall|j: int| 0 <= j < p.len() implies (#[trigger] p[j] is Press
                        || p[j] is Type || p[j] is WaitForText) by {
                        assert(p[j] == s[j]);
                    }
                }
                assert forall|i: int| 0 <= i < m.len() implies (#[trigger] m[i] is Press || m[i]
                    is Type || m[i] is WaitForText) by {
                    if i < c.len() {
                        assert(m[i] == c[i]);
                    }
                }
            }
        }
    }
}

/// Merge adjacent `type` steps split by beat boundaries back into one: the
/// suite reads as the user typed.
pub fn coalesce_typing(steps: &mut Vec<Step>)
    ensures
        steps_view(final(steps)@) == coalesce(steps_view(old(steps)@)),
{
    let mut src: Vec<Step> = Vec::new();
    std::mem::swap(&mut src, steps);
    let ghost orig = steps_view(src@);
    let total: usize = src.len();
    assert(orig.len() == total);
    let mut merged: Vec<Step> = Vec::new();
    let mut i: usize = 0;
    assert(orig.take(0) =~= Seq::<StepView>::empty());
    assert(orig.skip(0) =~= orig);
    while src.len() > 0
        invariant
            i <= orig.len(),
            orig.len() <= usize::MAX,
            steps_view(merged@) == coalesce(orig.take(i as int)),
            steps_view(src@) == orig.skip(i as int),
        decreases src@.len(),
    {
        let ghost src0 = src@;
        assert(steps_view(src0).len() == src0.len());
        assert(steps_view(src0)[0] == src0[0]@);
        assert(orig.skip(i as int)[0] == orig[i as int]);
        let step = src.remove(0);
        assert(step@ == orig[i as int]);
        assert(orig.take(i + 1).drop_last() =~= orig.take(i as int));
        assert(orig.take(i + 1).last() == orig[i as int]);
        let last = merged.pop();
        match last {
            Some(Step::Type(mut into)) => {
                match step {
                    Step::Type(more) => {
                        push_str(&mut into, more.as_str());
                        merged.push(Step::Type(into));
                        assert(steps_view(merged@) =~= coalesce(orig.take(i + 1)));
                    },
                    other => {
                        merged.push(Step::Type(into));
                        merged.push(other);
                        assert(steps_view(merged@) =~= coalesce(orig.take(i + 1)));
                    },
                }
            },
            Some(prev) => {
                merged.push(prev);
                merged.push(step);
                assert(steps_view(merged@) =~= coalesce(orig.take(i + 1)));
            },
            None => {
                merged.push(step);
                assert(steps_view(merged@) =~= coalesce(orig.take(i + 1)));
            },
        }
        assert(src@ =~= src0.drop_first());
        assert forall|j: int| 0 <= j < src@.len() implies #[trigger] steps_view(src@)[j] == orig.skip(
            i + 1,
        )[j] by {
            assert(steps_view(src@)[j] == src@[j]@);
            assert(src@[j] == src0[j + 1]);
            assert(steps_view(src0)[j + 1] == src0[j + 1]@);
        }
        assert(steps_view(src@) =~= orig.skip(i + 1));
        i = i + 1;
    }
    assert(orig.take(i as int) =~= orig);
    *steps = merged;
}

/// Index of the first stop byte in `s`.
pub open spec fn stop_index(s: Seq<u8>) -> Option<int>
    decreases s.len(),
{
    if s.len() == 0 {
        None
    } else if s.last() == REC_FINISH_BYTE {
        match stop_index(s.drop_last()) {
            Some(i) => Some(i),
            None => Some(s.len() - 1),
        }
    } else {
        stop_index(s.drop_last())
    }
}

/// The size of the next beat: at most `REC_CHUNK_BYTES` buffered bytes.
pub open spec fn beat_size(buffered: nat) -> int {
    if buffered < REC_CHUNK_BYTES {
        buffered as int
    } else {
        REC_CHUNK_BYTES as int
    }
}

/// Take the next beat off the input buffer: at most `REC_CHUNK_BYTES`
/// bytes, cut at the stop chord (which is consumed, never forwarded). The
/// flag says the stop chord was seen.
pub fn take_beat(carry: &mut Vec<u8>) -> (r: (Vec<u8>, bool))
    ensures
        final(carry)@ == old(carry)@.skip(beat_size(old(carry)@.len())),
        ({
            let head = old(carry)@.take(beat_size(old(carry)@.len()));
            let (beat, stop) = r;
            match stop_index(head) {
                Some(p) => beat@ == head.take(p) && stop,
                None => beat@ == head && !stop,
            }
        }),
{
    let take: usize = if carry.len() < REC_CHUNK_BYTES {
        carry.len()
    } else {
        REC_CHUNK_BYTES
    };
    let ghost head = carry@.take(take as int);
    let mut beat: Vec<u8> = Vec::new();
    let mut stop = false;
    let mut i: usize = 0;
    while i < take
        invariant
            take <= carry@.len(),
            head == carry@.take(take as int),
            i <= take,
            stop_index(head.take(i as int)) is None ==> beat@ == head.take(i as int) && !stop,
            stop_index(head.take(i as int)) matches Some(p) ==> beat@ == head.take(p) && stop,
        decreases take - i,
    {
        let b = carry[i];
        assert(head.take(i + 1).drop_last() =~= head.take(i as int));
        assert(head.take(i + 1).last() == b);
        if !stop {
            if b == REC_FINISH_BYTE {
                stop = true;
            } else {
                beat.push(b);
                assert(beat@ =~= head.take(i + 1));
            }
        }
        i = i + 1;
    }
    assert(head.take(take as int) =~= head);
    let mut rest: Vec<u8> = Vec::new();
    let mut j: usize = take;
    while j < carry.len()
        invariant
            take <= j <= carry@.len(),
            rest@ == carry@.subrange(take as int, j as int),
        decreases carry@.len() - j,
    {
        rest.push(carry[j]);
        j = j + 1;
        assert(rest@ =~= carry@.subrange(take as int, j as int));
    }
    assert(rest@ =~= carry@.skip(take as int));
    *carry = rest;
    (beat, stop)
}

/// Pending steps and typing run after one more key: a character extends the
/// run; any other key ends the run and becomes a `press` of its name.
pub open spec fn after_key(pending: Seq<StepView>, run: Seq<char>, k: KeyView) -> (
    Seq<StepView>,
    Seq<char>,
) {
    match k {
        KeyView::Char(c) => (pending, run.push(c)),
        _ => (flushed(pending, run).push(StepView::Press(key_name(k))), Seq::empty()),
    }
}

/// The keys at the front of `buf`, each with the bytes it spans, up to the
/// first incomplete one.
pub open spec fn decoded_keys(buf: Seq<u8>) -> Seq<(KeyView, Seq<u8>)>
    decreases buf.len(),
{
    match spec_decode_key(buf) {
        Some((k, n)) => if 1 <= n <= buf.len() {
            seq![(k, buf.take(n))] + decoded_keys(buf.skip(n))
        } else {
            Seq::empty()
        },
        None => Seq::empty(),
    }
}

/// Pending steps and typing run after a run of keys.
pub open spec fn after_keys(
    pending: Seq<StepView>,
    run: Seq<char>,
    keys: Seq<(KeyView, Seq<u8>)>,
) -> (Seq<StepView>, Seq<char>)
    decreases keys.len(),
{
    if keys.len() == 0 {
        (pending, run)
    } else {
        let (p, r) = after_keys(pending, run, keys.drop_last());
        after_key(p, r, keys.last().0)
    }
}

/// The byte runs of a list of keys, one after the other.
pub open spec fn spans(keys: Seq<(KeyView, Seq<u8>)>) -> Seq<u8>
    decreases keys.len(),
{
    if keys.len() == 0 {
        Seq::empty()
    } else {
        spans(keys.drop_last()) + keys.last().1
    }
}

proof fn lemma_decoded_keys_split(buf: Seq<u8>, off: int, k: KeyView, n: int)
    requires
        0 <= off,
        off + n <= buf.len(),
        1 <= n,
        spec_decode_key(buf.skip(off)) == Some((k, n)),
    ensures
        decoded_keys(buf.skip(off)) == seq![(k, buf.subrange(off, off + n))] + decoded_keys(
            buf.skip(off + n),
        ),
{
    assert(buf.skip(off).take(n) =~= buf.subrange(off, off + n));
    assert(buf.skip(off).skip(n) =~= buf.skip(off + n));
}

/// The character view of a key's name, built as a string.
fn key_press_name(key: &Key) -> (s: String)
    requires
        !(key@ is Char),
    ensures
        s@ == key_name(key@),
{
    match key {
        Key::Named(name) => (*name).to_owned(),
        Key::Ctrl(c) => {
            let mut s = String::new();
            push_str(&mut s, "CTRL+");
            push_char(&mut s, *c);
            s
        },
        Key::Alt(c) => {
            let mut s = String::new();
            push_str(&mut s, "ALT+");
            push_char(&mut s, *c);
            s
        },
        Key::Char(c) => {
            let mut s = String::new();
            push_char(&mut s, *c);
            s
        },
    }
}

/// Decode the complete keys of a beat. Characters extend the typing run;
/// every other key flushes it and becomes a `press`. Returns each key's
/// bytes, verbatim, for forwarding to the application, and how many bytes
/// of the beat they span: the rest is an incomplete key.
pub fn decode_beat(beat: &[u8], pending: &mut Vec<Step>, type_run: &mut String) -> (r: (
    Vec<Vec<u8>>,
    usize,
))
    ensures
        ({
            let (raw, consumed) = r;
            let keys = decoded_keys(beat@);
            &&& raw@.len() == keys.len()
            &&& forall|j: int| 0 <= j < keys.len() ==> #[trigger] raw@[j]@ == keys[j].1
            &&& consumed <= beat@.len()
            &&& spans(keys) == beat@.take(consumed as int)
            &&& spec_decode_key(beat@.skip(consumed as int)) is None
            &&& (steps_view(final(pending)@), final(type_run)@) == after_keys(
                steps_view(old(pending)@),
                old(type_run)@,
                keys,
            )
        }),
{
    let ghost all = decoded_keys(beat@);
    let ghost mut done: Seq<(KeyView, Seq<u8>)> = Seq::empty();
    let mut raw: Vec<Vec<u8>> = Vec::new();
    let mut offset: usize = 0;
    assert(beat@.skip(0) =~= beat@);
    assert(all =~= done + decoded_keys(beat@.skip(0)));
    loop
        invariant
            offset <= beat@.len(),
            all == decoded_keys(beat@),
            all == done + decoded_keys(beat@.skip(offset as int)),
            raw@.len() == done.len(),
            forall|j: int| 0 <= j < done.len() ==> #[trigger] raw@[j]@ == done[j].1,
            spans(done) == beat@.take(offset as int),
            (steps_view(pending@), type_run@) == after_keys(
                steps_view(old(pending)@),
                old(type_run)@,
                done,
            ),
        ensures
            offset <= beat@.len(),
            all == done,
            raw@.len() == done.len(),
            forall|j: int| 0 <= j < done.len() ==> #[trigger] raw@[j]@ == done[j].1,
            spans(done) == beat@.take(offset as int),
            spec_decode_key(beat@.skip(offset as int)) is None,
            (steps_view(pending@), type_run@) == after_keys(
                steps_view(old(pending)@),
                old(type_run)@,
                done,
            ),
        decreases beat@.len() - offset,
    {
        let rest = vstd::slice::slice_subrange(beat, offset, beat.len());
        assert(rest@ =~= beat@.skip(offset as int));
        proof {
            lemma_decoded_len(rest@);
        }
        match decode_key(rest) {
            None => {
                assert(decoded_keys(beat@.skip(offset as int)) =~= Seq::<(KeyView, Seq<u8>)>::empty());
                assert(all =~= done);
                break;
            },
            Some((key, len)) => {
                let ghost k = key@;
                proof {
                    lemma_decoded_keys_split(beat@, offset as int, k, len as int);
                }
                let mut chunk: Vec<u8> = Vec::new();
                let end: usize = offset + len;
                let mut j: usize = offset;
                while j < end
                    invariant
                        end == offset + len,
                        offset <= j <= offset + len <= beat@.len(),
                        chunk@ == beat@.subrange(offset as int, j as int),
                    decreases end - j,
                {
                    chunk.push(beat[j]);
                    j = j + 1;
                    assert(chunk@ =~= beat@.subrange(offset as int, j as int));
                }
                let ghost entry = (k, beat@.subrange(offset as int, offset + len));
                let ghost p0 = steps_view(pending@);
                let ghost r0 = type_run@;
                match key {
                    Key::Char(c) => {
                        push_char(type_run, c);
                    },
                    other => {
                        let name = key_press_name(&other);
                        flush_typing(pending, type_run);
                        pending.push(Step::Press(name));
                        assert(steps_view(pending@) =~= flushed(p0, r0).push(
                            StepView::Press(key_name(k)),
                        ));
                    },
                }
                raw.push(chunk);
                proof {
                    let nd = done.push(entry);
                    assert(nd.drop_last() =~= done);
                    assert(spans(nd) == spans(done) + entry.1);
                    assert(beat@.take(offset + len) =~= beat@.take(offset as int) + entry.1);
                    assert(all =~= nd + decoded_keys(beat@.skip(offset + len)));
                    done = nd;
                }
                offset = offset + len;
            },
        }
    }
    (raw, offset)
}

/// Put the undecoded tail of a beat back in front of the input buffer.
pub fn requeue(carry: &mut Vec<u8>, beat: &[u8], consumed: usize)
    requires
        consumed <= beat@.len(),
    ensures
        final(carry)@ == beat@.skip(consumed as int) + old(carry)@,
{
    let mut buffered: Vec<u8> = Vec::new();
    let mut i: usize = consumed;
    while i < beat.len()
        invariant
            consumed <= i <= beat@.len(),
            buffered@ == beat@.subrange(consumed as int, i as int),
        decreases beat@.len() - i,
    {
        buffered.push(beat[i]);
        i = i + 1;
        assert(buffered@ =~= beat@.subrange(consumed as int, i as int));
    }
    assert(buffered@ =~= beat@.skip(consumed as int));
    buffered.append(carry);
    *carry = buffered;
}

/// The step that ends a recording whose buffer still holds `carry`: a lone
/// ESC becomes an explicit press.
pub open spec fn closing(s: Seq<StepView>, carry: Seq<u8>) -> Seq<StepView> {
    if carry == seq![0x1bu8] {
        s.push(StepView::Press("ESC"@))
    } else {
        s
    }
}

/// Bytes left over that could never be completed into a key.
pub open spec fn dropped(carry: Seq<u8>) -> nat {
    if carry.len() > 0 && carry != seq![0x1bu8] {
        carry.len()
    } else {
        0
    }
}

/// End a recording: flush the last inputs, merge typing runs, and turn a
/// lone trailing ESC into a press. Returns how many trailing bytes could not
/// be parsed (they are counted, never kept).
pub fn finish_steps(
    steps: &mut Vec<Step>,
    pending: &mut Vec<Step>,
    type_run: &mut String,
    carry: &mut Vec<u8>,
) -> (n: usize)
    ensures
        steps_view(final(steps)@) == closing(
            coalesce(
                steps_view(old(steps)@) + flushed(steps_view(old(pending)@), old(type_run)@),
            ),
            old(carry)@,
        ),
        n == dropped(old(carry)@),
        final(carry)@.len() == 0,
        final(pending)@.len() == 0,
        final(type_run)@ == Seq::<char>::empty(),
{
    commit_pending(steps, pending, type_run);
    coalesce_typing(steps);
    let mut n: usize = 0;
    if carry.len() > 0 {
        if carry.len() == 1 && carry[0] == 0x1b {
            assert(carry@ =~= seq![0x1bu8]);
            steps.push(Step::Press("ESC".to_owned()));
        } else {
            assert(carry@ != seq![0x1bu8]);
            n = carry.len();
        }
        carry.clear();
    }
    proof {
        let s0 = coalesce(
            steps_view(old(steps)@) + flushed(steps_view(old(pending)@), old(type_run)@),
        );
        assert(steps_view(steps@) =~= closing(s0, old(carry)@));
    }
    n
}


proof fn lemma_flushed_recordable(pending: Seq<StepView>, run: Seq<char>)
    requires
        recordable(pending),
    ensures
        recordable(flushed(pending, run)),
{
    let f = flushed(pending, run);
    assert forall|i: int| 0 <= i < f.len() implies (#[trigger] f[i] is Press || f[i] is Type
        || f[i] is WaitForText) by {
        if i < pending.len() {
            assert(f[i] == pending[i]);
        }
    }
}

proof fn lemma_after_keys_recordable(
    pending: Seq<StepView>,
    run: Seq<char>,
    keys: Seq<(KeyView, Seq<u8>)>,
)
    requires
        recordable(pending),
    ensures
        recordable(after_keys(pending, run, keys).0),
    decreases keys.len(),
{
    if keys.len() > 0 {
        lemma_after_keys_recordable(pending, run, keys.drop_last());
        let (p, r) = after_keys(pending, run, keys.drop_last());
        lemma_flushed_recordable(p, r);
        let n = after_keys(pending, run, keys).0;
        if !(keys.last().0 is Char) {
            let f = flushed(p, r);
            assert forall|i: int| 0 <= i < n.len() implies (#[trigger] n[i] is Press || n[i] is Type
                || n[i] is WaitForText) by {
                if i < f.len() {
                    assert(n[i] == f[i]);
                }
            }
        }
    }
}

proof fn lemma_concat_recordable(a: Seq<StepView>, b: Seq<StepView>)
    requires
        recordable(a),
        recordable(b),
    ensures
        recordable(a + b),
{
    let c = a + b;
    assert forall|i: int| 0 <= i < c.len() implies (#[trigger] c[i] is Press || c[i] is Type
        || c[i] is WaitForText) by {
        if i < a.len() {
            assert(c[i] == a[i]);
        } else {
            assert(c[i] == b[i - a.len()]);
        }
    }
}

/// The recorder never emits a `sleep`: starting from steps and pending
/// inputs that are all `press`, `type` and `wait_for_text` steps, decoding
/// keys, committing the pending inputs, appending a wait, and finishing the
/// recording all leave only such steps.
pub proof fn lemma_recorder_never_sleeps(
    steps: Seq<StepView>,
    pending: Seq<StepView>,
    run: Seq<char>,
    keys: Seq<(KeyView, Seq<u8>)>,
    target: Seq<char>,
    carry: Seq<u8>,
)
    requires
        recordable(steps),
        recordable(pending),
    ensures
        recordable(after_keys(pending, run, keys).0),
        recordable(steps + flushed(pending, run)),
        recordable(steps.push(wait_step(target))),
        recordable(closing(coalesce(steps + flushed(pending, run)), carry)),
{
    lemma_after_keys_recordable(pending, run, keys);
    lemma_flushed_recordable(pending, run);
    lemma_concat_recordable(steps, flushed(pending, run));
    lemma_concat_recordable(steps, seq![wait_step(target)]);
    assert(steps.push(wait_step(target)) =~= steps + seq![wait_step(target)]);
    let m = steps + flushed(pending, run);
    lemma_coalesce(m);
    let c = coalesce(m);
    lemma_concat_recordable(c, seq![StepView::Press("ESC"@)]);
    assert(c.push(StepView::Press("ESC"@)) =~= c + seq![StepView::Press("ESC"@)]);
}

/// The suite a recording becomes: the recorded steps, run against
/// `command args` on a `width` x `height` terminal, asserting a clean exit.
pub open spec fn recorded_view(
    name: Seq<char>,
    command: Seq<char>,
    args: Seq<Seq<char>>,
    width: u16,
    height: u16,
    steps: Seq<StepView>,
) -> TestFileView {
    TestFileView {
        schema: SCHEMA_ID@,
        name,
        application: ApplicationView { command, args, cwd: None },
        environment: Seq::empty(),
        terminal: (width, height, None),
        setup: Seq::empty(),
        steps,
        cleanup: Seq::empty(),
        assertions: seq![SuiteAssertion::ExitCode(0)],
    }
}

/// A recorded suite reads back, from the tree it is written as, exactly as
/// it was recorded: the suite the recorder writes replays the recorded
/// presses, typing and waits.
pub proof fn lemma_recorded_suite_replays(
    name: Seq<char>,
    command: Seq<char>,
    args: Seq<Seq<char>>,
    width: u16,
    height: u16,
    steps: Seq<StepView>,
)
    requires
        recordable(steps),
        forall|i: int| 0 <= i < steps.len() ==> durations_fit(#[trigger] steps[i]),
    ensures
        file_outcome(test_file_tree(recorded_view(name, command, args, width, height, steps)))
            == Ok::<TestFileView, ProtocolErrorView>(
            recorded_view(name, command, args, width, height, steps),
        ),
{
    let f = recorded_view(name, command, args, width, height, steps);
    assert(file_durations_fit(f));
    lemma_test_file_roundtrip(f);
    assert forall|i: int| 0 <= i < steps.len() implies canonical_step(steps[i]) == steps[i] by {
        assert(steps[i] is Press || steps[i] is Type || steps[i] is WaitForText);
    }
    assert(canonical_file(f).steps =~= f.steps);
    assert(canonical_file(f).setup =~= f.setup);
    assert(canonical_file(f).cleanup =~= f.cleanup);
    assert(canonical_file(f) == f);
}

/// The suite a finished recording becomes: the recorded steps, run against
/// `command args` on a `width` x `height` terminal, asserting a clean exit.
pub fn recorded_suite(
    name: String,
    command: String,
    args: Vec<String>,
    width: u16,
    height: u16,
    steps: Vec<Step>,
) -> (f: TestFile)
    ensures
        f@ == recorded_view(name@, command@, strings_view(args@), width, height, steps_view(steps@)),
{
    let mut assertions: Vec<SuiteAssertion> = Vec::new();
    assertions.push(SuiteAssertion::ExitCode(0));
    let f = TestFile {
        schema: TestFile::schema_id().to_owned(),
        name,
        application: Application { command, args, cwd: None },
        environment: Vec::new(),
        terminal: TerminalConfig { width, height, timeout_ms: None },
        setup: Vec::new(),
        steps,
        cleanup: Vec::new(),
        assertions,
    };
    assert(f@.environment =~= Seq::<(Seq<char>, Seq<char>)>::empty());
    assert(f@.setup =~= Seq::<StepView>::empty());
    assert(f@.cleanup =~= Seq::<StepView>::empty());
    assert(f@.assertions =~= seq![SuiteAssertion::ExitCode(0)]);
    f
}

} // verus!
