//! The decisions of the sequential suite runner.
//!
//! The runner drives a PTY (outside work); every decision it takes lives
//! here: how a step is described, what each step's outcome and history
//! entry are, when the main flow stops (first failure or an aborting hook),
//! that cleanup always runs, and how the end-of-suite assertions turn into
//! the run record. Step failures become data; only infrastructure
//! breakdowns become errors.

use vstd::prelude::*;

use crate::assertions::conditions::{bool_text, evaluate, verdict_of, Condition, ConditionView, ScreenView};
use crate::assertions::utils::{contains, is_substring};
use crate::engine::error::CoreError;
use crate::engine::result::{FailureInfo, StepResult, SuiteResult, TerminalInfo};
use crate::input::encoding::{encode_key, encode_text, spec_encode_key};
use crate::input::error::input_error_text;
use crate::protocol::actions::opt_string_view;
use crate::protocol::constants::SCHEMA_ID;
use crate::protocol::steps::{
    RegionAssertion, Step, StepView, SuiteAssertion, TestFile, TestFileView, TextAssertion,
    TextAssertionView,
};
use crate::text::{
    lines, lines_of,
    debug_duration, debug_str, dec_chars, dec_chars_signed, duration_debug, push_dec_u64, push_dec_i64,
    push_str, quote_debug,
};

verus! {

/// Whether a duration (in milliseconds) has whole seconds within `u64`,
/// as every parsed duration does.
pub open spec fn duration_fits(ms: u128) -> bool {
    ms / 1000 <= u64::MAX
}

/// How `{:?}` renders a duration given in milliseconds.
pub open spec fn ms_debug(ms: u128) -> Seq<char> {
    duration_debug((ms / 1000) as nat, ((ms % 1000) * 1000000) as nat)
}

/// Whether every duration of a step fits (see [`duration_fits`]).
pub open spec fn step_durations_fit(s: StepView) -> bool {
    match s {
        StepView::Sleep(ms) => duration_fits(ms),
        StepView::WaitForExit(ms) => duration_fits(ms),
        _ => true,
    }
}

/// Runner tuning. The step hook the engine consults after every step is
/// a closure and stays with the program that runs suites.
#[derive(Debug, Clone)]
pub struct RunOptions {
    /// Default `wait_for_text` timeout, in milliseconds.
    pub wait_default_ms: u64,
    /// Screen poll interval, in milliseconds.
    pub poll_ms: u64,
    /// Grace for closing the child, in milliseconds.
    pub close_grace_ms: Option<u64>,
    /// Directory holding golden snapshots.
    pub snapshot_dir: String,
    /// `$TERM` advertised (recorded in results).
    pub term: String,
}

impl RunOptions {
    /// The default tuning for a terminal advertised as `term`.
    pub fn new(term: String) -> (r: RunOptions)
        ensures
            r.wait_default_ms == crate::engine::constants::DEFAULT_TIMEOUT_MS,
            r.poll_ms == crate::engine::constants::DEFAULT_POLL_MS,
            r.close_grace_ms is None,
            r.snapshot_dir@ == "tests/snapshots"@,
            r.term == term,
    {
        RunOptions {
            wait_default_ms: crate::engine::constants::DEFAULT_TIMEOUT_MS,
            poll_ms: crate::engine::constants::DEFAULT_POLL_MS,
            close_grace_ms: None,
            snapshot_dir: "tests/snapshots".to_owned(),
            term,
        }
    }
}

/// Whether every duration of a step can be described (see
/// [`duration_fits`]); steps read from test files always can.
pub fn describable(step: &Step) -> (r: bool)
    ensures
        r == step_durations_fit(step@),
{
    match step {
        Step::Sleep(d) => d.0 / 1000 <= 18446744073709551615u128,
        Step::WaitForExit(w) => w.timeout_ms / 1000 <= 18446744073709551615u128,
        _ => true,
    }
}

/// `{:?}` of an optional string.
pub open spec fn opt_debug(o: Option<Seq<char>>) -> Seq<char> {
    match o {
        Some(s) => "Some("@ + debug_str(s) + ")"@,
        None => "None"@,
    }
}

/// `{:?}` of a text assertion (derived form).
pub open spec fn text_assertion_debug(a: TextAssertionView) -> Seq<char> {
    "TextAssertion { contains: "@ + opt_debug(a.contains) + ", not_contains: "@ + opt_debug(
        a.not_contains,
    ) + ", regex: "@ + opt_debug(a.regex) + " }"@
}

/// `{:?}` of a region assertion (derived form).
pub open spec fn region_debug(x: u16, y: u16, width: u16, height: u16, c: Seq<char>) -> Seq<char> {
    "RegionAssertion { x: "@ + dec_chars(x as nat) + ", y: "@ + dec_chars(y as nat) + ", width: "@
        + dec_chars(width as nat) + ", height: "@ + dec_chars(height as nat) + ", contains: "@
        + debug_str(c) + " }"@
}

/// One-line human description of a step, for reports.
pub open spec fn step_description(s: StepView) -> Seq<char> {
    match s {
        StepView::Press(k) => "press "@ + k,
        StepView::Type(t) => "type "@ + debug_str(t),
        StepView::WaitForText { text, .. } => "wait_for_text "@ + debug_str(text),
        StepView::Sleep(ms) => "sleep "@ + ms_debug(ms),
        StepView::Resize { width, height } => "resize "@ + dec_chars(width as nat) + "x"@ + dec_chars(
            height as nat,
        ),
        StepView::AssertText(a) => "assert_text "@ + text_assertion_debug(a),
        StepView::Expect(a) => "expect "@ + text_assertion_debug(a),
        StepView::AssertRegion { x, y, width, height, contains } => "assert_region "@ + region_debug(
            x,
            y,
            width,
            height,
            contains,
        ),
        StepView::Snapshot { name, .. } => "snapshot "@ + debug_str(name),
        StepView::Screenshot { name, .. } => "snapshot "@ + debug_str(name),
        StepView::WaitForExit(ms) => "wait_for_exit "@ + ms_debug(ms),
    }
}

fn push_quoted(out: &mut String, s: &str)
    ensures
        final(out)@ == old(out)@ + debug_str(s@),
{
    let q = quote_debug(s);
    push_str(out, q.as_str());
}

fn push_ms_debug(out: &mut String, ms: u128)
    requires
        duration_fits(ms),
    ensures
        final(out)@ == old(out)@ + ms_debug(ms),
{
    let secs = (ms / 1000) as u64;
    let nanos = ((ms % 1000) * 1000000) as u32;
    let d = debug_duration(secs, nanos);
    push_str(out, d.as_str());
}

fn push_opt_debug(out: &mut String, o: &Option<String>)
    ensures
        final(out)@ == old(out)@ + opt_debug(opt_string_view(*o)),
{
    match o {
        Some(s) => {
            push_str(out, "Some(");
            push_quoted(out, s.as_str());
            push_str(out, ")");
        },
        None => push_str(out, "None"),
    }
}

fn push_text_assertion_debug(out: &mut String, a: &TextAssertion)
    ensures
        final(out)@ == old(out)@ + text_assertion_debug(a@),
{
    let ghost start = out@;
    push_str(out, "TextAssertion { contains: ");
    push_opt_debug(out, &a.contains);
    push_str(out, ", not_contains: ");
    push_opt_debug(out, &a.not_contains);
    push_str(out, ", regex: ");
    push_opt_debug(out, &a.regex);
    push_str(out, " }");
    assert(out@ =~= start + text_assertion_debug(a@));
}

fn push_region_debug(out: &mut String, r: &RegionAssertion)
    ensures
        final(out)@ == old(out)@ + region_debug(r.x, r.y, r.width, r.height, r.contains@),
{
    let ghost start = out@;
    push_str(out, "RegionAssertion { x: ");
    push_dec_u64(out, r.x as u64);
    push_str(out, ", y: ");
    push_dec_u64(out, r.y as u64);
    push_str(out, ", width: ");
    push_dec_u64(out, r.width as u64);
    push_str(out, ", height: ");
    push_dec_u64(out, r.height as u64);
    push_str(out, ", contains: ");
    push_quoted(out, r.contains.as_str());
    push_str(out, " }");
    assert(out@ =~= start + region_debug(r.x, r.y, r.width, r.height, r.contains@));
}

/// One-line human description of a step (`press DOWN`,
/// `wait_for_text "x"`, ...).
pub fn describe(step: &Step) -> (r: String)
    requires
        step_durations_fit(step@),
    ensures
        r@ == step_description(step@),
{
    let mut r = String::new();
    match step {
        Step::Press(k) => {
            push_str(&mut r, "press ");
            push_str(&mut r, k.as_str());
        },
        Step::Type(t) => {
            push_str(&mut r, "type ");
            push_quoted(&mut r, t.as_str());
        },
        Step::WaitForText(w) => {
            push_str(&mut r, "wait_for_text ");
            push_quoted(&mut r, w.text.as_str());
        },
        Step::Sleep(d) => {
            push_str(&mut r, "sleep ");
            push_ms_debug(&mut r, d.0);
        },
        Step::Resize(to) => {
            push_str(&mut r, "resize ");
            push_dec_u64(&mut r, to.width as u64);
            push_str(&mut r, "x");
            push_dec_u64(&mut r, to.height as u64);
        },
        Step::AssertText(a) => {
            push_str(&mut r, "assert_text ");
            push_text_assertion_debug(&mut r, a);
        },
        Step::Expect(a) => {
            push_str(&mut r, "expect ");
            push_text_assertion_debug(&mut r, a);
        },
        Step::AssertRegion(g) => {
            push_str(&mut r, "assert_region ");
            push_region_debug(&mut r, g);
        },
        Step::Snapshot(t) => {
            push_str(&mut r, "snapshot ");
            push_quoted(&mut r, t.name.as_str());
        },
        Step::Screenshot(t) => {
            push_str(&mut r, "snapshot ");
            push_quoted(&mut r, t.name.as_str());
        },
        Step::WaitForExit(w) => {
            push_str(&mut r, "wait_for_exit ");
            push_ms_debug(&mut r, w.timeout_ms);
        },
    }
    assert(r@ =~= step_description(step@));
    r
}

/// Outcome of one step: pass, or failure evidence to record.
pub struct StepOutcome {
    /// Whether the step passed.
    pub passed: bool,
    /// Detail line.
    pub detail: String,
}

/// What pressing a key does: the bytes to send, the history entry and the
/// outcome once sent; an unknown key name is an error naming it.
pub struct KeyInput {
    /// Bytes for the PTY.
    pub bytes: Vec<u8>,
    /// Input-history entry.
    pub history: String,
    /// The step's outcome once the bytes are written.
    pub outcome: StepOutcome,
}

/// `press <key>`: encode the key; the history reads `press <key>`, the
/// detail `sent <key>`. An unencodable key is an error with the key quoted.
pub fn press_input(key: &str) -> (r: Result<KeyInput, CoreError>)
    ensures
        match r {
            Ok(k) => {
                &&& spec_encode_key(key@) == Ok::<Seq<u8>, Seq<char>>(k.bytes@)
                &&& k.history@ == "press "@ + key@
                &&& k.outcome.passed
                &&& k.outcome.detail@ == "sent "@ + key@
            },
            Err(e) => {
                &&& spec_encode_key(key@) is Err
                &&& e matches CoreError::Message(m) && m@ == debug_str(key@) + ": "@
                    + "unknown key: "@ + spec_encode_key(key@)->Err_0
            },
        },
{
    match encode_key(key) {
        Ok(bytes) => {
            let mut history = String::new();
            push_str(&mut history, "press ");
            push_str(&mut history, key);
            let mut detail = String::new();
            push_str(&mut detail, "sent ");
            push_str(&mut detail, key);
            Ok(KeyInput { bytes, history, outcome: StepOutcome { passed: true, detail } })
        },
        Err(e) => {
            let mut m = String::new();
            push_quoted(&mut m, key);
            push_str(&mut m, ": ");
            let t = e.to_string();
            push_str(&mut m, t.as_str());
            assert(m@ =~= debug_str(key@) + ": "@ + "unknown key: "@ + spec_encode_key(key@)->Err_0);
            Err(CoreError::Message(m))
        },
    }
}

/// `type <text>`: the UTF-8 bytes; history `type[len=<n>]` and detail
/// `typed <n> chars`, where `<n>` counts bytes (never the text itself).
pub fn type_input(text: &str) -> (r: KeyInput)
    ensures
        r.bytes@ == vstd::utf8::encode_utf8(text@),
        r.history@ == "type[len="@ + dec_chars(r.bytes@.len()) + "]"@,
        r.outcome.passed,
        r.outcome.detail@ == "typed "@ + dec_chars(r.bytes@.len()) + " chars"@,
{
    let bytes = encode_text(text);
    let n = bytes.len();
    let mut history = String::new();
    push_str(&mut history, "type[len=");
    push_dec_u64(&mut history, n as u64);
    push_str(&mut history, "]");
    let mut detail = String::new();
    push_str(&mut detail, "typed ");
    push_dec_u64(&mut detail, n as u64);
    push_str(&mut detail, " chars");
    KeyInput { bytes, history, outcome: StepOutcome { passed: true, detail } }
}

/// `wait_for_text`: history `wait <text:?>`; passes when the text was
/// found, with `found <text:?>` or `timeout waiting for <text:?>`.
pub fn wait_outcome(text: &str, found: bool) -> (r: (String, StepOutcome))
    ensures
        r.0@ == "wait "@ + debug_str(text@),
        r.1.passed == found,
        r.1.detail@ == (if found {
            "found "@ + debug_str(text@)
        } else {
            "timeout waiting for "@ + debug_str(text@)
        }),
{
    let mut history = String::new();
    push_str(&mut history, "wait ");
    push_quoted(&mut history, text);
    let mut detail = String::new();
    if found {
        push_str(&mut detail, "found ");
    } else {
        push_str(&mut detail, "timeout waiting for ");
    }
    push_quoted(&mut detail, text);
    (history, StepOutcome { passed: found, detail })
}

/// `sleep`: always passes, `slept <duration:?>`.
pub fn sleep_outcome(ms: u128) -> (r: StepOutcome)
    requires
        duration_fits(ms),
    ensures
        r.passed,
        r.detail@ == "slept "@ + ms_debug(ms),
{
    let mut detail = String::new();
    push_str(&mut detail, "slept ");
    push_ms_debug(&mut detail, ms);
    StepOutcome { passed: true, detail }
}

/// `resize`: history `resize <w>x<h>`, detail `resized to <w>x<h>`.
pub fn resize_outcome(width: u16, height: u16) -> (r: (String, StepOutcome))
    ensures
        r.0@ == "resize "@ + dec_chars(width as nat) + "x"@ + dec_chars(height as nat),
        r.1.passed,
        r.1.detail@ == "resized to "@ + dec_chars(width as nat) + "x"@ + dec_chars(height as nat),
{
    let mut history = String::new();
    push_str(&mut history, "resize ");
    push_dec_u64(&mut history, width as u64);
    push_str(&mut history, "x");
    push_dec_u64(&mut history, height as u64);
    let mut detail = String::new();
    push_str(&mut detail, "resized to ");
    push_dec_u64(&mut detail, width as u64);
    push_str(&mut detail, "x");
    push_dec_u64(&mut detail, height as u64);
    (history, StepOutcome { passed: true, detail })
}

/// The failing details of a text assertion's parts, in order (contains,
/// not_contains, regex).
pub open spec fn text_assertion_failures(a: TextAssertionView, v: ScreenView) -> Seq<Seq<char>> {
    let c = match a.contains {
        Some(n) => if verdict_of(ConditionView::TextVisible(n), v).0 {
            seq![]
        } else {
            seq![verdict_of(ConditionView::TextVisible(n), v).1]
        },
        None => seq![],
    };
    let nc = match a.not_contains {
        Some(n) => if verdict_of(ConditionView::TextNotVisible(n), v).0 {
            seq![]
        } else {
            seq![verdict_of(ConditionView::TextNotVisible(n), v).1]
        },
        None => seq![],
    };
    let r = match a.regex {
        Some(p) => if verdict_of(ConditionView::TextRegex(p), v).0 {
            seq![]
        } else {
            seq![verdict_of(ConditionView::TextRegex(p), v).1]
        },
        None => seq![],
    };
    c + nc + r
}

/// Texts joined with a separator.
pub open spec fn join(parts: Seq<Seq<char>>, sep: Seq<char>) -> Seq<char>
    decreases parts.len(),
{
    if parts.len() == 0 {
        seq![]
    } else if parts.len() == 1 {
        parts[0]
    } else {
        join(parts.drop_last(), sep) + sep + parts.last()
    }
}

fn check_part(failures: &mut Vec<String>, c: Condition, view: &ScreenView)
    ensures
        final(failures)@.len() == old(failures)@.len() + (if verdict_of(c@, *view).0 { 0int } else { 1int }),
        forall|j: int| 0 <= j < old(failures)@.len() ==> #[trigger] final(failures)@[j] == old(failures)@[j],
        !verdict_of(c@, *view).0 ==> final(failures)@.last()@ == verdict_of(c@, *view).1,
{
    let v = evaluate(&c, view);
    if !v.passed {
        failures.push(v.detail);
    }
}

/// `assert_text` / `expect`: evaluate the parts that are present against
/// the view; passes when none fails, else the failing details joined by
/// `; `.
pub fn text_assertion_outcome(a: &TextAssertion, view: &ScreenView) -> (r: StepOutcome)
    ensures
        r.passed == (text_assertion_failures(a@, *view).len() == 0),
        r.detail@ == (if text_assertion_failures(a@, *view).len() == 0 {
            "assertions held"@
        } else {
            join(text_assertion_failures(a@, *view), "; "@)
        }),
{
    let mut failures: Vec<String> = Vec::new();
    if let Some(needle) = &a.contains {
        check_part(&mut failures, Condition::TextVisible(needle.clone()), view);
    }
    let ghost after_c = failures@;
    if let Some(needle) = &a.not_contains {
        check_part(&mut failures, Condition::TextNotVisible(needle.clone()), view);
    }
    let ghost after_nc = failures@;
    if let Some(pattern) = &a.regex {
        check_part(&mut failures, Condition::TextRegex(pattern.clone()), view);
    }
    let ghost fs = text_assertion_failures(a@, *view);
    assert(Seq::new(failures@.len(), |j: int| failures@[j]@) =~= fs);
    if failures.len() == 0 {
        let mut detail = String::new();
        push_str(&mut detail, "assertions held");
        return StepOutcome { passed: true, detail };
    }
    let mut detail = String::new();
    let mut i: usize = 0;
    while i < failures.len()
        invariant
            i <= failures@.len(),
            failures@.len() > 0,
            fs == Seq::new(failures@.len(), |j: int| failures@[j]@),
            i > 0 ==> detail@ == join(fs.take(i as int), "; "@),
            i == 0 ==> detail@.len() == 0,
        decreases failures@.len() - i,
    {
        if i > 0 {
            push_str(&mut detail, "; ");
        }
        push_str(&mut detail, failures[i].as_str());
        proof {
            assert(fs.take(i + 1).drop_last() =~= fs.take(i as int));
            if i == 0 {
                assert(fs.take(1).len() == 1);
                assert(fs.take(1)[0] == failures@[0]@);
                assert(detail@ =~= fs.take(1)[0]);
            }
        }
        i = i + 1;
    }
    assert(fs.take(failures@.len() as int) =~= fs);
    StepOutcome { passed: false, detail }
}

/// `min(a, b)`.
pub open spec fn min_int(a: int, b: int) -> int {
    if a < b {
        a
    } else {
        b
    }
}

/// The text inside a region of a screen: lines `y..y+height`, each cut to
/// columns `x..x+width` (by characters), joined by line feeds.
pub open spec fn region_text(screen: Seq<char>, x: u16, y: u16, width: u16, height: u16) -> Seq<char> {
    let ls = lines_of(screen);
    let rows = ls.subrange(min_int(y as int, ls.len() as int), min_int(y + height, ls.len() as int));
    join(
        Seq::new(
            rows.len(),
            |i: int| rows[i].subrange(min_int(x as int, rows[i].len() as int), min_int(x + width, rows[i].len() as int)),
        ),
        "\n"@,
    )
}

/// `assert_region`: passes when the region's text contains the expected
/// text; `region holds <c:?>` or `region missing <c:?>`.
pub fn region_outcome(region: &RegionAssertion, screen: &str) -> (r: StepOutcome)
    ensures
        r.passed == is_substring(region_text(screen@, region.x, region.y, region.width, region.height), region.contains@),
        r.detail@ == (if r.passed {
            "region holds "@ + debug_str(region.contains@)
        } else {
            "region missing "@ + debug_str(region.contains@)
        }),
{
    let ls = lines(screen);
    let ghost lv = lines_of(screen@);
    let n = ls.len();
    let start: usize = if (region.y as usize) < n { region.y as usize } else { n };
    let end_raw: usize = region.y as usize + region.height as usize;
    let end: usize = if end_raw < n { end_raw } else { n };
    let ghost rows = lv.subrange(min_int(region.y as int, lv.len() as int), min_int(region.y + region.height, lv.len() as int));
    let ghost cut = Seq::new(
        rows.len(),
        |i: int| rows[i].subrange(min_int(region.x as int, rows[i].len() as int), min_int(region.x + region.width, rows[i].len() as int)),
    );
    let mut area: Vec<char> = Vec::new();
    let mut k: usize = start;
    while k < end
        invariant
            start <= k <= end,
            end <= n,
            n == ls@.len(),
            n == lv.len(),
            start == min_int(region.y as int, n as int),
            end == min_int(region.y + region.height, n as int),
            rows == lv.subrange(start as int, end as int),
            forall|i: int| 0 <= i < ls@.len() ==> #[trigger] ls@[i]@ == lv[i],
            cut == Seq::new(
                rows.len(),
                |i: int| rows[i].subrange(min_int(region.x as int, rows[i].len() as int), min_int(region.x + region.width, rows[i].len() as int)),
            ),
            area@ == join(cut.take(k - start), "\n"@),
        decreases end - k,
    {
        let line = &ls[k];
        let ll = line.len();
        let from: usize = if (region.x as usize) < ll { region.x as usize } else { ll };
        let to_raw: usize = region.x as usize + region.width as usize;
        let to: usize = if to_raw < ll { to_raw } else { ll };
        let ghost before = area@;
        if k > start {
            area.push('\n');
        }
        let mut j: usize = from;
        while j < to
            invariant
                from <= j <= to,
                to <= line@.len(),
                area@ == (if k > start { before.push('\n') } else { before }) + line@.subrange(from as int, j as int),
            decreases to - j,
        {
            area.push(line[j]);
            j = j + 1;
            assert(area@ =~= (if k > start { before.push('\n') } else { before }) + line@.subrange(from as int, j as int));
        }
        proof {
            let idx = k - start;
            assert(rows[idx as int] == lv[k as int]);
            assert(cut[idx as int] == line@.subrange(from as int, to as int));
            assert(cut.take(idx + 1).drop_last() =~= cut.take(idx as int));
            if k > start {
                assert(area@ =~= join(cut.take(idx as int), "\n"@) + "\n"@ + cut[idx as int]) by {
                    reveal_strlit("\n");
                }
            } else {
                assert(cut.take(1).len() == 1);
                assert(area@ =~= cut.take(1)[0]);
            }
        }
        k = k + 1;
    }
    assert(cut.take((end - start) as int) =~= cut);
    let text = crate::text::string_of(area.as_slice());
    let held = contains(text.as_str(), region.contains.as_str());
    let mut detail = String::new();
    if held {
        push_str(&mut detail, "region holds ");
    } else {
        push_str(&mut detail, "region missing ");
    }
    push_quoted(&mut detail, region.contains.as_str());
    StepOutcome { passed: held, detail }
}

/// First snapshot run: the screen is written as a `.new` golden and the
/// step fails, so goldens are always approved explicitly.
pub fn snapshot_new_golden(path: &str) -> (r: StepOutcome)
    ensures
        !r.passed,
        r.detail@ == "new golden written to "@ + path@ + " — approve and re-run"@,
{
    let mut detail = String::new();
    push_str(&mut detail, "new golden written to ");
    push_str(&mut detail, path);
    push_str(&mut detail, " — approve and re-run");
    StepOutcome { passed: false, detail }
}

/// Snapshot compared with its golden: passes when equal; otherwise the
/// detail carries the diff.
pub fn snapshot_compared(name: &str, equal: bool, diff: &str) -> (r: StepOutcome)
    ensures
        r.passed == equal,
        r.detail@ == (if equal {
            "snapshot "@ + debug_str(name@) + " matched"@
        } else {
            "snapshot "@ + debug_str(name@) + " differs:\n"@ + diff@
        }),
{
    let mut detail = String::new();
    push_str(&mut detail, "snapshot ");
    push_quoted(&mut detail, name);
    if equal {
        push_str(&mut detail, " matched");
    } else {
        push_str(&mut detail, " differs:\n");
        push_str(&mut detail, diff);
    }
    StepOutcome { passed: equal, detail }
}

/// `wait_for_exit`: passes when the process exited in time.
pub fn exit_wait_outcome(exited: bool, timeout_ms: u128) -> (r: StepOutcome)
    requires
        duration_fits(timeout_ms),
    ensures
        r.passed == exited,
        r.detail@ == (if exited {
            "process exited"@
        } else {
            "no exit within "@ + ms_debug(timeout_ms)
        }),
{
    let mut detail = String::new();
    if exited {
        push_str(&mut detail, "process exited");
    } else {
        push_str(&mut detail, "no exit within ");
        push_ms_debug(&mut detail, timeout_ms);
    }
    StepOutcome { passed: exited, detail }
}

/// The step results, failure and abort flag of a suite run in progress.
pub struct SuiteRun {
    /// Step results so far, in execution order.
    pub results: Vec<StepResult>,
    /// The first failure, once one happened.
    pub failure: Option<FailureInfo>,
    /// Whether a step hook asked to stop the main flow.
    pub aborted: bool,
    /// How many main-flow steps (setup, then steps) were recorded.
    pub main_done: usize,
    /// How many cleanup steps were recorded.
    pub cleanup_done: usize,
    /// Whether a step hook asked to stop the cleanup.
    pub cleanup_halted: bool,
}

/// What a suite run does next.
pub enum NextStep {
    /// Run the main-flow step at this position (setup, then steps).
    Main(usize),
    /// Run the cleanup step at this position.
    Cleanup(usize),
    /// Nothing is left to run.
    Done,
}

/// The main flow of a suite: its setup steps, then its steps.
pub open spec fn main_flow(f: TestFileView) -> Seq<StepView> {
    f.setup + f.steps
}

/// The step that `next` names in `f`.
pub open spec fn planned_step(f: TestFileView, next: NextStep) -> StepView {
    match next {
        NextStep::Main(i) => main_flow(f)[i as int],
        NextStep::Cleanup(i) => f.cleanup[i as int],
        NextStep::Done => StepView::Type(Seq::empty()),
    }
}

/// The main-flow step at position `i`.
pub fn main_step(file: &TestFile, i: usize) -> (s: &Step)
    requires
        i < file@.setup.len() + file@.steps.len(),
    ensures
        s@ == main_flow(file@)[i as int],
{
    if i < file.setup.len() {
        &file.setup[i]
    } else {
        &file.steps[i - file.setup.len()]
    }
}

fn strings_copy(v: &Vec<String>) -> (r: Vec<String>)
    ensures
        r@.len() == v@.len(),
        forall|i: int| 0 <= i < v@.len() ==> #[trigger] r@[i]@ == v@[i]@,
{
    let mut r: Vec<String> = Vec::new();
    let mut i: usize = 0;
    while i < v.len()
        invariant
            i <= v@.len(),
            r@.len() == i,
            forall|j: int| 0 <= j < i ==> #[trigger] r@[j]@ == v@[j]@,
        decreases v@.len() - i,
    {
        r.push(v[i].clone());
        i = i + 1;
    }
    r
}

proof fn lemma_all_passed_push(before: Seq<StepResult>, after: Seq<StepResult>)
    requires
        after.len() == before.len() + 1,
        forall|i: int| 0 <= i < before.len() ==> after[i] == before[i],
    ensures
        all_passed(after) == (all_passed(before) && after.last().passed),
{
    if all_passed(before) && after.last().passed {
        assert forall|i: int| 0 <= i < after.len() implies #[trigger] after[i].passed by {
            if i < before.len() {
                assert(after[i] == before[i]);
            }
        }
    }
    if all_passed(after) {
        assert forall|i: int| 0 <= i < before.len() implies #[trigger] before[i].passed by {
            assert(after[i] == before[i]);
            assert(after[i].passed);
        }
        assert(after[after.len() - 1].passed);
    }
}

/// Whether every recorded step passed.
pub open spec fn all_passed(results: Seq<StepResult>) -> bool {
    forall|i: int| 0 <= i < results.len() ==> #[trigger] results[i].passed
}

impl SuiteRun {
    /// A failure is recorded exactly when some recorded step failed, and
    /// every recorded step is a main-flow or a cleanup step.
    pub open spec fn consistent(&self) -> bool {
        &&& (self.failure is None) == all_passed(self.results@)
        &&& self.main_done + self.cleanup_done == self.results@.len()
    }

    /// A run with no steps executed.
    pub fn new() -> (r: Self)
        ensures
            r.results@.len() == 0,
            r.failure is None,
            !r.aborted,
            r.main_done == 0,
            r.cleanup_done == 0,
            !r.cleanup_halted,
            r.consistent(),
            forall|f: TestFileView| #[trigger] r.follows(f),
    {
        SuiteRun {
            results: Vec::new(),
            failure: None,
            aborted: false,
            main_done: 0,
            cleanup_done: 0,
            cleanup_halted: false,
        }
    }

    /// Whether the main flow (setup, then steps) goes on: no failure yet and
    /// no abort.
    pub fn main_continues(&self) -> (b: bool)
        ensures
            b == (self.failure is None && !self.aborted),
    {
        self.failure.is_none() && !self.aborted
    }

    /// The index the next executed step gets.
    pub fn next_index(&self) -> (n: usize)
        ensures
            n == self.results@.len(),
    {
        self.results.len()
    }

    /// Record a main-flow step. A failing step becomes the run's failure
    /// (with the screen and input history), unless one was recorded before:
    /// the first failure is never replaced.
    pub fn record_main(
        &mut self,
        step: &Step,
        outcome: StepOutcome,
        duration_ms: u64,
        screen: &str,
        history: &Vec<String>,
    )
        requires
            step_durations_fit(step@),
            old(self).results@.len() < usize::MAX,
            old(self).consistent(),
        ensures
            final(self).consistent(),
            final(self).results@.len() == old(self).results@.len() + 1,
            forall|i: int| 0 <= i < old(self).results@.len() ==> #[trigger] final(self).results@[i] == old(self).results@[i],
            final(self).results@.last().index == old(self).results@.len(),
            final(self).results@.last().kind@ == step_description(step@),
            final(self).results@.last().passed == outcome.passed,
            final(self).results@.last().detail@ == outcome.detail@,
            final(self).results@.last().duration_ms == duration_ms,
            final(self).aborted == old(self).aborted,
            final(self).main_done == old(self).main_done + 1,
            final(self).cleanup_done == old(self).cleanup_done,
            final(self).cleanup_halted == old(self).cleanup_halted,
            old(self).failure is Some ==> final(self).failure == old(self).failure,
            old(self).failure is None && outcome.passed ==> final(self).failure is None,
            old(self).failure is None && !outcome.passed ==> {
                let f = final(self).failure->0;
                &&& final(self).failure is Some
                &&& f.step_index == old(self).results@.len()
                &&& f.step@ == step_description(step@)
                &&& f.expected@ == outcome.detail@
                &&& f.actual@ == screen@
                &&& f.last_screen@ == screen@
                &&& f.input_history@.len() == history@.len()
                &&& forall|i: int| 0 <= i < history@.len() ==> #[trigger] f.input_history@[i]@ == history@[i]@
            },
    {
        let index = self.results.len();
        let passed = outcome.passed;
        let detail = outcome.detail;
        if !passed && self.failure.is_none() {
            self.failure = Some(
                FailureInfo {
                    step_index: index,
                    step: describe(step),
                    expected: detail.clone(),
                    actual: screen.to_owned(),
                    last_screen: screen.to_owned(),
                    input_history: strings_copy(history),
                },
            );
        }
        let ghost before = self.results@;
        self.results.push(
            StepResult { index, kind: describe(step), passed, detail, duration_ms },
        );
        self.main_done = self.main_done + 1;
        proof {
            lemma_all_passed_push(before, self.results@);
        }
    }

    /// Record a cleanup step (described `cleanup: <step>`). A failing
    /// cleanup step fails the run like any other step: it becomes the
    /// failure unless one was recorded before.
    pub fn record_cleanup(
        &mut self,
        step: &Step,
        outcome: StepOutcome,
        duration_ms: u64,
        screen: &str,
        history: &Vec<String>,
    )
        requires
            step_durations_fit(step@),
            old(self).results@.len() < usize::MAX,
            old(self).consistent(),
        ensures
            final(self).consistent(),
            final(self).results@.len() == old(self).results@.len() + 1,
            forall|i: int| 0 <= i < old(self).results@.len() ==> #[trigger] final(self).results@[i] == old(self).results@[i],
            final(self).results@.last().index == old(self).results@.len(),
            final(self).results@.last().kind@ == "cleanup: "@ + step_description(step@),
            final(self).results@.last().passed == outcome.passed,
            final(self).results@.last().detail@ == outcome.detail@,
            final(self).results@.last().duration_ms == duration_ms,
            final(self).aborted == old(self).aborted,
            final(self).main_done == old(self).main_done,
            final(self).cleanup_done == old(self).cleanup_done + 1,
            final(self).cleanup_halted == old(self).cleanup_halted,
            old(self).failure is Some ==> final(self).failure == old(self).failure,
            old(self).failure is None && outcome.passed ==> final(self).failure is None,
            old(self).failure is None && !outcome.passed ==> {
                let f = final(self).failure->0;
                &&& final(self).failure is Some
                &&& f.step_index == old(self).results@.len()
                &&& f.step@ == "cleanup: "@ + step_description(step@)
                &&& f.expected@ == outcome.detail@
                &&& f.actual@ == screen@
                &&& f.last_screen@ == screen@
                &&& f.input_history@.len() == history@.len()
                &&& forall|i: int| 0 <= i < history@.len() ==> #[trigger] f.input_history@[i]@ == history@[i]@
            },
    {
        let index = self.results.len();
        let mut kind = String::new();
        push_str(&mut kind, "cleanup: ");
        let d = describe(step);
        push_str(&mut kind, d.as_str());
        let passed = outcome.passed;
        let detail = outcome.detail;
        if !passed && self.failure.is_none() {
            self.failure = Some(
                FailureInfo {
                    step_index: index,
                    step: kind.clone(),
                    expected: detail.clone(),
                    actual: screen.to_owned(),
                    last_screen: screen.to_owned(),
                    input_history: strings_copy(history),
                },
            );
        }
        let ghost before = self.results@;
        self.results.push(StepResult { index, kind, passed, detail, duration_ms });
        self.cleanup_done = self.cleanup_done + 1;
        proof {
            lemma_all_passed_push(before, self.results@);
        }
    }

    /// The step hook's answer after a step: `false` after a main-flow step
    /// stops the main flow (cleanup still runs), `false` after a cleanup
    /// step stops the cleanup.
    pub fn hook_answer(&mut self, go_on: bool)
        ensures
            final(self).aborted == (old(self).aborted || (!go_on && old(self).cleanup_done == 0)),
            final(self).cleanup_halted == (old(self).cleanup_halted || (!go_on
                && old(self).cleanup_done > 0)),
            final(self).consistent() == old(self).consistent(),
            final(self).results == old(self).results,
            final(self).failure == old(self).failure,
            final(self).main_done == old(self).main_done,
            final(self).cleanup_done == old(self).cleanup_done,
            forall|f: TestFileView| #[trigger] old(self).follows(f) ==> final(self).follows(f),
    {
        if !go_on {
            if self.cleanup_done == 0 {
                self.aborted = true;
            } else {
                self.cleanup_halted = true;
            }
        }
    }

    /// What runs next: the next main-flow step while the main flow goes on
    /// (no failure, no stop, no cleanup begun, steps left), else the next
    /// cleanup step unless a hook stopped the cleanup, else nothing.
    pub open spec fn next_spec(&self, f: TestFileView) -> NextStep {
        if self.cleanup_done == 0 && self.failure is None && !self.aborted && self.main_done
            < main_flow(f).len() {
            NextStep::Main(self.main_done)
        } else if !self.cleanup_halted && self.cleanup_done < f.cleanup.len() {
            NextStep::Cleanup(self.cleanup_done)
        } else {
            NextStep::Done
        }
    }

    /// The run so far follows the plan of `f`: each result's index is its
    /// position; the main-flow steps come first, in order, all of them
    /// passed but possibly the last; then the cleanup steps, in order,
    /// begun only once the main flow had ended.
    pub open spec fn follows(&self, f: TestFileView) -> bool {
        let main = main_flow(f);
        let m = self.main_done as int;
        let r = self.results@;
        &&& self.consistent()
        &&& m <= main.len()
        &&& self.cleanup_done <= f.cleanup.len()
        &&& forall|i: int| 0 <= i < r.len() ==> #[trigger] r[i].index == i
        &&& forall|i: int| 0 <= i < m ==> #[trigger] r[i].kind@ == step_description(main[i])
        &&& forall|i: int|
            m <= i < r.len() ==> #[trigger] r[i].kind@ == "cleanup: "@ + step_description(
                f.cleanup[i - m],
            )
        &&& forall|i: int| 0 <= i < m - 1 ==> #[trigger] r[i].passed
        &&& self.cleanup_done > 0 ==> (m == main.len() || self.aborted || (m > 0 && !r[m - 1].passed))
    }

    /// Decide what runs next in `file`.
    pub fn next_step(&self, file: &TestFile) -> (n: NextStep)
        ensures
            n == self.next_spec(file@),
    {
        let main_left = self.main_done < file.setup.len() || self.main_done - file.setup.len()
            < file.steps.len();
        if self.cleanup_done == 0 && self.failure.is_none() && !self.aborted && main_left {
            NextStep::Main(self.main_done)
        } else if !self.cleanup_halted && self.cleanup_done < file.cleanup.len() {
            NextStep::Cleanup(self.cleanup_done)
        } else {
            NextStep::Done
        }
    }

    /// Record the step that [`Self::next_step`] named, with how it went:
    /// a main-flow step as by [`Self::record_main`], a cleanup step as by
    /// [`Self::record_cleanup`]. The run keeps following the plan of `file`.
    pub fn record_next(
        &mut self,
        file: &TestFile,
        outcome: StepOutcome,
        duration_ms: u64,
        screen: &str,
        history: &Vec<String>,
    )
        requires
            old(self).follows(file@),
            !(old(self).next_spec(file@) is Done),
            step_durations_fit(planned_step(file@, old(self).next_spec(file@))),
            old(self).results@.len() < usize::MAX,
        ensures
            final(self).follows(file@),
            final(self).results@.len() == old(self).results@.len() + 1,
            forall|i: int| 0 <= i < old(self).results@.len() ==> #[trigger] final(self).results@[i] == old(self).results@[i],
            final(self).results@.last().passed == outcome.passed,
            final(self).results@.last().detail@ == outcome.detail@,
            final(self).results@.last().duration_ms == duration_ms,
            final(self).aborted == old(self).aborted,
            final(self).cleanup_halted == old(self).cleanup_halted,
            old(self).failure is Some ==> final(self).failure == old(self).failure,
            (final(self).failure is None) == (old(self).failure is None && outcome.passed),
    {
        let ghost f = file@;
        let ghost before = self.results@;
        let ghost m0 = self.main_done as int;
        match self.next_step(file) {
            NextStep::Main(i) => {
                let step = main_step(file, i);
                self.record_main(step, outcome, duration_ms, screen, history);
                proof {
                    let r = self.results@;
                    assert forall|k: int| 0 <= k < self.main_done as int implies #[trigger] r[k].kind@
                        == step_description(main_flow(f)[k]) by {
                        if k < m0 {
                            assert(r[k] == before[k]);
                        }
                    }
                    assert forall|k: int| 0 <= k < self.main_done - 1 implies #[trigger] r[k].passed by {
                        assert(r[k] == before[k]);
                        assert(all_passed(before));
                    }
                }
            },
            NextStep::Cleanup(i) => {
                self.record_cleanup(&file.cleanup[i], outcome, duration_ms, screen, history);
                proof {
                    let r = self.results@;
                    assert(f.cleanup[i as int] == file.cleanup@[i as int]@);
                    assert forall|k: int| m0 <= k < r.len() implies #[trigger] r[k].kind@
                        == "cleanup: "@ + step_description(f.cleanup[k - m0]) by {
                        if k < before.len() {
                            assert(r[k] == before[k]);
                        }
                    }
                    assert forall|k: int| 0 <= k < m0 implies #[trigger] r[k].kind@
                        == step_description(main_flow(f)[k]) by {
                        assert(r[k] == before[k]);
                    }
                    if old(self).cleanup_done == 0 && m0 < main_flow(f).len() && !self.aborted {
                        assert(!all_passed(before));
                        assert(before.len() == m0);
                        let w = choose|k: int| 0 <= k < before.len() && !before[k].passed;
                        assert(!before[w].passed);
                        assert(w == m0 - 1);
                        assert(r[m0 - 1] == before[m0 - 1]);
                    } else if old(self).cleanup_done > 0 {
                        if m0 > 0 {
                            assert(r[m0 - 1] == before[m0 - 1]);
                        }
                    }
                }
            },
            NextStep::Done => {},
        }
    }
}

/// How a finished suite run is laid out. Once nothing is left to run, and
/// unless a step hook stopped the cleanup, the results are the main-flow
/// steps (setup, then steps) in order, every one of them passed but
/// possibly the last, stopped early only by a failing step or a hook; then
/// every cleanup step in order, described `cleanup: <step>`, present even
/// after a failure. Each result's index is its position.
pub proof fn lemma_run_order(run: SuiteRun, f: TestFileView)
    requires
        run.follows(f),
        run.next_spec(f) is Done,
        !run.cleanup_halted,
    ensures
        run.results@.len() == run.main_done + f.cleanup.len(),
        forall|i: int| 0 <= i < run.results@.len() ==> #[trigger] run.results@[i].index == i,
        forall|i: int|
            0 <= i < run.main_done ==> #[trigger] run.results@[i].kind@ == step_description(
                main_flow(f)[i],
            ),
        forall|j: int|
            0 <= j < f.cleanup.len() ==> #[trigger] run.results@[run.main_done + j].kind@
                == "cleanup: "@ + step_description(f.cleanup[j]),
        forall|i: int| 0 <= i < run.main_done - 1 ==> #[trigger] run.results@[i].passed,
        run.main_done < main_flow(f).len() ==> run.aborted || (run.main_done > 0
            && !run.results@[run.main_done - 1].passed),
{
    let m = run.main_done as int;
    let r = run.results@;
    assert forall|j: int| 0 <= j < f.cleanup.len() implies #[trigger] r[m + j].kind@ == "cleanup: "@
        + step_description(f.cleanup[j]) by {
        assert(r[m + j].kind@ == "cleanup: "@ + step_description(f.cleanup[(m + j) - m]));
    }
    if m < main_flow(f).len() && !run.aborted && run.cleanup_done == 0 {
        assert(!all_passed(r));
        let w = choose|k: int| 0 <= k < r.len() && !r[k].passed;
        assert(!r[w].passed);
        assert(w == m - 1);
    }
}

/// Whether an end-of-suite assertion holds for an exit (`success` is a
/// clean exit). Any failure to exit cleanly counts as a crash.
pub open spec fn exit_assertion_holds(a: SuiteAssertion, success: bool) -> bool {
    match a {
        SuiteAssertion::ExitCode(e) => if e == 0 {
            success
        } else {
            !success
        },
        SuiteAssertion::ProcessNotCrashed(e) => !success != e,
    }
}

/// The first end-of-suite assertion that does not hold.
pub open spec fn first_failing(list: Seq<SuiteAssertion>, success: bool) -> Option<SuiteAssertion>
    decreases list.len(),
{
    if list.len() == 0 {
        None
    } else if !exit_assertion_holds(list[0], success) {
        Some(list[0])
    } else {
        first_failing(list.drop_first(), success)
    }
}

/// (step, expected, actual) of a failing end-of-suite assertion.
pub open spec fn assertion_evidence(a: SuiteAssertion, success: bool) -> (Seq<char>, Seq<char>, Seq<char>) {
    match a {
        SuiteAssertion::ExitCode(e) => (
            "assert exit_code "@ + dec_chars_signed(e as int),
            "exit code "@ + dec_chars_signed(e as int),
            "exit success="@ + bool_text(success),
        ),
        SuiteAssertion::ProcessNotCrashed(e) => (
            "assert not crashed"@,
            "crashed == "@ + bool_text(e),
            "crashed == "@ + bool_text(!success),
        ),
    }
}

fn push_bool_text(out: &mut String, b: bool)
    ensures
        final(out)@ == old(out)@ + bool_text(b),
{
    if b {
        push_str(out, "true");
    } else {
        push_str(out, "false");
    }
}

fn evidence(a: SuiteAssertion, success: bool) -> (r: (String, String, String))
    ensures
        (r.0@, r.1@, r.2@) == assertion_evidence(a, success),
{
    let mut step = String::new();
    let mut expected = String::new();
    let mut actual = String::new();
    match a {
        SuiteAssertion::ExitCode(e) => {
            push_str(&mut step, "assert exit_code ");
            push_dec_i64(&mut step, e as i64);
            push_str(&mut expected, "exit code ");
            push_dec_i64(&mut expected, e as i64);
            push_str(&mut actual, "exit success=");
            push_bool_text(&mut actual, success);
        },
        SuiteAssertion::ProcessNotCrashed(e) => {
            push_str(&mut step, "assert not crashed");
            push_str(&mut expected, "crashed == ");
            push_bool_text(&mut expected, e);
            push_str(&mut actual, "crashed == ");
            push_bool_text(&mut actual, !success);
        },
    }
    (step, expected, actual)
}

impl SuiteRun {
    /// Close the run: check the end-of-suite assertions against how the
    /// process exited and build the run record. The run passed when every
    /// step, cleanup included, passed and every assertion holds, and it
    /// carries a failure exactly when it did not pass; a failing assertion
    /// becomes the failure only when no step failed before it.
    pub fn finish(
        self,
        file: &TestFile,
        exit_success: bool,
        exit_signal: Option<String>,
        duration_ms: u64,
        term: String,
        screen: &str,
        history: &Vec<String>,
    ) -> (r: SuiteResult)
        requires
            self.consistent(),
        ensures
            r.passed == (all_passed(self.results@) && first_failing(file.assertions@, exit_success) is None),
            (r.failure is None) == r.passed,
            r.schema@ == SCHEMA_ID@,
            r.suite@ == file.name@,
            r.passed == (self.failure is None && first_failing(file.assertions@, exit_success) is None),
            r.exit_success == Some(exit_success),
            r.exit_signal == exit_signal,
            r.duration_ms == duration_ms,
            r.steps == self.results,
            r.terminal.width == file.terminal.width,
            r.terminal.height == file.terminal.height,
            r.terminal.term == term,
            self.failure is Some ==> r.failure == self.failure,
            self.failure is None && first_failing(file.assertions@, exit_success) is None ==> r.failure is None,
            self.failure is None && first_failing(file.assertions@, exit_success) is Some ==> {
                let a = first_failing(file.assertions@, exit_success)->0;
                let f = r.failure->0;
                &&& r.failure is Some
                &&& f.step_index == self.results@.len()
                &&& (f.step@, f.expected@, f.actual@) == assertion_evidence(a, exit_success)
                &&& f.last_screen@ == screen@
                &&& f.input_history@.len() == history@.len()
                &&& forall|i: int| 0 <= i < history@.len() ==> #[trigger] f.input_history@[i]@ == history@[i]@
            },
    {
        let SuiteRun { results, failure, .. } = self;
        let mut failure = failure;
        let mut passed = failure.is_none();
        let ghost list = file.assertions@;
        let mut i: usize = 0;
        assert(list.skip(0) =~= list);
        while i < file.assertions.len()
            invariant
                list == file.assertions@,
                i <= list.len(),
                passed == (self.failure is None && forall|j: int| 0 <= j < i ==> exit_assertion_holds(#[trigger] list[j], exit_success)),
                self.failure is Some ==> failure == self.failure,
                self.failure is None ==> (first_failing(list, exit_success) == if passed { first_failing(list.skip(i as int), exit_success) } else { first_failing(list, exit_success) }),
                self.failure is None && passed ==> failure is None,
                self.failure is None && !passed ==> {
                    let a = first_failing(list, exit_success)->0;
                    let f = failure->0;
                    &&& first_failing(list, exit_success) is Some
                    &&& failure is Some
                    &&& f.step_index == results@.len()
                    &&& (f.step@, f.expected@, f.actual@) == assertion_evidence(a, exit_success)
                    &&& f.last_screen@ == screen@
                    &&& f.input_history@.len() == history@.len()
                    &&& forall|k: int| 0 <= k < history@.len() ==> #[trigger] f.input_history@[k]@ == history@[k]@
                },
            decreases list.len() - i,
        {
            let a = file.assertions[i];
            assert(list.skip(i as int).drop_first() =~= list.skip(i + 1));
            assert(list.skip(i as int)[0] == a);
            let holds = match a {
                SuiteAssertion::ExitCode(e) => if e == 0 {
                    exit_success
                } else {
                    !exit_success
                },
                SuiteAssertion::ProcessNotCrashed(e) => !exit_success != e,
            };
            if !holds {
                if failure.is_none() {
                    let (step, expected, actual) = evidence(a, exit_success);
                    failure = Some(
                        FailureInfo {
                            step_index: results.len(),
                            step,
                            expected,
                            actual,
                            last_screen: screen.to_owned(),
                            input_history: strings_copy(history),
                        },
                    );
                }
                passed = false;
            }
            i = i + 1;
        }
        proof {
            if self.failure is None && passed {
                assert(list.skip(list.len() as int) =~= Seq::<SuiteAssertion>::empty());
            }
        }
        SuiteResult {
            schema: SCHEMA_ID.to_owned(),
            suite: file.name.clone(),
            passed,
            exit_success: Some(exit_success),
            exit_signal,
            duration_ms,
            steps: results,
            failure,
            terminal: TerminalInfo { width: file.terminal.width, height: file.terminal.height, term },
        }
    }
}

} // verus!
