//! The assertion taxonomy over terminal state.
//!
//! Conditions evaluate against [`ScreenView`], a plain snapshot of what the
//! engine knows, so every rule is deterministic and testable without a
//! terminal. A bad regex is a failed verdict, never a panic: failures feed
//! reports, they do not crash runners.

use vstd::prelude::*;

use crate::assertions::utils::{contains, is_substring};
use crate::json::{field, view_bool, view_i64, view_str, view_u64, JsonValue, JsonView};
use crate::pattern::{compile_regex, pattern_matches, regex_compile_error, regex_is_match};
use crate::text::{
    chars_of, dec_chars, dec_chars_signed, debug_str, push_dec_i64, push_dec_u64, push_str,
    quote_debug, str_eq, trim, trim_chars,
};

verus! {

/// What the engine knows at assertion time.
pub struct ScreenView {
    /// Plain-text grid dump.
    pub text: String,
    /// Zero-based cursor `(row, col)`.
    pub cursor: (usize, usize),
    /// Whether the screen changed since the last input.
    pub screen_changed: bool,
    /// Process exit code, if the process ended.
    pub exit_code: Option<i32>,
    /// Whether the process died by signal or crash.
    pub crashed: bool,
}

impl ScreenView {
    /// Typical mid-test view: running app, no exit yet.
    pub fn live(text: &str, cursor: (usize, usize), screen_changed: bool) -> (v: Self)
        ensures
            v.text@ == text@,
            v.cursor == cursor,
            v.screen_changed == screen_changed,
            v.exit_code is None,
            !v.crashed,
    {
        ScreenView {
            text: text.to_owned(),
            cursor,
            screen_changed,
            exit_code: None,
            crashed: false,
        }
    }
}

/// One assertion condition.
#[derive(Debug, Clone, PartialEq)]
pub enum Condition {
    /// `text` is visible somewhere on screen.
    TextVisible(String),
    /// `text` is absent (e.g. `"Unhandled panic"`).
    TextNotVisible(String),
    /// Regex must match screen text.
    TextRegex(String),
    /// Whole screen (trimmed) equals `text`.
    ExactText(String),
    /// Cursor at zero-based `(row, col)`.
    CursorPosition {
        /// Row.
        row: usize,
        /// Column.
        col: usize,
    },
    /// Screen changed (or not) since the last input.
    ScreenChanged(bool),
    /// Process exited with this code.
    ExitCode(i32),
    /// Process did not crash.
    NotCrashed,
}

/// A condition with its texts as character sequences.
pub enum ConditionView {
    TextVisible(Seq<char>),
    TextNotVisible(Seq<char>),
    TextRegex(Seq<char>),
    ExactText(Seq<char>),
    CursorPosition { row: usize, col: usize },
    ScreenChanged(bool),
    ExitCode(i32),
    NotCrashed,
}

impl View for Condition {
    type V = ConditionView;

    open spec fn view(&self) -> ConditionView {
        match self {
            Condition::TextVisible(t) => ConditionView::TextVisible(t@),
            Condition::TextNotVisible(t) => ConditionView::TextNotVisible(t@),
            Condition::TextRegex(t) => ConditionView::TextRegex(t@),
            Condition::ExactText(t) => ConditionView::ExactText(t@),
            Condition::CursorPosition { row, col } => ConditionView::CursorPosition {
                row: *row,
                col: *col,
            },
            Condition::ScreenChanged(b) => ConditionView::ScreenChanged(*b),
            Condition::ExitCode(c) => ConditionView::ExitCode(*c),
            Condition::NotCrashed => ConditionView::NotCrashed,
        }
    }
}

/// Pass/fail plus a human line for reports and failure bundles.
pub struct Verdict {
    /// Whether the condition held.
    pub passed: bool,
    /// Human-readable detail (expected vs actual).
    pub detail: String,
}

/// `true` / `false` as text.
pub open spec fn bool_text(b: bool) -> Seq<char> {
    if b {
        "true"@
    } else {
        "false"@
    }
}

/// What a regex condition observed: the compile error, or whether it matched.
pub open spec fn regex_outcome(pattern: Seq<char>, text: Seq<char>) -> Result<bool, Seq<char>> {
    match regex_compile_error(pattern) {
        Some(e) => Err(e),
        None => Ok(regex_is_match(pattern, text)),
    }
}

/// The verdict of a regex condition, from what the regex engine reported.
pub open spec fn regex_verdict_of(pattern: Seq<char>, outcome: Result<bool, Seq<char>>) -> (
    bool,
    Seq<char>,
) {
    match outcome {
        Ok(matched) => if matched {
            (true, "regex matched: "@ + debug_str(pattern))
        } else {
            (false, "regex did not match: "@ + debug_str(pattern))
        },
        Err(e) => (false, "invalid regex "@ + debug_str(pattern) + ": "@ + e),
    }
}

/// The verdict (passed, detail) of condition `c` on view `v`.
pub open spec fn verdict_of(c: ConditionView, v: ScreenView) -> (bool, Seq<char>) {
    match c {
        ConditionView::TextVisible(n) => if is_substring(v.text@, n) {
            (true, "text visible: "@ + debug_str(n))
        } else {
            (false, "expected visible text "@ + debug_str(n))
        },
        ConditionView::TextNotVisible(n) => if is_substring(v.text@, n) {
            (false, "unexpected visible text "@ + debug_str(n))
        } else {
            (true, "text absent: "@ + debug_str(n))
        },
        ConditionView::TextRegex(p) => regex_verdict_of(p, regex_outcome(p, v.text@)),
        ConditionView::ExactText(e) => if trim(v.text@) == trim(e) {
            (true, "exact text matched"@)
        } else {
            (false, "exact text mismatch: expected "@ + debug_str(e))
        },
        ConditionView::CursorPosition { row, col } => if v.cursor == (row, col) {
            (true, "cursor at "@ + dec_chars(row as nat) + ":"@ + dec_chars(col as nat))
        } else {
            (
                false,
                "cursor at ("@ + dec_chars(v.cursor.0 as nat) + ", "@ + dec_chars(v.cursor.1 as nat)
                    + "), expected "@ + dec_chars(row as nat) + ":"@ + dec_chars(col as nat),
            )
        },
        ConditionView::ScreenChanged(e) => if v.screen_changed == e {
            (true, "screen_changed == "@ + bool_text(e))
        } else {
            (false, "screen_changed == "@ + bool_text(v.screen_changed) + ", expected "@ + bool_text(e))
        },
        ConditionView::ExitCode(e) => match v.exit_code {
            Some(code) => if code == e {
                (true, "exit code "@ + dec_chars_signed(code as int))
            } else {
                (
                    false,
                    "exit code "@ + dec_chars_signed(code as int) + ", expected "@
                        + dec_chars_signed(e as int),
                )
            },
            None => (false, "process still running; no exit code yet"@),
        },
        ConditionView::NotCrashed => if v.crashed {
            (false, "process crashed"@)
        } else {
            (true, "process healthy"@)
        },
    }
}

fn push_bool(out: &mut String, b: bool)
    ensures
        final(out)@ == old(out)@ + bool_text(b),
{
    if b {
        push_str(out, "true");
    } else {
        push_str(out, "false");
    }
}

/// `prefix` followed by the debug rendering of `s`.
fn with_quoted(prefix: &str, s: &str) -> (r: String)
    ensures
        r@ == prefix@ + debug_str(s@),
{
    let mut r = String::new();
    push_str(&mut r, prefix);
    let q = quote_debug(s);
    push_str(&mut r, q.as_str());
    assert(r@ =~= prefix@ + debug_str(s@));
    r
}

fn verdict(passed: bool, detail: String) -> (v: Verdict)
    ensures
        v.passed == passed,
        v.detail@ == detail@,
{
    Verdict { passed, detail }
}

/// The verdict of a regex condition, given what the regex engine reported:
/// `Ok(matched)` for a compiled pattern, `Err(message)` for one it rejected.
pub fn regex_verdict(pattern: &str, outcome: Result<bool, String>) -> (v: Verdict)
    ensures
        (v.passed, v.detail@) == regex_verdict_of(
            pattern@,
            match outcome {
                Ok(b) => Ok(b),
                Err(e) => Err(e@),
            },
        ),
{
    match outcome {
        Ok(true) => verdict(true, with_quoted("regex matched: ", pattern)),
        Ok(false) => verdict(false, with_quoted("regex did not match: ", pattern)),
        Err(e) => {
            let mut d = with_quoted("invalid regex ", pattern);
            push_str(&mut d, ": ");
            push_str(&mut d, e.as_str());
            verdict(false, d)
        },
    }
}

/// Evaluate one condition against a view. Never panics: a bad regex is a
/// failed verdict.
pub fn evaluate(condition: &Condition, view: &ScreenView) -> (v: Verdict)
    ensures
        (v.passed, v.detail@) == verdict_of(condition@, *view),
{
    match condition {
        Condition::TextVisible(needle) => {
            if contains(view.text.as_str(), needle.as_str()) {
                verdict(true, with_quoted("text visible: ", needle.as_str()))
            } else {
                verdict(false, with_quoted("expected visible text ", needle.as_str()))
            }
        },
        Condition::TextNotVisible(needle) => {
            if contains(view.text.as_str(), needle.as_str()) {
                verdict(false, with_quoted("unexpected visible text ", needle.as_str()))
            } else {
                verdict(true, with_quoted("text absent: ", needle.as_str()))
            }
        },
        Condition::TextRegex(pattern) => {
            let outcome = match compile_regex(pattern.as_str()) {
                Ok(compiled) => Ok(pattern_matches(&compiled, view.text.as_str())),
                Err(e) => Err(e),
            };
            regex_verdict(pattern.as_str(), outcome)
        },
        Condition::ExactText(expected) => {
            let a = trim_chars(chars_of(view.text.as_str()).as_slice());
            let b = trim_chars(chars_of(expected.as_str()).as_slice());
            if a.len() == b.len() && chars_equal(&a, &b) {
                let mut d = String::new();
                push_str(&mut d, "exact text matched");
                verdict(true, d)
            } else {
                verdict(false, with_quoted("exact text mismatch: expected ", expected.as_str()))
            }
        },
        Condition::CursorPosition { row, col } => {
            let mut d = String::new();
            let (r, c) = view.cursor;
            let held = r == *row && c == *col;
            if held {
                push_str(&mut d, "cursor at ");
            } else {
                push_str(&mut d, "cursor at (");
                push_dec_u64(&mut d, r as u64);
                push_str(&mut d, ", ");
                push_dec_u64(&mut d, c as u64);
                push_str(&mut d, "), expected ");
            }
            push_dec_u64(&mut d, *row as u64);
            push_str(&mut d, ":");
            push_dec_u64(&mut d, *col as u64);
            proof {
                if held {
                    assert(d@ =~= verdict_of(condition@, *view).1);
                } else {
                    assert(d@ =~= verdict_of(condition@, *view).1);
                }
            }
            verdict(held, d)
        },
        Condition::ScreenChanged(expected) => {
            let mut d = String::new();
            push_str(&mut d, "screen_changed == ");
            let held = view.screen_changed == *expected;
            if held {
                push_bool(&mut d, *expected);
            } else {
                push_bool(&mut d, view.screen_changed);
                push_str(&mut d, ", expected ");
                push_bool(&mut d, *expected);
            }
            assert(d@ =~= verdict_of(condition@, *view).1);
            verdict(held, d)
        },
        Condition::ExitCode(expected) => match view.exit_code {
            Some(code) => {
                let mut d = String::new();
                push_str(&mut d, "exit code ");
                push_dec_i64(&mut d, code as i64);
                let held = code == *expected;
                if !held {
                    push_str(&mut d, ", expected ");
                    push_dec_i64(&mut d, *expected as i64);
                }
                assert(d@ =~= verdict_of(condition@, *view).1);
                verdict(held, d)
            },
            None => {
                let mut d = String::new();
                push_str(&mut d, "process still running; no exit code yet");
                verdict(false, d)
            },
        },
        Condition::NotCrashed => {
            let mut d = String::new();
            if view.crashed {
                push_str(&mut d, "process crashed");
                verdict(false, d)
            } else {
                push_str(&mut d, "process healthy");
                verdict(true, d)
            }
        },
    }
}

/// Whether two character vectors hold the same characters.
fn chars_equal(a: &Vec<char>, b: &Vec<char>) -> (r: bool)
    requires
        a@.len() == b@.len(),
    ensures
        r == (a@ == b@),
{
    let mut i: usize = 0;
    while i < a.len()
        invariant
            a@.len() == b@.len(),
            i <= a@.len(),
            forall|j: int| 0 <= j < i ==> a@[j] == b@[j],
        decreases a@.len() - i,
    {
        if a[i] != b[i] {
            return false;
        }
        i = i + 1;
    }
    assert(a@ =~= b@);
    true
}

/// The string field `name` of a JSON view, if it is one.
pub open spec fn str_field(v: JsonView, name: Seq<char>) -> Option<Seq<char>> {
    match field(v, name) {
        Some(x) => view_str(x),
        None => None,
    }
}

/// The non-negative integer field `name` of a JSON view, if it is one.
pub open spec fn u64_field(v: JsonView, name: Seq<char>) -> Option<u64> {
    match field(v, name) {
        Some(x) => view_u64(x),
        None => None,
    }
}

/// The condition a JSON assertion object of type `kind` describes.
pub open spec fn condition_of_kind(v: JsonView, kind: Seq<char>) -> Result<ConditionView, Seq<char>> {
    let text = str_field(v, "text"@);
    let text_missing = kind + " needs a string "@ + debug_str("text"@);
    if kind == "text_visible"@ {
        match text {
            Some(t) => Ok(ConditionView::TextVisible(t)),
            None => Err(text_missing),
        }
    } else if kind == "text_not_visible"@ {
        match text {
            Some(t) => Ok(ConditionView::TextNotVisible(t)),
            None => Err(text_missing),
        }
    } else if kind == "text_regex"@ {
        match text {
            Some(t) => Ok(ConditionView::TextRegex(t)),
            None => Err(text_missing),
        }
    } else if kind == "exact_text"@ {
        match text {
            Some(t) => Ok(ConditionView::ExactText(t)),
            None => Err(text_missing),
        }
    } else if kind == "cursor_position"@ {
        match u64_field(v, "row"@) {
            None => Err("cursor_position needs numeric row"@),
            Some(row) => match u64_field(v, "col"@) {
                None => Err("cursor_position needs numeric col"@),
                Some(col) => Ok(ConditionView::CursorPosition { row: row as usize, col: col as usize }),
            },
        }
    } else if kind == "screen_changed"@ {
        let changed = match field(v, "changed"@) {
            Some(x) => match view_bool(x) {
                Some(b) => b,
                None => true,
            },
            None => true,
        };
        Ok(ConditionView::ScreenChanged(changed))
    } else if kind == "exit_code"@ {
        match field(v, "code"@) {
            Some(x) => match view_i64(x) {
                Some(code) => Ok(ConditionView::ExitCode(code as i32)),
                None => Err("exit_code needs numeric code"@),
            },
            None => Err("exit_code needs numeric code"@),
        }
    } else if kind == "not_crashed"@ {
        Ok(ConditionView::NotCrashed)
    } else {
        Err("unknown assertion type: "@ + kind)
    }
}

/// The condition a JSON assertion object describes, or why it is refused.
pub open spec fn condition_of_json(v: JsonView) -> Result<ConditionView, Seq<char>> {
    if !(v is Object) {
        Err("assertion must be an object"@)
    } else {
        match str_field(v, "type"@) {
            None => Err("assertion needs a string \"type\""@),
            Some(kind) => condition_of_kind(v, kind),
        }
    }
}

/// The assertion type names differ from one another.
proof fn lemma_kind_literals()
    ensures
        "text_visible"@.len() == 12,
        "text_not_visible"@.len() == 16,
        "text_regex"@.len() == 10,
        "exact_text"@.len() == 10,
        "cursor_position"@.len() == 15,
        "screen_changed"@.len() == 14,
        "exit_code"@.len() == 9,
        "not_crashed"@.len() == 11,
        "text_regex"@ != "exact_text"@,
{
    reveal_strlit("text_visible");
    reveal_strlit("text_not_visible");
    reveal_strlit("text_regex");
    reveal_strlit("exact_text");
    reveal_strlit("cursor_position");
    reveal_strlit("screen_changed");
    reveal_strlit("exit_code");
    reveal_strlit("not_crashed");
    assert("text_regex"@[0] != "exact_text"@[0]);
}

/// An object with a string `type` describes the condition of that type.
proof fn lemma_typed_condition(v: JsonView, kind: Seq<char>)
    requires
        v is Object,
        field(v, "type"@) == Some(JsonView::Str(kind)),
    ensures
        condition_of_json(v) == condition_of_kind(v, kind),
{
}

/// Each text assertion type reads its `text` into its own condition:
/// `text_visible` passes when the text is on screen, `text_not_visible`
/// when it is absent, `text_regex` matches it as a pattern, `exact_text`
/// compares the whole screen with it.
pub proof fn lemma_text_condition_types(v: JsonView, t: Seq<char>)
    requires
        v is Object,
        field(v, "text"@) == Some(JsonView::Str(t)),
    ensures
        field(v, "type"@) == Some(JsonView::Str("text_visible"@)) ==> condition_of_json(v) == Ok::<
            ConditionView,
            Seq<char>,
        >(ConditionView::TextVisible(t)),
        field(v, "type"@) == Some(JsonView::Str("text_not_visible"@)) ==> condition_of_json(v)
            == Ok::<ConditionView, Seq<char>>(ConditionView::TextNotVisible(t)),
        field(v, "type"@) == Some(JsonView::Str("text_regex"@)) ==> condition_of_json(v) == Ok::<
            ConditionView,
            Seq<char>,
        >(ConditionView::TextRegex(t)),
        field(v, "type"@) == Some(JsonView::Str("exact_text"@)) ==> condition_of_json(v) == Ok::<
            ConditionView,
            Seq<char>,
        >(ConditionView::ExactText(t)),
{
    lemma_kind_literals();
    if let Some(JsonView::Str(kind)) = field(v, "type"@) {
        lemma_typed_condition(v, kind);
    }
}

/// The other assertion types: `cursor_position` reads `row` and `col`,
/// `exit_code` reads `code`, `screen_changed` reads `changed` (true when
/// absent), `not_crashed` reads nothing.
pub proof fn lemma_other_condition_types(v: JsonView, row: u64, col: u64, code: i32, changed: bool)
    requires
        v is Object,
    ensures
        field(v, "type"@) == Some(JsonView::Str("cursor_position"@)) && field(v, "row"@) == Some(
            JsonView::PosInt(row),
        ) && field(v, "col"@) == Some(JsonView::PosInt(col)) ==> condition_of_json(v) == Ok::<
            ConditionView,
            Seq<char>,
        >(ConditionView::CursorPosition { row: row as usize, col: col as usize }),
        field(v, "type"@) == Some(JsonView::Str("exit_code"@)) && code >= 0 && field(v, "code"@)
            == Some(JsonView::PosInt(code as u64)) ==> condition_of_json(v) == Ok::<
            ConditionView,
            Seq<char>,
        >(ConditionView::ExitCode(code)),
        field(v, "type"@) == Some(JsonView::Str("exit_code"@)) && code < 0 && field(v, "code"@)
            == Some(JsonView::NegInt(code as i64)) ==> condition_of_json(v) == Ok::<
            ConditionView,
            Seq<char>,
        >(ConditionView::ExitCode(code)),
        field(v, "type"@) == Some(JsonView::Str("screen_changed"@)) && field(v, "changed"@) == Some(
            JsonView::Bool(changed),
        ) ==> condition_of_json(v) == Ok::<ConditionView, Seq<char>>(
            ConditionView::ScreenChanged(changed),
        ),
        field(v, "type"@) == Some(JsonView::Str("screen_changed"@)) && field(v, "changed"@) is None
            ==> condition_of_json(v) == Ok::<ConditionView, Seq<char>>(
            ConditionView::ScreenChanged(true),
        ),
        field(v, "type"@) == Some(JsonView::Str("not_crashed"@)) ==> condition_of_json(v) == Ok::<
            ConditionView,
            Seq<char>,
        >(ConditionView::NotCrashed),
{
    lemma_kind_literals();
    if let Some(JsonView::Str(kind)) = field(v, "type"@) {
        lemma_typed_condition(v, kind);
        if kind == "exit_code"@ {
            if code >= 0 && field(v, "code"@) == Some(JsonView::PosInt(code as u64)) {
                let n = code as u64;
                assert(view_i64(JsonView::PosInt(n)) == Some(n as i64));
                assert((n as i64) as i32 == code);
            } else if code < 0 && field(v, "code"@) == Some(JsonView::NegInt(code as i64)) {
                assert((code as i64) as i32 == code);
            }
        }
    }
}

/// Whether a parsed condition matches its specification.
pub open spec fn condition_result_matches(
    r: Result<Condition, String>,
    s: Result<ConditionView, Seq<char>>,
) -> bool {
    match r {
        Ok(c) => s == Ok::<ConditionView, Seq<char>>(c@),
        Err(m) => s == Err::<ConditionView, Seq<char>>(m@),
    }
}

fn message(text: &str) -> (r: String)
    ensures
        r@ == text@,
{
    text.to_owned()
}

/// Map a JSON assertion object onto a [`Condition`].
///
/// Accepted shapes (`type` discriminates): `text_visible` /
/// `text_not_visible` / `text_regex` / `exact_text` with `text`;
/// `cursor_position` with `row`/`col`; `screen_changed` with optional
/// `changed` (default true); `exit_code` with `code`; `not_crashed`.
pub fn condition_from_json(value: &JsonValue) -> (r: Result<Condition, String>)
    ensures
        condition_result_matches(r, condition_of_json(value@)),
{
    let is_object = match value {
        JsonValue::Object(_) => true,
        _ => false,
    };
    if !is_object {
        return Err(message("assertion must be an object"));
    }
    let kind = match value.get("type") {
        Some(t) => t.as_str(),
        None => None,
    };
    let kind = match kind {
        Some(k) => k,
        None => return Err(message("assertion needs a string \"type\"")),
    };
    let text: Option<&str> = match value.get("text") {
        Some(t) => t.as_str(),
        None => None,
    };
    let is_text_kind = str_eq(kind, "text_visible") || str_eq(kind, "text_not_visible")
        || str_eq(kind, "text_regex") || str_eq(kind, "exact_text");
    if is_text_kind {
        let t = match text {
            Some(t) => t.to_owned(),
            None => {
                let mut m = kind.to_owned();
                push_str(&mut m, " needs a string ");
                let q = quote_debug("text");
                push_str(&mut m, q.as_str());
                assert(m@ =~= kind@ + " needs a string "@ + debug_str("text"@));
                return Err(m);
            },
        };
        if str_eq(kind, "text_visible") {
            return Ok(Condition::TextVisible(t));
        } else if str_eq(kind, "text_not_visible") {
            return Ok(Condition::TextNotVisible(t));
        } else if str_eq(kind, "text_regex") {
            return Ok(Condition::TextRegex(t));
        } else {
            return Ok(Condition::ExactText(t));
        }
    }
    if str_eq(kind, "cursor_position") {
        let row = match value.get("row") {
            Some(x) => x.as_u64(),
            None => None,
        };
        let row = match row {
            Some(r) => r,
            None => return Err(message("cursor_position needs numeric row")),
        };
        let col = match value.get("col") {
            Some(x) => x.as_u64(),
            None => None,
        };
        let col = match col {
            Some(c) => c,
            None => return Err(message("cursor_position needs numeric col")),
        };
        return Ok(Condition::CursorPosition { row: row as usize, col: col as usize });
    }
    if str_eq(kind, "screen_changed") {
        let changed = match value.get("changed") {
            Some(x) => match x.as_bool() {
                Some(b) => b,
                None => true,
            },
            None => true,
        };
        return Ok(Condition::ScreenChanged(changed));
    }
    if str_eq(kind, "exit_code") {
        let code = match value.get("code") {
            Some(x) => x.as_i64(),
            None => None,
        };
        return match code {
            Some(c) => Ok(Condition::ExitCode(c as i32)),
            None => Err(message("exit_code needs numeric code")),
        };
    }
    if str_eq(kind, "not_crashed") {
        return Ok(Condition::NotCrashed);
    }
    let mut m = message("unknown assertion type: ");
    push_str(&mut m, kind);
    Err(m)
}

} // verus!
