//! The portable YAML test definition (`schema: tui-lab/v1`).
//!
//! Defined once here; every frontend executes these types. A step is a
//! single-key map (`- press: ENTER`); aliases (`expect`, `screenshot`,
//! `assert_exit_code`) are accepted, and writing a step back produces the
//! same single-key shape it was read from. Durations are kept in
//! milliseconds.

use vstd::prelude::*;

use crate::input::encoding::{digits_value, is_digit, parse_decimal, parse_unsigned, unsigned_digits};
use crate::json::{entry_views, field, item_views, JsonValue, JsonView};
use crate::protocol::constants::SCHEMA_ID;
use crate::protocol::error::ProtocolError;
use crate::protocol::utils::is_supported_schema;
use crate::protocol::actions::{
    pairs_view, read_string_map, string_map, missing_msg, opt_str_json, entry, str_json,
    opt_str_json_exec, strings_json, pairs_json,
    opt_string, opt_string_view, read_flag, read_opt_string, read_string, read_string_list,
    read_u16, req_string, req_u16, string_list, strings_view, flag, text, type_msg, wrong_type,
};
use crate::text::{chars_of, eq_lit, is_alpha, is_white_space, is_alphabetic, push_str, string_of, trim, trim_chars};

verus! {

/// Top-level test file.
#[derive(Debug, PartialEq)]
pub struct TestFile {
    /// Must be `tui-lab/v1`.
    pub schema: String,
    /// Suite name.
    pub name: String,
    /// Application under test.
    pub application: Application,
    /// Extra environment (`TERM`, ...), in file order.
    pub environment: Vec<(String, String)>,
    /// Terminal geometry and suite timeout.
    pub terminal: TerminalConfig,
    /// Steps run before the main flow.
    pub setup: Vec<Step>,
    /// Main flow.
    pub steps: Vec<Step>,
    /// Always run, even on failure.
    pub cleanup: Vec<Step>,
    /// End-of-suite assertions (e.g. `exit_code`).
    pub assertions: Vec<SuiteAssertion>,
}

/// Application under test.
#[derive(Debug, Clone, PartialEq)]
pub struct Application {
    /// Executable.
    pub command: String,
    /// CLI arguments.
    pub args: Vec<String>,
    /// Working directory.
    pub cwd: Option<String>,
}

/// Terminal geometry and suite timeout.
#[derive(Debug, Clone, PartialEq)]
pub struct TerminalConfig {
    /// Columns.
    pub width: u16,
    /// Rows.
    pub height: u16,
    /// Suite timeout in milliseconds, e.g. from `10s`.
    pub timeout_ms: Option<u128>,
}

/// Default columns.
fn default_width() -> (r: u16)
    ensures
        r == 120,
{
    120
}

/// Default rows.
fn default_height() -> (r: u16)
    ensures
        r == 40,
{
    40
}

impl Default for TerminalConfig {
    fn default() -> (r: Self)
        ensures
            r.width == 120,
            r.height == 40,
            r.timeout_ms is None,
    {
        TerminalConfig { width: default_width(), height: default_height(), timeout_ms: None }
    }
}

/// One step in `setup` / `steps` / `cleanup`.
#[derive(Debug, Clone, PartialEq)]
pub enum Step {
    /// Send a named key.
    Press(String),
    /// Type text verbatim.
    Type(String),
    /// Poll until text appears.
    WaitForText(WaitForText),
    /// Escape hatch only: the recorder never emits this.
    Sleep(SleepFor),
    /// Resize the terminal.
    Resize(ResizeTo),
    /// Assert visible text.
    AssertText(TextAssertion),
    /// Legacy alias of `AssertText`.
    Expect(TextAssertion),
    /// Assert text inside a region.
    AssertRegion(RegionAssertion),
    /// Capture a named snapshot.
    Snapshot(SnapshotTake),
    /// Legacy alias of `Snapshot`.
    Screenshot(SnapshotTake),
    /// Wait for the process to exit.
    WaitForExit(WaitForExit),
}

/// `wait_for_text` payload.
#[derive(Debug, Clone, PartialEq)]
pub struct WaitForText {
    /// Substring (or regex with `regex: true`) to wait for.
    pub text: String,
    /// Regex mode.
    pub regex: bool,
    /// Timeout in milliseconds (`500ms`, `3s` in YAML).
    pub timeout_ms: Option<u128>,
}

/// `sleep` payload, in milliseconds (a discouraged escape hatch).
#[derive(Debug, Clone, PartialEq)]
pub struct SleepFor(pub u128);

/// `resize` payload.
#[derive(Debug, Clone, PartialEq)]
pub struct ResizeTo {
    /// Columns.
    pub width: u16,
    /// Rows.
    pub height: u16,
}

/// `assert_text` / `expect` payload.
#[derive(Debug, Clone, PartialEq)]
pub struct TextAssertion {
    /// Must be visible.
    pub contains: Option<String>,
    /// Must be absent.
    pub not_contains: Option<String>,
    /// Regex that must match.
    pub regex: Option<String>,
}

/// `assert_region` payload.
#[derive(Debug, Clone, PartialEq)]
pub struct RegionAssertion {
    /// Left column.
    pub x: u16,
    /// Top row.
    pub y: u16,
    /// Region width.
    pub width: u16,
    /// Region height.
    pub height: u16,
    /// Text the region must contain.
    pub contains: String,
}

/// `snapshot` payload.
#[derive(Debug, Clone, PartialEq)]
pub struct SnapshotTake {
    /// Snapshot name.
    pub name: String,
    /// Mask list (regex strings or region names).
    pub mask: Vec<String>,
}

/// `wait_for_exit` payload.
#[derive(Debug, Clone, PartialEq)]
pub struct WaitForExit {
    /// Timeout in milliseconds.
    pub timeout_ms: u128,
}

/// End-of-suite assertions.
#[derive(Debug, Clone, Copy, PartialEq, Eq)]
pub enum SuiteAssertion {
    /// Expected process exit code.
    ExitCode(i32),
    /// Assert the process did not crash.
    ProcessNotCrashed(bool),
}

/// Index of the first alphabetic character of `s`.
pub open spec fn first_alpha(s: Seq<char>) -> Option<int>
    decreases s.len(),
{
    if s.len() == 0 {
        None
    } else if is_alpha(s[0]) {
        Some(0)
    } else {
        match first_alpha(s.drop_first()) {
            Some(i) => Some(i + 1),
            None => None,
        }
    }
}

/// A human duration (`500ms`, `3s`, `2m`, bare number = milliseconds) in
/// milliseconds, or the message refusing it. A count of minutes whose
/// seconds exceed `u64` is refused like a malformed number.
pub open spec fn duration_of(raw: Seq<char>) -> Result<u128, Seq<char>> {
    let number = match first_alpha(raw) {
        Some(i) => raw.take(i),
        None => raw,
    };
    let unit = match first_alpha(raw) {
        Some(i) => raw.skip(i),
        None => Seq::<char>::empty(),
    };
    match parse_unsigned(trim(number), u64::MAX as nat) {
        None => Err("bad duration: "@ + raw),
        Some(v) => {
            let u = trim(unit);
            if u == "ms"@ || u.len() == 0 {
                Ok(v as u128)
            } else if u == "s"@ {
                Ok((v * 1000) as u128)
            } else if u == "m"@ {
                if v * 60 > u64::MAX {
                    Err("bad duration: "@ + raw)
                } else {
                    Ok((v * 60000) as u128)
                }
            } else {
                Err("bad duration unit in "@ + raw + ": "@ + u)
            }
        },
    }
}

proof fn lemma_first_alpha_prefix(s: Seq<char>, i: int)
    requires
        0 <= i <= s.len(),
        forall|k: int| 0 <= k < i ==> !is_alpha(s[k]),
    ensures
        i < s.len() && is_alpha(s[i]) ==> first_alpha(s) == Some(i),
        i == s.len() ==> first_alpha(s) is None,
    decreases s.len(),
{
    if i > 0 {
        lemma_first_alpha_prefix(s.drop_first(), i - 1);
    }
}

/// Parse `500ms` / `3s` / `2m` (a bare number is milliseconds).
pub fn parse_duration(raw: &str) -> (r: Result<u128, String>)
    ensures
        match r {
            Ok(ms) => duration_of(raw@) == Ok::<u128, Seq<char>>(ms),
            Err(m) => duration_of(raw@) == Err::<u128, Seq<char>>(m@),
        },
{
    let chars = chars_of(raw);
    let mut idx: usize = 0;
    while idx < chars.len() && !is_alphabetic(chars[idx])
        invariant
            chars@ == raw@,
            idx <= chars@.len(),
            forall|k: int| 0 <= k < idx ==> !is_alpha(chars@[k]),
        decreases chars@.len() - idx,
    {
        idx = idx + 1;
    }
    proof {
        lemma_first_alpha_prefix(raw@, idx as int);
    }
    let mut number: Vec<char> = Vec::new();
    let mut unit: Vec<char> = Vec::new();
    let mut i: usize = 0;
    while i < chars.len()
        invariant
            chars@ == raw@,
            idx <= chars@.len(),
            i <= chars@.len(),
            number@ == chars@.take(if i < idx { i as int } else { idx as int }),
            unit@ == (if i <= idx { Seq::<char>::empty() } else { chars@.subrange(idx as int, i as int) }),
        decreases chars@.len() - i,
    {
        if i < idx {
            number.push(chars[i]);
        } else {
            unit.push(chars[i]);
        }
        i = i + 1;
        assert(number@ =~= chars@.take(if i < idx { i as int } else { idx as int }));
        assert(unit@ =~= (if i <= idx { Seq::<char>::empty() } else { chars@.subrange(idx as int, i as int) }));
    }
    assert(idx == chars@.len() ==> number@ =~= raw@);
    assert(idx < chars@.len() ==> unit@ =~= raw@.skip(idx as int));
    assert(idx == chars@.len() ==> unit@ =~= Seq::<char>::empty());
    let n = trim_chars(number.as_slice());
    let value = match parse_decimal(n.as_slice(), u64::MAX) {
        Some(v) => v,
        None => {
            let mut m = String::new();
            push_str(&mut m, "bad duration: ");
            push_str(&mut m, raw);
            return Err(m);
        },
    };
    let u = trim_chars(unit.as_slice());
    if eq_lit(u.as_slice(), "ms") || u.len() == 0 {
        Ok(value as u128)
    } else if eq_lit(u.as_slice(), "s") {
        Ok(value as u128 * 1000)
    } else if eq_lit(u.as_slice(), "m") {
        if value > 307445734561825860 {
            let mut m = String::new();
            push_str(&mut m, "bad duration: ");
            push_str(&mut m, raw);
            Err(m)
        } else {
            Ok(value as u128 * 60000)
        }
    } else {
        let mut m = String::new();
        push_str(&mut m, "bad duration unit in ");
        push_str(&mut m, raw);
        push_str(&mut m, ": ");
        let other = string_of(u.as_slice());
        push_str(&mut m, other.as_str());
        Err(m)
    }
}

/// A text assertion with its texts as character sequences.
pub struct TextAssertionView {
    pub contains: Option<Seq<char>>,
    pub not_contains: Option<Seq<char>>,
    pub regex: Option<Seq<char>>,
}

/// A step with its texts as character sequences.
pub enum StepView {
    Press(Seq<char>),
    Type(Seq<char>),
    WaitForText { text: Seq<char>, regex: bool, timeout_ms: Option<u128> },
    Sleep(u128),
    Resize { width: u16, height: u16 },
    AssertText(TextAssertionView),
    Expect(TextAssertionView),
    AssertRegion { x: u16, y: u16, width: u16, height: u16, contains: Seq<char> },
    Snapshot { name: Seq<char>, mask: Seq<Seq<char>> },
    Screenshot { name: Seq<char>, mask: Seq<Seq<char>> },
    WaitForExit(u128),
}

impl View for TextAssertion {
    type V = TextAssertionView;

    open spec fn view(&self) -> TextAssertionView {
        TextAssertionView {
            contains: opt_string_view(self.contains),
            not_contains: opt_string_view(self.not_contains),
            regex: opt_string_view(self.regex),
        }
    }
}

impl View for Step {
    type V = StepView;

    open spec fn view(&self) -> StepView {
        match self {
            Step::Press(k) => StepView::Press(k@),
            Step::Type(t) => StepView::Type(t@),
            Step::WaitForText(w) => StepView::WaitForText {
                text: w.text@,
                regex: w.regex,
                timeout_ms: w.timeout_ms,
            },
            Step::Sleep(d) => StepView::Sleep(d.0),
            Step::Resize(r) => StepView::Resize { width: r.width, height: r.height },
            Step::AssertText(a) => StepView::AssertText(a@),
            Step::Expect(a) => StepView::Expect(a@),
            Step::AssertRegion(r) => StepView::AssertRegion {
                x: r.x,
                y: r.y,
                width: r.width,
                height: r.height,
                contains: r.contains@,
            },
            Step::Snapshot(t) => StepView::Snapshot { name: t.name@, mask: strings_view(t.mask@) },
            Step::Screenshot(t) => StepView::Screenshot {
                name: t.name@,
                mask: strings_view(t.mask@),
            },
            Step::WaitForExit(w) => StepView::WaitForExit(w.timeout_ms),
        }
    }
}

/// The first key, in entry order, that `allowed` does not list.
pub open spec fn first_unknown(entries: Seq<(Seq<char>, JsonView)>, allowed: Seq<Seq<char>>) -> Option<
    Seq<char>,
>
    decreases entries.len(),
{
    if entries.len() == 0 {
        None
    } else if !allowed.contains(entries[0].0) {
        Some(entries[0].0)
    } else {
        first_unknown(entries.drop_first(), allowed)
    }
}

/// Message for a key a strict mapping does not accept.
pub open spec fn unknown_key_msg(k: Seq<char>) -> Seq<char> {
    "unknown field `"@ + k + "`"@
}

/// A mapping whose keys all lie in `allowed` (strict mode).
pub open spec fn strict_map(v: JsonView, allowed: Seq<Seq<char>>) -> Result<(), Seq<char>> {
    match v {
        JsonView::Object(entries) => match first_unknown(entries, allowed) {
            Some(k) => Err(unknown_key_msg(k)),
            None => Ok(()),
        },
        _ => Err("invalid type: expected a map"@),
    }
}

/// A duration held in a string value.
pub open spec fn duration_value(v: JsonView) -> Result<u128, Seq<char>> {
    match v {
        JsonView::Str(s) => duration_of(s),
        _ => Err("invalid type: expected a duration string"@),
    }
}

/// An optional duration field (absent or `null` is `None`).
pub open spec fn opt_duration(v: JsonView, name: Seq<char>) -> Result<Option<u128>, Seq<char>> {
    match field(v, name) {
        None => Ok(None),
        Some(JsonView::Null) => Ok(None),
        Some(x) => match duration_value(x) {
            Ok(ms) => Ok(Some(ms)),
            Err(e) => Err(e),
        },
    }
}

/// A required duration field.
pub open spec fn req_duration(v: JsonView, name: Seq<char>) -> Result<u128, Seq<char>> {
    match field(v, name) {
        None => Err("missing field `"@ + name + "`"@),
        Some(x) => duration_value(x),
    }
}

/// A text assertion payload.
pub open spec fn text_assertion_of(v: JsonView) -> Result<TextAssertionView, Seq<char>> {
    match strict_map(v, seq!["contains"@, "not_contains"@, "regex"@]) {
        Err(e) => Err(e),
        Ok(_) => match opt_string(v, "contains"@) {
            Err(e) => Err(e),
            Ok(contains) => match opt_string(v, "not_contains"@) {
                Err(e) => Err(e),
                Ok(not_contains) => match opt_string(v, "regex"@) {
                    Err(e) => Err(e),
                    Ok(regex) => Ok(TextAssertionView { contains, not_contains, regex }),
                },
            },
        },
    }
}

/// A snapshot payload as (name, mask).
pub open spec fn snapshot_of(v: JsonView) -> Result<(Seq<char>, Seq<Seq<char>>), Seq<char>> {
    match strict_map(v, seq!["name"@, "mask"@]) {
        Err(e) => Err(e),
        Ok(_) => match req_string(v, "name"@) {
            Err(e) => Err(e),
            Ok(name) => match string_list(v, "mask"@) {
                Err(e) => Err(e),
                Ok(mask) => Ok((name, mask)),
            },
        },
    }
}

/// The step a single-key entry `key: value` describes. `wait_for_text`
/// also takes the text alone (`- wait_for_text: "Main Menu"`).
pub open spec fn step_entry(key: Seq<char>, value: JsonView) -> Result<StepView, Seq<char>> {
    if key == "press"@ {
        match value {
            JsonView::Str(k) => Ok(StepView::Press(k)),
            _ => Err("invalid type: expected a string"@),
        }
    } else if key == "type"@ {
        match value {
            JsonView::Str(t) => Ok(StepView::Type(t)),
            _ => Err("invalid type: expected a string"@),
        }
    } else if key == "wait_for_text"@ && value is Str {
        Ok(StepView::WaitForText { text: value->Str_0, regex: false, timeout_ms: None })
    } else if key == "wait_for_text"@ {
        match strict_map(value, seq!["text"@, "regex"@, "timeout"@]) {
            Err(e) => Err(e),
            Ok(_) => match req_string(value, "text"@) {
                Err(e) => Err(e),
                Ok(text) => match flag(value, "regex"@) {
                    Err(e) => Err(e),
                    Ok(regex) => match opt_duration(value, "timeout"@) {
                        Err(e) => Err(e),
                        Ok(timeout_ms) => Ok(StepView::WaitForText { text, regex, timeout_ms }),
                    },
                },
            },
        }
    } else if key == "sleep"@ {
        match duration_value(value) {
            Err(e) => Err(e),
            Ok(ms) => Ok(StepView::Sleep(ms)),
        }
    } else if key == "resize"@ {
        match strict_map(value, seq!["width"@, "height"@]) {
            Err(e) => Err(e),
            Ok(_) => match req_u16(value, "width"@) {
                Err(e) => Err(e),
                Ok(width) => match req_u16(value, "height"@) {
                    Err(e) => Err(e),
                    Ok(height) => Ok(StepView::Resize { width, height }),
                },
            },
        }
    } else if key == "assert_text"@ {
        match text_assertion_of(value) {
            Err(e) => Err(e),
            Ok(a) => Ok(StepView::AssertText(a)),
        }
    } else if key == "expect"@ {
        match text_assertion_of(value) {
            Err(e) => Err(e),
            Ok(a) => Ok(StepView::Expect(a)),
        }
    } else if key == "assert_region"@ {
        match strict_map(value, seq!["x"@, "y"@, "width"@, "height"@, "contains"@]) {
            Err(e) => Err(e),
            Ok(_) => match req_u16(value, "x"@) {
                Err(e) => Err(e),
                Ok(x) => match req_u16(value, "y"@) {
                    Err(e) => Err(e),
                    Ok(y) => match req_u16(value, "width"@) {
                        Err(e) => Err(e),
                        Ok(width) => match req_u16(value, "height"@) {
                            Err(e) => Err(e),
                            Ok(height) => match req_string(value, "contains"@) {
                                Err(e) => Err(e),
                                Ok(contains) => Ok(
                                    StepView::AssertRegion { x, y, width, height, contains },
                                ),
                            },
                        },
                    },
                },
            },
        }
    } else if key == "snapshot"@ {
        match snapshot_of(value) {
            Err(e) => Err(e),
            Ok((name, mask)) => Ok(StepView::Snapshot { name, mask }),
        }
    } else if key == "screenshot"@ {
        match snapshot_of(value) {
            Err(e) => Err(e),
            Ok((name, mask)) => Ok(StepView::Screenshot { name, mask }),
        }
    } else if key == "wait_for_exit"@ {
        match strict_map(value, seq!["timeout"@]) {
            Err(e) => Err(e),
            Ok(_) => match req_duration(value, "timeout"@) {
                Err(e) => Err(e),
                Ok(ms) => Ok(StepView::WaitForExit(ms)),
            },
        }
    } else {
        Err("unknown step: "@ + key)
    }
}

/// The step a single-key map describes, or the message refusing it.
pub open spec fn step_of(v: JsonView) -> Result<StepView, Seq<char>> {
    match v {
        JsonView::Object(entries) => if entries.len() != 1 {
            Err("step must have exactly one key, got "@ + crate::text::dec_chars(entries.len()))
        } else {
            step_entry(entries[0].0, entries[0].1)
        },
        _ => Err("step must be a single-key map: invalid type: expected a map"@),
    }
}

/// A map whose keys are all allowed has no unknown key.
proof fn lemma_keys_allowed(entries: Seq<(Seq<char>, JsonView)>, allowed: Seq<Seq<char>>)
    requires
        forall|i: int| 0 <= i < entries.len() ==> allowed.contains(#[trigger] entries[i].0),
    ensures
        first_unknown(entries, allowed) is None,
    decreases entries.len(),
{
    if entries.len() > 0 {
        assert(allowed.contains(entries[0].0));
        let rest = entries.drop_first();
        assert forall|i: int| 0 <= i < rest.len() implies allowed.contains(#[trigger] rest[i].0) by {
            assert(rest[i] == entries[i + 1]);
        }
        lemma_keys_allowed(rest, allowed);
    }
}

/// `resize: {width: w, height: h}` resizes to `w` columns and `h` rows:
/// reading takes the width from the `width` field and the height from the
/// `height` field, whatever order they come in, and writing puts each back
/// under its own name.
pub proof fn lemma_resize_fields(payload: Seq<(Seq<char>, JsonView)>, w: u16, h: u16)
    ensures
        ({
            let value = JsonView::Object(payload);
            (forall|i: int|
                0 <= i < payload.len() ==> #[trigger] payload[i].0 == "width"@ || payload[i].0
                    == "height"@) && field(value, "width"@) == Some(JsonView::PosInt(w as u64))
                && field(value, "height"@) == Some(JsonView::PosInt(h as u64)) ==> step_of(
                JsonView::Object(seq![("resize"@, value)]),
            ) == Ok::<StepView, Seq<char>>(StepView::Resize { width: w, height: h })
        }),
        ({
            let tree = step_tree(StepView::Resize { width: w, height: h });
            &&& field(tree, "resize"@) is Some
            &&& field(field(tree, "resize"@)->0, "width"@) == Some(JsonView::PosInt(w as u64))
            &&& field(field(tree, "resize"@)->0, "height"@) == Some(JsonView::PosInt(h as u64))
        }),
{
    reveal_strlit("width");
    reveal_strlit("height");
    reveal_strlit("resize");
    reveal_strlit("press");
    reveal_strlit("type");
    reveal_strlit("wait_for_text");
    reveal_strlit("sleep");
    assert("width"@.len() == 5 && "height"@.len() == 6);
    let value = JsonView::Object(payload);
    let allowed = seq!["width"@, "height"@];
    if forall|i: int| 0 <= i < payload.len() ==> #[trigger] payload[i].0 == "width"@ || payload[i].0
        == "height"@ {
        assert forall|i: int| 0 <= i < payload.len() implies allowed.contains(#[trigger] payload[i].0) by {
            if payload[i].0 == "width"@ {
                assert(allowed[0] == payload[i].0);
            } else {
                assert(allowed[1] == payload[i].0);
            }
        }
        lemma_keys_allowed(payload, allowed);
    }
    let entry = seq![("resize"@, value)];
    assert(entry[0].0 == "resize"@);
    let tree_payload = seq![
        ("width"@, JsonView::PosInt(w as u64)),
        ("height"@, JsonView::PosInt(h as u64)),
    ];
    let tree = step_tree(StepView::Resize { width: w, height: h });
    let outer = seq![("resize"@, JsonView::Object(tree_payload))];
    assert(tree == JsonView::Object(outer));
    assert(crate::json::lookup(outer, "resize"@) == Some(JsonView::Object(tree_payload)));
    assert(crate::json::lookup(tree_payload, "width"@) == Some(JsonView::PosInt(w as u64)));
    let tail = tree_payload.drop_first();
    assert(tail =~= seq![("height"@, JsonView::PosInt(h as u64))]);
    assert(crate::json::lookup(tail, "height"@) == Some(JsonView::PosInt(h as u64)));
    assert(crate::json::lookup(tree_payload, "height"@) == crate::json::lookup(tail, "height"@));
}

/// The suite assertion a single-key map describes, or the message refusing
/// it.
pub open spec fn suite_assertion_of(v: JsonView) -> Result<SuiteAssertion, Seq<char>> {
    match v {
        JsonView::Object(entries) => if entries.len() != 1 {
            Err("assertion must have exactly one key"@)
        } else {
            let key = entries[0].0;
            let value = entries[0].1;
            if key == "exit_code"@ || key == "assert_exit_code"@ {
                match value {
                    JsonView::PosInt(n) => if n <= i32::MAX {
                        Ok(SuiteAssertion::ExitCode(n as i32))
                    } else {
                        Err("invalid value: expected i32"@)
                    },
                    JsonView::NegInt(n) => if n >= i32::MIN {
                        Ok(SuiteAssertion::ExitCode(n as i32))
                    } else {
                        Err("invalid value: expected i32"@)
                    },
                    _ => Err("invalid type: expected i32"@),
                }
            } else if key == "process_not_crashed"@ || key == "assert_process_not_crashed"@ {
                match value {
                    JsonView::Bool(b) => Ok(SuiteAssertion::ProcessNotCrashed(b)),
                    _ => Err("invalid type: expected a boolean"@),
                }
            } else {
                Err("unknown suite assertion: "@ + key)
            }
        },
        _ => Err("assertion must be a single-key map: invalid type: expected a map"@),
    }
}

/// The character sequences of a list of string slices.
pub open spec fn names_view(s: Seq<&str>) -> Seq<Seq<char>> {
    Seq::new(s.len(), |i: int| s[i]@)
}

fn is_listed(allowed: &[&str], key: &str) -> (r: bool)
    ensures
        r == names_view(allowed@).contains(key@),
{
    let mut i: usize = 0;
    while i < allowed.len()
        invariant
            i <= allowed@.len(),
            forall|j: int| 0 <= j < i ==> names_view(allowed@)[j] != key@,
        decreases allowed@.len() - i,
    {
        if crate::text::str_eq(allowed[i], key) {
            assert(names_view(allowed@)[i as int] == key@);
            return true;
        }
        i = i + 1;
    }
    false
}

fn unknown_key(k: &str) -> (r: String)
    ensures
        r@ == unknown_key_msg(k@),
{
    let mut r = text("unknown field `");
    push_str(&mut r, k);
    push_str(&mut r, "`");
    r
}

/// Check that `v` is a mapping whose keys all lie in `allowed`.
pub(crate) fn check_strict(v: &JsonValue, allowed: &[&str]) -> (r: Result<(), String>)
    ensures
        match r {
            Ok(_) => strict_map(v@, names_view(allowed@)) == Ok::<(), Seq<char>>(()),
            Err(m) => strict_map(v@, names_view(allowed@)) == Err::<(), Seq<char>>(m@),
        },
{
    match v {
        JsonValue::Object(entries) => {
            let ghost views = entry_views(entries@);
            let ghost names = names_view(allowed@);
            let mut i: usize = 0;
            assert(views.skip(0) =~= views);
            while i < entries.len()
                invariant
                    views == entry_views(entries@),
                    names == names_view(allowed@),
                    v@ == JsonView::Object(views),
                    i <= entries@.len(),
                    first_unknown(views, names) == first_unknown(views.skip(i as int), names),
                decreases entries@.len() - i,
            {
                assert(views.skip(i as int).drop_first() =~= views.skip(i + 1));
                assert(views.skip(i as int)[0] == (entries@[i as int].0@, entries@[i as int].1@));
                let key = entries[i].0.as_str();
                if !is_listed(allowed, key) {
                    return Err(unknown_key(key));
                }
                i = i + 1;
            }
            Ok(())
        },
        _ => Err(text("invalid type: expected a map")),
    }
}

fn read_duration_value(x: &JsonValue) -> (r: Result<u128, String>)
    ensures
        match r {
            Ok(ms) => duration_value(x@) == Ok::<u128, Seq<char>>(ms),
            Err(m) => duration_value(x@) == Err::<u128, Seq<char>>(m@),
        },
{
    match x {
        JsonValue::Str(s) => parse_duration(s.as_str()),
        _ => Err(text("invalid type: expected a duration string")),
    }
}

fn read_opt_duration(v: &JsonValue, name: &str) -> (r: Result<Option<u128>, String>)
    ensures
        match r {
            Ok(d) => opt_duration(v@, name@) == Ok::<Option<u128>, Seq<char>>(d),
            Err(m) => opt_duration(v@, name@) == Err::<Option<u128>, Seq<char>>(m@),
        },
{
    match v.get(name) {
        None => Ok(None),
        Some(JsonValue::Null) => Ok(None),
        Some(x) => match read_duration_value(x) {
            Ok(ms) => Ok(Some(ms)),
            Err(e) => Err(e),
        },
    }
}

fn read_req_duration(v: &JsonValue, name: &str) -> (r: Result<u128, String>)
    ensures
        match r {
            Ok(d) => req_duration(v@, name@) == Ok::<u128, Seq<char>>(d),
            Err(m) => req_duration(v@, name@) == Err::<u128, Seq<char>>(m@),
        },
{
    match v.get(name) {
        None => {
            let mut m = text("missing field `");
            push_str(&mut m, name);
            push_str(&mut m, "`");
            Err(m)
        },
        Some(x) => read_duration_value(x),
    }
}

fn read_text_assertion(v: &JsonValue) -> (r: Result<TextAssertion, String>)
    ensures
        match r {
            Ok(a) => text_assertion_of(v@) == Ok::<TextAssertionView, Seq<char>>(a@),
            Err(m) => text_assertion_of(v@) == Err::<TextAssertionView, Seq<char>>(m@),
        },
{
    let allowed = ["contains", "not_contains", "regex"];
    assert(names_view(allowed@) =~= seq!["contains"@, "not_contains"@, "regex"@]);
    match check_strict(v, &allowed) {
        Ok(_) => {},
        Err(e) => return Err(e),
    }
    let contains = match read_opt_string(v, "contains") {
        Ok(x) => x,
        Err(e) => return Err(e),
    };
    let not_contains = match read_opt_string(v, "not_contains") {
        Ok(x) => x,
        Err(e) => return Err(e),
    };
    let regex = match read_opt_string(v, "regex") {
        Ok(x) => x,
        Err(e) => return Err(e),
    };
    Ok(TextAssertion { contains, not_contains, regex })
}

fn read_snapshot(v: &JsonValue) -> (r: Result<SnapshotTake, String>)
    ensures
        match r {
            Ok(t) => snapshot_of(v@) == Ok::<(Seq<char>, Seq<Seq<char>>), Seq<char>>(
                (t.name@, strings_view(t.mask@)),
            ),
            Err(m) => snapshot_of(v@) == Err::<(Seq<char>, Seq<Seq<char>>), Seq<char>>(m@),
        },
{
    let allowed = ["name", "mask"];
    assert(names_view(allowed@) =~= seq!["name"@, "mask"@]);
    match check_strict(v, &allowed) {
        Ok(_) => {},
        Err(e) => return Err(e),
    }
    let name = match read_string(v, "name") {
        Ok(x) => x,
        Err(e) => return Err(e),
    };
    let mask = match read_string_list(v, "mask") {
        Ok(x) => x,
        Err(e) => return Err(e),
    };
    Ok(SnapshotTake { name, mask })
}

/// Whether a step decoding result matches its specification.
pub open spec fn step_decoded(r: Result<Step, String>, s: Result<StepView, Seq<char>>) -> bool {
    match r {
        Ok(step) => s == Ok::<StepView, Seq<char>>(step@),
        Err(m) => s == Err::<StepView, Seq<char>>(m@),
    }
}

fn step_from_entry(key: &str, value: &JsonValue) -> (r: Result<Step, String>)
    ensures
        step_decoded(r, step_entry(key@, value@)),
{
    let key_chars = chars_of(key);
    let k = key_chars.as_slice();
    if eq_lit(k, "press") || eq_lit(k, "type") {
        return match value {
            JsonValue::Str(t) => if eq_lit(k, "press") {
                Ok(Step::Press(t.clone()))
            } else {
                Ok(Step::Type(t.clone()))
            },
            _ => Err(text("invalid type: expected a string")),
        };
    }
    if eq_lit(k, "wait_for_text") {
        if let JsonValue::Str(t) = value {
            return Ok(Step::WaitForText(WaitForText { text: t.clone(), regex: false, timeout_ms: None }));
        }
        let allowed = ["text", "regex", "timeout"];
        assert(names_view(allowed@) =~= seq!["text"@, "regex"@, "timeout"@]);
        match check_strict(value, &allowed) {
            Ok(_) => {},
            Err(e) => return Err(e),
        }
        let t = match read_string(value, "text") {
            Ok(x) => x,
            Err(e) => return Err(e),
        };
        let regex = match read_flag(value, "regex") {
            Ok(x) => x,
            Err(e) => return Err(e),
        };
        let timeout_ms = match read_opt_duration(value, "timeout") {
            Ok(x) => x,
            Err(e) => return Err(e),
        };
        return Ok(Step::WaitForText(WaitForText { text: t, regex, timeout_ms }));
    }
    if eq_lit(k, "sleep") {
        return match read_duration_value(value) {
            Ok(ms) => Ok(Step::Sleep(SleepFor(ms))),
            Err(e) => Err(e),
        };
    }
    if eq_lit(k, "resize") {
        let allowed = ["width", "height"];
        assert(names_view(allowed@) =~= seq!["width"@, "height"@]);
        match check_strict(value, &allowed) {
            Ok(_) => {},
            Err(e) => return Err(e),
        }
        let width = match read_u16(value, "width") {
            Ok(x) => x,
            Err(e) => return Err(e),
        };
        let height = match read_u16(value, "height") {
            Ok(x) => x,
            Err(e) => return Err(e),
        };
        return Ok(Step::Resize(ResizeTo { width, height }));
    }
    if eq_lit(k, "assert_text") || eq_lit(k, "expect") {
        let a = match read_text_assertion(value) {
            Ok(a) => a,
            Err(e) => return Err(e),
        };
        return if eq_lit(k, "assert_text") {
            Ok(Step::AssertText(a))
        } else {
            Ok(Step::Expect(a))
        };
    }
    if eq_lit(k, "assert_region") {
        let allowed = ["x", "y", "width", "height", "contains"];
        assert(names_view(allowed@) =~= seq!["x"@, "y"@, "width"@, "height"@, "contains"@]);
        match check_strict(value, &allowed) {
            Ok(_) => {},
            Err(e) => return Err(e),
        }
        let x = match read_u16(value, "x") {
            Ok(n) => n,
            Err(e) => return Err(e),
        };
        let y = match read_u16(value, "y") {
            Ok(n) => n,
            Err(e) => return Err(e),
        };
        let width = match read_u16(value, "width") {
            Ok(n) => n,
            Err(e) => return Err(e),
        };
        let height = match read_u16(value, "height") {
            Ok(n) => n,
            Err(e) => return Err(e),
        };
        let contains = match read_string(value, "contains") {
            Ok(c) => c,
            Err(e) => return Err(e),
        };
        return Ok(Step::AssertRegion(RegionAssertion { x, y, width, height, contains }));
    }
    if eq_lit(k, "snapshot") || eq_lit(k, "screenshot") {
        let t = match read_snapshot(value) {
            Ok(t) => t,
            Err(e) => return Err(e),
        };
        return if eq_lit(k, "snapshot") {
            Ok(Step::Snapshot(t))
        } else {
            Ok(Step::Screenshot(t))
        };
    }
    if eq_lit(k, "wait_for_exit") {
        let allowed = ["timeout"];
        assert(names_view(allowed@) =~= seq!["timeout"@]);
        match check_strict(value, &allowed) {
            Ok(_) => {},
            Err(e) => return Err(e),
        }
        return match read_req_duration(value, "timeout") {
            Ok(ms) => Ok(Step::WaitForExit(WaitForExit { timeout_ms: ms })),
            Err(e) => Err(e),
        };
    }
    let mut m = text("unknown step: ");
    push_str(&mut m, key);
    Err(m)
}

impl Step {
    /// Read one step from its single-key map (`- press: ENTER`).
    pub fn from_tree(v: &JsonValue) -> (r: Result<Step, String>)
        ensures
            step_decoded(r, step_of(v@)),
    {
        match v {
            JsonValue::Object(entries) => {
                if entries.len() != 1 {
                    let mut m = text("step must have exactly one key, got ");
                    crate::text::push_dec_u64(&mut m, entries.len() as u64);
                    assert(entry_views(entries@).len() == entries@.len());
                    return Err(m);
                }
                assert(entry_views(entries@)[0] == (entries@[0].0@, entries@[0].1@));
                step_from_entry(entries[0].0.as_str(), &entries[0].1)
            },
            _ => Err(text("step must be a single-key map: invalid type: expected a map")),
        }
    }
}

impl SuiteAssertion {
    /// Read one suite assertion from its single-key map (`- exit_code: 0`).
    pub fn from_tree(v: &JsonValue) -> (r: Result<SuiteAssertion, String>)
        ensures
            match r {
                Ok(a) => suite_assertion_of(v@) == Ok::<SuiteAssertion, Seq<char>>(a),
                Err(m) => suite_assertion_of(v@) == Err::<SuiteAssertion, Seq<char>>(m@),
            },
    {
        match v {
            JsonValue::Object(entries) => {
                assert(entry_views(entries@).len() == entries@.len());
                if entries.len() != 1 {
                    return Err(text("assertion must have exactly one key"));
                }
                assert(entry_views(entries@)[0] == (entries@[0].0@, entries@[0].1@));
                let key = entries[0].0.as_str();
                let value = &entries[0].1;
                if crate::text::str_eq(key, "exit_code") || crate::text::str_eq(key, "assert_exit_code") {
                    match value {
                        JsonValue::PosInt(n) => if *n <= 2147483647 {
                            Ok(SuiteAssertion::ExitCode(*n as i32))
                        } else {
                            Err(text("invalid value: expected i32"))
                        },
                        JsonValue::NegInt(n) => if *n >= -2147483648 {
                            Ok(SuiteAssertion::ExitCode(*n as i32))
                        } else {
                            Err(text("invalid value: expected i32"))
                        },
                        _ => Err(text("invalid type: expected i32")),
                    }
                } else if crate::text::str_eq(key, "process_not_crashed") || crate::text::str_eq(
                    key,
                    "assert_process_not_crashed",
                ) {
                    match value {
                        JsonValue::Bool(b) => Ok(SuiteAssertion::ProcessNotCrashed(*b)),
                        _ => Err(text("invalid type: expected a boolean")),
                    }
                } else {
                    let mut m = text("unknown suite assertion: ");
                    push_str(&mut m, key);
                    Err(m)
                }
            },
            _ => Err(text("assertion must be a single-key map: invalid type: expected a map")),
        }
    }
}

/// The steps of a list, in order; the first refused step decides.
pub open spec fn steps_of(items: Seq<JsonView>) -> Result<Seq<StepView>, Seq<char>>
    decreases items.len(),
{
    if items.len() == 0 {
        Ok(seq![])
    } else {
        match step_of(items[0]) {
            Err(e) => Err(e),
            Ok(first) => match steps_of(items.drop_first()) {
                Err(e) => Err(e),
                Ok(rest) => Ok(seq![first] + rest),
            },
        }
    }
}

/// A list-of-steps field; absent is empty unless `required`.
pub open spec fn step_list(v: JsonView, name: Seq<char>, required: bool) -> Result<
    Seq<StepView>,
    Seq<char>,
> {
    match field(v, name) {
        None => if required {
            Err(missing_msg(name))
        } else {
            Ok(seq![])
        },
        Some(JsonView::Array(items)) => steps_of(items),
        Some(_) => Err(type_msg(name, "a sequence"@)),
    }
}

/// The suite assertions of a list, in order; the first refused one decides.
pub open spec fn assertions_of(items: Seq<JsonView>) -> Result<Seq<SuiteAssertion>, Seq<char>>
    decreases items.len(),
{
    if items.len() == 0 {
        Ok(seq![])
    } else {
        match suite_assertion_of(items[0]) {
            Err(e) => Err(e),
            Ok(first) => match assertions_of(items.drop_first()) {
                Err(e) => Err(e),
                Ok(rest) => Ok(seq![first] + rest),
            },
        }
    }
}

/// The `assertions` field (absent is empty).
pub open spec fn assertion_list(v: JsonView) -> Result<Seq<SuiteAssertion>, Seq<char>> {
    match field(v, "assertions"@) {
        None => Ok(seq![]),
        Some(JsonView::Array(items)) => assertions_of(items),
        Some(_) => Err(type_msg("assertions"@, "a sequence"@)),
    }
}

/// An application with its texts as character sequences.
pub struct ApplicationView {
    pub command: Seq<char>,
    pub args: Seq<Seq<char>>,
    pub cwd: Option<Seq<char>>,
}

/// The `application` field.
pub open spec fn application_of(v: JsonView) -> Result<ApplicationView, Seq<char>> {
    match field(v, "application"@) {
        None => Err(missing_msg("application"@)),
        Some(a) => match strict_map(a, seq!["command"@, "args"@, "cwd"@]) {
            Err(e) => Err(e),
            Ok(_) => match req_string(a, "command"@) {
                Err(e) => Err(e),
                Ok(command) => match string_list(a, "args"@) {
                    Err(e) => Err(e),
                    Ok(args) => match opt_string(a, "cwd"@) {
                        Err(e) => Err(e),
                        Ok(cwd) => Ok(ApplicationView { command, args, cwd }),
                    },
                },
            },
        },
    }
}

/// A `u16` field with a default.
pub open spec fn u16_or(v: JsonView, name: Seq<char>, default: u16) -> Result<u16, Seq<char>> {
    match field(v, name) {
        None => Ok(default),
        Some(_) => req_u16(v, name),
    }
}

/// The `terminal` field (absent is 120x40 without timeout).
pub open spec fn terminal_of(v: JsonView) -> Result<(u16, u16, Option<u128>), Seq<char>> {
    match field(v, "terminal"@) {
        None => Ok((120, 40, None)),
        Some(t) => match strict_map(t, seq!["width"@, "height"@, "timeout"@]) {
            Err(e) => Err(e),
            Ok(_) => match u16_or(t, "width"@, 120) {
                Err(e) => Err(e),
                Ok(w) => match u16_or(t, "height"@, 40) {
                    Err(e) => Err(e),
                    Ok(h) => match opt_duration(t, "timeout"@) {
                        Err(e) => Err(e),
                        Ok(d) => Ok((w, h, d)),
                    },
                },
            },
        },
    }
}

/// A test file with its texts as character sequences.
pub struct TestFileView {
    pub schema: Seq<char>,
    pub name: Seq<char>,
    pub application: ApplicationView,
    pub environment: Seq<(Seq<char>, Seq<char>)>,
    pub terminal: (u16, u16, Option<u128>),
    pub setup: Seq<StepView>,
    pub steps: Seq<StepView>,
    pub cleanup: Seq<StepView>,
    pub assertions: Seq<SuiteAssertion>,
}

/// The test file a document tree describes, or the schema message refusing
/// its shape.
pub open spec fn test_file_of(v: JsonView) -> Result<TestFileView, Seq<char>> {
    match strict_map(
        v,
        seq![
            "schema"@,
            "name"@,
            "application"@,
            "environment"@,
            "terminal"@,
            "setup"@,
            "steps"@,
            "cleanup"@,
            "assertions"@,
        ],
    ) {
        Err(e) => Err(e),
        Ok(_) => match req_string(v, "schema"@) {
            Err(e) => Err(e),
            Ok(schema) => match req_string(v, "name"@) {
                Err(e) => Err(e),
                Ok(name) => match application_of(v) {
                    Err(e) => Err(e),
                    Ok(application) => match string_map(v, "environment"@) {
                        Err(e) => Err(e),
                        Ok(environment) => match terminal_of(v) {
                            Err(e) => Err(e),
                            Ok(terminal) => match step_list(v, "setup"@, false) {
                                Err(e) => Err(e),
                                Ok(setup) => match step_list(v, "steps"@, true) {
                                    Err(e) => Err(e),
                                    Ok(steps) => match step_list(v, "cleanup"@, false) {
                                        Err(e) => Err(e),
                                        Ok(cleanup) => match assertion_list(v) {
                                            Err(e) => Err(e),
                                            Ok(assertions) => Ok(
                                                TestFileView {
                                                    schema,
                                                    name,
                                                    application,
                                                    environment,
                                                    terminal,
                                                    setup,
                                                    steps,
                                                    cleanup,
                                                    assertions,
                                                },
                                            ),
                                        },
                                    },
                                },
                            },
                        },
                    },
                },
            },
        },
    }
}

/// The views of a list of steps.
pub open spec fn steps_view(v: Seq<Step>) -> Seq<StepView> {
    Seq::new(v.len(), |i: int| v[i]@)
}

impl View for TestFile {
    type V = TestFileView;

    open spec fn view(&self) -> TestFileView {
        TestFileView {
            schema: self.schema@,
            name: self.name@,
            application: ApplicationView {
                command: self.application.command@,
                args: strings_view(self.application.args@),
                cwd: opt_string_view(self.application.cwd),
            },
            environment: pairs_view(self.environment@),
            terminal: (self.terminal.width, self.terminal.height, self.terminal.timeout_ms),
            setup: steps_view(self.setup@),
            steps: steps_view(self.steps@),
            cleanup: steps_view(self.cleanup@),
            assertions: self.assertions@,
        }
    }
}

fn read_steps(v: &JsonValue, name: &str, required: bool) -> (r: Result<Vec<Step>, String>)
    ensures
        match r {
            Ok(x) => step_list(v@, name@, required) == Ok::<Seq<StepView>, Seq<char>>(steps_view(x@)),
            Err(m) => step_list(v@, name@, required) == Err::<Seq<StepView>, Seq<char>>(m@),
        },
{
    match v.get(name) {
        None => if required {
            Err(crate::protocol::actions::missing_field(name))
        } else {
            let out: Vec<Step> = Vec::new();
            assert(steps_view(out@) =~= Seq::<StepView>::empty());
            Ok(out)
        },
        Some(JsonValue::Array(items)) => {
            let ghost views = item_views(items@);
            let mut out: Vec<Step> = Vec::new();
            let mut i: usize = 0;
            assert(views.skip(0) =~= views);
            proof {
                match steps_of(views) {
                    Ok(rest) => assert(steps_view(out@) + rest =~= rest),
                    Err(e) => {},
                }
            }
            while i < items.len()
                invariant
                    views == item_views(items@),
                    field(v@, name@) == Some(JsonView::Array(views)),
                    i <= items@.len(),
                    steps_of(views) == match steps_of(views.skip(i as int)) {
                        Ok(rest) => Ok::<Seq<StepView>, Seq<char>>(steps_view(out@) + rest),
                        Err(e) => Err(e),
                    },
                decreases items@.len() - i,
            {
                assert(views.skip(i as int).drop_first() =~= views.skip(i + 1));
                assert(views.skip(i as int)[0] == items@[i as int]@);
                match Step::from_tree(&items[i]) {
                    Ok(step) => {
                        let ghost before = out@;
                        out.push(step);
                        proof {
                            assert(steps_view(out@) =~= steps_view(before).push(step@));
                            match steps_of(views.skip(i + 1)) {
                                Ok(rest) => {
                                    assert(steps_view(out@) + rest =~= steps_view(before) + (seq![step@] + rest));
                                },
                                Err(e) => {},
                            }
                        }
                    },
                    Err(e) => return Err(e),
                }
                i = i + 1;
            }
            assert(views.skip(items@.len() as int) =~= Seq::<JsonView>::empty());
            assert(steps_view(out@) + Seq::<StepView>::empty() =~= steps_view(out@));
            Ok(out)
        },
        Some(_) => Err(wrong_type(name, "a sequence")),
    }
}

fn read_assertions(v: &JsonValue) -> (r: Result<Vec<SuiteAssertion>, String>)
    ensures
        match r {
            Ok(x) => assertion_list(v@) == Ok::<Seq<SuiteAssertion>, Seq<char>>(x@),
            Err(m) => assertion_list(v@) == Err::<Seq<SuiteAssertion>, Seq<char>>(m@),
        },
{
    match v.get("assertions") {
        None => Ok(Vec::new()),
        Some(JsonValue::Array(items)) => {
            let ghost views = item_views(items@);
            let mut out: Vec<SuiteAssertion> = Vec::new();
            let mut i: usize = 0;
            assert(views.skip(0) =~= views);
            proof {
                match assertions_of(views) {
                    Ok(rest) => assert(out@ + rest =~= rest),
                    Err(e) => {},
                }
            }
            while i < items.len()
                invariant
                    views == item_views(items@),
                    field(v@, "assertions"@) == Some(JsonView::Array(views)),
                    i <= items@.len(),
                    assertions_of(views) == match assertions_of(views.skip(i as int)) {
                        Ok(rest) => Ok::<Seq<SuiteAssertion>, Seq<char>>(out@ + rest),
                        Err(e) => Err(e),
                    },
                decreases items@.len() - i,
            {
                assert(views.skip(i as int).drop_first() =~= views.skip(i + 1));
                assert(views.skip(i as int)[0] == items@[i as int]@);
                match SuiteAssertion::from_tree(&items[i]) {
                    Ok(a) => {
                        let ghost before = out@;
                        out.push(a);
                        proof {
                            match assertions_of(views.skip(i + 1)) {
                                Ok(rest) => {
                                    assert(out@ + rest =~= before + (seq![a] + rest));
                                },
                                Err(e) => {},
                            }
                        }
                    },
                    Err(e) => return Err(e),
                }
                i = i + 1;
            }
            assert(views.skip(items@.len() as int) =~= Seq::<JsonView>::empty());
            assert(out@ + Seq::<SuiteAssertion>::empty() =~= out@);
            Ok(out)
        },
        Some(_) => Err(wrong_type("assertions", "a sequence")),
    }
}

fn read_application(v: &JsonValue) -> (r: Result<Application, String>)
    ensures
        match r {
            Ok(a) => application_of(v@) == Ok::<ApplicationView, Seq<char>>(
                ApplicationView {
                    command: a.command@,
                    args: strings_view(a.args@),
                    cwd: opt_string_view(a.cwd),
                },
            ),
            Err(m) => application_of(v@) == Err::<ApplicationView, Seq<char>>(m@),
        },
{
    let a = match v.get("application") {
        None => return Err(crate::protocol::actions::missing_field("application")),
        Some(a) => a,
    };
    let allowed = ["command", "args", "cwd"];
    assert(names_view(allowed@) =~= seq!["command"@, "args"@, "cwd"@]);
    match check_strict(a, &allowed) {
        Ok(_) => {},
        Err(e) => return Err(e),
    }
    let command = match read_string(a, "command") {
        Ok(x) => x,
        Err(e) => return Err(e),
    };
    let args = match read_string_list(a, "args") {
        Ok(x) => x,
        Err(e) => return Err(e),
    };
    let cwd = match read_opt_string(a, "cwd") {
        Ok(x) => x,
        Err(e) => return Err(e),
    };
    Ok(Application { command, args, cwd })
}

fn read_u16_or(v: &JsonValue, name: &str, default: u16) -> (r: Result<u16, String>)
    ensures
        match r {
            Ok(n) => u16_or(v@, name@, default) == Ok::<u16, Seq<char>>(n),
            Err(m) => u16_or(v@, name@, default) == Err::<u16, Seq<char>>(m@),
        },
{
    match v.get(name) {
        None => Ok(default),
        Some(_) => read_u16(v, name),
    }
}

fn read_terminal_config(v: &JsonValue) -> (r: Result<TerminalConfig, String>)
    ensures
        match r {
            Ok(t) => terminal_of(v@) == Ok::<(u16, u16, Option<u128>), Seq<char>>(
                (t.width, t.height, t.timeout_ms),
            ),
            Err(m) => terminal_of(v@) == Err::<(u16, u16, Option<u128>), Seq<char>>(m@),
        },
{
    let t = match v.get("terminal") {
        None => return Ok(TerminalConfig::default()),
        Some(t) => t,
    };
    let allowed = ["width", "height", "timeout"];
    assert(names_view(allowed@) =~= seq!["width"@, "height"@, "timeout"@]);
    match check_strict(t, &allowed) {
        Ok(_) => {},
        Err(e) => return Err(e),
    }
    let width = match read_u16_or(t, "width", 120) {
        Ok(x) => x,
        Err(e) => return Err(e),
    };
    let height = match read_u16_or(t, "height", 40) {
        Ok(x) => x,
        Err(e) => return Err(e),
    };
    let timeout_ms = match read_opt_duration(t, "timeout") {
        Ok(x) => x,
        Err(e) => return Err(e),
    };
    Ok(TerminalConfig { width, height, timeout_ms })
}

/// What reading a test file from a document tree gives: the file, a schema
/// error for a refused shape, or a version error for an unsupported schema.
pub open spec fn file_outcome(v: JsonView) -> Result<TestFileView, ProtocolErrorView> {
    match test_file_of(v) {
        Err(m) => Err(ProtocolErrorView::Schema(m)),
        Ok(f) => if f.schema == SCHEMA_ID@ {
            Ok(f)
        } else {
            Err(ProtocolErrorView::Version(f.schema))
        },
    }
}

/// A protocol error with its text as characters.
pub enum ProtocolErrorView {
    Schema(Seq<char>),
    Version(Seq<char>),
    Message(Seq<char>),
}

/// The view of a protocol error.
pub open spec fn protocol_error_view(e: ProtocolError) -> ProtocolErrorView {
    match e {
        ProtocolError::Schema(m) => ProtocolErrorView::Schema(m@),
        ProtocolError::Version(m) => ProtocolErrorView::Version(m@),
        ProtocolError::Message(m) => ProtocolErrorView::Message(m@),
    }
}

impl TestFile {
    /// Read and validate a test file from its parsed YAML tree.
    pub fn from_tree(doc: &JsonValue) -> (r: Result<TestFile, ProtocolError>)
        ensures
            match r {
                Ok(f) => file_outcome(doc@) == Ok::<TestFileView, ProtocolErrorView>(f@),
                Err(e) => file_outcome(doc@) == Err::<TestFileView, ProtocolErrorView>(
                    protocol_error_view(e),
                ),
            },
    {
        let allowed = [
            "schema",
            "name",
            "application",
            "environment",
            "terminal",
            "setup",
            "steps",
            "cleanup",
            "assertions",
        ];
        assert(names_view(allowed@) =~= seq![
            "schema"@,
            "name"@,
            "application"@,
            "environment"@,
            "terminal"@,
            "setup"@,
            "steps"@,
            "cleanup"@,
            "assertions"@,
        ]);
        let decoded = Self::decode(doc, &allowed);
        match decoded {
            Err(m) => Err(ProtocolError::Schema(m)),
            Ok(f) => if is_supported_schema(f.schema.as_str()) {
                Ok(f)
            } else {
                Err(ProtocolError::Version(f.schema))
            },
        }
    }

    fn decode(doc: &JsonValue, allowed: &[&str]) -> (r: Result<TestFile, String>)
        requires
            names_view(allowed@) == seq![
                "schema"@,
                "name"@,
                "application"@,
                "environment"@,
                "terminal"@,
                "setup"@,
                "steps"@,
                "cleanup"@,
                "assertions"@,
            ],
        ensures
            match r {
                Ok(f) => test_file_of(doc@) == Ok::<TestFileView, Seq<char>>(f@),
                Err(m) => test_file_of(doc@) == Err::<TestFileView, Seq<char>>(m@),
            },
    {
        match check_strict(doc, allowed) {
            Ok(_) => {},
            Err(e) => return Err(e),
        }
        let schema = match read_string(doc, "schema") {
            Ok(x) => x,
            Err(e) => return Err(e),
        };
        let name = match read_string(doc, "name") {
            Ok(x) => x,
            Err(e) => return Err(e),
        };
        let application = match read_application(doc) {
            Ok(x) => x,
            Err(e) => return Err(e),
        };
        let environment = match read_string_map(doc, "environment") {
            Ok(x) => x,
            Err(e) => return Err(e),
        };
        let terminal = match read_terminal_config(doc) {
            Ok(x) => x,
            Err(e) => return Err(e),
        };
        let setup = match read_steps(doc, "setup", false) {
            Ok(x) => x,
            Err(e) => return Err(e),
        };
        let steps = match read_steps(doc, "steps", true) {
            Ok(x) => x,
            Err(e) => return Err(e),
        };
        let cleanup = match read_steps(doc, "cleanup", false) {
            Ok(x) => x,
            Err(e) => return Err(e),
        };
        let assertions = match read_assertions(doc) {
            Ok(x) => x,
            Err(e) => return Err(e),
        };
        let f = TestFile {
            schema,
            name,
            application,
            environment,
            terminal,
            setup,
            steps,
            cleanup,
            assertions,
        };
        Ok(f)
    }

    /// The schema id every test file must declare.
    pub fn schema_id() -> (r: &'static str)
        ensures
            r@ == SCHEMA_ID@,
    {
        SCHEMA_ID
    }
}

/// Step keys, and payload field names, are pairwise distinct.
#[verifier::rlimit(60)]
proof fn lemma_step_names_distinct()
    ensures
        "press"@ != "type"@,
        "press"@ != "wait_for_text"@,
        "press"@ != "sleep"@,
        "press"@ != "resize"@,
        "press"@ != "assert_text"@,
        "press"@ != "expect"@,
        "press"@ != "assert_region"@,
        "press"@ != "snapshot"@,
        "press"@ != "screenshot"@,
        "press"@ != "wait_for_exit"@,
        "type"@ != "wait_for_text"@,
        "type"@ != "sleep"@,
        "type"@ != "resize"@,
        "type"@ != "assert_text"@,
        "type"@ != "expect"@,
        "type"@ != "assert_region"@,
        "type"@ != "snapshot"@,
        "type"@ != "screenshot"@,
        "type"@ != "wait_for_exit"@,
        "wait_for_text"@ != "sleep"@,
        "wait_for_text"@ != "resize"@,
        "wait_for_text"@ != "assert_text"@,
        "wait_for_text"@ != "expect"@,
        "wait_for_text"@ != "assert_region"@,
        "wait_for_text"@ != "snapshot"@,
        "wait_for_text"@ != "screenshot"@,
        "wait_for_text"@ != "wait_for_exit"@,
        "sleep"@ != "resize"@,
        "sleep"@ != "assert_text"@,
        "sleep"@ != "expect"@,
        "sleep"@ != "assert_region"@,
        "sleep"@ != "snapshot"@,
        "sleep"@ != "screenshot"@,
        "sleep"@ != "wait_for_exit"@,
        "resize"@ != "assert_text"@,
        "resize"@ != "expect"@,
        "resize"@ != "assert_region"@,
        "resize"@ != "snapshot"@,
        "resize"@ != "screenshot"@,
        "resize"@ != "wait_for_exit"@,
        "assert_text"@ != "expect"@,
        "assert_text"@ != "assert_region"@,
        "assert_text"@ != "snapshot"@,
        "assert_text"@ != "screenshot"@,
        "assert_text"@ != "wait_for_exit"@,
        "expect"@ != "assert_region"@,
        "expect"@ != "snapshot"@,
        "expect"@ != "screenshot"@,
        "expect"@ != "wait_for_exit"@,
        "assert_region"@ != "snapshot"@,
        "assert_region"@ != "screenshot"@,
        "assert_region"@ != "wait_for_exit"@,
        "snapshot"@ != "screenshot"@,
        "snapshot"@ != "wait_for_exit"@,
        "screenshot"@ != "wait_for_exit"@,
        "text"@ != "regex"@,
        "text"@ != "timeout"@,
        "text"@ != "width"@,
        "text"@ != "height"@,
        "text"@ != "contains"@,
        "text"@ != "not_contains"@,
        "text"@ != "x"@,
        "text"@ != "y"@,
        "text"@ != "name"@,
        "text"@ != "mask"@,
        "regex"@ != "timeout"@,
        "regex"@ != "width"@,
        "regex"@ != "height"@,
        "regex"@ != "contains"@,
        "regex"@ != "not_contains"@,
        "regex"@ != "x"@,
        "regex"@ != "y"@,
        "regex"@ != "name"@,
        "regex"@ != "mask"@,
        "timeout"@ != "width"@,
        "timeout"@ != "height"@,
        "timeout"@ != "contains"@,
        "timeout"@ != "not_contains"@,
        "timeout"@ != "x"@,
        "timeout"@ != "y"@,
        "timeout"@ != "name"@,
        "timeout"@ != "mask"@,
        "width"@ != "height"@,
        "width"@ != "contains"@,
        "width"@ != "not_contains"@,
        "width"@ != "x"@,
        "width"@ != "y"@,
        "width"@ != "name"@,
        "width"@ != "mask"@,
        "height"@ != "contains"@,
        "height"@ != "not_contains"@,
        "height"@ != "x"@,
        "height"@ != "y"@,
        "height"@ != "name"@,
        "height"@ != "mask"@,
        "contains"@ != "not_contains"@,
        "contains"@ != "x"@,
        "contains"@ != "y"@,
        "contains"@ != "name"@,
        "contains"@ != "mask"@,
        "not_contains"@ != "x"@,
        "not_contains"@ != "y"@,
        "not_contains"@ != "name"@,
        "not_contains"@ != "mask"@,
        "x"@ != "y"@,
        "x"@ != "name"@,
        "x"@ != "mask"@,
        "y"@ != "name"@,
        "y"@ != "mask"@,
        "name"@ != "mask"@,
{
    reveal_strlit("press");
    assert("press"@.len() == 5);
    assert("press"@[0] == 'p');
    assert("press"@[1] == 'r');
    assert("press"@[2] == 'e');
    assert("press"@[3] == 's');
    assert("press"@[4] == 's');
    reveal_strlit("type");
    assert("type"@.len() == 4);
    assert("type"@[0] == 't');
    assert("type"@[1] == 'y');
    assert("type"@[2] == 'p');
    assert("type"@[3] == 'e');
    reveal_strlit("wait_for_text");
    assert("wait_for_text"@.len() == 13);
    assert("wait_for_text"@[0] == 'w');
    assert("wait_for_text"@[1] == 'a');
    assert("wait_for_text"@[2] == 'i');
    assert("wait_for_text"@[3] == 't');
    assert("wait_for_text"@[4] == '_');
    assert("wait_for_text"@[5] == 'f');
    assert("wait_for_text"@[6] == 'o');
    assert("wait_for_text"@[7] == 'r');
    assert("wait_for_text"@[8] == '_');
    assert("wait_for_text"@[9] == 't');
    assert("wait_for_text"@[10] == 'e');
    assert("wait_for_text"@[11] == 'x');
    assert("wait_for_text"@[12] == 't');
    reveal_strlit("sleep");
    assert("sleep"@.len() == 5);
    assert("sleep"@[0] == 's');
    assert("sleep"@[1] == 'l');
    assert("sleep"@[2] == 'e');
    assert("sleep"@[3] == 'e');
    assert("sleep"@[4] == 'p');
    reveal_strlit("resize");
    assert("resize"@.len() == 6);
    assert("resize"@[0] == 'r');
    assert("resize"@[1] == 'e');
    assert("resize"@[2] == 's');
    assert("resize"@[3] == 'i');
    assert("resize"@[4] == 'z');
    assert("resize"@[5] == 'e');
    reveal_strlit("assert_text");
    assert("assert_text"@.len() == 11);
    assert("assert_text"@[0] == 'a');
    assert("assert_text"@[1] == 's');
    assert("assert_text"@[2] == 's');
    assert("assert_text"@[3] == 'e');
    assert("assert_text"@[4] == 'r');
    assert("assert_text"@[5] == 't');
    assert("assert_text"@[6] == '_');
    assert("assert_text"@[7] == 't');
    assert("assert_text"@[8] == 'e');
    assert("assert_text"@[9] == 'x');
    assert("assert_text"@[10] == 't');
    reveal_strlit("expect");
    assert("expect"@.len() == 6);
    assert("expect"@[0] == 'e');
    assert("expect"@[1] == 'x');
    assert("expect"@[2] == 'p');
    assert("expect"@[3] == 'e');
    assert("expect"@[4] == 'c');
    assert("expect"@[5] == 't');
    reveal_strlit("assert_region");
    assert("assert_region"@.len() == 13);
    assert("assert_region"@[0] == 'a');
    assert("assert_region"@[1] == 's');
    assert("assert_region"@[2] == 's');
    assert("assert_region"@[3] == 'e');
    assert("assert_region"@[4] == 'r');
    assert("assert_region"@[5] == 't');
    assert("assert_region"@[6] == '_');
    assert("assert_region"@[7] == 'r');
    assert("assert_region"@[8] == 'e');
    assert("assert_region"@[9] == 'g');
    assert("assert_region"@[10] == 'i');
    assert("assert_region"@[11] == 'o');
    assert("assert_region"@[12] == 'n');
    reveal_strlit("snapshot");
    assert("snapshot"@.len() == 8);
    assert("snapshot"@[0] == 's');
    assert("snapshot"@[1] == 'n');
    assert("snapshot"@[2] == 'a');
    assert("snapshot"@[3] == 'p');
    assert("snapshot"@[4] == 's');
    assert("snapshot"@[5] == 'h');
    assert("snapshot"@[6] == 'o');
    assert("snapshot"@[7] == 't');
    reveal_strlit("screenshot");
    assert("screenshot"@.len() == 10);
    assert("screenshot"@[0] == 's');
    assert("screenshot"@[1] == 'c');
    assert("screenshot"@[2] == 'r');
    assert("screenshot"@[3] == 'e');
    assert("screenshot"@[4] == 'e');
    assert("screenshot"@[5] == 'n');
    assert("screenshot"@[6] == 's');
    assert("screenshot"@[7] == 'h');
    assert("screenshot"@[8] == 'o');
    assert("screenshot"@[9] == 't');
    reveal_strlit("wait_for_exit");
    assert("wait_for_exit"@.len() == 13);
    assert("wait_for_exit"@[0] == 'w');
    assert("wait_for_exit"@[1] == 'a');
    assert("wait_for_exit"@[2] == 'i');
    assert("wait_for_exit"@[3] == 't');
    assert("wait_for_exit"@[4] == '_');
    assert("wait_for_exit"@[5] == 'f');
    assert("wait_for_exit"@[6] == 'o');
    assert("wait_for_exit"@[7] == 'r');
    assert("wait_for_exit"@[8] == '_');
    assert("wait_for_exit"@[9] == 'e');
    assert("wait_for_exit"@[10] == 'x');
    assert("wait_for_exit"@[11] == 'i');
    assert("wait_for_exit"@[12] == 't');
    reveal_strlit("text");
    assert("text"@.len() == 4);
    assert("text"@[0] == 't');
    assert("text"@[1] == 'e');
    assert("text"@[2] == 'x');
    assert("text"@[3] == 't');
    reveal_strlit("regex");
    assert("regex"@.len() == 5);
    assert("regex"@[0] == 'r');
    assert("regex"@[1] == 'e');
    assert("regex"@[2] == 'g');
    assert("regex"@[3] == 'e');
    assert("regex"@[4] == 'x');
    reveal_strlit("timeout");
    assert("timeout"@.len() == 7);
    assert("timeout"@[0] == 't');
    assert("timeout"@[1] == 'i');
    assert("timeout"@[2] == 'm');
    assert("timeout"@[3] == 'e');
    assert("timeout"@[4] == 'o');
    assert("timeout"@[5] == 'u');
    assert("timeout"@[6] == 't');
    reveal_strlit("width");
    assert("width"@.len() == 5);
    assert("width"@[0] == 'w');
    assert("width"@[1] == 'i');
    assert("width"@[2] == 'd');
    assert("width"@[3] == 't');
    assert("width"@[4] == 'h');
    reveal_strlit("height");
    assert("height"@.len() == 6);
    assert("height"@[0] == 'h');
    assert("height"@[1] == 'e');
    assert("height"@[2] == 'i');
    assert("height"@[3] == 'g');
    assert("height"@[4] == 'h');
    assert("height"@[5] == 't');
    reveal_strlit("contains");
    assert("contains"@.len() == 8);
    assert("contains"@[0] == 'c');
    assert("contains"@[1] == 'o');
    assert("contains"@[2] == 'n');
    assert("contains"@[3] == 't');
    assert("contains"@[4] == 'a');
    assert("contains"@[5] == 'i');
    assert("contains"@[6] == 'n');
    assert("contains"@[7] == 's');
    reveal_strlit("not_contains");
    assert("not_contains"@.len() == 12);
    assert("not_contains"@[0] == 'n');
    assert("not_contains"@[1] == 'o');
    assert("not_contains"@[2] == 't');
    assert("not_contains"@[3] == '_');
    assert("not_contains"@[4] == 'c');
    assert("not_contains"@[5] == 'o');
    assert("not_contains"@[6] == 'n');
    assert("not_contains"@[7] == 't');
    assert("not_contains"@[8] == 'a');
    assert("not_contains"@[9] == 'i');
    assert("not_contains"@[10] == 'n');
    assert("not_contains"@[11] == 's');
    reveal_strlit("x");
    assert("x"@.len() == 1);
    assert("x"@[0] == 'x');
    reveal_strlit("y");
    assert("y"@.len() == 1);
    assert("y"@[0] == 'y');
    reveal_strlit("name");
    assert("name"@.len() == 4);
    assert("name"@[0] == 'n');
    assert("name"@[1] == 'a');
    assert("name"@[2] == 'm');
    assert("name"@[3] == 'e');
    reveal_strlit("mask");
    assert("mask"@.len() == 4);
    assert("mask"@[0] == 'm');
    assert("mask"@[1] == 'a');
    assert("mask"@[2] == 's');
    assert("mask"@[3] == 'k');

}

/// How a duration is written back: whole milliseconds, `<n>ms`.
pub open spec fn duration_text(ms: u128) -> Seq<char> {
    crate::text::dec_chars(ms as nat) + "ms"@
}

/// JSON form of an optional duration (`null` when absent).
pub open spec fn opt_duration_json(d: Option<u128>) -> JsonView {
    match d {
        Some(ms) => JsonView::Str(duration_text(ms)),
        None => JsonView::Null,
    }
}

/// The payload map of a text assertion.
pub open spec fn text_assertion_tree(a: TextAssertionView) -> JsonView {
    JsonView::Object(
        seq![
            ("contains"@, opt_str_json(a.contains)),
            ("not_contains"@, opt_str_json(a.not_contains)),
            ("regex"@, opt_str_json(a.regex)),
        ],
    )
}

/// The payload map of a snapshot.
pub open spec fn snapshot_tree(name: Seq<char>, mask: Seq<Seq<char>>) -> JsonView {
    JsonView::Object(
        seq![
            ("name"@, JsonView::Str(name)),
            ("mask"@, JsonView::Array(Seq::new(mask.len(), |i: int| JsonView::Str(mask[i])))),
        ],
    )
}

/// The single-key map a step is written as; aliases are written under
/// their canonical keys.
pub open spec fn step_tree(s: StepView) -> JsonView {
    match s {
        StepView::Press(k) => JsonView::Object(seq![("press"@, JsonView::Str(k))]),
        StepView::Type(t) => JsonView::Object(seq![("type"@, JsonView::Str(t))]),
        StepView::WaitForText { text, regex, timeout_ms } => JsonView::Object(
            seq![
                (
                    "wait_for_text"@,
                    JsonView::Object(
                        seq![
                            ("text"@, JsonView::Str(text)),
                            ("regex"@, JsonView::Bool(regex)),
                            ("timeout"@, opt_duration_json(timeout_ms)),
                        ],
                    ),
                ),
            ],
        ),
        StepView::Sleep(ms) => JsonView::Object(seq![("sleep"@, JsonView::Str(duration_text(ms)))]),
        StepView::Resize { width, height } => JsonView::Object(
            seq![
                (
                    "resize"@,
                    JsonView::Object(
                        seq![
                            ("width"@, JsonView::PosInt(width as u64)),
                            ("height"@, JsonView::PosInt(height as u64)),
                        ],
                    ),
                ),
            ],
        ),
        StepView::AssertText(a) => JsonView::Object(seq![("assert_text"@, text_assertion_tree(a))]),
        StepView::Expect(a) => JsonView::Object(seq![("assert_text"@, text_assertion_tree(a))]),
        StepView::AssertRegion { x, y, width, height, contains } => JsonView::Object(
            seq![
                (
                    "assert_region"@,
                    JsonView::Object(
                        seq![
                            ("x"@, JsonView::PosInt(x as u64)),
                            ("y"@, JsonView::PosInt(y as u64)),
                            ("width"@, JsonView::PosInt(width as u64)),
                            ("height"@, JsonView::PosInt(height as u64)),
                            ("contains"@, JsonView::Str(contains)),
                        ],
                    ),
                ),
            ],
        ),
        StepView::Snapshot { name, mask } => JsonView::Object(seq![("snapshot"@, snapshot_tree(name, mask))]),
        StepView::Screenshot { name, mask } => JsonView::Object(seq![("snapshot"@, snapshot_tree(name, mask))]),
        StepView::WaitForExit(ms) => JsonView::Object(
            seq![("wait_for_exit"@, JsonView::Object(seq![("timeout"@, JsonView::Str(duration_text(ms)))]))],
        ),
    }
}

/// A step with its legacy alias replaced by the canonical form.
pub open spec fn canonical_step(s: StepView) -> StepView {
    match s {
        StepView::Expect(a) => StepView::AssertText(a),
        StepView::Screenshot { name, mask } => StepView::Snapshot { name, mask },
        _ => s,
    }
}

/// Whether every duration of the step can be written back and read again
/// (whole milliseconds within the `u64` range).
pub open spec fn durations_fit(s: StepView) -> bool {
    match s {
        StepView::WaitForText { timeout_ms, .. } => match timeout_ms {
            Some(ms) => ms <= u64::MAX,
            None => true,
        },
        StepView::Sleep(ms) => ms <= u64::MAX,
        StepView::WaitForExit(ms) => ms <= u64::MAX,
        _ => true,
    }
}

/// Decimal renderings are ASCII digits and read back as their value.
pub proof fn lemma_dec_chars_read_back(n: nat)
    ensures
        crate::text::dec_chars(n).len() >= 1,
        forall|i: int| 0 <= i < crate::text::dec_chars(n).len() ==> is_digit(#[trigger] crate::text::dec_chars(n)[i]),
        digits_value(crate::text::dec_chars(n)) == n,
    decreases n,
{
    let d = crate::text::dec_chars(n);
    let c = ((48 + n % 10) as u8) as char;
    assert((c as u32) == 48 + n % 10);
    assert(d.last() == c);
    assert(((d.last() as u32) - 48) as nat == n % 10);
    if n < 10 {
        assert(d.drop_last() =~= Seq::<char>::empty());
        assert(digits_value(d.drop_last()) == 0);
    } else {
        lemma_dec_chars_read_back(n / 10);
        assert(d.drop_last() =~= crate::text::dec_chars(n / 10));
        assert((n / 10) * 10 + n % 10 == n);
    }
}

/// A written-back duration reads back as the same number of milliseconds.
proof fn lemma_duration_text_reads_back(ms: u128)
    requires
        ms <= u64::MAX,
    ensures
        duration_of(duration_text(ms)) == Ok::<u128, Seq<char>>(ms),
{
    reveal_strlit("ms");
    let d = crate::text::dec_chars(ms as nat);
    let t = duration_text(ms);
    lemma_dec_chars_read_back(ms as nat);
    assert(t =~= d + seq!['m', 's']);
    assert forall|k: int| 0 <= k < d.len() implies !is_alpha(t[k]) by {
        assert(t[k] == d[k]);
        assert(is_digit(d[k]));
    }
    assert(t[d.len() as int] == 'm');
    lemma_first_alpha_prefix(t, d.len() as int);
    assert(t.take(d.len() as int) =~= d);
    assert(t.skip(d.len() as int) =~= "ms"@);
    assert(is_digit(d[0]));
    assert(is_digit(d.last()));
    assert(crate::text::trim_start(d) == d);
    assert(crate::text::trim_end(d) == d);
    assert(crate::text::trim_start("ms"@) == "ms"@);
    assert(crate::text::trim_end("ms"@) == "ms"@);
    assert(unsigned_digits(d) == d);
}

/// Reading back what a step is written as gives the same step, in its
/// canonical form (`expect` reads back as `assert_text`, `screenshot` as
/// `snapshot`), provided its durations fit whole `u64` milliseconds.
pub proof fn lemma_step_tree_roundtrip(s: StepView)
    requires
        durations_fit(s),
    ensures
        step_of(step_tree(s)) == Ok::<StepView, Seq<char>>(canonical_step(s)),
{
    lemma_step_names_distinct();
    reveal_with_fuel(crate::json::lookup, 6);
    reveal_with_fuel(first_unknown, 6);
    match s {
        StepView::WaitForText { text, regex, timeout_ms } => {
            let allowed = seq!["text"@, "regex"@, "timeout"@];
            assert(allowed[0] == "text"@ && allowed[1] == "regex"@ && allowed[2] == "timeout"@);
            match timeout_ms {
                Some(ms) => lemma_duration_text_reads_back(ms),
                None => {},
            }
        },
        StepView::Sleep(ms) => lemma_duration_text_reads_back(ms),
        StepView::Resize { .. } => {
            let allowed = seq!["width"@, "height"@];
            assert(allowed[0] == "width"@ && allowed[1] == "height"@);
        },
        StepView::AssertText(a) => {
            let allowed = seq!["contains"@, "not_contains"@, "regex"@];
            assert(allowed[0] == "contains"@ && allowed[1] == "not_contains"@ && allowed[2] == "regex"@);
        },
        StepView::Expect(a) => {
            let allowed = seq!["contains"@, "not_contains"@, "regex"@];
            assert(allowed[0] == "contains"@ && allowed[1] == "not_contains"@ && allowed[2] == "regex"@);
        },
        StepView::AssertRegion { .. } => {
            let allowed = seq!["x"@, "y"@, "width"@, "height"@, "contains"@];
            assert(allowed[0] == "x"@ && allowed[1] == "y"@ && allowed[2] == "width"@ && allowed[3] == "height"@ && allowed[4] == "contains"@);
        },
        StepView::Snapshot { name, mask } => {
            let allowed = seq!["name"@, "mask"@];
            assert(allowed[0] == "name"@ && allowed[1] == "mask"@);
            let items = Seq::new(mask.len(), |i: int| JsonView::Str(mask[i]));
            assert(crate::protocol::actions::all_strings(items));
            assert(Seq::new(items.len(), |i: int| items[i]->Str_0) =~= mask);
        },
        StepView::Screenshot { name, mask } => {
            let allowed = seq!["name"@, "mask"@];
            assert(allowed[0] == "name"@ && allowed[1] == "mask"@);
            let items = Seq::new(mask.len(), |i: int| JsonView::Str(mask[i]));
            assert(crate::protocol::actions::all_strings(items));
            assert(Seq::new(items.len(), |i: int| items[i]->Str_0) =~= mask);
        },
        StepView::WaitForExit(ms) => {
            let allowed = seq!["timeout"@];
            assert(allowed[0] == "timeout"@);
            lemma_duration_text_reads_back(ms);
        },
        _ => {},
    }
}

/// The keys of a test file, of its application and of its terminal, told
/// apart by their lengths and, where those agree, by one character.
proof fn lemma_file_keys_distinct()
    ensures
        "schema"@.len() == 6,
        "name"@.len() == 4,
        "application"@.len() == 11,
        "environment"@.len() == 11,
        "application"@[0] == 'a' && "environment"@[0] == 'e',
        "terminal"@.len() == 8,
        "setup"@.len() == 5,
        "steps"@.len() == 5,
        "setup"@[1] == 'e' && "steps"@[1] == 't',
        "cleanup"@.len() == 7,
        "assertions"@.len() == 10,
        "command"@.len() == 7,
        "args"@.len() == 4,
        "cwd"@.len() == 3,
        "width"@.len() == 5,
        "height"@.len() == 6,
        "timeout"@.len() == 7,
{
    reveal_strlit("schema");
    reveal_strlit("name");
    reveal_strlit("application");
    reveal_strlit("environment");
    reveal_strlit("terminal");
    reveal_strlit("setup");
    reveal_strlit("steps");
    reveal_strlit("cleanup");
    reveal_strlit("assertions");
    reveal_strlit("command");
    reveal_strlit("args");
    reveal_strlit("cwd");
    reveal_strlit("width");
    reveal_strlit("height");
    reveal_strlit("timeout");
}

/// A test file with every step in its canonical form.
pub open spec fn canonical_file(f: TestFileView) -> TestFileView {
    TestFileView {
        setup: Seq::new(f.setup.len(), |i: int| canonical_step(f.setup[i])),
        steps: Seq::new(f.steps.len(), |i: int| canonical_step(f.steps[i])),
        cleanup: Seq::new(f.cleanup.len(), |i: int| canonical_step(f.cleanup[i])),
        ..f
    }
}

/// Whether every duration of the file can be written back and read again.
pub open spec fn file_durations_fit(f: TestFileView) -> bool {
    &&& forall|i: int| 0 <= i < f.setup.len() ==> durations_fit(#[trigger] f.setup[i])
    &&& forall|i: int| 0 <= i < f.steps.len() ==> durations_fit(#[trigger] f.steps[i])
    &&& forall|i: int| 0 <= i < f.cleanup.len() ==> durations_fit(#[trigger] f.cleanup[i])
    &&& match f.terminal.2 {
        Some(ms) => ms <= u64::MAX,
        None => true,
    }
}

proof fn lemma_steps_roundtrip(s: Seq<StepView>)
    requires
        forall|i: int| 0 <= i < s.len() ==> durations_fit(#[trigger] s[i]),
    ensures
        steps_of(Seq::new(s.len(), |i: int| step_tree(s[i]))) == Ok::<Seq<StepView>, Seq<char>>(
            Seq::new(s.len(), |i: int| canonical_step(s[i])),
        ),
    decreases s.len(),
{
    let items = Seq::new(s.len(), |i: int| step_tree(s[i]));
    if s.len() > 0 {
        let rest = s.drop_first();
        assert(durations_fit(s[0]));
        lemma_step_tree_roundtrip(s[0]);
        assert forall|i: int| 0 <= i < rest.len() implies durations_fit(#[trigger] rest[i]) by {
            assert(rest[i] == s[i + 1]);
            assert(durations_fit(s[i + 1]));
        }
        lemma_steps_roundtrip(rest);
        assert(items.drop_first() =~= Seq::new(rest.len(), |i: int| step_tree(rest[i])));
        assert(items[0] == step_tree(s[0]));
        assert(seq![canonical_step(s[0])] + Seq::new(rest.len(), |i: int| canonical_step(rest[i]))
            =~= Seq::new(s.len(), |i: int| canonical_step(s[i])));
    } else {
        assert(Seq::new(s.len(), |i: int| canonical_step(s[i])) =~= seq![]);
    }
}

/// Reading back what a suite assertion is written as gives it unchanged.
pub proof fn lemma_suite_assertion_roundtrip(a: SuiteAssertion)
    ensures
        suite_assertion_of(suite_assertion_tree(a)) == Ok::<SuiteAssertion, Seq<char>>(a),
{
    match a {
        SuiteAssertion::ExitCode(code) => {
            if code >= 0 {
                assert((code as u64) as i32 == code);
            } else {
                assert((code as i64) as i32 == code);
            }
        },
        SuiteAssertion::ProcessNotCrashed(b) => {
            reveal_strlit("exit_code");
            reveal_strlit("assert_exit_code");
            reveal_strlit("process_not_crashed");
            assert("process_not_crashed"@.len() == 19);
            assert("exit_code"@.len() == 9);
            assert("assert_exit_code"@.len() == 16);
        },
    }
}

proof fn lemma_assertions_roundtrip(a: Seq<SuiteAssertion>)
    ensures
        assertions_of(Seq::new(a.len(), |i: int| suite_assertion_tree(a[i])))
            == Ok::<Seq<SuiteAssertion>, Seq<char>>(a),
    decreases a.len(),
{
    let items = Seq::new(a.len(), |i: int| suite_assertion_tree(a[i]));
    if a.len() > 0 {
        let rest = a.drop_first();
        lemma_suite_assertion_roundtrip(a[0]);
        lemma_assertions_roundtrip(rest);
        assert(items.drop_first() =~= Seq::new(rest.len(), |i: int| suite_assertion_tree(rest[i])));
        assert(seq![a[0]] + rest =~= a);
    } else {
        assert(a =~= seq![]);
    }
}

proof fn lemma_application_roundtrip(app: ApplicationView)
    ensures
        ({
            let tree = JsonView::Object(
                seq![
                    ("command"@, JsonView::Str(app.command)),
                    ("args"@, JsonView::Array(Seq::new(app.args.len(), |i: int| JsonView::Str(app.args[i])))),
                    ("cwd"@, opt_str_json(app.cwd)),
                ],
            );
            application_of(JsonView::Object(seq![("application"@, tree)])) == Ok::<
                ApplicationView,
                Seq<char>,
            >(app)
        }),
{
    lemma_file_keys_distinct();
    reveal_with_fuel(crate::json::lookup, 4);
    reveal_with_fuel(first_unknown, 4);
    let allowed = seq!["command"@, "args"@, "cwd"@];
    assert(allowed[0] == "command"@ && allowed[1] == "args"@ && allowed[2] == "cwd"@);
    let items = Seq::new(app.args.len(), |i: int| JsonView::Str(app.args[i]));
    assert(crate::protocol::actions::all_strings(items));
    assert(Seq::new(items.len(), |i: int| items[i]->Str_0) =~= app.args);
}

proof fn lemma_terminal_roundtrip(t: (u16, u16, Option<u128>))
    requires
        match t.2 {
            Some(ms) => ms <= u64::MAX,
            None => true,
        },
    ensures
        ({
            let tree = JsonView::Object(
                seq![
                    ("width"@, JsonView::PosInt(t.0 as u64)),
                    ("height"@, JsonView::PosInt(t.1 as u64)),
                    ("timeout"@, opt_duration_json(t.2)),
                ],
            );
            terminal_of(JsonView::Object(seq![("terminal"@, tree)])) == Ok::<
                (u16, u16, Option<u128>),
                Seq<char>,
            >(t)
        }),
{
    lemma_file_keys_distinct();
    reveal_with_fuel(crate::json::lookup, 4);
    reveal_with_fuel(first_unknown, 4);
    let allowed = seq!["width"@, "height"@, "timeout"@];
    assert(allowed[0] == "width"@ && allowed[1] == "height"@ && allowed[2] == "timeout"@);
    match t.2 {
        Some(ms) => lemma_duration_text_reads_back(ms),
        None => {},
    }
}

/// Reading back what a test file is written as gives the same file, with
/// its steps in canonical form, provided every duration fits whole `u64`
/// milliseconds.
pub proof fn lemma_test_file_roundtrip(f: TestFileView)
    requires
        file_durations_fit(f),
    ensures
        test_file_of(test_file_tree(f)) == Ok::<TestFileView, Seq<char>>(canonical_file(f)),
{
    lemma_file_keys_distinct();
    reveal_with_fuel(crate::json::lookup, 10);
    reveal_with_fuel(first_unknown, 10);
    let v = test_file_tree(f);
    let es = v->Object_0;
    let allowed = seq![
        "schema"@,
        "name"@,
        "application"@,
        "environment"@,
        "terminal"@,
        "setup"@,
        "steps"@,
        "cleanup"@,
        "assertions"@,
    ];
    assert(allowed[0] == "schema"@ && allowed[1] == "name"@ && allowed[2] == "application"@
        && allowed[3] == "environment"@ && allowed[4] == "terminal"@ && allowed[5] == "setup"@
        && allowed[6] == "steps"@ && allowed[7] == "cleanup"@ && allowed[8] == "assertions"@);
    assert(strict_map(v, allowed) == Ok::<(), Seq<char>>(()));
    assert(req_string(v, "schema"@) == Ok::<Seq<char>, Seq<char>>(f.schema));
    assert(req_string(v, "name"@) == Ok::<Seq<char>, Seq<char>>(f.name));
    lemma_application_roundtrip(f.application);
    assert(field(v, "application"@) == Some(es[2].1));
    assert(application_of(v) == Ok::<ApplicationView, Seq<char>>(f.application));
    assert(string_map(v, "environment"@) == Ok::<Seq<(Seq<char>, Seq<char>)>, Seq<char>>(
        f.environment,
    )) by {
        let e = Seq::new(f.environment.len(), |i: int| (f.environment[i].0, JsonView::Str(f.environment[i].1)));
        assert(field(v, "environment"@) == Some(JsonView::Object(e)));
        assert(crate::protocol::actions::all_string_values(e));
        assert(Seq::new(e.len(), |i: int| (e[i].0, e[i].1->Str_0)) =~= f.environment);
    }
    lemma_terminal_roundtrip(f.terminal);
    assert(field(v, "terminal"@) == Some(es[4].1));
    assert(terminal_of(v) == Ok::<(u16, u16, Option<u128>), Seq<char>>(f.terminal));
    lemma_steps_roundtrip(f.setup);
    lemma_steps_roundtrip(f.steps);
    lemma_steps_roundtrip(f.cleanup);
    lemma_assertions_roundtrip(f.assertions);
    assert(step_list(v, "setup"@, false) == Ok::<Seq<StepView>, Seq<char>>(canonical_file(f).setup));
    assert(step_list(v, "steps"@, true) == Ok::<Seq<StepView>, Seq<char>>(canonical_file(f).steps));
    assert(step_list(v, "cleanup"@, false) == Ok::<Seq<StepView>, Seq<char>>(canonical_file(f).cleanup));
    assert(assertion_list(v) == Ok::<Seq<SuiteAssertion>, Seq<char>>(f.assertions));
}

fn duration_json(ms: u128) -> (r: JsonValue)
    ensures
        r@ == JsonView::Str(duration_text(ms)),
{
    let mut t = String::new();
    crate::text::push_dec_u128(&mut t, ms);
    push_str(&mut t, "ms");
    JsonValue::Str(t)
}

fn single(key: &str, value: JsonValue) -> (r: JsonValue)
    ensures
        r@ == JsonView::Object(seq![(key@, value@)]),
{
    let mut es: Vec<(String, JsonValue)> = Vec::new();
    es.push(entry(key, value));
    let r = JsonValue::Object(es);
    assert(entry_views(es@) =~= seq![(key@, es@[0].1@)]);
    r
}

fn text_assertion_json(a: &TextAssertion) -> (r: JsonValue)
    ensures
        r@ == text_assertion_tree(a@),
{
    let mut es: Vec<(String, JsonValue)> = Vec::new();
    es.push(entry("contains", opt_str_json_exec(&a.contains)));
    es.push(entry("not_contains", opt_str_json_exec(&a.not_contains)));
    es.push(entry("regex", opt_str_json_exec(&a.regex)));
    let r = JsonValue::Object(es);
    assert(entry_views(es@) =~= text_assertion_tree(a@)->Object_0);
    r
}

fn snapshot_json(t: &SnapshotTake) -> (r: JsonValue)
    ensures
        r@ == snapshot_tree(t.name@, strings_view(t.mask@)),
{
    let mut es: Vec<(String, JsonValue)> = Vec::new();
    es.push(entry("name", str_json(&t.name)));
    es.push(entry("mask", strings_json(&t.mask)));
    let r = JsonValue::Object(es);
    assert(Seq::new(t.mask@.len(), |i: int| JsonView::Str(t.mask@[i]@)) =~= Seq::new(
        strings_view(t.mask@).len(),
        |i: int| JsonView::Str(strings_view(t.mask@)[i]),
    ));
    assert(entry_views(es@) =~= snapshot_tree(t.name@, strings_view(t.mask@))->Object_0);
    r
}

impl Step {
    /// The single-key map this step is written as (aliases under their
    /// canonical keys).
    pub fn to_tree(&self) -> (r: JsonValue)
        ensures
            r@ == step_tree(self@),
    {
        match self {
            Step::Press(k) => single("press", str_json(k)),
            Step::Type(t) => single("type", str_json(t)),
            Step::WaitForText(w) => {
                let mut es: Vec<(String, JsonValue)> = Vec::new();
                es.push(entry("text", str_json(&w.text)));
                es.push(entry("regex", JsonValue::Bool(w.regex)));
                let timeout = match w.timeout_ms {
                    Some(ms) => duration_json(ms),
                    None => JsonValue::Null,
                };
                es.push(entry("timeout", timeout));
                let payload = JsonValue::Object(es);
                assert(entry_views(es@) =~= seq![
                    ("text"@, JsonView::Str(w.text@)),
                    ("regex"@, JsonView::Bool(w.regex)),
                    ("timeout"@, opt_duration_json(w.timeout_ms)),
                ]);
                single("wait_for_text", payload)
            },
            Step::Sleep(d) => single("sleep", duration_json(d.0)),
            Step::Resize(r) => {
                let mut es: Vec<(String, JsonValue)> = Vec::new();
                es.push(entry("width", JsonValue::PosInt(r.width as u64)));
                es.push(entry("height", JsonValue::PosInt(r.height as u64)));
                let payload = JsonValue::Object(es);
                assert(entry_views(es@) =~= seq![
                    ("width"@, JsonView::PosInt(r.width as u64)),
                    ("height"@, JsonView::PosInt(r.height as u64)),
                ]);
                single("resize", payload)
            },
            Step::AssertText(a) => single("assert_text", text_assertion_json(a)),
            Step::Expect(a) => single("assert_text", text_assertion_json(a)),
            Step::AssertRegion(g) => {
                let mut es: Vec<(String, JsonValue)> = Vec::new();
                es.push(entry("x", JsonValue::PosInt(g.x as u64)));
                es.push(entry("y", JsonValue::PosInt(g.y as u64)));
                es.push(entry("width", JsonValue::PosInt(g.width as u64)));
                es.push(entry("height", JsonValue::PosInt(g.height as u64)));
                es.push(entry("contains", str_json(&g.contains)));
                let payload = JsonValue::Object(es);
                assert(entry_views(es@) =~= seq![
                    ("x"@, JsonView::PosInt(g.x as u64)),
                    ("y"@, JsonView::PosInt(g.y as u64)),
                    ("width"@, JsonView::PosInt(g.width as u64)),
                    ("height"@, JsonView::PosInt(g.height as u64)),
                    ("contains"@, JsonView::Str(g.contains@)),
                ]);
                single("assert_region", payload)
            },
            Step::Snapshot(t) => single("snapshot", snapshot_json(t)),
            Step::Screenshot(t) => single("snapshot", snapshot_json(t)),
            Step::WaitForExit(w) => {
                let payload = single("timeout", duration_json(w.timeout_ms));
                single("wait_for_exit", payload)
            },
        }
    }
}

/// The single-key map a suite assertion is written as.
pub open spec fn suite_assertion_tree(a: SuiteAssertion) -> JsonView {
    match a {
        SuiteAssertion::ExitCode(code) => if code >= 0 {
            JsonView::Object(seq![("exit_code"@, JsonView::PosInt(code as u64))])
        } else {
            JsonView::Object(seq![("exit_code"@, JsonView::NegInt(code as i64))])
        },
        SuiteAssertion::ProcessNotCrashed(b) => JsonView::Object(
            seq![("process_not_crashed"@, JsonView::Bool(b))],
        ),
    }
}

impl SuiteAssertion {
    /// The single-key map this assertion is written as.
    pub fn to_tree(&self) -> (r: JsonValue)
        ensures
            r@ == suite_assertion_tree(*self),
    {
        match self {
            SuiteAssertion::ExitCode(code) => if *code >= 0 {
                single("exit_code", JsonValue::PosInt(*code as u64))
            } else {
                single("exit_code", JsonValue::NegInt(*code as i64))
            },
            SuiteAssertion::ProcessNotCrashed(b) => single(
                "process_not_crashed",
                JsonValue::Bool(*b),
            ),
        }
    }
}

fn steps_tree(steps: &Vec<Step>) -> (r: JsonValue)
    ensures
        r@ == JsonView::Array(Seq::new(steps@.len(), |i: int| step_tree(steps@[i]@))),
{
    let mut items: Vec<JsonValue> = Vec::new();
    let mut i: usize = 0;
    while i < steps.len()
        invariant
            i <= steps@.len(),
            items@.len() == i,
            forall|j: int| 0 <= j < i ==> #[trigger] items@[j]@ == step_tree(steps@[j]@),
        decreases steps@.len() - i,
    {
        items.push(steps[i].to_tree());
        i = i + 1;
    }
    assert forall|j: int| 0 <= j < items@.len() implies item_views(items@)[j] == step_tree(steps@[j]@) by {
        assert(items@[j]@ == step_tree(steps@[j]@));
    }
    assert(item_views(items@) =~= Seq::new(steps@.len(), |j: int| step_tree(steps@[j]@)));
    JsonValue::Array(items)
}

fn assertions_tree(list: &Vec<SuiteAssertion>) -> (r: JsonValue)
    ensures
        r@ == JsonView::Array(Seq::new(list@.len(), |i: int| suite_assertion_tree(list@[i]))),
{
    let mut items: Vec<JsonValue> = Vec::new();
    let mut i: usize = 0;
    while i < list.len()
        invariant
            i <= list@.len(),
            items@.len() == i,
            forall|j: int| 0 <= j < i ==> #[trigger] items@[j]@ == suite_assertion_tree(list@[j]),
        decreases list@.len() - i,
    {
        items.push(list[i].to_tree());
        i = i + 1;
    }
    assert forall|j: int| 0 <= j < items@.len() implies item_views(items@)[j] == suite_assertion_tree(list@[j]) by {
        assert(items@[j]@ == suite_assertion_tree(list@[j]));
    }
    assert(item_views(items@) =~= Seq::new(list@.len(), |j: int| suite_assertion_tree(list@[j])));
    JsonValue::Array(items)
}

/// The document tree a test file is written as, keys in declaration order.
pub open spec fn test_file_tree(f: TestFileView) -> JsonView {
    JsonView::Object(
        seq![
            ("schema"@, JsonView::Str(f.schema)),
            ("name"@, JsonView::Str(f.name)),
            (
                "application"@,
                JsonView::Object(
                    seq![
                        ("command"@, JsonView::Str(f.application.command)),
                        ("args"@, JsonView::Array(Seq::new(f.application.args.len(), |i: int| JsonView::Str(f.application.args[i])))),
                        ("cwd"@, opt_str_json(f.application.cwd)),
                    ],
                ),
            ),
            ("environment"@, JsonView::Object(Seq::new(f.environment.len(), |i: int| (f.environment[i].0, JsonView::Str(f.environment[i].1))))),
            (
                "terminal"@,
                JsonView::Object(
                    seq![
                        ("width"@, JsonView::PosInt(f.terminal.0 as u64)),
                        ("height"@, JsonView::PosInt(f.terminal.1 as u64)),
                        ("timeout"@, opt_duration_json(f.terminal.2)),
                    ],
                ),
            ),
            ("setup"@, JsonView::Array(Seq::new(f.setup.len(), |i: int| step_tree(f.setup[i])))),
            ("steps"@, JsonView::Array(Seq::new(f.steps.len(), |i: int| step_tree(f.steps[i])))),
            ("cleanup"@, JsonView::Array(Seq::new(f.cleanup.len(), |i: int| step_tree(f.cleanup[i])))),
            ("assertions"@, JsonView::Array(Seq::new(f.assertions.len(), |i: int| suite_assertion_tree(f.assertions[i])))),
        ],
    )
}

impl TestFile {
    /// The document tree this file is written as (the YAML shape it is read
    /// from).
    pub fn to_tree(&self) -> (r: JsonValue)
        ensures
            r@ == test_file_tree(self@),
    {
        let mut app: Vec<(String, JsonValue)> = Vec::new();
        app.push(entry("command", str_json(&self.application.command)));
        app.push(entry("args", strings_json(&self.application.args)));
        app.push(entry("cwd", opt_str_json_exec(&self.application.cwd)));
        let mut term: Vec<(String, JsonValue)> = Vec::new();
        term.push(entry("width", JsonValue::PosInt(self.terminal.width as u64)));
        term.push(entry("height", JsonValue::PosInt(self.terminal.height as u64)));
        let timeout = match self.terminal.timeout_ms {
            Some(ms) => duration_json(ms),
            None => JsonValue::Null,
        };
        term.push(entry("timeout", timeout));
        let mut es: Vec<(String, JsonValue)> = Vec::new();
        es.push(entry("schema", str_json(&self.schema)));
        es.push(entry("name", str_json(&self.name)));
        es.push(entry("application", JsonValue::Object(app)));
        es.push(entry("environment", pairs_json(&self.environment)));
        es.push(entry("terminal", JsonValue::Object(term)));
        es.push(entry("setup", steps_tree(&self.setup)));
        es.push(entry("steps", steps_tree(&self.steps)));
        es.push(entry("cleanup", steps_tree(&self.cleanup)));
        es.push(entry("assertions", assertions_tree(&self.assertions)));
        let ghost f = self@;
        assert(entry_views(app@) =~= test_file_tree(f)->Object_0[2].1->Object_0) by {
            assert(Seq::new(self.application.args@.len(), |i: int| JsonView::Str(self.application.args@[i]@)) =~= Seq::new(
                f.application.args.len(),
                |i: int| JsonView::Str(f.application.args[i]),
            ));
        }
        assert(entry_views(term@) =~= test_file_tree(f)->Object_0[4].1->Object_0);
        assert(Seq::new(self.environment@.len(), |i: int| (self.environment@[i].0@, JsonView::Str(self.environment@[i].1@))) =~= Seq::new(
            f.environment.len(),
            |i: int| (f.environment[i].0, JsonView::Str(f.environment[i].1)),
        ));
        assert(Seq::new(self.setup@.len(), |i: int| step_tree(self.setup@[i]@)) =~= Seq::new(f.setup.len(), |i: int| step_tree(f.setup[i])));
        assert(Seq::new(self.steps@.len(), |i: int| step_tree(self.steps@[i]@)) =~= Seq::new(f.steps.len(), |i: int| step_tree(f.steps[i])));
        assert(Seq::new(self.cleanup@.len(), |i: int| step_tree(self.cleanup@[i]@)) =~= Seq::new(f.cleanup.len(), |i: int| step_tree(f.cleanup[i])));
        let r = JsonValue::Object(es);
        assert(entry_views(es@) =~= test_file_tree(f)->Object_0);
        r
    }
}

} // verus!
