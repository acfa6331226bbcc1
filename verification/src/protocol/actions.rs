//! The action envelope every frontend speaks.
//!
//! Wire shape is a JSON object tagged by `action` (`{"action": "press",
//! ...}`). Unknown actions, and in strict mode unknown fields, are refused;
//! missing optional fields take their documented defaults.

use vstd::prelude::*;

use crate::json::{entry_views, field, item_views, lookup, JsonValue, JsonView};
use crate::protocol::constants::{
    ACTION_ASSERT, ACTION_CLOSE, ACTION_LAUNCH, ACTION_PRESS, ACTION_RESIZE, ACTION_SCREEN,
    ACTION_SNAPSHOT, ACTION_TYPE, ACTION_WAIT_FOR_TEXT,
};
use crate::protocol::error::ProtocolError;
use crate::text::{debug_str, push_str, quote_debug, str_eq};

verus! {

/// Default `wait_for_text` timeout.
pub const DEFAULT_WAIT_TIMEOUT_MS: u64 = 3000;
/// Default screen poll interval.
pub const DEFAULT_POLL_MS: u64 = 50;
/// Default `launch` timeout.
pub const DEFAULT_LAUNCH_TIMEOUT_MS: u64 = 10000;

/// Terminal geometry for `launch`.
#[derive(Debug, Clone, Copy, PartialEq, Eq)]
pub struct TerminalSize {
    /// Columns.
    pub width: u16,
    /// Rows.
    pub height: u16,
}

/// The protocol actions, tagged by `action`.
#[derive(Debug, PartialEq)]
pub enum Action {
    /// Start a child under a fresh PTY; answers with a session id and the
    /// first screen.
    Launch {
        command: String,
        args: Vec<String>,
        cwd: Option<String>,
        terminal: Option<TerminalSize>,
        env: Vec<(String, String)>,
        timeout_ms: u64,
    },
    /// Send a named key (`ENTER`, `DOWN`, `CTRL+C`, ...).
    Press { session_id: String, key: String },
    /// Type text verbatim (no Enter appended); `sensitive` redacts logs.
    Type { session_id: String, text: String, sensitive: bool },
    /// Poll the screen until text (or a regex) appears.
    WaitForText { session_id: String, text: String, regex: bool, timeout_ms: u64, poll_ms: u64 },
    /// Return the current screen.
    Screen { session_id: String, styled: bool },
    /// Evaluate one assertion condition (an object tagged by `type`).
    Assert { session_id: String, condition: JsonValue },
    /// Capture a named snapshot for golden comparison.
    Snapshot { session_id: String, name: String },
    /// Resize the PTY and grid.
    Resize { session_id: String, width: u16, height: u16 },
    /// Quit the app (optional input first) and reap the child.
    Close { session_id: String, signal: Option<String>, timeout_ms: u64 },
}

/// An action with its texts as character sequences.
pub enum ActionView {
    Launch {
        command: Seq<char>,
        args: Seq<Seq<char>>,
        cwd: Option<Seq<char>>,
        terminal: Option<TerminalSize>,
        env: Seq<(Seq<char>, Seq<char>)>,
        timeout_ms: u64,
    },
    Press { session_id: Seq<char>, key: Seq<char> },
    Type { session_id: Seq<char>, text: Seq<char>, sensitive: bool },
    WaitForText {
        session_id: Seq<char>,
        text: Seq<char>,
        regex: bool,
        timeout_ms: u64,
        poll_ms: u64,
    },
    Screen { session_id: Seq<char>, styled: bool },
    Assert { session_id: Seq<char>, condition: JsonView },
    Snapshot { session_id: Seq<char>, name: Seq<char> },
    Resize { session_id: Seq<char>, width: u16, height: u16 },
    Close { session_id: Seq<char>, signal: Option<Seq<char>>, timeout_ms: u64 },
}

/// The character sequences of a list of strings.
pub open spec fn strings_view(v: Seq<String>) -> Seq<Seq<char>> {
    Seq::new(v.len(), |i: int| v[i]@)
}

/// The character sequences of a list of string pairs.
pub open spec fn pairs_view(v: Seq<(String, String)>) -> Seq<(Seq<char>, Seq<char>)> {
    Seq::new(v.len(), |i: int| (v[i].0@, v[i].1@))
}

/// The character sequence of an optional string.
pub open spec fn opt_string_view(v: Option<String>) -> Option<Seq<char>> {
    match v {
        Some(s) => Some(s@),
        None => None,
    }
}

impl View for Action {
    type V = ActionView;

    open spec fn view(&self) -> ActionView {
        match self {
            Action::Launch { command, args, cwd, terminal, env, timeout_ms } => ActionView::Launch {
                command: command@,
                args: strings_view(args@),
                cwd: opt_string_view(*cwd),
                terminal: *terminal,
                env: pairs_view(env@),
                timeout_ms: *timeout_ms,
            },
            Action::Press { session_id, key } => ActionView::Press {
                session_id: session_id@,
                key: key@,
            },
            Action::Type { session_id, text, sensitive } => ActionView::Type {
                session_id: session_id@,
                text: text@,
                sensitive: *sensitive,
            },
            Action::WaitForText { session_id, text, regex, timeout_ms, poll_ms } =>
                ActionView::WaitForText {
                session_id: session_id@,
                text: text@,
                regex: *regex,
                timeout_ms: *timeout_ms,
                poll_ms: *poll_ms,
            },
            Action::Screen { session_id, styled } => ActionView::Screen {
                session_id: session_id@,
                styled: *styled,
            },
            Action::Assert { session_id, condition } => ActionView::Assert {
                session_id: session_id@,
                condition: condition@,
            },
            Action::Snapshot { session_id, name } => ActionView::Snapshot {
                session_id: session_id@,
                name: name@,
            },
            Action::Resize { session_id, width, height } => ActionView::Resize {
                session_id: session_id@,
                width: *width,
                height: *height,
            },
            Action::Close { session_id, signal, timeout_ms } => ActionView::Close {
                session_id: session_id@,
                signal: opt_string_view(*signal),
                timeout_ms: *timeout_ms,
            },
        }
    }
}

/// The action discriminant.
pub open spec fn action_name(a: ActionView) -> Seq<char> {
    match a {
        ActionView::Launch { .. } => ACTION_LAUNCH@,
        ActionView::Press { .. } => ACTION_PRESS@,
        ActionView::Type { .. } => ACTION_TYPE@,
        ActionView::WaitForText { .. } => ACTION_WAIT_FOR_TEXT@,
        ActionView::Screen { .. } => ACTION_SCREEN@,
        ActionView::Assert { .. } => ACTION_ASSERT@,
        ActionView::Snapshot { .. } => ACTION_SNAPSHOT@,
        ActionView::Resize { .. } => ACTION_RESIZE@,
        ActionView::Close { .. } => ACTION_CLOSE@,
    }
}

/// Whether `name` is one of the actions.
pub open spec fn is_action(name: Seq<char>) -> bool {
    name == ACTION_LAUNCH@ || name == ACTION_PRESS@ || name == ACTION_TYPE@ || name
        == ACTION_WAIT_FOR_TEXT@ || name == ACTION_SCREEN@ || name == ACTION_ASSERT@ || name
        == ACTION_SNAPSHOT@ || name == ACTION_RESIZE@ || name == ACTION_CLOSE@
}

/// Whether action `name` accepts field `key` (strict mode: anything else is
/// refused).
pub open spec fn field_allowed(name: Seq<char>, key: Seq<char>) -> bool {
    key == "action"@ || (name == ACTION_LAUNCH@ && (key == "command"@ || key == "args"@ || key
        == "cwd"@ || key == "terminal"@ || key == "env"@ || key == "timeout_ms"@)) || (name
        == ACTION_PRESS@ && (key == "session_id"@ || key == "key"@)) || (name == ACTION_TYPE@ && (
    key == "session_id"@ || key == "text"@ || key == "sensitive"@)) || (name
        == ACTION_WAIT_FOR_TEXT@ && (key == "session_id"@ || key == "text"@ || key == "regex"@
        || key == "timeout_ms"@ || key == "poll_ms"@)) || (name == ACTION_SCREEN@ && (key
        == "session_id"@ || key == "styled"@)) || (name == ACTION_ASSERT@ && (key == "session_id"@
        || key == "condition"@)) || (name == ACTION_SNAPSHOT@ && (key == "session_id"@ || key
        == "name"@)) || (name == ACTION_RESIZE@ && (key == "session_id"@ || key == "width"@ || key
        == "height"@)) || (name == ACTION_CLOSE@ && (key == "session_id"@ || key == "signal"@
        || key == "timeout_ms"@))
}

/// The first key, in entry order, that action `name` does not accept.
pub open spec fn first_unknown_field(entries: Seq<(Seq<char>, JsonView)>, name: Seq<char>) -> Option<
    Seq<char>,
>
    decreases entries.len(),
{
    if entries.len() == 0 {
        None
    } else if !field_allowed(name, entries[0].0) {
        Some(entries[0].0)
    } else {
        first_unknown_field(entries.drop_first(), name)
    }
}

/// The first key, in entry order, that terminal geometry does not accept.
pub open spec fn first_unknown_geometry(entries: Seq<(Seq<char>, JsonView)>) -> Option<Seq<char>>
    decreases entries.len(),
{
    if entries.len() == 0 {
        None
    } else if !(entries[0].0 == "width"@ || entries[0].0 == "height"@) {
        Some(entries[0].0)
    } else {
        first_unknown_geometry(entries.drop_first())
    }
}

/// Message for a required field that is absent.
pub open spec fn missing_msg(name: Seq<char>) -> Seq<char> {
    "missing field `"@ + name + "`"@
}

/// Message for a field holding the wrong kind of value.
pub open spec fn type_msg(name: Seq<char>, expected: Seq<char>) -> Seq<char> {
    "invalid type for field `"@ + name + "`: expected "@ + expected
}

/// A required string field.
pub open spec fn req_string(v: JsonView, name: Seq<char>) -> Result<Seq<char>, Seq<char>> {
    match field(v, name) {
        None => Err(missing_msg(name)),
        Some(JsonView::Str(s)) => Ok(s),
        Some(_) => Err(type_msg(name, "a string"@)),
    }
}

/// An optional string field (absent or `null` is `None`).
pub open spec fn opt_string(v: JsonView, name: Seq<char>) -> Result<Option<Seq<char>>, Seq<char>> {
    match field(v, name) {
        None => Ok(None),
        Some(JsonView::Null) => Ok(None),
        Some(JsonView::Str(s)) => Ok(Some(s)),
        Some(_) => Err(type_msg(name, "a string"@)),
    }
}

/// Whether every item is a string.
pub open spec fn all_strings(items: Seq<JsonView>) -> bool {
    forall|i: int| 0 <= i < items.len() ==> #[trigger] items[i] is Str
}

/// A list-of-strings field (absent is empty).
pub open spec fn string_list(v: JsonView, name: Seq<char>) -> Result<Seq<Seq<char>>, Seq<char>> {
    match field(v, name) {
        None => Ok(seq![]),
        Some(JsonView::Array(items)) => if all_strings(items) {
            Ok(Seq::new(items.len(), |i: int| items[i]->Str_0))
        } else {
            Err(type_msg(name, "a list of strings"@))
        },
        Some(_) => Err(type_msg(name, "a list of strings"@)),
    }
}

/// Whether every entry maps to a string.
pub open spec fn all_string_values(entries: Seq<(Seq<char>, JsonView)>) -> bool {
    forall|i: int| 0 <= i < entries.len() ==> #[trigger] entries[i].1 is Str
}

/// A string-to-string map field (absent is empty), in entry order.
pub open spec fn string_map(v: JsonView, name: Seq<char>) -> Result<
    Seq<(Seq<char>, Seq<char>)>,
    Seq<char>,
> {
    match field(v, name) {
        None => Ok(seq![]),
        Some(JsonView::Object(entries)) => if all_string_values(entries) {
            Ok(Seq::new(entries.len(), |i: int| (entries[i].0, entries[i].1->Str_0)))
        } else {
            Err(type_msg(name, "a map of strings"@))
        },
        Some(_) => Err(type_msg(name, "a map of strings"@)),
    }
}

/// A boolean field (absent is `false`).
pub open spec fn flag(v: JsonView, name: Seq<char>) -> Result<bool, Seq<char>> {
    match field(v, name) {
        None => Ok(false),
        Some(JsonView::Bool(b)) => Ok(b),
        Some(_) => Err(type_msg(name, "a boolean"@)),
    }
}

/// A `u64` field (absent is `default`).
pub open spec fn u64_or(v: JsonView, name: Seq<char>, default: u64) -> Result<u64, Seq<char>> {
    match field(v, name) {
        None => Ok(default),
        Some(JsonView::PosInt(n)) => Ok(n),
        Some(_) => Err(type_msg(name, "u64"@)),
    }
}

/// A required `u16` field.
pub open spec fn req_u16(v: JsonView, name: Seq<char>) -> Result<u16, Seq<char>> {
    match field(v, name) {
        None => Err(missing_msg(name)),
        Some(JsonView::PosInt(n)) => if n <= 65535 {
            Ok(n as u16)
        } else {
            Err(type_msg(name, "u16"@))
        },
        Some(_) => Err(type_msg(name, "u16"@)),
    }
}

/// A required field of any JSON value.
pub open spec fn req_value(v: JsonView, name: Seq<char>) -> Result<JsonView, Seq<char>> {
    match field(v, name) {
        None => Err(missing_msg(name)),
        Some(x) => Ok(x),
    }
}

/// The optional `terminal` geometry of `launch`.
pub open spec fn opt_terminal(v: JsonView) -> Result<Option<TerminalSize>, Seq<char>> {
    match field(v, "terminal"@) {
        None => Ok(None),
        Some(JsonView::Null) => Ok(None),
        Some(JsonView::Object(entries)) => match first_unknown_geometry(entries) {
            Some(k) => Err("unknown field "@ + debug_str(k) + " in `terminal`"@),
            None => match req_u16(JsonView::Object(entries), "width"@) {
                Err(e) => Err(e),
                Ok(width) => match req_u16(JsonView::Object(entries), "height"@) {
                    Err(e) => Err(e),
                    Ok(height) => Ok(Some(TerminalSize { width, height })),
                },
            },
        },
        Some(_) => Err(type_msg("terminal"@, "an object"@)),
    }
}

/// `launch` fields.
pub open spec fn decode_launch(v: JsonView) -> Result<ActionView, Seq<char>> {
    match req_string(v, "command"@) {
        Err(e) => Err(e),
        Ok(command) => match string_list(v, "args"@) {
            Err(e) => Err(e),
            Ok(args) => match opt_string(v, "cwd"@) {
                Err(e) => Err(e),
                Ok(cwd) => match opt_terminal(v) {
                    Err(e) => Err(e),
                    Ok(terminal) => match string_map(v, "env"@) {
                        Err(e) => Err(e),
                        Ok(env) => match u64_or(v, "timeout_ms"@, DEFAULT_LAUNCH_TIMEOUT_MS) {
                            Err(e) => Err(e),
                            Ok(timeout_ms) => Ok(
                                ActionView::Launch { command, args, cwd, terminal, env, timeout_ms },
                            ),
                        },
                    },
                },
            },
        },
    }
}

/// The fields of every action but `launch`, after `session_id`.
pub open spec fn decode_session_action(name: Seq<char>, v: JsonView, session_id: Seq<char>) -> Result<
    ActionView,
    Seq<char>,
> {
    if name == ACTION_PRESS@ {
        match req_string(v, "key"@) {
            Err(e) => Err(e),
            Ok(key) => Ok(ActionView::Press { session_id, key }),
        }
    } else if name == ACTION_TYPE@ {
        match req_string(v, "text"@) {
            Err(e) => Err(e),
            Ok(text) => match flag(v, "sensitive"@) {
                Err(e) => Err(e),
                Ok(sensitive) => Ok(ActionView::Type { session_id, text, sensitive }),
            },
        }
    } else if name == ACTION_WAIT_FOR_TEXT@ {
        match req_string(v, "text"@) {
            Err(e) => Err(e),
            Ok(text) => match flag(v, "regex"@) {
                Err(e) => Err(e),
                Ok(regex) => match u64_or(v, "timeout_ms"@, DEFAULT_WAIT_TIMEOUT_MS) {
                    Err(e) => Err(e),
                    Ok(timeout_ms) => match u64_or(v, "poll_ms"@, DEFAULT_POLL_MS) {
                        Err(e) => Err(e),
                        Ok(poll_ms) => Ok(
                            ActionView::WaitForText { session_id, text, regex, timeout_ms, poll_ms },
                        ),
                    },
                },
            },
        }
    } else if name == ACTION_SCREEN@ {
        match flag(v, "styled"@) {
            Err(e) => Err(e),
            Ok(styled) => Ok(ActionView::Screen { session_id, styled }),
        }
    } else if name == ACTION_ASSERT@ {
        match req_value(v, "condition"@) {
            Err(e) => Err(e),
            Ok(condition) => Ok(ActionView::Assert { session_id, condition }),
        }
    } else if name == ACTION_SNAPSHOT@ {
        match req_string(v, "name"@) {
            Err(e) => Err(e),
            Ok(n) => Ok(ActionView::Snapshot { session_id, name: n }),
        }
    } else if name == ACTION_RESIZE@ {
        match req_u16(v, "width"@) {
            Err(e) => Err(e),
            Ok(width) => match req_u16(v, "height"@) {
                Err(e) => Err(e),
                Ok(height) => Ok(ActionView::Resize { session_id, width, height }),
            },
        }
    } else {
        match opt_string(v, "signal"@) {
            Err(e) => Err(e),
            Ok(signal) => match u64_or(v, "timeout_ms"@, DEFAULT_WAIT_TIMEOUT_MS) {
                Err(e) => Err(e),
                Ok(timeout_ms) => Ok(ActionView::Close { session_id, signal, timeout_ms }),
            },
        }
    }
}

/// The fields of action `name`.
pub open spec fn decode_action(name: Seq<char>, v: JsonView) -> Result<ActionView, Seq<char>> {
    if name == ACTION_LAUNCH@ {
        decode_launch(v)
    } else {
        match req_string(v, "session_id"@) {
            Err(e) => Err(e),
            Ok(session_id) => decode_session_action(name, v, session_id),
        }
    }
}

/// The action a JSON object describes, or the schema message refusing it.
pub open spec fn action_of_json(v: JsonView) -> Result<ActionView, Seq<char>> {
    match v {
        JsonView::Object(entries) => match field(v, "action"@) {
            Some(JsonView::Str(name)) => if !is_action(name) {
                Err("unknown action: "@ + name)
            } else {
                match first_unknown_field(entries, name) {
                    Some(k) => Err("unknown field "@ + debug_str(k) + " for action "@ + debug_str(name)),
                    None => decode_action(name, v),
                }
            },
            _ => Err("missing action field"@),
        },
        _ => Err("action must be a JSON object"@),
    }
}

pub(crate) fn text(t: &str) -> (r: String)
    ensures
        r@ == t@,
{
    t.to_owned()
}

pub(crate) fn missing_field(name: &str) -> (r: String)
    ensures
        r@ == missing_msg(name@),
{
    let mut r = text("missing field `");
    push_str(&mut r, name);
    push_str(&mut r, "`");
    r
}

pub(crate) fn wrong_type(name: &str, expected: &str) -> (r: String)
    ensures
        r@ == type_msg(name@, expected@),
{
    let mut r = text("invalid type for field `");
    push_str(&mut r, name);
    push_str(&mut r, "`: expected ");
    push_str(&mut r, expected);
    r
}

pub(crate) fn read_string(v: &JsonValue, name: &str) -> (r: Result<String, String>)
    ensures
        match r {
            Ok(x) => req_string(v@, name@) == Ok::<Seq<char>, Seq<char>>(x@),
            Err(m) => req_string(v@, name@) == Err::<Seq<char>, Seq<char>>(m@),
        },
{
    match v.get(name) {
        None => Err(missing_field(name)),
        Some(JsonValue::Str(x)) => Ok(x.clone()),
        Some(_) => Err(wrong_type(name, "a string")),
    }
}

pub(crate) fn read_opt_string(v: &JsonValue, name: &str) -> (r: Result<Option<String>, String>)
    ensures
        match r {
            Ok(x) => opt_string(v@, name@) == Ok::<Option<Seq<char>>, Seq<char>>(opt_string_view(x)),
            Err(m) => opt_string(v@, name@) == Err::<Option<Seq<char>>, Seq<char>>(m@),
        },
{
    match v.get(name) {
        None => Ok(None),
        Some(JsonValue::Null) => Ok(None),
        Some(JsonValue::Str(x)) => Ok(Some(x.clone())),
        Some(_) => Err(wrong_type(name, "a string")),
    }
}

pub(crate) fn read_flag(v: &JsonValue, name: &str) -> (r: Result<bool, String>)
    ensures
        match r {
            Ok(b) => flag(v@, name@) == Ok::<bool, Seq<char>>(b),
            Err(m) => flag(v@, name@) == Err::<bool, Seq<char>>(m@),
        },
{
    match v.get(name) {
        None => Ok(false),
        Some(JsonValue::Bool(b)) => Ok(*b),
        Some(_) => Err(wrong_type(name, "a boolean")),
    }
}

fn read_u64_or(v: &JsonValue, name: &str, default: u64) -> (r: Result<u64, String>)
    ensures
        match r {
            Ok(n) => u64_or(v@, name@, default) == Ok::<u64, Seq<char>>(n),
            Err(m) => u64_or(v@, name@, default) == Err::<u64, Seq<char>>(m@),
        },
{
    match v.get(name) {
        None => Ok(default),
        Some(JsonValue::PosInt(n)) => Ok(*n),
        Some(_) => Err(wrong_type(name, "u64")),
    }
}

pub(crate) fn read_u16(v: &JsonValue, name: &str) -> (r: Result<u16, String>)
    ensures
        match r {
            Ok(n) => req_u16(v@, name@) == Ok::<u16, Seq<char>>(n),
            Err(m) => req_u16(v@, name@) == Err::<u16, Seq<char>>(m@),
        },
{
    match v.get(name) {
        None => Err(missing_field(name)),
        Some(JsonValue::PosInt(n)) => if *n <= 65535 {
            Ok(*n as u16)
        } else {
            Err(wrong_type(name, "u16"))
        },
        Some(_) => Err(wrong_type(name, "u16")),
    }
}

fn read_value(v: &JsonValue, name: &str) -> (r: Result<JsonValue, String>)
    ensures
        match r {
            Ok(x) => req_value(v@, name@) == Ok::<JsonView, Seq<char>>(x@),
            Err(m) => req_value(v@, name@) == Err::<JsonView, Seq<char>>(m@),
        },
{
    match v.get(name) {
        None => Err(missing_field(name)),
        Some(x) => Ok(x.duplicate()),
    }
}

pub(crate) fn read_string_list(v: &JsonValue, name: &str) -> (r: Result<Vec<String>, String>)
    ensures
        match r {
            Ok(x) => string_list(v@, name@) == Ok::<Seq<Seq<char>>, Seq<char>>(strings_view(x@)),
            Err(m) => string_list(v@, name@) == Err::<Seq<Seq<char>>, Seq<char>>(m@),
        },
{
    match v.get(name) {
        None => {
            let out: Vec<String> = Vec::new();
            assert(strings_view(out@) =~= Seq::<Seq<char>>::empty());
            Ok(out)
        },
        Some(JsonValue::Array(items)) => {
            let ghost views = item_views(items@);
            let mut out: Vec<String> = Vec::new();
            let mut i: usize = 0;
            while i < items.len()
                invariant
                    views == item_views(items@),
                    field(v@, name@) == Some(JsonView::Array(views)),
                    i <= items@.len(),
                    out@.len() == i,
                    forall|j: int| 0 <= j < i ==> #[trigger] views[j] is Str && out@[j]@ == views[j]->Str_0,
                decreases items@.len() - i,
            {
                assert(views[i as int] == items@[i as int]@);
                match &items[i] {
                    JsonValue::Str(x) => {
                        out.push(x.clone());
                    },
                    _ => {
                        assert(!all_strings(views));
                        return Err(wrong_type(name, "a list of strings"));
                    },
                }
                i = i + 1;
            }
            assert(all_strings(views));
            assert(strings_view(out@) =~= Seq::new(views.len(), |j: int| views[j]->Str_0));
            Ok(out)
        },
        Some(_) => Err(wrong_type(name, "a list of strings")),
    }
}

pub(crate) fn read_string_map(v: &JsonValue, name: &str) -> (r: Result<Vec<(String, String)>, String>)
    ensures
        match r {
            Ok(x) => string_map(v@, name@) == Ok::<Seq<(Seq<char>, Seq<char>)>, Seq<char>>(
                pairs_view(x@),
            ),
            Err(m) => string_map(v@, name@) == Err::<Seq<(Seq<char>, Seq<char>)>, Seq<char>>(m@),
        },
{
    match v.get(name) {
        None => {
            let out: Vec<(String, String)> = Vec::new();
            assert(pairs_view(out@) =~= Seq::<(Seq<char>, Seq<char>)>::empty());
            Ok(out)
        },
        Some(JsonValue::Object(entries)) => {
            let ghost views = entry_views(entries@);
            let mut out: Vec<(String, String)> = Vec::new();
            let mut i: usize = 0;
            while i < entries.len()
                invariant
                    views == entry_views(entries@),
                    field(v@, name@) == Some(JsonView::Object(views)),
                    i <= entries@.len(),
                    out@.len() == i,
                    forall|j: int|
                        0 <= j < i ==> #[trigger] views[j].1 is Str && out@[j].0@ == views[j].0
                            && out@[j].1@ == views[j].1->Str_0,
                decreases entries@.len() - i,
            {
                assert(views[i as int] == (entries@[i as int].0@, entries@[i as int].1@));
                match &entries[i].1 {
                    JsonValue::Str(x) => {
                        out.push((entries[i].0.clone(), x.clone()));
                    },
                    _ => {
                        assert(!(views[i as int].1 is Str));
                        assert(!all_string_values(views));
                        return Err(wrong_type(name, "a map of strings"));
                    },
                }
                i = i + 1;
            }
            assert(all_string_values(views));
            assert(pairs_view(out@) =~= Seq::new(views.len(), |j: int| (views[j].0, views[j].1->Str_0)));
            Ok(out)
        },
        Some(_) => Err(wrong_type(name, "a map of strings")),
    }
}

/// `unknown field <key> for action <name>`.
fn unknown_field_message(key: &str, name: &str) -> (r: String)
    ensures
        r@ == "unknown field "@ + debug_str(key@) + " for action "@ + debug_str(name@),
{
    let mut r = text("unknown field ");
    let k = quote_debug(key);
    push_str(&mut r, k.as_str());
    push_str(&mut r, " for action ");
    let n = quote_debug(name);
    push_str(&mut r, n.as_str());
    r
}

fn read_terminal(v: &JsonValue) -> (r: Result<Option<TerminalSize>, String>)
    ensures
        match r {
            Ok(t) => opt_terminal(v@) == Ok::<Option<TerminalSize>, Seq<char>>(t),
            Err(m) => opt_terminal(v@) == Err::<Option<TerminalSize>, Seq<char>>(m@),
        },
{
    match v.get("terminal") {
        None => Ok(None),
        Some(JsonValue::Null) => Ok(None),
        Some(t) => match t {
            JsonValue::Object(entries) => {
                let ghost views = entry_views(entries@);
                let mut i: usize = 0;
                assert(views.skip(0) =~= views);
                while i < entries.len()
                    invariant
                        views == entry_views(entries@),
                        field(v@, "terminal"@) == Some(JsonView::Object(views)),
                        i <= entries@.len(),
                        first_unknown_geometry(views) == first_unknown_geometry(views.skip(i as int)),
                    decreases entries@.len() - i,
                {
                    assert(views.skip(i as int).drop_first() =~= views.skip(i + 1));
                    assert(views.skip(i as int)[0] == (entries@[i as int].0@, entries@[i as int].1@));
                    let key = entries[i].0.as_str();
                    if !(str_eq(key, "width") || str_eq(key, "height")) {
                        let mut m = text("unknown field ");
                        let q = quote_debug(key);
                        push_str(&mut m, q.as_str());
                        push_str(&mut m, " in `terminal`");
                        return Err(m);
                    }
                    i = i + 1;
                }
                let width = match read_u16(t, "width") {
                    Ok(w) => w,
                    Err(e) => return Err(e),
                };
                let height = match read_u16(t, "height") {
                    Ok(h) => h,
                    Err(e) => return Err(e),
                };
                Ok(Some(TerminalSize { width, height }))
            },
            _ => Err(wrong_type("terminal", "an object")),
        },
    }
}

fn field_allowed_exec(name: &str, key: &str) -> (r: bool)
    ensures
        r == field_allowed(name@, key@),
{
    str_eq(key, "action") || (str_eq(name, ACTION_LAUNCH) && (str_eq(key, "command") || str_eq(
        key,
        "args",
    ) || str_eq(key, "cwd") || str_eq(key, "terminal") || str_eq(key, "env") || str_eq(
        key,
        "timeout_ms",
    ))) || (str_eq(name, ACTION_PRESS) && (str_eq(key, "session_id") || str_eq(key, "key")))
        || (str_eq(name, ACTION_TYPE) && (str_eq(key, "session_id") || str_eq(key, "text")
        || str_eq(key, "sensitive"))) || (str_eq(name, ACTION_WAIT_FOR_TEXT) && (str_eq(
        key,
        "session_id",
    ) || str_eq(key, "text") || str_eq(key, "regex") || str_eq(key, "timeout_ms") || str_eq(
        key,
        "poll_ms",
    ))) || (str_eq(name, ACTION_SCREEN) && (str_eq(key, "session_id") || str_eq(key, "styled")))
        || (str_eq(name, ACTION_ASSERT) && (str_eq(key, "session_id") || str_eq(key, "condition")))
        || (str_eq(name, ACTION_SNAPSHOT) && (str_eq(key, "session_id") || str_eq(key, "name")))
        || (str_eq(name, ACTION_RESIZE) && (str_eq(key, "session_id") || str_eq(key, "width")
        || str_eq(key, "height"))) || (str_eq(name, ACTION_CLOSE) && (str_eq(key, "session_id")
        || str_eq(key, "signal") || str_eq(key, "timeout_ms")))
}

fn is_action_exec(name: &str) -> (r: bool)
    ensures
        r == is_action(name@),
{
    str_eq(name, ACTION_LAUNCH) || str_eq(name, ACTION_PRESS) || str_eq(name, ACTION_TYPE)
        || str_eq(name, ACTION_WAIT_FOR_TEXT) || str_eq(name, ACTION_SCREEN) || str_eq(
        name,
        ACTION_ASSERT,
    ) || str_eq(name, ACTION_SNAPSHOT) || str_eq(name, ACTION_RESIZE) || str_eq(name, ACTION_CLOSE)
}

/// Whether a decoding result matches its specification.
pub open spec fn decoded(r: Result<Action, String>, s: Result<ActionView, Seq<char>>) -> bool {
    match r {
        Ok(a) => s == Ok::<ActionView, Seq<char>>(a@),
        Err(m) => s == Err::<ActionView, Seq<char>>(m@),
    }
}

fn decode_launch_exec(v: &JsonValue) -> (r: Result<Action, String>)
    ensures
        decoded(r, decode_launch(v@)),
{
    let command = match read_string(v, "command") {
        Ok(x) => x,
        Err(e) => return Err(e),
    };
    let args = match read_string_list(v, "args") {
        Ok(x) => x,
        Err(e) => return Err(e),
    };
    let cwd = match read_opt_string(v, "cwd") {
        Ok(x) => x,
        Err(e) => return Err(e),
    };
    let terminal = match read_terminal(v) {
        Ok(x) => x,
        Err(e) => return Err(e),
    };
    let env = match read_string_map(v, "env") {
        Ok(x) => x,
        Err(e) => return Err(e),
    };
    let timeout_ms = match read_u64_or(v, "timeout_ms", default_launch_timeout()) {
        Ok(x) => x,
        Err(e) => return Err(e),
    };
    Ok(Action::Launch { command, args, cwd, terminal, env, timeout_ms })
}

fn decode_session_exec(name: &str, v: &JsonValue, session_id: String) -> (r: Result<Action, String>)
    requires
        is_action(name@),
        name@ != ACTION_LAUNCH@,
    ensures
        decoded(r, decode_session_action(name@, v@, session_id@)),
{
    if str_eq(name, ACTION_PRESS) {
        match read_string(v, "key") {
            Ok(key) => Ok(Action::Press { session_id, key }),
            Err(e) => Err(e),
        }
    } else if str_eq(name, ACTION_TYPE) {
        let text = match read_string(v, "text") {
            Ok(x) => x,
            Err(e) => return Err(e),
        };
        match read_flag(v, "sensitive") {
            Ok(sensitive) => Ok(Action::Type { session_id, text, sensitive }),
            Err(e) => Err(e),
        }
    } else if str_eq(name, ACTION_WAIT_FOR_TEXT) {
        let text = match read_string(v, "text") {
            Ok(x) => x,
            Err(e) => return Err(e),
        };
        let regex = match read_flag(v, "regex") {
            Ok(x) => x,
            Err(e) => return Err(e),
        };
        let timeout_ms = match read_u64_or(v, "timeout_ms", default_wait_timeout()) {
            Ok(x) => x,
            Err(e) => return Err(e),
        };
        match read_u64_or(v, "poll_ms", default_poll()) {
            Ok(poll_ms) => Ok(Action::WaitForText { session_id, text, regex, timeout_ms, poll_ms }),
            Err(e) => Err(e),
        }
    } else if str_eq(name, ACTION_SCREEN) {
        match read_flag(v, "styled") {
            Ok(styled) => Ok(Action::Screen { session_id, styled }),
            Err(e) => Err(e),
        }
    } else if str_eq(name, ACTION_ASSERT) {
        match read_value(v, "condition") {
            Ok(condition) => Ok(Action::Assert { session_id, condition }),
            Err(e) => Err(e),
        }
    } else if str_eq(name, ACTION_SNAPSHOT) {
        match read_string(v, "name") {
            Ok(n) => Ok(Action::Snapshot { session_id, name: n }),
            Err(e) => Err(e),
        }
    } else if str_eq(name, ACTION_RESIZE) {
        let width = match read_u16(v, "width") {
            Ok(x) => x,
            Err(e) => return Err(e),
        };
        match read_u16(v, "height") {
            Ok(height) => Ok(Action::Resize { session_id, width, height }),
            Err(e) => Err(e),
        }
    } else {
        let signal = match read_opt_string(v, "signal") {
            Ok(x) => x,
            Err(e) => return Err(e),
        };
        match read_u64_or(v, "timeout_ms", default_wait_timeout()) {
            Ok(timeout_ms) => Ok(Action::Close { session_id, signal, timeout_ms }),
            Err(e) => Err(e),
        }
    }
}

/// Default `launch` timeout.
fn default_launch_timeout() -> (r: u64)
    ensures
        r == DEFAULT_LAUNCH_TIMEOUT_MS,
{
    DEFAULT_LAUNCH_TIMEOUT_MS
}

/// Default `wait_for_text` and `close` timeout.
fn default_wait_timeout() -> (r: u64)
    ensures
        r == DEFAULT_WAIT_TIMEOUT_MS,
{
    DEFAULT_WAIT_TIMEOUT_MS
}

/// Default poll interval.
fn default_poll() -> (r: u64)
    ensures
        r == DEFAULT_POLL_MS,
{
    DEFAULT_POLL_MS
}

impl Action {
    /// The action discriminant.
    pub fn name(&self) -> (r: &'static str)
        ensures
            r@ == action_name(self@),
    {
        match self {
            Action::Launch { .. } => ACTION_LAUNCH,
            Action::Press { .. } => ACTION_PRESS,
            Action::Type { .. } => ACTION_TYPE,
            Action::WaitForText { .. } => ACTION_WAIT_FOR_TEXT,
            Action::Screen { .. } => ACTION_SCREEN,
            Action::Assert { .. } => ACTION_ASSERT,
            Action::Snapshot { .. } => ACTION_SNAPSHOT,
            Action::Resize { .. } => ACTION_RESIZE,
            Action::Close { .. } => ACTION_CLOSE,
        }
    }

    /// Read one action from its JSON object, refusing unknown actions and
    /// (strict mode) unknown fields; every refusal is a schema error.
    pub fn from_json(value: &JsonValue) -> (r: Result<Action, ProtocolError>)
        ensures
            match r {
                Ok(a) => action_of_json(value@) == Ok::<ActionView, Seq<char>>(a@),
                Err(e) => e is Schema && action_of_json(value@) == Err::<ActionView, Seq<char>>(
                    e->Schema_0@,
                ),
            },
    {
        let entries = match value {
            JsonValue::Object(entries) => entries,
            _ => return Err(ProtocolError::Schema(text("action must be a JSON object"))),
        };
        let name = match value.get("action") {
            Some(JsonValue::Str(n)) => n.as_str(),
            _ => return Err(ProtocolError::Schema(text("missing action field"))),
        };
        if !is_action_exec(name) {
            let mut m = text("unknown action: ");
            push_str(&mut m, name);
            return Err(ProtocolError::Schema(m));
        }
        let ghost views = entry_views(entries@);
        let mut i: usize = 0;
        assert(views.skip(0) =~= views);
        while i < entries.len()
            invariant
                views == entry_views(entries@),
                value@ == JsonView::Object(views),
                field(value@, "action"@) == Some(JsonView::Str(name@)),
                is_action(name@),
                i <= entries@.len(),
                first_unknown_field(views, name@) == first_unknown_field(views.skip(i as int), name@),
            decreases entries@.len() - i,
        {
            assert(views.skip(i as int).drop_first() =~= views.skip(i + 1));
            assert(views.skip(i as int)[0] == (entries@[i as int].0@, entries@[i as int].1@));
            let key = entries[i].0.as_str();
            if !field_allowed_exec(name, key) {
                return Err(ProtocolError::Schema(unknown_field_message(key, name)));
            }
            i = i + 1;
        }
        let decoded = if str_eq(name, ACTION_LAUNCH) {
            decode_launch_exec(value)
        } else {
            match read_string(value, "session_id") {
                Ok(session_id) => decode_session_exec(name, value, session_id),
                Err(e) => Err(e),
            }
        };
        match decoded {
            Ok(a) => Ok(a),
            Err(m) => Err(ProtocolError::Schema(m)),
        }
    }
}

/// Field names, and action names, are pairwise distinct: any two differ in
/// length or within their first three characters.
#[verifier::rlimit(60)]
proof fn lemma_wire_names_distinct()
    ensures
        "action"@ != "command"@,
        "action"@ != "args"@,
        "action"@ != "cwd"@,
        "action"@ != "terminal"@,
        "action"@ != "env"@,
        "action"@ != "timeout_ms"@,
        "action"@ != "session_id"@,
        "action"@ != "key"@,
        "action"@ != "text"@,
        "action"@ != "sensitive"@,
        "action"@ != "regex"@,
        "action"@ != "poll_ms"@,
        "action"@ != "styled"@,
        "action"@ != "condition"@,
        "action"@ != "name"@,
        "action"@ != "width"@,
        "action"@ != "height"@,
        "action"@ != "signal"@,
        "command"@ != "args"@,
        "command"@ != "cwd"@,
        "command"@ != "terminal"@,
        "command"@ != "env"@,
        "command"@ != "timeout_ms"@,
        "command"@ != "session_id"@,
        "command"@ != "key"@,
        "command"@ != "text"@,
        "command"@ != "sensitive"@,
        "command"@ != "regex"@,
        "command"@ != "poll_ms"@,
        "command"@ != "styled"@,
        "command"@ != "condition"@,
        "command"@ != "name"@,
        "command"@ != "width"@,
        "command"@ != "height"@,
        "command"@ != "signal"@,
        "args"@ != "cwd"@,
        "args"@ != "terminal"@,
        "args"@ != "env"@,
        "args"@ != "timeout_ms"@,
        "args"@ != "session_id"@,
        "args"@ != "key"@,
        "args"@ != "text"@,
        "args"@ != "sensitive"@,
        "args"@ != "regex"@,
        "args"@ != "poll_ms"@,
        "args"@ != "styled"@,
        "args"@ != "condition"@,
        "args"@ != "name"@,
        "args"@ != "width"@,
        "args"@ != "height"@,
        "args"@ != "signal"@,
        "cwd"@ != "terminal"@,
        "cwd"@ != "env"@,
        "cwd"@ != "timeout_ms"@,
        "cwd"@ != "session_id"@,
        "cwd"@ != "key"@,
        "cwd"@ != "text"@,
        "cwd"@ != "sensitive"@,
        "cwd"@ != "regex"@,
        "cwd"@ != "poll_ms"@,
        "cwd"@ != "styled"@,
        "cwd"@ != "condition"@,
        "cwd"@ != "name"@,
        "cwd"@ != "width"@,
        "cwd"@ != "height"@,
        "cwd"@ != "signal"@,
        "terminal"@ != "env"@,
        "terminal"@ != "timeout_ms"@,
        "terminal"@ != "session_id"@,
        "terminal"@ != "key"@,
        "terminal"@ != "text"@,
        "terminal"@ != "sensitive"@,
        "terminal"@ != "regex"@,
        "terminal"@ != "poll_ms"@,
        "terminal"@ != "styled"@,
        "terminal"@ != "condition"@,
        "terminal"@ != "name"@,
        "terminal"@ != "width"@,
        "terminal"@ != "height"@,
        "terminal"@ != "signal"@,
        "env"@ != "timeout_ms"@,
        "env"@ != "session_id"@,
        "env"@ != "key"@,
        "env"@ != "text"@,
        "env"@ != "sensitive"@,
        "env"@ != "regex"@,
        "env"@ != "poll_ms"@,
        "env"@ != "styled"@,
        "env"@ != "condition"@,
        "env"@ != "name"@,
        "env"@ != "width"@,
        "env"@ != "height"@,
        "env"@ != "signal"@,
        "timeout_ms"@ != "session_id"@,
        "timeout_ms"@ != "key"@,
        "timeout_ms"@ != "text"@,
        "timeout_ms"@ != "sensitive"@,
        "timeout_ms"@ != "regex"@,
        "timeout_ms"@ != "poll_ms"@,
        "timeout_ms"@ != "styled"@,
        "timeout_ms"@ != "condition"@,
        "timeout_ms"@ != "name"@,
        "timeout_ms"@ != "width"@,
        "timeout_ms"@ != "height"@,
        "timeout_ms"@ != "signal"@,
        "session_id"@ != "key"@,
        "session_id"@ != "text"@,
        "session_id"@ != "sensitive"@,
        "session_id"@ != "regex"@,
        "session_id"@ != "poll_ms"@,
        "session_id"@ != "styled"@,
        "session_id"@ != "condition"@,
        "session_id"@ != "name"@,
        "session_id"@ != "width"@,
        "session_id"@ != "height"@,
        "session_id"@ != "signal"@,
        "key"@ != "text"@,
        "key"@ != "sensitive"@,
        "key"@ != "regex"@,
        "key"@ != "poll_ms"@,
        "key"@ != "styled"@,
        "key"@ != "condition"@,
        "key"@ != "name"@,
        "key"@ != "width"@,
        "key"@ != "height"@,
        "key"@ != "signal"@,
        "text"@ != "sensitive"@,
        "text"@ != "regex"@,
        "text"@ != "poll_ms"@,
        "text"@ != "styled"@,
        "text"@ != "condition"@,
        "text"@ != "name"@,
        "text"@ != "width"@,
        "text"@ != "height"@,
        "text"@ != "signal"@,
        "sensitive"@ != "regex"@,
        "sensitive"@ != "poll_ms"@,
        "sensitive"@ != "styled"@,
        "sensitive"@ != "condition"@,
        "sensitive"@ != "name"@,
        "sensitive"@ != "width"@,
        "sensitive"@ != "height"@,
        "sensitive"@ != "signal"@,
        "regex"@ != "poll_ms"@,
        "regex"@ != "styled"@,
        "regex"@ != "condition"@,
        "regex"@ != "name"@,
        "regex"@ != "width"@,
        "regex"@ != "height"@,
        "regex"@ != "signal"@,
        "poll_ms"@ != "styled"@,
        "poll_ms"@ != "condition"@,
        "poll_ms"@ != "name"@,
        "poll_ms"@ != "width"@,
        "poll_ms"@ != "height"@,
        "poll_ms"@ != "signal"@,
        "styled"@ != "condition"@,
        "styled"@ != "name"@,
        "styled"@ != "width"@,
        "styled"@ != "height"@,
        "styled"@ != "signal"@,
        "condition"@ != "name"@,
        "condition"@ != "width"@,
        "condition"@ != "height"@,
        "condition"@ != "signal"@,
        "name"@ != "width"@,
        "name"@ != "height"@,
        "name"@ != "signal"@,
        "width"@ != "height"@,
        "width"@ != "signal"@,
        "height"@ != "signal"@,
        "launch"@ != "press"@,
        "launch"@ != "type"@,
        "launch"@ != "wait_for_text"@,
        "launch"@ != "screen"@,
        "launch"@ != "assert"@,
        "launch"@ != "snapshot"@,
        "launch"@ != "resize"@,
        "launch"@ != "close"@,
        "press"@ != "type"@,
        "press"@ != "wait_for_text"@,
        "press"@ != "screen"@,
        "press"@ != "assert"@,
        "press"@ != "snapshot"@,
        "press"@ != "resize"@,
        "press"@ != "close"@,
        "type"@ != "wait_for_text"@,
        "type"@ != "screen"@,
        "type"@ != "assert"@,
        "type"@ != "snapshot"@,
        "type"@ != "resize"@,
        "type"@ != "close"@,
        "wait_for_text"@ != "screen"@,
        "wait_for_text"@ != "assert"@,
        "wait_for_text"@ != "snapshot"@,
        "wait_for_text"@ != "resize"@,
        "wait_for_text"@ != "close"@,
        "screen"@ != "assert"@,
        "screen"@ != "snapshot"@,
        "screen"@ != "resize"@,
        "screen"@ != "close"@,
        "assert"@ != "snapshot"@,
        "assert"@ != "resize"@,
        "assert"@ != "close"@,
        "snapshot"@ != "resize"@,
        "snapshot"@ != "close"@,
        "resize"@ != "close"@,
{
    reveal_strlit("action");
    assert("action"@.len() == 6);
    assert("action"@[0] == 'a');
    assert("action"@[1] == 'c');
    assert("action"@[2] == 't');
    reveal_strlit("command");
    assert("command"@.len() == 7);
    assert("command"@[0] == 'c');
    assert("command"@[1] == 'o');
    assert("command"@[2] == 'm');
    reveal_strlit("args");
    assert("args"@.len() == 4);
    assert("args"@[0] == 'a');
    assert("args"@[1] == 'r');
    assert("args"@[2] == 'g');
    reveal_strlit("cwd");
    assert("cwd"@.len() == 3);
    assert("cwd"@[0] == 'c');
    assert("cwd"@[1] == 'w');
    assert("cwd"@[2] == 'd');
    reveal_strlit("terminal");
    assert("terminal"@.len() == 8);
    assert("terminal"@[0] == 't');
    assert("terminal"@[1] == 'e');
    assert("terminal"@[2] == 'r');
    reveal_strlit("env");
    assert("env"@.len() == 3);
    assert("env"@[0] == 'e');
    assert("env"@[1] == 'n');
    assert("env"@[2] == 'v');
    reveal_strlit("timeout_ms");
    assert("timeout_ms"@.len() == 10);
    assert("timeout_ms"@[0] == 't');
    assert("timeout_ms"@[1] == 'i');
    assert("timeout_ms"@[2] == 'm');
    reveal_strlit("session_id");
    assert("session_id"@.len() == 10);
    assert("session_id"@[0] == 's');
    assert("session_id"@[1] == 'e');
    assert("session_id"@[2] == 's');
    reveal_strlit("key");
    assert("key"@.len() == 3);
    assert("key"@[0] == 'k');
    assert("key"@[1] == 'e');
    assert("key"@[2] == 'y');
    reveal_strlit("text");
    assert("text"@.len() == 4);
    assert("text"@[0] == 't');
    assert("text"@[1] == 'e');
    assert("text"@[2] == 'x');
    reveal_strlit("sensitive");
    assert("sensitive"@.len() == 9);
    assert("sensitive"@[0] == 's');
    assert("sensitive"@[1] == 'e');
    assert("sensitive"@[2] == 'n');
    reveal_strlit("regex");
    assert("regex"@.len() == 5);
    assert("regex"@[0] == 'r');
    assert("regex"@[1] == 'e');
    assert("regex"@[2] == 'g');
    reveal_strlit("poll_ms");
    assert("poll_ms"@.len() == 7);
    assert("poll_ms"@[0] == 'p');
    assert("poll_ms"@[1] == 'o');
    assert("poll_ms"@[2] == 'l');
    reveal_strlit("styled");
    assert("styled"@.len() == 6);
    assert("styled"@[0] == 's');
    assert("styled"@[1] == 't');
    assert("styled"@[2] == 'y');
    reveal_strlit("condition");
    assert("condition"@.len() == 9);
    assert("condition"@[0] == 'c');
    assert("condition"@[1] == 'o');
    assert("condition"@[2] == 'n');
    reveal_strlit("name");
    assert("name"@.len() == 4);
    assert("name"@[0] == 'n');
    assert("name"@[1] == 'a');
    assert("name"@[2] == 'm');
    reveal_strlit("width");
    assert("width"@.len() == 5);
    assert("width"@[0] == 'w');
    assert("width"@[1] == 'i');
    assert("width"@[2] == 'd');
    reveal_strlit("height");
    assert("height"@.len() == 6);
    assert("height"@[0] == 'h');
    assert("height"@[1] == 'e');
    assert("height"@[2] == 'i');
    reveal_strlit("signal");
    assert("signal"@.len() == 6);
    assert("signal"@[0] == 's');
    assert("signal"@[1] == 'i');
    assert("signal"@[2] == 'g');
    reveal_strlit("launch");
    assert("launch"@.len() == 6);
    assert("launch"@[0] == 'l');
    assert("launch"@[1] == 'a');
    assert("launch"@[2] == 'u');
    reveal_strlit("press");
    assert("press"@.len() == 5);
    assert("press"@[0] == 'p');
    assert("press"@[1] == 'r');
    assert("press"@[2] == 'e');
    reveal_strlit("type");
    assert("type"@.len() == 4);
    assert("type"@[0] == 't');
    assert("type"@[1] == 'y');
    assert("type"@[2] == 'p');
    reveal_strlit("wait_for_text");
    assert("wait_for_text"@.len() == 13);
    assert("wait_for_text"@[0] == 'w');
    assert("wait_for_text"@[1] == 'a');
    assert("wait_for_text"@[2] == 'i');
    reveal_strlit("screen");
    assert("screen"@.len() == 6);
    assert("screen"@[0] == 's');
    assert("screen"@[1] == 'c');
    assert("screen"@[2] == 'r');
    reveal_strlit("assert");
    assert("assert"@.len() == 6);
    assert("assert"@[0] == 'a');
    assert("assert"@[1] == 's');
    assert("assert"@[2] == 's');
    reveal_strlit("snapshot");
    assert("snapshot"@.len() == 8);
    assert("snapshot"@[0] == 's');
    assert("snapshot"@[1] == 'n');
    assert("snapshot"@[2] == 'a');
    reveal_strlit("resize");
    assert("resize"@.len() == 6);
    assert("resize"@[0] == 'r');
    assert("resize"@[1] == 'e');
    assert("resize"@[2] == 's');
    reveal_strlit("close");
    assert("close"@.len() == 5);
    assert("close"@[0] == 'c');
    assert("close"@[1] == 'l');
    assert("close"@[2] == 'o');
}

/// JSON form of an optional string (`null` when absent).
pub open spec fn opt_str_json(v: Option<Seq<char>>) -> JsonView {
    match v {
        Some(s) => JsonView::Str(s),
        None => JsonView::Null,
    }
}

/// JSON form of optional terminal geometry.
pub open spec fn terminal_json(t: Option<TerminalSize>) -> JsonView {
    match t {
        Some(t) => JsonView::Object(
            seq![("width"@, JsonView::PosInt(t.width as u64)), ("height"@, JsonView::PosInt(t.height as u64))],
        ),
        None => JsonView::Null,
    }
}

/// The canonical JSON object of an action: the tag, then every field in
/// declaration order (absent options as `null`).
pub open spec fn action_to_json(a: ActionView) -> JsonView {
    match a {
        ActionView::Launch { command, args, cwd, terminal, env, timeout_ms } => JsonView::Object(
            seq![
                ("action"@, JsonView::Str(ACTION_LAUNCH@)),
                ("command"@, JsonView::Str(command)),
                ("args"@, JsonView::Array(Seq::new(args.len(), |i: int| JsonView::Str(args[i])))),
                ("cwd"@, opt_str_json(cwd)),
                ("terminal"@, terminal_json(terminal)),
                ("env"@, JsonView::Object(Seq::new(env.len(), |i: int| (env[i].0, JsonView::Str(env[i].1))))),
                ("timeout_ms"@, JsonView::PosInt(timeout_ms)),
            ],
        ),
        ActionView::Press { session_id, key } => JsonView::Object(
            seq![
                ("action"@, JsonView::Str(ACTION_PRESS@)),
                ("session_id"@, JsonView::Str(session_id)),
                ("key"@, JsonView::Str(key)),
            ],
        ),
        ActionView::Type { session_id, text, sensitive } => JsonView::Object(
            seq![
                ("action"@, JsonView::Str(ACTION_TYPE@)),
                ("session_id"@, JsonView::Str(session_id)),
                ("text"@, JsonView::Str(text)),
                ("sensitive"@, JsonView::Bool(sensitive)),
            ],
        ),
        ActionView::WaitForText { session_id, text, regex, timeout_ms, poll_ms } => JsonView::Object(
            seq![
                ("action"@, JsonView::Str(ACTION_WAIT_FOR_TEXT@)),
                ("session_id"@, JsonView::Str(session_id)),
                ("text"@, JsonView::Str(text)),
                ("regex"@, JsonView::Bool(regex)),
                ("timeout_ms"@, JsonView::PosInt(timeout_ms)),
                ("poll_ms"@, JsonView::PosInt(poll_ms)),
            ],
        ),
        ActionView::Screen { session_id, styled } => JsonView::Object(
            seq![
                ("action"@, JsonView::Str(ACTION_SCREEN@)),
                ("session_id"@, JsonView::Str(session_id)),
                ("styled"@, JsonView::Bool(styled)),
            ],
        ),
        ActionView::Assert { session_id, condition } => JsonView::Object(
            seq![
                ("action"@, JsonView::Str(ACTION_ASSERT@)),
                ("session_id"@, JsonView::Str(session_id)),
                ("condition"@, condition),
            ],
        ),
        ActionView::Snapshot { session_id, name } => JsonView::Object(
            seq![
                ("action"@, JsonView::Str(ACTION_SNAPSHOT@)),
                ("session_id"@, JsonView::Str(session_id)),
                ("name"@, JsonView::Str(name)),
            ],
        ),
        ActionView::Resize { session_id, width, height } => JsonView::Object(
            seq![
                ("action"@, JsonView::Str(ACTION_RESIZE@)),
                ("session_id"@, JsonView::Str(session_id)),
                ("width"@, JsonView::PosInt(width as u64)),
                ("height"@, JsonView::PosInt(height as u64)),
            ],
        ),
        ActionView::Close { session_id, signal, timeout_ms } => JsonView::Object(
            seq![
                ("action"@, JsonView::Str(ACTION_CLOSE@)),
                ("session_id"@, JsonView::Str(session_id)),
                ("signal"@, opt_str_json(signal)),
                ("timeout_ms"@, JsonView::PosInt(timeout_ms)),
            ],
        ),
    }
}

/// Reading back the canonical JSON of any action gives the same action:
/// what `to_json` writes, `from_json` accepts unchanged.
pub proof fn lemma_action_json_roundtrip(a: ActionView)
    ensures
        action_of_json(action_to_json(a)) == Ok::<ActionView, Seq<char>>(a),
{
    lemma_wire_names_distinct();
    reveal_with_fuel(lookup, 8);
    reveal_with_fuel(first_unknown_field, 8);
    let j = action_to_json(a);
    match a {
        ActionView::Launch { command, args, cwd, terminal, env, timeout_ms } => {
            let entries = j->Object_0;
            assert(field(j, "args"@) == Some(JsonView::Array(Seq::new(args.len(), |i: int| JsonView::Str(args[i])))));
            assert(string_list(j, "args"@) == Ok::<Seq<Seq<char>>, Seq<char>>(args)) by {
                let items = Seq::new(args.len(), |i: int| JsonView::Str(args[i]));
                assert(all_strings(items));
                assert(Seq::new(items.len(), |i: int| items[i]->Str_0) =~= args);
            }
            assert(string_map(j, "env"@) == Ok::<Seq<(Seq<char>, Seq<char>)>, Seq<char>>(env)) by {
                let es = Seq::new(env.len(), |i: int| (env[i].0, JsonView::Str(env[i].1)));
                assert(all_string_values(es));
                assert(Seq::new(es.len(), |i: int| (es[i].0, es[i].1->Str_0)) =~= env);
            }
            match terminal {
                Some(t) => {
                    reveal_with_fuel(first_unknown_geometry, 3);
                },
                None => {},
            }
        },
        _ => {},
    }
}

pub(crate) fn entry(key: &str, value: JsonValue) -> (r: (String, JsonValue))
    ensures
        r.0@ == key@,
        r.1 == value,
{
    (text(key), value)
}

pub(crate) fn str_json(s: &String) -> (r: JsonValue)
    ensures
        r@ == JsonView::Str(s@),
{
    JsonValue::Str(s.clone())
}

pub(crate) fn opt_str_json_exec(v: &Option<String>) -> (r: JsonValue)
    ensures
        r@ == opt_str_json(opt_string_view(*v)),
{
    match v {
        Some(s) => JsonValue::Str(s.clone()),
        None => JsonValue::Null,
    }
}

fn terminal_json_exec(t: &Option<TerminalSize>) -> (r: JsonValue)
    ensures
        r@ == terminal_json(*t),
{
    match t {
        Some(t) => {
            let mut es: Vec<(String, JsonValue)> = Vec::new();
            es.push(entry("width", JsonValue::PosInt(t.width as u64)));
            es.push(entry("height", JsonValue::PosInt(t.height as u64)));
            let r = JsonValue::Object(es);
            assert(entry_views(es@) =~= seq![("width"@, JsonView::PosInt(t.width as u64)), ("height"@, JsonView::PosInt(t.height as u64))]);
            r
        },
        None => JsonValue::Null,
    }
}

pub(crate) fn strings_json(args: &Vec<String>) -> (r: JsonValue)
    ensures
        r@ == JsonView::Array(Seq::new(args@.len(), |i: int| JsonView::Str(args@[i]@))),
{
    let mut items: Vec<JsonValue> = Vec::new();
    let mut i: usize = 0;
    while i < args.len()
        invariant
            i <= args@.len(),
            items@.len() == i,
            forall|j: int| 0 <= j < i ==> #[trigger] items@[j]@ == JsonView::Str(args@[j]@),
        decreases args@.len() - i,
    {
        items.push(str_json(&args[i]));
        i = i + 1;
    }
    assert forall|j: int| 0 <= j < items@.len() implies item_views(items@)[j] == JsonView::Str(args@[j]@) by {
        assert(items@[j]@ == JsonView::Str(args@[j]@));
    }
    assert(item_views(items@) =~= Seq::new(args@.len(), |j: int| JsonView::Str(args@[j]@)));
    JsonValue::Array(items)
}

pub(crate) fn pairs_json(env: &Vec<(String, String)>) -> (r: JsonValue)
    ensures
        r@ == JsonView::Object(
            Seq::new(env@.len(), |i: int| (env@[i].0@, JsonView::Str(env@[i].1@))),
        ),
{
    let mut es: Vec<(String, JsonValue)> = Vec::new();
    let mut i: usize = 0;
    while i < env.len()
        invariant
            i <= env@.len(),
            es@.len() == i,
            forall|j: int|
                0 <= j < i ==> #[trigger] es@[j].0@ == env@[j].0@ && es@[j].1@ == JsonView::Str(
                    env@[j].1@,
                ),
        decreases env@.len() - i,
    {
        es.push((env[i].0.clone(), str_json(&env[i].1)));
        i = i + 1;
    }
    assert(entry_views(es@) =~= Seq::new(env@.len(), |j: int| (env@[j].0@, JsonView::Str(env@[j].1@))));
    JsonValue::Object(es)
}

impl Action {
    /// The canonical JSON object of this action.
    pub fn to_json(&self) -> (r: JsonValue)
        ensures
            r@ == action_to_json(self@),
    {
        let mut es: Vec<(String, JsonValue)> = Vec::new();
        es.push(entry("action", JsonValue::Str(text(self.name()))));
        match self {
            Action::Launch { command, args, cwd, terminal, env, timeout_ms } => {
                es.push(entry("command", str_json(command)));
                es.push(entry("args", strings_json(args)));
                es.push(entry("cwd", opt_str_json_exec(cwd)));
                es.push(entry("terminal", terminal_json_exec(terminal)));
                es.push(entry("env", pairs_json(env)));
                es.push(entry("timeout_ms", JsonValue::PosInt(*timeout_ms)));
                assert(args@.len() == strings_view(args@).len());
                assert(Seq::new(args@.len(), |i: int| JsonView::Str(args@[i]@)) =~= Seq::new(
                    strings_view(args@).len(),
                    |i: int| JsonView::Str(strings_view(args@)[i]),
                ));
                assert(Seq::new(env@.len(), |i: int| (env@[i].0@, JsonView::Str(env@[i].1@))) =~= Seq::new(
                    pairs_view(env@).len(),
                    |i: int| (pairs_view(env@)[i].0, JsonView::Str(pairs_view(env@)[i].1)),
                ));
            },
            Action::Press { session_id, key } => {
                es.push(entry("session_id", str_json(session_id)));
                es.push(entry("key", str_json(key)));
            },
            Action::Type { session_id, text, sensitive } => {
                es.push(entry("session_id", str_json(session_id)));
                es.push(entry("text", str_json(text)));
                es.push(entry("sensitive", JsonValue::Bool(*sensitive)));
            },
            Action::WaitForText { session_id, text, regex, timeout_ms, poll_ms } => {
                es.push(entry("session_id", str_json(session_id)));
                es.push(entry("text", str_json(text)));
                es.push(entry("regex", JsonValue::Bool(*regex)));
                es.push(entry("timeout_ms", JsonValue::PosInt(*timeout_ms)));
                es.push(entry("poll_ms", JsonValue::PosInt(*poll_ms)));
            },
            Action::Screen { session_id, styled } => {
                es.push(entry("session_id", str_json(session_id)));
                es.push(entry("styled", JsonValue::Bool(*styled)));
            },
            Action::Assert { session_id, condition } => {
                es.push(entry("session_id", str_json(session_id)));
                es.push(entry("condition", condition.duplicate()));
            },
            Action::Snapshot { session_id, name } => {
                es.push(entry("session_id", str_json(session_id)));
                es.push(entry("name", str_json(name)));
            },
            Action::Resize { session_id, width, height } => {
                es.push(entry("session_id", str_json(session_id)));
                es.push(entry("width", JsonValue::PosInt(*width as u64)));
                es.push(entry("height", JsonValue::PosInt(*height as u64)));
            },
            Action::Close { session_id, signal, timeout_ms } => {
                es.push(entry("session_id", str_json(session_id)));
                es.push(entry("signal", opt_str_json_exec(signal)));
                es.push(entry("timeout_ms", JsonValue::PosInt(*timeout_ms)));
            },
        }
        let r = JsonValue::Object(es);
        assert(entry_views(es@) =~= action_to_json(self@)->Object_0);
        r
    }
}

} // verus!
