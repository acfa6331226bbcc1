//! The JSON-lines engine mode's responses (`tuilab proto`).
//!
//! Success is `{"ok": true, ...fields}`, failure `{"ok": false, "error":
//! "..."}`; fields are written in key order. The transport (stdin/stdout)
//! and the sessions behind it are outside; what each action answers is
//! decided here.

use vstd::prelude::*;

use crate::cli::constants::MAX_PROTO_LINE_BYTES;
use crate::json::{entry_views, JsonValue, JsonView};
use crate::protocol::actions::{entry, opt_str_json, opt_string_view, text, TerminalSize};
use crate::text::{debug_str, dec_chars, push_dec_u64, push_str, quote_debug};

verus! {

fn object2(k1: &str, v1: JsonValue, k2: &str, v2: JsonValue) -> (r: JsonValue)
    ensures
        r@ == JsonView::Object(seq![(k1@, v1@), (k2@, v2@)]),
{
    let mut es: Vec<(String, JsonValue)> = Vec::new();
    es.push(entry(k1, v1));
    es.push(entry(k2, v2));
    let r = JsonValue::Object(es);
    assert(entry_views(es@) =~= seq![(k1@, es@[0].1@), (k2@, es@[1].1@)]);
    r
}

/// `{"error": message, "ok": false}`.
pub fn error_response(message: &str) -> (r: JsonValue)
    ensures
        r@ == JsonView::Object(seq![("error"@, JsonView::Str(message@)), ("ok"@, JsonView::Bool(false))]),
{
    object2("error", JsonValue::Str(text(message)), "ok", JsonValue::Bool(false))
}

/// `{"ok": true}`.
pub fn ok_response() -> (r: JsonValue)
    ensures
        r@ == JsonView::Object(seq![("ok"@, JsonView::Bool(true))]),
{
    let mut es: Vec<(String, JsonValue)> = Vec::new();
    es.push(entry("ok", JsonValue::Bool(true)));
    let r = JsonValue::Object(es);
    assert(entry_views(es@) =~= seq![("ok"@, JsonView::Bool(true))]);
    r
}

/// `launch` answer: the new session and its first screen.
pub fn launch_response(session_id: &str, screen: &str) -> (r: JsonValue)
    ensures
        r@ == JsonView::Object(
            seq![
                ("ok"@, JsonView::Bool(true)),
                ("screen"@, JsonView::Str(screen@)),
                ("session_id"@, JsonView::Str(session_id@)),
                ("status"@, JsonView::Str("running"@)),
            ],
        ),
{
    let mut es: Vec<(String, JsonValue)> = Vec::new();
    es.push(entry("ok", JsonValue::Bool(true)));
    es.push(entry("screen", JsonValue::Str(text(screen))));
    es.push(entry("session_id", JsonValue::Str(text(session_id))));
    es.push(entry("status", JsonValue::Str(text("running"))));
    let r = JsonValue::Object(es);
    assert(entry_views(es@) =~= r@->Object_0);
    assert(entry_views(es@) =~= seq![
        ("ok"@, JsonView::Bool(true)),
        ("screen"@, JsonView::Str(screen@)),
        ("session_id"@, JsonView::Str(session_id@)),
        ("status"@, JsonView::Str("running"@)),
    ]);
    r
}

/// `press` answer: whether the screen changed after the key.
pub fn press_response(screen_changed: bool) -> (r: JsonValue)
    ensures
        r@ == JsonView::Object(
            seq![("ok"@, JsonView::Bool(true)), ("screen_changed"@, JsonView::Bool(screen_changed))],
        ),
{
    object2("ok", JsonValue::Bool(true), "screen_changed", JsonValue::Bool(screen_changed))
}

/// `wait_for_text` answer.
pub fn wait_response(found: bool, elapsed_ms: u64, screen: &str) -> (r: JsonValue)
    ensures
        r@ == JsonView::Object(
            seq![
                ("elapsed_ms"@, JsonView::PosInt(elapsed_ms)),
                ("found"@, JsonView::Bool(found)),
                ("ok"@, JsonView::Bool(true)),
                ("screen"@, JsonView::Str(screen@)),
            ],
        ),
{
    let mut es: Vec<(String, JsonValue)> = Vec::new();
    es.push(entry("elapsed_ms", JsonValue::PosInt(elapsed_ms)));
    es.push(entry("found", JsonValue::Bool(found)));
    es.push(entry("ok", JsonValue::Bool(true)));
    es.push(entry("screen", JsonValue::Str(text(screen))));
    let r = JsonValue::Object(es);
    assert(entry_views(es@) =~= seq![
        ("elapsed_ms"@, JsonView::PosInt(elapsed_ms)),
        ("found"@, JsonView::Bool(found)),
        ("ok"@, JsonView::Bool(true)),
        ("screen"@, JsonView::Str(screen@)),
    ]);
    r
}

/// `screen` answer: geometry, cursor and text.
pub fn screen_response(width: u64, height: u64, row: u64, col: u64, screen: &str) -> (r: JsonValue)
    ensures
        r@ == JsonView::Object(
            seq![
                (
                    "cursor"@,
                    JsonView::Object(seq![("col"@, JsonView::PosInt(col)), ("row"@, JsonView::PosInt(row))]),
                ),
                ("height"@, JsonView::PosInt(height)),
                ("ok"@, JsonView::Bool(true)),
                ("text"@, JsonView::Str(screen@)),
                ("width"@, JsonView::PosInt(width)),
            ],
        ),
{
    let cursor = object2("col", JsonValue::PosInt(col), "row", JsonValue::PosInt(row));
    let mut es: Vec<(String, JsonValue)> = Vec::new();
    es.push(entry("cursor", cursor));
    es.push(entry("height", JsonValue::PosInt(height)));
    es.push(entry("ok", JsonValue::Bool(true)));
    es.push(entry("text", JsonValue::Str(text(screen))));
    es.push(entry("width", JsonValue::PosInt(width)));
    let r = JsonValue::Object(es);
    assert(entry_views(es@) =~= seq![
        (
            "cursor"@,
            JsonView::Object(seq![("col"@, JsonView::PosInt(col)), ("row"@, JsonView::PosInt(row))]),
        ),
        ("height"@, JsonView::PosInt(height)),
        ("ok"@, JsonView::Bool(true)),
        ("text"@, JsonView::Str(screen@)),
        ("width"@, JsonView::PosInt(width)),
    ]);
    r
}

/// `assert` answer: the verdict.
pub fn assert_response(passed: bool, detail: &str) -> (r: JsonValue)
    ensures
        r@ == JsonView::Object(
            seq![
                ("detail"@, JsonView::Str(detail@)),
                ("ok"@, JsonView::Bool(true)),
                ("passed"@, JsonView::Bool(passed)),
            ],
        ),
{
    let mut es: Vec<(String, JsonValue)> = Vec::new();
    es.push(entry("detail", JsonValue::Str(text(detail))));
    es.push(entry("ok", JsonValue::Bool(true)));
    es.push(entry("passed", JsonValue::Bool(passed)));
    let r = JsonValue::Object(es);
    assert(entry_views(es@) =~= seq![
        ("detail"@, JsonView::Str(detail@)),
        ("ok"@, JsonView::Bool(true)),
        ("passed"@, JsonView::Bool(passed)),
    ]);
    r
}

/// `snapshot` answer: a first capture is saved (`diff` null); a later one
/// is compared, with the diff when it differs.
pub fn snapshot_response(saved: bool, diff: Option<String>) -> (r: JsonValue)
    ensures
        r@ == JsonView::Object(
            seq![
                ("diff"@, opt_str_json(opt_string_view(diff))),
                ("ok"@, JsonView::Bool(true)),
                ("saved"@, JsonView::Bool(saved)),
            ],
        ),
{
    let ghost dv = opt_str_json(opt_string_view(diff));
    let d = match diff {
        Some(t) => JsonValue::Str(t),
        None => JsonValue::Null,
    };
    assert(d@ == dv);
    let mut es: Vec<(String, JsonValue)> = Vec::new();
    es.push(entry("diff", d));
    es.push(entry("ok", JsonValue::Bool(true)));
    es.push(entry("saved", JsonValue::Bool(saved)));
    let r = JsonValue::Object(es);
    assert(entry_views(es@) =~= seq![
        ("diff"@, dv),
        ("ok"@, JsonView::Bool(true)),
        ("saved"@, JsonView::Bool(saved)),
    ]);
    r
}

/// `close` answer: whether the child exited cleanly, and its signal.
pub fn close_response(success: bool, signal: Option<String>) -> (r: JsonValue)
    ensures
        r@ == JsonView::Object(
            seq![
                ("ok"@, JsonView::Bool(true)),
                ("signal"@, opt_str_json(opt_string_view(signal))),
                ("success"@, JsonView::Bool(success)),
            ],
        ),
{
    let ghost sv = opt_str_json(opt_string_view(signal));
    let s = match signal {
        Some(t) => JsonValue::Str(t),
        None => JsonValue::Null,
    };
    assert(s@ == sv);
    let mut es: Vec<(String, JsonValue)> = Vec::new();
    es.push(entry("ok", JsonValue::Bool(true)));
    es.push(entry("signal", s));
    es.push(entry("success", JsonValue::Bool(success)));
    let r = JsonValue::Object(es);
    assert(entry_views(es@) =~= seq![
        ("ok"@, JsonView::Bool(true)),
        ("signal"@, sv),
        ("success"@, JsonView::Bool(success)),
    ]);
    r
}

/// The input-history entry of a `type` action: sensitive text is never
/// echoed, only its length in bytes.
pub fn type_history(text_typed: &str, sensitive: bool) -> (r: String)
    ensures
        r@ == (if sensitive {
            "type[len="@ + dec_chars(vstd::utf8::encode_utf8(text_typed@).len()) + ", redacted]"@
        } else {
            "type "@ + debug_str(text_typed@)
        }),
{
    let mut r = String::new();
    if sensitive {
        let n = text_typed.as_bytes().len();
        push_str(&mut r, "type[len=");
        push_dec_u64(&mut r, n as u64);
        push_str(&mut r, ", redacted]");
    } else {
        push_str(&mut r, "type ");
        let q = quote_debug(text_typed);
        push_str(&mut r, q.as_str());
    }
    r
}

/// Launch geometry: the requested terminal, else 120x40.
pub fn launch_geometry(terminal: Option<TerminalSize>) -> (r: (u16, u16))
    ensures
        r == (match terminal {
            Some(t) => (t.width, t.height),
            None => (120u16, 40u16),
        }),
{
    match terminal {
        Some(t) => (t.width, t.height),
        None => (120, 40),
    }
}

/// What a non-blocking exit poll means for assertions: a clean exit reads
/// as code 0; any other exit as a crash; a running process as neither.
pub fn exit_view(status: Option<bool>) -> (r: (Option<i32>, bool))
    ensures
        r == (match status {
            Some(true) => (Some(0i32), false),
            Some(false) => (None::<i32>, true),
            None => (None::<i32>, false),
        }),
{
    match status {
        Some(true) => (Some(0), false),
        Some(false) => (None, true),
        None => (None, false),
    }
}

/// Whether an incoming line exceeds the size guard.
pub fn line_too_long(len: usize) -> (r: bool)
    ensures
        r == (len > MAX_PROTO_LINE_BYTES),
{
    len > MAX_PROTO_LINE_BYTES
}

} // verus!
