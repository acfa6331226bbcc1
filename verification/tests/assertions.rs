//! Assertion conditions against canned screens.

use tuilab::assertions::conditions::{
    condition_from_json, evaluate, regex_verdict, Condition, ScreenView,
};
use tuilab::assertions::utils::contains;
use tuilab::json::JsonValue;

fn live() -> ScreenView {
    ScreenView::live("Welcome to Dashboard\n> Projects\n  Settings", (2, 5), true)
}

#[test]
fn finds_visible_text() {
    assert!(contains("Welcome to Dashboard", "Dashboard"));
}

#[test]
fn misses_absent_text() {
    assert!(!contains("Welcome", "Dashboard"));
}

#[test]
fn empty_needle_is_always_visible() {
    assert!(contains("", ""));
    assert!(contains("abc", ""));
    assert!(!contains("", "a"));
}

#[test]
fn text_conditions() {
    let view = live();
    assert!(evaluate(&Condition::TextVisible("Dashboard".into()), &view).passed);
    assert!(!evaluate(&Condition::TextVisible("Missing".into()), &view).passed);
    assert!(evaluate(&Condition::TextNotVisible("Unhandled panic".into()), &view).passed);
    assert!(!evaluate(&Condition::TextNotVisible("Dashboard".into()), &view).passed);
    assert!(evaluate(&Condition::TextRegex(r"Proj\w+".into()), &view).passed);
    assert!(!evaluate(&Condition::TextRegex(r"Z{9}".into()), &view).passed);
    assert!(!evaluate(&Condition::TextRegex("([".into()), &view).passed);
}

#[test]
fn exact_text_trims_edges() {
    let view = ScreenView::live("  Dashboard\n", (0, 0), false);
    assert!(evaluate(&Condition::ExactText("Dashboard".into()), &view).passed);
    assert!(!evaluate(&Condition::ExactText("Other".into()), &view).passed);
}

#[test]
fn cursor_and_change_conditions() {
    let view = live();
    assert!(evaluate(&Condition::CursorPosition { row: 2, col: 5 }, &view).passed);
    assert!(!evaluate(&Condition::CursorPosition { row: 3, col: 10 }, &view).passed);
    assert!(evaluate(&Condition::ScreenChanged(true), &view).passed);
    assert!(!evaluate(&Condition::ScreenChanged(false), &view).passed);
}

#[test]
fn process_conditions() {
    let ended = ScreenView {
        exit_code: Some(0),
        crashed: false,
        ..live()
    };
    assert!(evaluate(&Condition::ExitCode(0), &ended).passed);
    assert!(!evaluate(&Condition::ExitCode(1), &ended).passed);
    assert!(evaluate(&Condition::NotCrashed, &ended).passed);

    let crashed = ScreenView {
        crashed: true,
        ..live()
    };
    assert!(!evaluate(&Condition::NotCrashed, &crashed).passed);

    let running = live();
    let verdict = evaluate(&Condition::ExitCode(0), &running);
    assert!(!verdict.passed);
    assert!(verdict.detail.contains("still running"));
}

#[test]
fn invalid_regex_verdict_carries_the_error() {
    let verdict = regex_verdict("([", Err("unclosed group".to_string()));
    assert!(!verdict.passed);
    assert!(verdict.detail.contains("unclosed group"));
    assert!(regex_verdict("x", Ok(true)).passed);
    assert!(!regex_verdict("x", Ok(false)).passed);
}

fn object(entries: Vec<(&str, JsonValue)>) -> JsonValue {
    JsonValue::Object(entries.into_iter().map(|(k, v)| (k.to_string(), v)).collect())
}

#[test]
fn conditions_read_from_json_objects() {
    let visible = object(vec![
        ("type", JsonValue::Str("text_visible".into())),
        ("text", JsonValue::Str("x".into())),
    ]);
    assert_eq!(condition_from_json(&visible), Ok(Condition::TextVisible("x".into())));
    let cursor = object(vec![
        ("type", JsonValue::Str("cursor_position".into())),
        ("row", JsonValue::PosInt(2)),
        ("col", JsonValue::PosInt(5)),
    ]);
    assert_eq!(
        condition_from_json(&cursor),
        Ok(Condition::CursorPosition { row: 2, col: 5 })
    );
    let crashed = object(vec![("type", JsonValue::Str("not_crashed".into()))]);
    assert_eq!(condition_from_json(&crashed), Ok(Condition::NotCrashed));
    let unknown = object(vec![("type", JsonValue::Str("dance".into()))]);
    assert!(condition_from_json(&unknown).is_err());
}
