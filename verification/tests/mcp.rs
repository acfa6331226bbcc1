//! The MCP server's allowlist, jail, ids and tool answers.

use tuilab::engine::parallel::infra_failure;
use tuilab::engine::result::StepResult;
use tuilab::json::JsonValue;
use tuilab::mcp::constants::FORBIDDEN_COMMAND;
use tuilab::mcp::handler::{
    close_out, exit_state, launch_out, live_view, press_entry, run_test_output, snapshot_out,
    tool_error, type_entry,
};
use tuilab::mcp::security::{allowlist_from_config, jail, try_defaults, Allowlist};
use tuilab::mcp::utils::session_id;

fn object(entries: Vec<(&str, JsonValue)>) -> JsonValue {
    JsonValue::Object(entries.into_iter().map(|(k, v)| (k.to_string(), v)).collect())
}

fn parts(path: &[&str]) -> Vec<String> {
    path.iter().map(|p| p.to_string()).collect()
}

#[test]
fn formats_zero_padded_ids() {
    assert_eq!(session_id(7), "sess_007");
}

#[test]
fn defaults_allow_documented_commands() {
    let allow = Allowlist::defaults();
    assert!(allow.check("./myapp", &[]).is_ok());
    assert!(allow.check("cargo", &["run".into()]).is_ok());
    assert!(allow.check("python", &["app.py".into()]).is_ok());
}

#[test]
fn unmatched_commands_are_forbidden() {
    let allow = Allowlist::defaults();
    let err = allow
        .check("rm", &["-rf".into(), "/".into()])
        .expect_err("rm is forbidden");
    assert!(err.starts_with(FORBIDDEN_COMMAND));
}

#[test]
fn forbidden_message_names_the_line_and_the_patterns() {
    let allow = Allowlist::from_sources(&["^a$", "^b"]).expect("compile");
    let err = allow.check("rm", &["-rf".into(), "/".into()]).expect_err("forbidden");
    assert_eq!(err, r#"FORBIDDEN_COMMAND: "rm -rf /" matches none of ["^a$", "^b"]"#);
}

#[test]
fn bad_patterns_are_errors() {
    assert!(Allowlist::from_sources(&["(["]).is_err());
}

#[test]
fn bad_pattern_errors_name_the_pattern() {
    let err = match Allowlist::from_sources(&["^ok$", "(["]) {
        Ok(_) => panic!("\"([\" must not compile"),
        Err(e) => e,
    };
    assert!(err.starts_with(r#"bad allow_commands pattern "([": "#), "{err}");
}

#[test]
fn custom_patterns_replace_defaults() {
    let allow = Allowlist::from_sources(&["^\\.\\/myapp$"]).expect("compile");
    assert!(allow.check("./myapp", &[]).is_ok());
    assert!(allow.check("./other", &[]).is_err());
}

#[test]
fn security_missing_config_gives_defaults() {
    let allow = allowlist_from_config(None).expect("defaults");
    assert!(allow.check("./myapp", &[]).is_ok());
    let empty = object(vec![("security", object(vec![("allow_commands", JsonValue::Array(Vec::new()))]))]);
    let allow = allowlist_from_config(Some(&empty)).expect("defaults");
    assert!(allow.check("python", &[]).is_ok());
    assert!(try_defaults().is_some());
}

#[test]
fn configured_patterns_are_read_from_the_tree() {
    let config = object(vec![(
        "security",
        object(vec![(
            "allow_commands",
            JsonValue::Array(vec![JsonValue::Str("^only$".into()), JsonValue::PosInt(3)]),
        )]),
    )]);
    let allow = allowlist_from_config(Some(&config)).expect("compile");
    assert!(allow.check("only", &[]).is_ok());
    assert!(allow.check("./myapp", &[]).is_err());
}

#[test]
fn jail_blocks_dotdot_escape() {
    let root = parts(&["/", "tmp"]);
    assert!(jail(&root, &parts(&["/"]), "/").is_err());
    assert!(jail(&root, &root, "/tmp").is_ok());
    assert!(jail(&root, &parts(&["/", "tmp", "app"]), "/tmp/app").is_ok());
    assert_eq!(
        jail(&root, &parts(&["/", "tmpx"]), "/tmpx"),
        Err("cwd escapes project root: /tmpx".to_string())
    );
}

#[test]
fn tool_answers_are_assembled_exactly() {
    assert_eq!(tool_error("launch", "boom"), "launch: boom");
    assert_eq!(press_entry("ENTER"), "press ENTER");
    assert_eq!(type_entry("s3cret", true), "type[len=n, redacted]");
    assert_eq!(type_entry("hi", false), "type \"hi\"");
    let out = launch_out("sess_001".to_string(), "screen".to_string());
    assert_eq!(out.status, "running");
    assert_eq!(out.session_id, "sess_001");
    let closed = close_out(true, None);
    assert!(closed.success);
    assert_eq!(closed.exit_code, 0);
    assert!(snapshot_out(true, false, "d".to_string()).diff.is_none());
    assert!(snapshot_out(false, true, "d".to_string()).diff.is_none());
    assert_eq!(snapshot_out(false, false, "d".to_string()).diff, Some("d".to_string()));
}

#[test]
fn exit_polls_map_to_codes_and_crashes() {
    assert_eq!(exit_state(Some(true)), (Some(0), false));
    assert_eq!(exit_state(Some(false)), (None, true));
    assert_eq!(exit_state(None), (None, false));
    let view = live_view("x", (1, 2), Some(true));
    assert_eq!(view.exit_code, Some(0));
    assert!(view.screen_changed);
    assert_eq!(view.cursor, (1, 2));
}

#[test]
fn suite_runs_report_counts_and_the_failure() {
    let mut result = infra_failure("suite".to_string(), "boom");
    result.steps = vec![
        StepResult { index: 0, kind: "press".into(), passed: true, detail: String::new(), duration_ms: 1 },
        StepResult { index: 1, kind: "assert_text".into(), passed: false, detail: String::new(), duration_ms: 1 },
    ];
    let out = run_test_output(&result);
    assert_eq!(out.status, "failed");
    assert_eq!(out.passed, 1);
    assert_eq!(out.failed, 1);
    assert_eq!(out.failures.len(), 1);
    assert_eq!(out.failures[0].test, "suite");
    assert_eq!(out.failures[0].actual, "boom");
}
