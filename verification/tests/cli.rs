//! Command-line pieces: exit codes, project configuration, run summaries,
//! argument parsing and the JSON-lines engine's responses.

use tuilab::cli::args::parse_terminal;
use tuilab::cli::commands::{infra_exit_code, run_exit_code, sequential_exit, summary_line, totals_line};
use tuilab::cli::config::{is_blank, ProjectConfig};
use tuilab::cli::constants::{EXIT_CONFIG_ERROR, EXIT_OK, EXIT_PTY_ERROR, EXIT_TESTS_FAILED, EXIT_TIMEOUT};
use tuilab::cli::proto::{error_response, line_too_long, type_history};
use tuilab::cli::utils::exit_message;
use tuilab::engine::parallel::infra_failure;
use tuilab::engine::result::SuiteResult;
use tuilab::json::JsonValue;

fn from_yaml_value(v: &serde_yaml::Value) -> JsonValue {
    match v {
        serde_yaml::Value::Null => JsonValue::Null,
        serde_yaml::Value::Bool(b) => JsonValue::Bool(*b),
        serde_yaml::Value::Number(n) => {
            if let Some(u) = n.as_u64() {
                JsonValue::PosInt(u)
            } else if let Some(i) = n.as_i64() {
                JsonValue::NegInt(i)
            } else {
                JsonValue::Float(n.to_string())
            }
        }
        serde_yaml::Value::String(s) => JsonValue::Str(s.clone()),
        serde_yaml::Value::Sequence(items) => JsonValue::Array(items.iter().map(from_yaml_value).collect()),
        serde_yaml::Value::Mapping(map) => JsonValue::Object(
            map.iter()
                .map(|(k, v)| {
                    let key = match k {
                        serde_yaml::Value::String(s) => s.clone(),
                        other => serde_yaml::to_string(other).unwrap_or_default().trim().to_string(),
                    };
                    (key, from_yaml_value(v))
                })
                .collect(),
        ),
        serde_yaml::Value::Tagged(tagged) => from_yaml_value(&tagged.value),
    }
}

fn config(text: &str) -> Result<ProjectConfig, String> {
    if is_blank(text) {
        return Ok(ProjectConfig::default());
    }
    let v: serde_yaml::Value = serde_yaml::from_str(text).map_err(|e| e.to_string())?;
    ProjectConfig::from_tree(&from_yaml_value(&v))
}

fn passed_result(name: &str) -> SuiteResult {
    let mut r = infra_failure(name.to_string(), "x");
    r.passed = true;
    r.failure = None;
    r
}

#[test]
fn known_codes_have_messages() {
    assert!(exit_message(EXIT_OK).starts_with("ok"));
    assert!(exit_message(EXIT_TIMEOUT).starts_with("error"));
}

#[test]
fn every_exit_code_has_its_own_message() {
    assert_eq!(exit_message(EXIT_TESTS_FAILED), "fail: at least one test failed");
    assert_eq!(exit_message(EXIT_PTY_ERROR), "error: app launch or PTY failure");
    assert_eq!(exit_message(99), "error: unknown exit code");
}

#[test]
fn cli_config_missing_config_gives_defaults() {
    let config = config("").expect("defaults");
    assert_eq!(config.tests_dir, "tests");
    assert_eq!(config.default_terminal.width, 120);
    assert_eq!(config.parallel, 4);
    assert_eq!(config.report.json, "reports/results.json");
}

#[test]
fn malformed_config_is_an_error() {
    assert!(config("version: [unclosed\n").is_err());
}

#[test]
fn full_config_parses_including_security() {
    let text = r#"version: "1.0"
tests_dir: suites
default_terminal: { width: 80, height: 24 }
parallel: 2
security:
  allow_commands: ["./myapp", "cargo run*"]
"#;
    let config = config(text).expect("parse");
    assert_eq!(config.tests_dir, "suites");
    assert_eq!(config.default_terminal.width, 80);
    assert_eq!(config.parallel, 2);
    assert_eq!(config.security.allow_commands.len(), 2);
}

#[test]
fn unknown_config_keys_are_rejected() {
    assert!(config("bogus_key: 1\n").is_err());
}

#[test]
fn infra_errors_map_to_exit_codes() {
    assert_eq!(infra_exit_code("launch failed: no such file"), EXIT_PTY_ERROR);
    assert_eq!(infra_exit_code("pty failed"), EXIT_PTY_ERROR);
    assert_eq!(infra_exit_code("timed out after 5s"), EXIT_TIMEOUT);
    assert_eq!(infra_exit_code("\"F13\": unknown key: F13"), EXIT_CONFIG_ERROR);
    assert_eq!(infra_exit_code("something else"), EXIT_CONFIG_ERROR);
}

#[test]
fn run_summaries_count_and_decide() {
    let results = vec![passed_result("a"), infra_failure("b".to_string(), "boom")];
    assert_eq!(totals_line(&results), "1 passed, 1 failed");
    assert_eq!(run_exit_code(&results), EXIT_TESTS_FAILED);
    assert_eq!(run_exit_code(&vec![passed_result("a")]), EXIT_OK);
    assert_eq!(run_exit_code(&Vec::new()), EXIT_OK);
    assert_eq!(summary_line(&results[0]), "✓ a");
    assert_eq!(summary_line(&results[1]), "✗ b");
}

#[test]
fn terminal_geometry_parses() {
    assert_eq!(parse_terminal("80x24"), Ok((80, 24)));
    assert!(parse_terminal("80").is_err());
    assert!(parse_terminal("axb").is_err());
}

#[test]
fn sensitive_typing_is_redacted_in_history() {
    assert_eq!(type_history("s3cret", true), "type[len=6, redacted]");
    assert_eq!(type_history("hi", false), "type \"hi\"");
}

#[test]
fn proto_guards_line_size_and_reports_errors() {
    assert!(!line_too_long(10));
    assert!(line_too_long(2 * 1024 * 1024));
    match error_response("boom") {
        JsonValue::Object(entries) => {
            assert!(entries.iter().any(|(k, v)| k == "ok" && *v == JsonValue::Bool(false)));
            assert!(entries.iter().any(|(k, v)| k == "error" && *v == JsonValue::Str("boom".into())));
        }
        other => panic!("expected an object, got {other:?}"),
    }
}

#[test]
fn sequential_runs_exit_by_their_outcomes() {
    assert_eq!(sequential_exit(&Vec::new()), EXIT_OK);
    assert_eq!(sequential_exit(&vec![Ok(true), Ok(true)]), EXIT_OK);
    assert_eq!(sequential_exit(&vec![Ok(true), Ok(false)]), EXIT_TESTS_FAILED);
    assert_eq!(sequential_exit(&vec![Ok(false), Err("launch failed: x".to_string())]), EXIT_PTY_ERROR);
    assert_eq!(sequential_exit(&vec![Ok(true), Err("timed out".to_string())]), EXIT_TIMEOUT);
    assert_eq!(sequential_exit(&vec![Err("\"F13\": unknown key: F13".to_string())]), EXIT_CONFIG_ERROR);
}
