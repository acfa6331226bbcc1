//! Protocol wire conformance: JSON actions and YAML test files, read through
//! `serde_json` and `serde_yaml` into document trees.

use tuilab::json::JsonValue;
use tuilab::protocol::actions::Action;
use tuilab::protocol::steps::{parse_duration, Step, SuiteAssertion, TestFile};
use tuilab::protocol::utils::is_supported_schema;

fn from_json_value(v: &serde_json::Value) -> JsonValue {
    match v {
        serde_json::Value::Null => JsonValue::Null,
        serde_json::Value::Bool(b) => JsonValue::Bool(*b),
        serde_json::Value::Number(n) => {
            if let Some(u) = n.as_u64() {
                JsonValue::PosInt(u)
            } else if let Some(i) = n.as_i64() {
                JsonValue::NegInt(i)
            } else {
                JsonValue::Float(n.to_string())
            }
        }
        serde_json::Value::String(s) => JsonValue::Str(s.clone()),
        serde_json::Value::Array(items) => JsonValue::Array(items.iter().map(from_json_value).collect()),
        serde_json::Value::Object(map) => JsonValue::Object(
            map.iter().map(|(k, v)| (k.clone(), from_json_value(v))).collect(),
        ),
    }
}

fn to_json_value(v: &JsonValue) -> serde_json::Value {
    match v {
        JsonValue::Null => serde_json::Value::Null,
        JsonValue::Bool(b) => serde_json::Value::Bool(*b),
        JsonValue::PosInt(n) => serde_json::Value::from(*n),
        JsonValue::NegInt(n) => serde_json::Value::from(*n),
        JsonValue::Float(t) => serde_json::from_str(t).unwrap_or(serde_json::Value::Null),
        JsonValue::Str(s) => serde_json::Value::String(s.clone()),
        JsonValue::Array(items) => serde_json::Value::Array(items.iter().map(to_json_value).collect()),
        JsonValue::Object(entries) => {
            let mut map = serde_json::Map::new();
            for (k, v) in entries {
                map.insert(k.clone(), to_json_value(v));
            }
            serde_json::Value::Object(map)
        }
    }
}

fn from_yaml_value(v: &serde_yaml::Value) -> JsonValue {
    match v {
        serde_yaml::Value::Null => JsonValue::Null,
        serde_yaml::Value::Bool(b) => JsonValue::Bool(*b),
        serde_yaml::Value::Number(n) => {
            if let Some(u) = n.as_u64() {
                JsonValue::PosInt(u)
            } else if let Some(i) = n.as_i64() {
                JsonValue::NegInt(i)
            } else {
                JsonValue::Float(n.to_string())
            }
        }
        serde_yaml::Value::String(s) => JsonValue::Str(s.clone()),
        serde_yaml::Value::Sequence(items) => JsonValue::Array(items.iter().map(from_yaml_value).collect()),
        serde_yaml::Value::Mapping(map) => JsonValue::Object(
            map.iter()
                .map(|(k, v)| {
                    let key = match k {
                        serde_yaml::Value::String(s) => s.clone(),
                        other => serde_yaml::to_string(other).unwrap_or_default().trim().to_string(),
                    };
                    (key, from_yaml_value(v))
                })
                .collect(),
        ),
        serde_yaml::Value::Tagged(tagged) => from_yaml_value(&tagged.value),
    }
}

fn action(text: &str) -> Result<Action, String> {
    let v: serde_json::Value = serde_json::from_str(text).map_err(|e| e.to_string())?;
    Action::from_json(&from_json_value(&v)).map_err(|e| e.to_string())
}

fn action_text(a: &Action) -> String {
    serde_json::to_string(&to_json_value(&a.to_json())).expect("serialize")
}

fn test_file(text: &str) -> Result<TestFile, String> {
    let v: serde_yaml::Value = serde_yaml::from_str(text).map_err(|e| e.to_string())?;
    TestFile::from_tree(&from_yaml_value(&v)).map_err(|e| e.to_string())
}

#[test]
fn accepts_v1_schema() {
    assert!(is_supported_schema("tui-lab/v1"));
}

#[test]
fn rejects_unknown_schema() {
    assert!(!is_supported_schema("tui-lab/v9"));
}

#[test]
fn launch_round_trip_with_defaults() {
    let json = r#"{"action":"launch","command":"python app.py"}"#;
    let action_read = action(json).expect("parse launch");
    assert_eq!(action_read.name(), "launch");
    let back = action_text(&action_read);
    let again = action(&back).expect("re-parse");
    assert_eq!(action_read, again);
    match again {
        Action::Launch {
            args, timeout_ms, ..
        } => {
            assert!(args.is_empty());
            assert_eq!(timeout_ms, 10_000);
        }
        other => panic!("expected launch, got {other:?}"),
    }
}

#[test]
fn press_type_wait_screen_assert_snapshot_resize_close_parse() {
    let sid = "sess_123";
    let cases = [
        format!(r#"{{"action":"press","session_id":"{sid}","key":"ENTER"}}"#),
        format!(r#"{{"action":"type","session_id":"{sid}","text":"hi"}}"#),
        format!(r#"{{"action":"wait_for_text","session_id":"{sid}","text":"Dashboard"}}"#),
        format!(r#"{{"action":"screen","session_id":"{sid}"}}"#),
        format!(
            r#"{{"action":"assert","session_id":"{sid}","condition":{{"type":"text_visible","value":"x"}}}}"#
        ),
        format!(r#"{{"action":"snapshot","session_id":"{sid}","name":"dash"}}"#),
        format!(r#"{{"action":"resize","session_id":"{sid}","width":80,"height":24}}"#),
        format!(r#"{{"action":"close","session_id":"{sid}"}}"#),
    ];
    let names = [
        "press",
        "type",
        "wait_for_text",
        "screen",
        "assert",
        "snapshot",
        "resize",
        "close",
    ];
    for (json, name) in cases.iter().zip(names) {
        let parsed = action(json).expect(name);
        assert_eq!(parsed.name(), name);
    }
}

#[test]
fn every_action_survives_a_round_trip() {
    let cases = [
        r#"{"action":"launch","command":"./app","args":["-v"],"cwd":"/tmp","terminal":{"width":80,"height":24},"env":{"TERM":"xterm"},"timeout_ms":99}"#,
        r#"{"action":"type","session_id":"s","text":"pw","sensitive":true}"#,
        r#"{"action":"wait_for_text","session_id":"s","text":"a+","regex":true,"timeout_ms":7,"poll_ms":3}"#,
        r#"{"action":"screen","session_id":"s","styled":true}"#,
        r#"{"action":"close","session_id":"s","signal":"q","timeout_ms":1}"#,
    ];
    for json in cases {
        let first = action(json).expect(json);
        let again = action(&action_text(&first)).expect("re-parse");
        assert_eq!(first, again, "{json}");
    }
}

#[test]
fn wait_defaults_apply() {
    let parsed = action(r#"{"action":"wait_for_text","session_id":"s","text":"x"}"#)
        .expect("parse wait");
    match parsed {
        Action::WaitForText {
            timeout_ms,
            poll_ms,
            regex,
            ..
        } => {
            assert_eq!(timeout_ms, 3_000);
            assert_eq!(poll_ms, 50);
            assert!(!regex);
        }
        other => panic!("expected wait_for_text, got {other:?}"),
    }
}

#[test]
fn unknown_action_is_rejected() {
    assert!(action(r#"{"action":"dance"}"#).is_err());
}

#[test]
fn unknown_fields_are_rejected() {
    assert!(action(r#"{"action":"press","session_id":"s","key":"ENTER","bogus":1}"#).is_err());
}

#[test]
fn missing_fields_are_rejected() {
    assert!(action(r#"{"action":"press","session_id":"s"}"#).is_err());
    assert!(action(r#"{"session_id":"s"}"#).is_err());
}

const FULL_EXAMPLE: &str = r#"
schema: tui-lab/v1
name: CodeGraph Project Search
application:
  command: "./codegraph"
  args: ["--project", "./sample-project"]
terminal:
  width: 120
  height: 40
  timeout: 10s
steps:
  - wait_for_text:
      text: "CodeGraph"
  - press: ENTER
  - wait_for_text:
      text: "Projects"
  - press: "/"
  - type: "table"
  - press: ENTER
  - wait_for_text:
      text: "Search Results"
  - assert_text:
      contains: "table"
  - screenshot:
      name: "search-results"
  - press: q
assertions:
  - exit_code: 0
"#;

#[test]
fn full_example_parses() {
    let file = test_file(FULL_EXAMPLE).expect("parse full example");
    assert_eq!(file.schema, "tui-lab/v1");
    assert_eq!(file.name, "CodeGraph Project Search");
    assert_eq!(file.application.command, "./codegraph");
    assert_eq!(file.application.args.len(), 2);
    assert_eq!(file.terminal.width, 120);
    assert_eq!(file.terminal.height, 40);
    assert_eq!(file.terminal.timeout_ms, Some(10_000));
    assert_eq!(file.steps.len(), 10);
    assert!(matches!(file.steps[0], Step::WaitForText(_)));
    assert!(matches!(file.steps[1], Step::Press(_)));
    assert!(matches!(file.steps[4], Step::Type(_)));
    assert!(matches!(file.steps[8], Step::Screenshot(_)));
    assert_eq!(file.assertions.len(), 1);
    assert_eq!(file.assertions[0], SuiteAssertion::ExitCode(0));
}

#[test]
fn minimal_example_with_setup_cleanup_parses() {
    let yaml = r#"
schema: tui-lab/v1
name: Navigation Test
application:
  command: "./myapp"
environment:
  TERM: xterm-256color
terminal:
  width: 120
  height: 40
setup:
  - wait_for_text:
      text: "Main Menu"
      timeout: 5s
steps:
  - press: ENTER
  - wait_for_text:
      text: "Dashboard"
  - assert_text:
      contains: "Dashboard"
cleanup:
  - press: q
assertions:
  - exit_code: 0
"#;
    let file = test_file(yaml).expect("parse minimal");
    assert_eq!(file.setup.len(), 1);
    assert_eq!(file.cleanup.len(), 1);
    match &file.setup[0] {
        Step::WaitForText(wait) => {
            assert_eq!(wait.text, "Main Menu");
            assert_eq!(wait.timeout_ms, Some(5_000));
        }
        other => panic!("expected wait_for_text, got {other:?}"),
    }
}

#[test]
fn unsupported_schema_version_is_rejected() {
    let yaml = "schema: tui-lab/v9\nname: x\napplication:\n  command: y\nsteps: []\n";
    assert!(test_file(yaml).is_err());
}

#[test]
fn malformed_yaml_is_rejected() {
    assert!(test_file("schema: [unclosed").is_err());
}

#[test]
fn test_files_survive_a_round_trip() {
    let mut file = test_file(FULL_EXAMPLE).expect("parse");
    let again = TestFile::from_tree(&file.to_tree()).expect("re-parse");
    // `screenshot` is written back under its canonical name, `snapshot`.
    let shot = match file.steps.remove(8) {
        Step::Screenshot(take) => take,
        other => panic!("expected a screenshot, got {other:?}"),
    };
    file.steps.insert(8, Step::Snapshot(shot));
    assert_eq!(file, again);
}

#[test]
fn durations_read_in_their_units() {
    assert_eq!(parse_duration("500ms"), Ok(500));
    assert_eq!(parse_duration("3s"), Ok(3_000));
    assert_eq!(parse_duration("2m"), Ok(120_000));
    assert_eq!(parse_duration("250"), Ok(250));
    assert!(parse_duration("abc").is_err());
    assert!(parse_duration("5h").is_err());
}

#[test]
fn wait_for_text_takes_the_text_alone() {
    let yaml = r#"
schema: tui-lab/v1
name: Navigation Test
application:
  command: "./myapp"
terminal:
  width: 120
  height: 40
steps:
  - wait_for_text: "Main Menu"
  - press: ENTER
  - wait_for_text: "Dashboard"
  - assert_text:
      contains: "Dashboard"
cleanup:
  - press: q
"#;
    let file = test_file(yaml).expect("parse");
    assert_eq!(file.steps.len(), 4);
    match &file.steps[0] {
        Step::WaitForText(wait) => {
            assert_eq!(wait.text, "Main Menu");
            assert!(!wait.regex);
            assert_eq!(wait.timeout_ms, None);
        }
        other => panic!("expected wait_for_text, got {other:?}"),
    }
    assert!(file.assertions.is_empty());
    assert_eq!(file.cleanup.len(), 1);
}

#[test]
fn step_errors_name_the_problem() {
    let bad = |step: &str| {
        let yaml = format!("schema: tui-lab/v1\nname: x\napplication:\n  command: y\nsteps:\n  - {step}\n");
        test_file(&yaml).expect_err(step)
    };
    assert!(bad("dance: 1").contains("unknown step: dance"));
    assert!(bad("press: [1]").contains("expected a string"));
    assert!(bad("wait_for_text: { text: x, bogus: 1 }").contains("unknown field `bogus`"));
    assert!(bad("sleep: 5h").contains("bad duration unit"));
}
