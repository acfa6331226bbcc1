//! The recorder's synthesis rules.

use tuilab::cli::recorder::{
    clean_line, coalesce_typing, commit_pending, decode_beat, emit_wait_for, finish_steps,
    first_new_line, flush_typing, last_stable_lines, recorded_suite, requeue, screen_changed,
    take_beat, Settling,
};
use tuilab::protocol::steps::{Step, SuiteAssertion};

fn none() -> Vec<String> {
    Vec::new()
}

#[test]
fn cleaning_yields_assertable_text() {
    assert_eq!(clean_line("┌TUI-LAB-SAMPLE──┐"), "TUI-LAB-SAMPLE");
    assert_eq!(clean_line("│> alpha-table   │"), "alpha-table");
    assert_eq!(clean_line("│Search: table   │"), "Search: table");
    assert_eq!(clean_line("   "), "");
}

#[test]
fn new_lines_ignore_borders() {
    let before = last_stable_lines("┌TUI-LAB-SAMPLE──┐\n│> alpha-table │");
    let after = "┌TUI-LAB-SAMPLE──┐\n│  alpha-table │\n│> gamma-table │";
    assert_eq!(
        first_new_line(&before, after),
        Some("gamma-table".to_string())
    );
}

#[test]
fn long_and_known_lines_are_no_wait_targets() {
    let long = "x".repeat(101);
    assert_eq!(first_new_line(&none(), &long), None);
    assert_eq!(first_new_line(&none(), &"é".repeat(50)), Some("é".repeat(50)));
    assert_eq!(first_new_line(&["a".to_string()], "a\n\n  \nb"), Some("b".to_string()));
    assert_eq!(first_new_line(&none(), ""), None);
}

#[test]
fn waits_are_emitted_only_for_new_lines() {
    let mut steps = Vec::new();
    emit_wait_for(&mut steps, &none(), "Boot\n");
    emit_wait_for(&mut steps, &last_stable_lines("Boot\n"), "Boot\n");
    assert_eq!(steps.len(), 1);
    match &steps[0] {
        Step::WaitForText(w) => {
            assert_eq!(w.text, "Boot");
            assert!(!w.regex);
            assert_eq!(w.timeout_ms, None);
        }
        other => panic!("expected a wait, got {other:?}"),
    }
}

#[test]
fn typing_runs_flush_into_one_type_step() {
    let mut pending = Vec::new();
    let mut run = String::from("abc");
    flush_typing(&mut pending, &mut run);
    assert_eq!(pending, vec![Step::Type("abc".to_string())]);
    assert!(run.is_empty());
    flush_typing(&mut pending, &mut run);
    assert_eq!(pending.len(), 1);
}

#[test]
fn adjacent_type_steps_merge() {
    let mut steps = vec![
        Step::Type("ab".to_string()),
        Step::Type("cd".to_string()),
        Step::Press("ENTER".to_string()),
        Step::Type("e".to_string()),
        Step::Type("f".to_string()),
        Step::Type("g".to_string()),
    ];
    coalesce_typing(&mut steps);
    assert_eq!(
        steps,
        vec![
            Step::Type("abcd".to_string()),
            Step::Press("ENTER".to_string()),
            Step::Type("efg".to_string()),
        ]
    );
}

#[test]
fn beats_are_capped_and_stop_at_the_finish_chord() {
    let mut carry = b"abcdefghij".to_vec();
    let (beat, stop) = take_beat(&mut carry);
    assert_eq!(beat, b"abcdefgh".to_vec());
    assert!(!stop);
    assert_eq!(carry, b"ij".to_vec());
    let mut carry = b"ab\x1ccd".to_vec();
    let (beat, stop) = take_beat(&mut carry);
    assert_eq!(beat, b"ab".to_vec());
    assert!(stop);
    assert!(carry.is_empty());
}

#[test]
fn beats_decode_into_presses_and_typing() {
    let mut pending = Vec::new();
    let mut run = String::new();
    let beat = b"hi\r\x03\x1b[A\x1b[";
    let (raw, consumed) = decode_beat(beat, &mut pending, &mut run);
    assert_eq!(consumed, 7);
    assert_eq!(
        raw,
        vec![b"h".to_vec(), b"i".to_vec(), b"\r".to_vec(), b"\x03".to_vec(), b"\x1b[A".to_vec()]
    );
    assert_eq!(
        pending,
        vec![
            Step::Type("hi".to_string()),
            Step::Press("ENTER".to_string()),
            Step::Press("CTRL+C".to_string()),
            Step::Press("UP".to_string()),
        ]
    );
    assert!(run.is_empty());
    let mut carry = b"x".to_vec();
    requeue(&mut carry, beat, consumed);
    assert_eq!(carry, b"\x1b[x".to_vec());
}

#[test]
fn committing_moves_pending_inputs() {
    let mut steps = vec![Step::Press("ENTER".to_string())];
    let mut pending = vec![Step::Press("UP".to_string())];
    let mut run = String::from("q");
    commit_pending(&mut steps, &mut pending, &mut run);
    assert_eq!(
        steps,
        vec![
            Step::Press("ENTER".to_string()),
            Step::Press("UP".to_string()),
            Step::Type("q".to_string()),
        ]
    );
    assert!(pending.is_empty());
    assert!(run.is_empty());
}

#[test]
fn a_lone_trailing_escape_becomes_a_press() {
    let mut steps = vec![Step::Type("a".to_string())];
    let mut pending = Vec::new();
    let mut run = String::from("b");
    let mut carry = vec![0x1b];
    let dropped = finish_steps(&mut steps, &mut pending, &mut run, &mut carry);
    assert_eq!(dropped, 0);
    assert_eq!(
        steps,
        vec![Step::Type("ab".to_string()), Step::Press("ESC".to_string())]
    );
    let mut steps = Vec::new();
    let mut carry = vec![0x1b, b'['];
    let dropped = finish_steps(&mut steps, &mut Vec::new(), &mut String::new(), &mut carry);
    assert_eq!(dropped, 2);
    assert!(steps.is_empty());
    assert!(carry.is_empty());
}

#[test]
fn recorded_suites_assert_a_clean_exit() {
    let suite = recorded_suite(
        "demo".to_string(),
        "./app".to_string(),
        vec!["-v".to_string()],
        80,
        24,
        vec![Step::Press("q".to_string())],
    );
    assert_eq!(suite.schema, "tui-lab/v1");
    assert_eq!(suite.name, "demo");
    assert_eq!(suite.application.command, "./app");
    assert_eq!(suite.application.args, vec!["-v".to_string()]);
    assert_eq!(suite.terminal.width, 80);
    assert_eq!(suite.terminal.height, 24);
    assert_eq!(suite.terminal.timeout_ms, None);
    assert!(suite.setup.is_empty() && suite.cleanup.is_empty() && suite.environment.is_empty());
    assert_eq!(suite.steps, vec![Step::Press("q".to_string())]);
    assert_eq!(suite.assertions, vec![SuiteAssertion::ExitCode(0)]);
    assert!(suite.steps.iter().all(|s| !matches!(s, Step::Sleep(_))));
}

#[test]
fn recorded_suites_read_back_unchanged() {
    let suite = recorded_suite(
        "demo".to_string(),
        "./app".to_string(),
        vec!["--flag".to_string()],
        100,
        30,
        vec![
            Step::Press("DOWN".to_string()),
            Step::Type("héllo".to_string()),
            Step::Press("ESC".to_string()),
        ],
    );
    let again = tuilab::protocol::steps::TestFile::from_tree(&suite.to_tree()).expect("reads back");
    assert_eq!(again, suite);
}

#[test]
fn a_screen_settles_after_three_repeats() {
    let mut s = Settling::new();
    assert!(!s.observe("boot".to_string()));
    assert_eq!((s.last.as_str(), s.steady), ("boot", 0));
    assert!(!s.observe("ready".to_string()));
    assert_eq!((s.last.as_str(), s.steady), ("ready", 0));
    assert!(!s.observe("ready".to_string()));
    assert!(!s.observe("ready".to_string()));
    assert_eq!(s.steady, 2);
    assert!(s.observe("ready".to_string()));
    assert_eq!((s.last.as_str(), s.steady), ("ready", 3));
}

#[test]
fn an_empty_first_screen_counts_as_a_repeat() {
    let mut s = Settling::new();
    assert!(!s.observe(String::new()));
    assert_eq!(s.steady, 1);
    assert!(!s.observe("x".to_string()));
    assert_eq!(s.steady, 0);
}

#[test]
fn a_changed_screen_must_differ_beyond_white_space_and_show_something() {
    assert!(screen_changed("menu\n", "boot"));
    assert!(!screen_changed("  boot \n", "boot"));
    assert!(!screen_changed(" \n\t", "boot"));
    assert!(!screen_changed("", ""));
    assert!(screen_changed("x", ""));
}
