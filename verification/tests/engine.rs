//! Session bookkeeping, ids, timeouts, result ordering and step outcomes.

use tuilab::engine::constants::DEFAULT_TIMEOUT_MS;
use tuilab::engine::sessions::DEFAULT_MAX_SESSIONS;
use tuilab::engine::parallel::{order_by_index, parallel_slots, results_of, infra_failure};
use tuilab::engine::sessions::SessionRegistry;
use tuilab::engine::utils::{clamp_timeout_ms, session_id};
use tuilab::engine::runner::{main_step, NextStep, StepOutcome, SuiteRun};
use tuilab::protocol::steps::{Application, Step, TerminalConfig, TestFile};
use tuilab::engine::sessions::stale_of;
use tuilab::engine::context::millis_of;

#[test]
fn zero_falls_back_to_default() {
    assert_eq!(clamp_timeout_ms(0), DEFAULT_TIMEOUT_MS);
}

#[test]
fn nonzero_passes_through() {
    assert_eq!(clamp_timeout_ms(250), 250);
}

#[test]
fn session_ids_are_zero_padded() {
    assert_eq!(session_id(7), "sess_007");
}

#[test]
fn session_ids_grow_past_three_digits() {
    assert_eq!(session_id(0), "sess_000");
    assert_eq!(session_id(42), "sess_042");
    assert_eq!(session_id(999), "sess_999");
    assert_eq!(session_id(1234), "sess_1234");
}

#[test]
fn spawn_returns_sequential_ids() {
    let mut registry: SessionRegistry<u32> = SessionRegistry::new();
    let first = registry.register(1).expect("spawn 1");
    let second = registry.register(2).expect("spawn 2");
    assert_eq!(first, "sess_001");
    assert_eq!(second, "sess_002");
    assert_eq!(registry.len(), 2);
    registry.remove(&first).expect("remove");
    registry.remove(&second).expect("remove");
    assert!(registry.is_empty());
}

#[test]
fn cap_is_enforced_without_orphans() {
    let mut registry: SessionRegistry<u32> = SessionRegistry::with_cap(2);
    let first = registry.register(1).expect("spawn 1");
    registry.register(2).expect("spawn 2");
    let err = registry.register(3).expect_err("cap");
    assert!(err.to_string().contains("session limit"));
    assert_eq!(registry.len(), 2);
    registry.remove(&first).expect("remove");
    let third = registry.register(4).expect("spawn 3");
    assert_eq!(third, "sess_003");
    registry.remove(&third).expect("remove");
    assert_eq!(registry.len(), 1);
    assert_eq!(registry.reap_idle(0).len(), 1);
    assert!(registry.is_empty());
}

#[test]
fn unknown_ids_name_themselves() {
    let mut registry: SessionRegistry<u32> = SessionRegistry::new();
    let err = registry.get_mut("sess_404").expect_err("lookup");
    assert!(err.to_string().contains("sess_404"));
    let err = registry.remove("sess_404").expect_err("remove");
    assert!(err.to_string().contains("sess_404"));
}

#[test]
fn fresh_sessions_survive_reaping() {
    let mut registry: SessionRegistry<u32> = SessionRegistry::new();
    let id = registry.register(9).expect("spawn");
    let reaped = registry.reap_idle(60_000);
    assert_eq!(reaped.len(), 0);
    assert!(registry.get_mut(&id).is_ok());
    registry.remove(&id).expect("remove");
}

#[test]
fn removing_returns_the_session_and_lookups_reach_it() {
    let mut registry: SessionRegistry<u32> = SessionRegistry::new();
    let id = registry.register(5).expect("spawn");
    *registry.get_mut(&id).expect("lookup") = 6;
    assert_eq!(registry.remove(&id).expect("remove"), 6);
    assert!(registry.get_mut(&id).is_err());
    assert_eq!(registry.next_id(), 2);
}

#[test]
fn parallel_slots_never_drop_below_one() {
    assert_eq!(parallel_slots(0), 1);
    assert_eq!(parallel_slots(1), 1);
    assert_eq!(parallel_slots(4), 4);
    assert_eq!(parallel_slots(1000), DEFAULT_MAX_SESSIONS);
}

#[test]
fn results_come_back_in_input_order() {
    let shuffled = vec![
        (2, infra_failure("c".to_string(), "boom")),
        (0, infra_failure("a".to_string(), "boom")),
        (1, infra_failure("b".to_string(), "boom")),
    ];
    let ordered = order_by_index(shuffled);
    let indices: Vec<usize> = ordered.iter().map(|(i, _)| *i).collect();
    assert_eq!(indices, vec![0, 1, 2]);
    let results = results_of(ordered);
    let names: Vec<&str> = results.iter().map(|r| r.suite.as_str()).collect();
    assert_eq!(names, vec!["a", "b", "c"]);
}

#[test]
fn infra_failures_fail_the_suite_with_the_error() {
    let result = infra_failure("suite".to_string(), "no such file");
    assert!(!result.passed);
    assert_eq!(result.suite, "suite");
    assert!(result.steps.is_empty());
    let failure = result.failure.expect("failure");
    assert_eq!(failure.step_index, 0);
    assert_eq!(failure.step, "launch");
    assert_eq!(failure.expected, "suite \"suite\" runs");
    assert_eq!(failure.actual, "no such file");
}

#[test]
fn run_options_default_to_the_engine_constants() {
    let opts = tuilab::engine::runner::RunOptions::new("xterm-256color".to_string());
    assert_eq!(opts.wait_default_ms, DEFAULT_TIMEOUT_MS);
    assert_eq!(opts.poll_ms, 50);
    assert_eq!(opts.close_grace_ms, None);
    assert_eq!(opts.snapshot_dir, "tests/snapshots");
    assert_eq!(opts.term, "xterm-256color");
}

#[test]
fn a_failed_cleanup_step_fails_the_suite() {
    let file = TestFile {
        schema: "tui-lab/v1".to_string(),
        name: "s".to_string(),
        application: Application { command: "./a".to_string(), args: Vec::new(), cwd: None },
        environment: Vec::new(),
        terminal: TerminalConfig { width: 80, height: 24, timeout_ms: None },
        setup: Vec::new(),
        steps: Vec::new(),
        cleanup: Vec::new(),
        assertions: Vec::new(),
    };
    let mut run = SuiteRun::new();
    let press = Step::Press("q".to_string());
    run.record_main(&press, StepOutcome { passed: true, detail: "sent q".to_string() }, 1, "screen", &Vec::new());
    run.record_cleanup(&press, StepOutcome { passed: false, detail: "boom".to_string() }, 1, "screen", &vec!["press q".to_string()]);
    let result = run.finish(&file, true, None, 5, "xterm".to_string(), "screen", &Vec::new());
    assert!(!result.passed);
    let failure = result.failure.expect("failure");
    assert_eq!(failure.step_index, 1);
    assert_eq!(failure.step, "cleanup: press q");
    assert_eq!(failure.expected, "boom");
    assert_eq!(failure.input_history, vec!["press q".to_string()]);
}

#[test]
fn stale_sessions_are_those_idle_too_long() {
    assert_eq!(stale_of(&vec![0, 5_000_000, 5_000_001, 9_000_000], 5), vec![false, false, true, true]);
    assert!(stale_of(&Vec::new(), 0).is_empty());
}

#[test]
fn milliseconds_truncate_nanoseconds() {
    assert_eq!(millis_of(0), 0);
    assert_eq!(millis_of(1_999_999), 1);
    assert_eq!(millis_of(u64::MAX as u128 * 1_000_000 + 7_000_000), 6);
}

fn plan_file() -> TestFile {
    TestFile {
        schema: "tui-lab/v1".to_string(),
        name: "plan".to_string(),
        application: Application { command: "./a".to_string(), args: Vec::new(), cwd: None },
        environment: Vec::new(),
        terminal: TerminalConfig { width: 80, height: 24, timeout_ms: None },
        setup: vec![Step::Press("a".to_string())],
        steps: vec![Step::Press("b".to_string()), Step::Press("c".to_string())],
        cleanup: vec![Step::Press("x".to_string()), Step::Press("y".to_string())],
        assertions: Vec::new(),
    }
}

/// Drive a run: every step passes except the main-flow step at `fail_at`;
/// the hook answers `hook[k]` after the k-th step (true past the end).
fn drive(file: &TestFile, fail_at: Option<usize>, hook: &[bool]) -> Vec<(usize, String, bool)> {
    let mut run = SuiteRun::new();
    let mut k = 0;
    loop {
        let passed = match run.next_step(file) {
            NextStep::Main(i) => {
                let _ = main_step(file, i);
                fail_at != Some(i)
            }
            NextStep::Cleanup(_) => true,
            NextStep::Done => break,
        };
        run.record_next(file, StepOutcome { passed, detail: String::new() }, 0, "", &Vec::new());
        run.hook_answer(hook.get(k).copied().unwrap_or(true));
        k += 1;
    }
    run.results.iter().map(|r| (r.index, r.kind.clone(), r.passed)).collect()
}

#[test]
fn a_run_goes_setup_steps_then_cleanup_in_order() {
    let kinds: Vec<(usize, String, bool)> = drive(&plan_file(), None, &[]);
    assert_eq!(
        kinds,
        vec![
            (0, "press a".to_string(), true),
            (1, "press b".to_string(), true),
            (2, "press c".to_string(), true),
            (3, "cleanup: press x".to_string(), true),
            (4, "cleanup: press y".to_string(), true),
        ]
    );
}

#[test]
fn a_failing_step_ends_the_main_flow_but_cleanup_still_runs() {
    let kinds = drive(&plan_file(), Some(1), &[]);
    assert_eq!(
        kinds,
        vec![
            (0, "press a".to_string(), true),
            (1, "press b".to_string(), false),
            (2, "cleanup: press x".to_string(), true),
            (3, "cleanup: press y".to_string(), true),
        ]
    );
}

#[test]
fn a_hook_stops_the_main_flow_or_the_cleanup() {
    let stopped_main = drive(&plan_file(), None, &[false]);
    assert_eq!(stopped_main.len(), 3);
    assert_eq!(stopped_main[1].1, "cleanup: press x");
    let stopped_cleanup = drive(&plan_file(), None, &[true, true, true, false]);
    assert_eq!(stopped_cleanup.len(), 4);
    assert_eq!(stopped_cleanup[3].1, "cleanup: press x");
}
