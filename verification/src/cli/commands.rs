//! The decisions of `run` and `report`: exit-code mapping, the human
//! summary, and the failure bundle printed with `--debug`.

use vstd::prelude::*;

use crate::cli::constants::{EXIT_CONFIG_ERROR, EXIT_OK, EXIT_PTY_ERROR, EXIT_TESTS_FAILED, EXIT_TIMEOUT};
use crate::engine::result::{StepResult, SuiteResult};
use crate::input::encoding::has_prefix;
use crate::text::{chars_of, dec_chars, push_dec_u64, push_str, starts_with_lit};

verus! {

/// Exit code for an infrastructure breakdown, by its message: launch and
/// PTY failures exit 3, timeouts 4, and every other breakdown (an unknown
/// key, a snapshot that cannot be written, ...) 2: a breakdown never reads
/// as a failed test.
pub open spec fn infra_exit(message: Seq<char>) -> i32 {
    if has_prefix(message, "launch failed"@) || has_prefix(message, "pty failed"@) {
        EXIT_PTY_ERROR
    } else if has_prefix(message, "timed out"@) {
        EXIT_TIMEOUT
    } else {
        EXIT_CONFIG_ERROR
    }
}

/// Exit code for an infrastructure breakdown, from its message.
pub fn infra_exit_code(message: &str) -> (r: i32)
    ensures
        r == infra_exit(message@),
        EXIT_CONFIG_ERROR <= r <= EXIT_TIMEOUT,
{
    let chars = chars_of(message);
    if starts_with_lit(chars.as_slice(), "launch failed") || starts_with_lit(chars.as_slice(), "pty failed") {
        EXIT_PTY_ERROR
    } else if starts_with_lit(chars.as_slice(), "timed out") {
        EXIT_TIMEOUT
    } else {
        EXIT_CONFIG_ERROR
    }
}

/// Number of passed suites.
pub open spec fn count_passed(results: Seq<SuiteResult>) -> nat
    decreases results.len(),
{
    if results.len() == 0 {
        0
    } else {
        count_passed(results.drop_last()) + if results.last().passed {
            1nat
        } else {
            0nat
        }
    }
}

proof fn lemma_count_passed_bound(results: Seq<SuiteResult>)
    ensures
        count_passed(results) <= results.len(),
    decreases results.len(),
{
    if results.len() > 0 {
        lemma_count_passed_bound(results.drop_last());
    }
}

/// How many suites passed.
pub fn passed_count(results: &Vec<SuiteResult>) -> (n: usize)
    ensures
        n == count_passed(results@),
{
    let mut n: usize = 0;
    let mut i: usize = 0;
    while i < results.len()
        invariant
            i <= results@.len(),
            n == count_passed(results@.take(i as int)),
            n <= i,
        decreases results@.len() - i,
    {
        assert(results@.take(i + 1).drop_last() =~= results@.take(i as int));
        if results[i].passed {
            n = n + 1;
        }
        i = i + 1;
    }
    assert(results@.take(results@.len() as int) =~= results@);
    n
}

/// The closing line of a run: `<passed> passed, <failed> failed`.
pub fn totals_line(results: &Vec<SuiteResult>) -> (r: String)
    ensures
        r@ == dec_chars(count_passed(results@)) + " passed, "@ + dec_chars(
            (results@.len() - count_passed(results@)) as nat,
        ) + " failed"@,
{
    proof {
        lemma_count_passed_bound(results@);
    }
    let passed = passed_count(results);
    let failed = results.len() - passed;
    let mut r = String::new();
    push_dec_u64(&mut r, passed as u64);
    push_str(&mut r, " passed, ");
    push_dec_u64(&mut r, failed as u64);
    push_str(&mut r, " failed");
    r
}

/// The outcomes of a sequential run, in suite order: `Ok(passed)` for a
/// suite that ran, `Err(message)` for one that broke down.
pub open spec fn outcome_views(v: Seq<Result<bool, String>>) -> Seq<Result<bool, Seq<char>>> {
    Seq::new(
        v.len(),
        |i: int|
            match v[i] {
                Ok(p) => Ok(p),
                Err(m) => Err(m@),
            },
    )
}

/// The exit code of a sequential run: the first breakdown decides (2 to 4,
/// by [`infra_exit`]) and nothing after it runs; without one, 1 when some
/// suite failed and 0 when all passed.
pub open spec fn run_exit(outcomes: Seq<Result<bool, Seq<char>>>) -> i32
    decreases outcomes.len(),
{
    if outcomes.len() == 0 {
        EXIT_OK
    } else {
        match outcomes[0] {
            Err(m) => infra_exit(m),
            Ok(passed) => {
                let rest = run_exit(outcomes.drop_first());
                if rest != EXIT_OK {
                    rest
                } else if passed {
                    EXIT_OK
                } else {
                    EXIT_TESTS_FAILED
                }
            },
        }
    }
}

/// A sequential run exits 0 exactly when every suite ran and passed, 1
/// exactly when every suite ran and some failed, and 2 to 4 exactly when a
/// suite broke down.
pub proof fn lemma_run_exit_cases(outcomes: Seq<Result<bool, Seq<char>>>)
    ensures
        (run_exit(outcomes) == EXIT_OK) == (forall|i: int|
            0 <= i < outcomes.len() ==> #[trigger] outcomes[i] == Ok::<bool, Seq<char>>(true)),
        (EXIT_CONFIG_ERROR <= run_exit(outcomes) <= EXIT_TIMEOUT) == (exists|i: int|
            0 <= i < outcomes.len() && #[trigger] outcomes[i] is Err),
        run_exit(outcomes) == EXIT_OK || run_exit(outcomes) == EXIT_TESTS_FAILED || (
        EXIT_CONFIG_ERROR <= run_exit(outcomes) <= EXIT_TIMEOUT),
    decreases outcomes.len(),
{
    if outcomes.len() > 0 {
        let rest = outcomes.drop_first();
        lemma_run_exit_cases(rest);
        assert forall|i: int| 0 <= i < rest.len() implies #[trigger] rest[i] == outcomes[i + 1] by {}
        if (forall|i: int| 0 <= i < outcomes.len() ==> #[trigger] outcomes[i] == Ok::<bool, Seq<char>>(true)) {
            assert(outcomes[0] == Ok::<bool, Seq<char>>(true));
            assert forall|i: int| 0 <= i < rest.len() implies #[trigger] rest[i] == Ok::<bool, Seq<char>>(true) by {
                assert(outcomes[i + 1] == Ok::<bool, Seq<char>>(true));
            }
        }
        if run_exit(outcomes) == EXIT_OK {
            assert forall|i: int| 0 <= i < outcomes.len() implies #[trigger] outcomes[i] == Ok::<bool, Seq<char>>(true) by {
                if i > 0 {
                    assert(rest[i - 1] == outcomes[i]);
                }
            }
        }
        if exists|i: int| 0 <= i < rest.len() && #[trigger] rest[i] is Err {
            let i = choose|i: int| 0 <= i < rest.len() && #[trigger] rest[i] is Err;
            assert(outcomes[i + 1] is Err);
        }
        if exists|i: int| 0 <= i < outcomes.len() && #[trigger] outcomes[i] is Err {
            let i = choose|i: int| 0 <= i < outcomes.len() && #[trigger] outcomes[i] is Err;
            if i > 0 {
                assert(rest[i - 1] is Err);
            }
        }
    }
}

/// The exit code of a sequential run from its outcomes in suite order.
pub fn sequential_exit(outcomes: &Vec<Result<bool, String>>) -> (r: i32)
    ensures
        r == run_exit(outcome_views(outcomes@)),
{
    let ghost v = outcome_views(outcomes@);
    let mut failed = false;
    let mut i: usize = 0;
    assert(v.skip(0) =~= v);
    while i < outcomes.len()
        invariant
            v == outcome_views(outcomes@),
            i <= outcomes@.len(),
            run_exit(v) == ({
                let rest = run_exit(v.skip(i as int));
                if rest != EXIT_OK {
                    rest
                } else if failed {
                    EXIT_TESTS_FAILED
                } else {
                    EXIT_OK
                }
            }),
        decreases outcomes@.len() - i,
    {
        assert(v.skip(i as int)[0] == v[i as int]);
        assert(v.skip(i as int).drop_first() =~= v.skip(i + 1));
        match &outcomes[i] {
            Err(m) => {
                return infra_exit_code(m.as_str());
            },
            Ok(passed) => {
                if !*passed {
                    failed = true;
                }
            },
        }
        i = i + 1;
    }
    assert(v.skip(i as int) =~= Seq::<Result<bool, Seq<char>>>::empty());
    if failed {
        EXIT_TESTS_FAILED
    } else {
        EXIT_OK
    }
}

/// The exit code of a completed run: 1 when any suite failed, else 0.
pub fn run_exit_code(results: &Vec<SuiteResult>) -> (r: i32)
    ensures
        r == (if exists|i: int| 0 <= i < results@.len() && !#[trigger] results@[i].passed {
            EXIT_TESTS_FAILED
        } else {
            EXIT_OK
        }),
{
    let mut i: usize = 0;
    while i < results.len()
        invariant
            i <= results@.len(),
            forall|j: int| 0 <= j < i ==> #[trigger] results@[j].passed,
        decreases results@.len() - i,
    {
        if !results[i].passed {
            return EXIT_TESTS_FAILED;
        }
        i = i + 1;
    }
    EXIT_OK
}

/// One-line-per-suite summary: a check or cross mark and the suite name.
pub fn summary_line(result: &SuiteResult) -> (r: String)
    ensures
        r@ == (if result.passed {
            "✓"@
        } else {
            "✗"@
        }) + " "@ + result.suite@,
{
    let mut r = String::new();
    if result.passed {
        push_str(&mut r, "✓");
    } else {
        push_str(&mut r, "✗");
    }
    push_str(&mut r, " ");
    push_str(&mut r, result.suite.as_str());
    r
}

/// A step line of the debug dump: `  [<i>] <kind> — <detail> (<ms>ms)`.
pub open spec fn step_line(s: StepResult) -> Seq<char> {
    "  ["@ + dec_chars(s.index as nat) + "] "@ + s.kind@ + " — "@ + s.detail@ + " ("@ + dec_chars(
        s.duration_ms as nat,
    ) + "ms)"@
}

fn step_line_exec(s: &StepResult) -> (r: String)
    ensures
        r@ == step_line(*s),
{
    let mut r = String::new();
    push_str(&mut r, "  [");
    push_dec_u64(&mut r, s.index as u64);
    push_str(&mut r, "] ");
    push_str(&mut r, s.kind.as_str());
    push_str(&mut r, " — ");
    push_str(&mut r, s.detail.as_str());
    push_str(&mut r, " (");
    push_dec_u64(&mut r, s.duration_ms as u64);
    push_str(&mut r, "ms)");
    r
}

/// The failure bundle lines of the `--debug` dump.
pub open spec fn failure_lines(failure: Option<crate::engine::result::FailureInfo>) -> Seq<Seq<char>> {
    match failure {
        Some(f) => seq![
            "--- failure at step "@ + dec_chars(f.step_index as nat) + " ("@ + f.step@ + ")"@,
            "expected: "@ + f.expected@,
            "actual: "@ + f.actual@,
            "input history:"@,
        ] + Seq::new(f.input_history@.len(), |i: int| "  "@ + f.input_history@[i]@) + seq![
            "last screen:\n"@ + f.last_screen@,
        ],
        None => seq![],
    }
}

/// The `--debug` dump: the failure bundle (step, expected, actual, input
/// history, last screen) when the suite failed, then one line per step.
pub open spec fn debug_dump(r: SuiteResult) -> Seq<Seq<char>> {
    failure_lines(r.failure) + Seq::new(r.steps@.len(), |i: int| step_line(r.steps@[i]))
}

fn line_of(prefix: &str, rest: &str) -> (r: String)
    ensures
        r@ == prefix@ + rest@,
{
    let mut r = String::new();
    push_str(&mut r, prefix);
    push_str(&mut r, rest);
    r
}

/// The lines of the `--debug` dump.
pub fn debug_lines(result: &SuiteResult) -> (r: Vec<String>)
    ensures
        r@.len() == debug_dump(*result).len(),
        forall|i: int| 0 <= i < r@.len() ==> #[trigger] r@[i]@ == debug_dump(*result)[i],
{
    let mut out: Vec<String> = Vec::new();
    let ghost head = failure_lines(result.failure);
    if let Some(f) = &result.failure {
        let mut first = String::new();
        push_str(&mut first, "--- failure at step ");
        push_dec_u64(&mut first, f.step_index as u64);
        push_str(&mut first, " (");
        push_str(&mut first, f.step.as_str());
        push_str(&mut first, ")");
        out.push(first);
        assert(out@[0]@ == head[0]);
        out.push(line_of("expected: ", f.expected.as_str()));
        out.push(line_of("actual: ", f.actual.as_str()));
        out.push("input history:".to_owned());
        let mut i: usize = 0;
        while i < f.input_history.len()
            invariant
                i <= f.input_history@.len(),
                out@.len() == 4 + i,
                forall|j: int| 0 <= j < 4 + i ==> #[trigger] out@[j]@ == head[j],
                head == failure_lines(result.failure),
                result.failure == Some(*f),
            decreases f.input_history@.len() - i,
        {
            out.push(line_of("  ", f.input_history[i].as_str()));
            i = i + 1;
        }
        out.push(line_of("last screen:\n", f.last_screen.as_str()));
        assert(out@.len() == head.len());
    }
    let base = out.len();
    let mut k: usize = 0;
    while k < result.steps.len()
        invariant
            k <= result.steps@.len(),
            base == head.len(),
            out@.len() == base + k,
            forall|j: int| 0 <= j < base ==> #[trigger] out@[j]@ == head[j],
            forall|j: int| base <= j < base + k ==> #[trigger] out@[j]@ == step_line(result.steps@[j - base]),
        decreases result.steps@.len() - k,
    {
        out.push(step_line_exec(&result.steps[k]));
        k = k + 1;
    }
    assert forall|i: int| 0 <= i < out@.len() implies #[trigger] out@[i]@ == debug_dump(*result)[i] by {
        if i < base {
            assert(out@[i]@ == head[i]);
        } else {
            assert(out@[i]@ == step_line(result.steps@[i - base]));
        }
    }
    out
}

} // verus!
