//! Parallel suite fan-out: one session per suite, results in input order.
//!
//! Each suite runs through the single-session runner; a bounded number of
//! them run at once (`max_parallel` clamped to the registry cap); results
//! are reassembled in input order regardless of completion order, and an
//! infrastructure failure becomes a failed result, never an abort.

use vstd::prelude::*;
use vstd::multiset::Multiset;
use vstd::seq_lib::*;

use crate::engine::result::{FailureInfo, SuiteResult, TerminalInfo};
use crate::engine::sessions::DEFAULT_MAX_SESSIONS;
use crate::protocol::constants::SCHEMA_ID;
use crate::text::{debug_str, push_str, quote_debug};

verus! {

/// How many suites run at once: `max_parallel` clamped to `[1, cap]`.
pub fn parallel_slots(max_parallel: usize) -> (r: usize)
    ensures
        r == (if max_parallel < 1 {
            1
        } else if max_parallel > DEFAULT_MAX_SESSIONS {
            DEFAULT_MAX_SESSIONS
        } else {
            max_parallel
        }),
{
    if max_parallel < 1 {
        1
    } else if max_parallel > DEFAULT_MAX_SESSIONS {
        DEFAULT_MAX_SESSIONS
    } else {
        max_parallel
    }
}

/// A failed result for an infrastructure breakdown (launch, PTY, timeout):
/// the suite is named, the error is the observed outcome, nothing ran.
pub fn infra_failure(suite: String, error: &str) -> (r: SuiteResult)
    ensures
        r.schema@ == SCHEMA_ID@,
        r.suite@ == suite@,
        !r.passed,
        r.exit_success is None,
        r.exit_signal is None,
        r.duration_ms == 0,
        r.steps@.len() == 0,
        r.failure is Some,
        r.failure->0.step_index == 0,
        r.failure->0.step@ == "launch"@,
        r.failure->0.expected@ == "suite "@ + debug_str(suite@) + " runs"@,
        r.failure->0.actual@ == error@,
        r.failure->0.last_screen@.len() == 0,
        r.failure->0.input_history@.len() == 0,
        r.terminal.width == 0,
        r.terminal.height == 0,
        r.terminal.term@.len() == 0,
{
    let mut expected = String::new();
    push_str(&mut expected, "suite ");
    let q = quote_debug(suite.as_str());
    push_str(&mut expected, q.as_str());
    push_str(&mut expected, " runs");
    SuiteResult {
        schema: SCHEMA_ID.to_owned(),
        suite,
        passed: false,
        exit_success: None,
        exit_signal: None,
        duration_ms: 0,
        steps: Vec::new(),
        failure: Some(
            FailureInfo {
                step_index: 0,
                step: "launch".to_owned(),
                expected,
                actual: error.to_owned(),
                last_screen: String::new(),
                input_history: Vec::new(),
            },
        ),
        terminal: TerminalInfo { width: 0, height: 0, term: String::new() },
    }
}

/// Whether the pairs are ordered by their index.
pub open spec fn ordered_by_index<T>(s: Seq<(usize, T)>) -> bool {
    forall|i: int, j: int| 0 <= i < j < s.len() ==> s[i].0 <= s[j].0
}

/// Reorder `(input index, result)` pairs by input index (stable), so that
/// results read in input order whatever order they completed in.
pub fn order_by_index(v: Vec<(usize, SuiteResult)>) -> (r: Vec<(usize, SuiteResult)>)
    ensures
        r@.to_multiset() == v@.to_multiset(),
        ordered_by_index(r@),
{
    let ghost input = v@;
    let mut rest = v;
    let mut out: Vec<(usize, SuiteResult)> = Vec::new();
    proof {
        broadcast use vstd::multiset::group_multiset_axioms;
        out@.to_multiset_ensures();
        assert(out@.to_multiset().len() == 0);
        assert(out@.to_multiset() =~= Multiset::<(usize, SuiteResult)>::empty());
        assert(out@.to_multiset().add(rest@.to_multiset()) =~= input.to_multiset());
    }
    while rest.len() > 0
        invariant
            out@.to_multiset().add(rest@.to_multiset()) == input.to_multiset(),
            ordered_by_index(out@),
        decreases rest@.len(),
    {
        let ghost before_rest = rest@;
        let item = rest.remove(0);
        let key = item.0;
        let mut pos: usize = 0;
        while pos < out.len() && out[pos].0 <= key
            invariant
                pos <= out@.len(),
                forall|j: int| 0 <= j < pos ==> out@[j].0 <= key,
            decreases out@.len() - pos,
        {
            pos = pos + 1;
        }
        let ghost before_out = out@;
        out.insert(pos, item);
        proof {
            broadcast use vstd::multiset::group_multiset_axioms;
            to_multiset_remove(before_rest, 0);
            to_multiset_insert(before_out, pos as int, item);
            assert(before_rest[0] == item);
            before_rest.to_multiset_ensures();
            assert(before_rest.contains(item));
            assert(before_rest.to_multiset().count(item) > 0);
            assert(out@.to_multiset().add(rest@.to_multiset()) =~= input.to_multiset());
            assert forall|i: int, j: int| 0 <= i < j < out@.len() implies out@[i].0 <= out@[j].0 by {
                if j < pos {
                } else if j == pos {
                } else if i < pos {
                    if pos < before_out.len() {
                        assert(before_out[pos as int].0 > key);
                    }
                } else if i == pos {
                    assert(before_out[pos as int].0 > key);
                    assert(before_out[pos as int].0 <= before_out[j - 1].0 || pos == j - 1);
                }
            }
        }
    }
    proof {
        broadcast use vstd::multiset::group_multiset_axioms;
        rest@.to_multiset_ensures();
        assert(rest@.to_multiset() =~= Multiset::<(usize, SuiteResult)>::empty());
        assert(out@.to_multiset().add(rest@.to_multiset()) =~= out@.to_multiset());
    }
    out
}

/// Index ordering of distinct indices is strict, and `n` strictly
/// increasing indices below `n` are `0, 1, …, n - 1`.
proof fn lemma_strict_indices(s: Seq<(usize, SuiteResult)>)
    requires
        ordered_by_index(s),
        forall|i: int, j: int| 0 <= i < j < s.len() ==> s[i].0 != s[j].0,
        forall|i: int| 0 <= i < s.len() ==> #[trigger] s[i].0 < s.len(),
    ensures
        forall|i: int| 0 <= i < s.len() ==> #[trigger] s[i].0 == i,
    decreases s.len(),
{
    if s.len() > 0 {
        let p = s.drop_last();
        let n = s.len() - 1;
        assert forall|i: int| 0 <= i < p.len() implies #[trigger] p[i].0 < p.len() by {
            assert(s[i].0 <= s[n].0 && s[i].0 != s[n].0);
        }
        lemma_strict_indices(p);
        assert forall|i: int| 0 <= i < s.len() implies #[trigger] s[i].0 == i by {
            if i < n {
                assert(s[i] == p[i]);
            } else if n > 0 {
                assert(s[n - 1] == p[n - 1]);
                assert(s[n - 1].0 <= s[n].0 && s[n - 1].0 != s[n].0);
            }
        }
    }
}

/// Results come back in input order, whatever order the suites finished
/// in: when the finished suites carry each input index below their count
/// exactly once, the pair at position `i` after [`order_by_index`] is the
/// one suite `i` finished with. A suite's failure is its own entry and
/// leaves every other entry as that suite produced it.
pub proof fn lemma_results_in_input_order(
    done: Seq<(usize, SuiteResult)>,
    ordered: Seq<(usize, SuiteResult)>,
)
    requires
        ordered.to_multiset() == done.to_multiset(),
        ordered_by_index(ordered),
        forall|j: int| 0 <= j < done.len() ==> #[trigger] done[j].0 < done.len(),
        forall|j: int, k: int| 0 <= j < k < done.len() ==> done[j].0 != done[k].0,
    ensures
        ordered.len() == done.len(),
        forall|i: int| 0 <= i < ordered.len() ==> #[trigger] ordered[i].0 == i && done.contains(ordered[i]),
{
    broadcast use vstd::seq_lib::group_to_multiset_ensures;

    ordered.to_multiset_ensures();
    done.to_multiset_ensures();
    assert(done.no_duplicates()) by {
        assert forall|j: int, k: int| 0 <= j < done.len() && 0 <= k < done.len() && j != k implies done[j]
            != done[k] by {
            if j < k {
                assert(done[j].0 != done[k].0);
            } else {
                assert(done[k].0 != done[j].0);
            }
        }
    }
    done.lemma_multiset_has_no_duplicates();
    assert forall|x: (usize, SuiteResult)| ordered.to_multiset().contains(x) implies ordered.to_multiset().count(x) == 1 by {
        assert(done.to_multiset().contains(x));
    }
    ordered.lemma_multiset_has_no_duplicates_conv();
    assert forall|i: int| 0 <= i < ordered.len() implies done.contains(#[trigger] ordered[i]) by {
        assert(ordered.contains(ordered[i]));
        assert(ordered.to_multiset().count(ordered[i]) > 0);
    }
    assert forall|i: int, j: int| 0 <= i < j < ordered.len() implies ordered[i].0 != ordered[j].0 by {
        assert(done.contains(ordered[i]));
        assert(done.contains(ordered[j]));
        let a = choose|a: int| 0 <= a < done.len() && done[a] == ordered[i];
        let b = choose|b: int| 0 <= b < done.len() && done[b] == ordered[j];
        assert(ordered[i] != ordered[j]);
        if ordered[i].0 == ordered[j].0 {
            assert(a != b);
            if a < b {
                assert(done[a].0 != done[b].0);
            } else {
                assert(done[b].0 != done[a].0);
            }
        }
    }
    assert forall|i: int| 0 <= i < ordered.len() implies #[trigger] ordered[i].0 < ordered.len() by {
        assert(done.contains(ordered[i]));
        let a = choose|a: int| 0 <= a < done.len() && done[a] == ordered[i];
        assert(done[a].0 < done.len());
    }
    lemma_strict_indices(ordered);
}

/// The results of ordered pairs, in order.
pub fn results_of(v: Vec<(usize, SuiteResult)>) -> (r: Vec<SuiteResult>)
    ensures
        r@ == Seq::new(v@.len(), |i: int| v@[i].1),
{
    let ghost input = v@;
    let mut rest = v;
    let mut out: Vec<SuiteResult> = Vec::new();
    while rest.len() > 0
        invariant
            out@.len() + rest@.len() == input.len(),
            rest@ == input.skip(out@.len() as int),
            forall|j: int| 0 <= j < out@.len() ==> #[trigger] out@[j] == input[j].1,
        decreases rest@.len(),
    {
        let ghost k = out@.len();
        let item = rest.remove(0);
        assert(input.skip(k as int).drop_first() =~= input.skip(k as int + 1));
        out.push(item.1);
    }
    assert(out@ =~= Seq::new(input.len(), |i: int| input[i].1));
    out
}

} // verus!
