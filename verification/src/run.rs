//! Suite orchestration state: one pre-allocated, index-addressed result slot
//! per test, so that the reported order always equals the input order no
//! matter in which order workers complete; the stop policy; and the recap
//! counts of a finished run.

use crate::exec::{exec_error_text, ExecError};
use crate::numfmt::{dec_digits, push_dec};
use vstd::prelude::*;
use vstd::string::StringExecFns;

verus! {

/// The verdict of one test, together with its report transcript. One instance
/// per test per run, written exactly once by the worker that ran the test.
#[derive(Debug, Clone, PartialEq, Eq)]
pub enum TestResult {
    /// The test has not run: the suite stopped before reaching it.
    NotRun,
    /// The engine itself failed on this test; carries the transcript and the
    /// error description.
    Error(String),
    /// The candidate disagreed with the reference; carries the transcript.
    Failed(String),
    /// The candidate agreed with the reference; carries the transcript.
    Passed(String),
}

impl Default for TestResult {
    /// A fresh slot: nothing has run yet.
    fn default() -> (r: Self)
        ensures
            r is NotRun,
    {
        TestResult::NotRun
    }
}

/// The kind of a result, with the diagnostic text abstracted away.
#[derive(Debug, Clone, Copy, PartialEq, Eq, Structural)]
pub enum VerdictKind {
    NotRun,
    Error,
    Failed,
    Passed,
}

pub open spec fn kind_of(r: TestResult) -> VerdictKind {
    match r {
        TestResult::NotRun => VerdictKind::NotRun,
        TestResult::Error(_) => VerdictKind::Error,
        TestResult::Failed(_) => VerdictKind::Failed,
        TestResult::Passed(_) => VerdictKind::Passed,
    }
}

/// The kinds of a whole result list.
pub open spec fn kinds_of(rs: Seq<TestResult>) -> Seq<VerdictKind> {
    rs.map_values(|r: TestResult| kind_of(r))
}

/// The kind of one result.
pub fn kind(r: &TestResult) -> (k: VerdictKind)
    ensures
        k == kind_of(*r),
{
    match r {
        TestResult::NotRun => VerdictKind::NotRun,
        TestResult::Error(_) => VerdictKind::Error,
        TestResult::Failed(_) => VerdictKind::Failed,
        TestResult::Passed(_) => VerdictKind::Passed,
    }
}

/// One result slot per test, all unwritten.
pub fn init_results(n: usize) -> (r: Vec<TestResult>)
    ensures
        r@.len() == n,
        forall|i: int| 0 <= i < n ==> r@[i] is NotRun,
{
    let mut v: Vec<TestResult> = Vec::new();
    let mut k: usize = 0;
    while k < n
        invariant
            k <= n,
            v@.len() == k,
            forall|i: int| 0 <= i < k ==> v@[i] is NotRun,
        decreases n - k,
    {
        v.push(TestResult::NotRun);
        k = k + 1;
    }
    v
}

/// Writes one test's verdict into its own slot, touching no other slot.
pub fn record_result(results: &mut Vec<TestResult>, idx: usize, res: TestResult)
    requires
        idx < old(results)@.len(),
    ensures
        final(results)@ == old(results)@.update(idx as int, res),
{
    results.set(idx, res);
}

/// Turns the engine's outcome for one test into that test's result: a verdict
/// carrying the transcript, with an engine failure appended to it.
pub fn finish_test(outcome: Result<bool, ExecError>, transcript: String) -> (r: TestResult)
    ensures
        outcome == Result::<bool, ExecError>::Ok(true) ==> r == TestResult::Passed(transcript),
        outcome == Result::<bool, ExecError>::Ok(false) ==> r == TestResult::Failed(transcript),
        (outcome matches Err(e) ==> r matches TestResult::Error(m) && m@ == transcript@
            + exec_error_text(e) + "\n########################"@),
{
    match outcome {
        Ok(true) => TestResult::Passed(transcript),
        Ok(false) => TestResult::Failed(transcript),
        Err(e) => {
            let mut s = transcript;
            let desc = e.describe();
            s.append(desc.as_str());
            s.append("\n########################");
            proof {
                assert(s@ =~= transcript@ + exec_error_text(e) + "\n########################"@);
            }
            TestResult::Error(s)
        },
    }
}

/// Whether the suite goes on after this result: a passed test continues, a
/// failed one only under `keep_going`, an engine error never, and `one` stops
/// the run after its first test no matter the verdict.
pub open spec fn continue_after_spec(r: TestResult, keep_going: bool, one: bool) -> bool {
    !one && match r {
        TestResult::Passed(_) => true,
        TestResult::Failed(_) => keep_going,
        TestResult::Error(_) => false,
        TestResult::NotRun => true,
    }
}

/// Decides the stop policy after one result.
pub fn continue_after(r: &TestResult, keep_going: bool, one: bool) -> (c: bool)
    ensures
        c == continue_after_spec(*r, keep_going, one),
{
    if one {
        return false;
    }
    match r {
        TestResult::Passed(_) => true,
        TestResult::Failed(_) => keep_going,
        TestResult::Error(_) => false,
        TestResult::NotRun => true,
    }
}

/// How many results passed.
pub open spec fn count_passed(rs: Seq<TestResult>) -> int
    decreases rs.len(),
{
    if rs.len() == 0 {
        0
    } else {
        count_passed(rs.drop_last()) + if rs.last() is Passed {
            1int
        } else {
            0int
        }
    }
}

/// How many results failed.
pub open spec fn count_failed(rs: Seq<TestResult>) -> int
    decreases rs.len(),
{
    if rs.len() == 0 {
        0
    } else {
        count_failed(rs.drop_last()) + if rs.last() is Failed {
            1int
        } else {
            0int
        }
    }
}

pub proof fn lemma_counts_bounded(rs: Seq<TestResult>)
    ensures
        0 <= count_passed(rs),
        0 <= count_failed(rs),
        count_passed(rs) + count_failed(rs) <= rs.len(),
    decreases rs.len(),
{
    if rs.len() > 0 {
        lemma_counts_bounded(rs.drop_last());
    }
}

/// Counts passed and failed results.
#[verifier::loop_isolation(false)]
pub fn recap_counts(results: &Vec<TestResult>) -> (r: (usize, usize))
    ensures
        r.0 == count_passed(results@),
        r.1 == count_failed(results@),
{
    let mut passed: usize = 0;
    let mut failed: usize = 0;
    let mut i: usize = 0;
    proof {
        assert(results@.take(0) =~= Seq::<TestResult>::empty());
    }
    while i < results.len()
        invariant
            i <= results@.len(),
            passed == count_passed(results@.take(i as int)),
            failed == count_failed(results@.take(i as int)),
        decreases results@.len() - i,
    {
        proof {
            lemma_counts_bounded(results@.take(i as int));
            assert(results@.take(i as int).len() == i);
            assert(results@.take(i + 1).drop_last() =~= results@.take(i as int));
            assert(results@.take(i + 1).last() == results@[i as int]);
        }
        match &results[i] {
            TestResult::Passed(_) => {
                passed = passed + 1;
            },
            TestResult::Failed(_) => {
                failed = failed + 1;
            },
            _ => {},
        }
        i = i + 1;
    }
    proof {
        assert(results@.take(results@.len() as int) =~= results@);
    }
    (passed, failed)
}

/// The recap line that ends every suite run: passed, failed, ignored and
/// not-run counts.
pub open spec fn recap_text(n_tests: int, ignored: int, rs: Seq<TestResult>) -> Seq<char> {
    dec_digits(count_passed(rs)) + " passed, "@ + dec_digits(count_failed(rs)) + " failed, "@
        + dec_digits(ignored) + " ignored, "@ + dec_digits(
        n_tests - count_passed(rs) - count_failed(rs),
    ) + " not run"@
}

/// Renders the recap line. `n_tests` counts the whole source list, of which
/// these results are a prefix or all.
pub fn recap(n_tests: usize, ignored: usize, results: &Vec<TestResult>) -> (r: String)
    requires
        results@.len() <= n_tests,
    ensures
        r@ == recap_text(n_tests as int, ignored as int, results@),
{
    proof {
        lemma_counts_bounded(results@);
    }
    let (passed, failed) = recap_counts(results);
    let not_run = n_tests - passed - failed;
    let mut s = String::new();
    push_dec(passed as u64, &mut s);
    s.append(" passed, ");
    push_dec(failed as u64, &mut s);
    s.append(" failed, ");
    push_dec(ignored as u64, &mut s);
    s.append(" ignored, ");
    push_dec(not_run as u64, &mut s);
    s.append(" not run");
    proof {
        assert(s@ =~= recap_text(n_tests as int, ignored as int, results@));
    }
    s
}

/// The slot array after a list of workers have completed, in the order given:
/// each completion writes test `order[k]`'s verdict into slot `order[k]`.
pub open spec fn apply_completions(
    slots: Seq<TestResult>,
    verdicts: Seq<TestResult>,
    order: Seq<int>,
) -> Seq<TestResult>
    decreases order.len(),
{
    if order.len() == 0 {
        slots
    } else {
        let i = order.first();
        let written = if 0 <= i < slots.len() && i < verdicts.len() {
            slots.update(i, verdicts[i])
        } else {
            slots
        };
        apply_completions(written, verdicts, order.drop_first())
    }
}

pub proof fn lemma_apply_completions_elem(
    slots: Seq<TestResult>,
    verdicts: Seq<TestResult>,
    order: Seq<int>,
    j: int,
)
    requires
        slots.len() == verdicts.len(),
        forall|k: int| 0 <= k < order.len() ==> 0 <= #[trigger] order[k] < verdicts.len(),
        0 <= j < verdicts.len(),
    ensures
        apply_completions(slots, verdicts, order).len() == slots.len(),
        apply_completions(slots, verdicts, order)[j] == if order.contains(j) {
            verdicts[j]
        } else {
            slots[j]
        },
    decreases order.len(),
{
    if order.len() > 0 {
        let i = order.first();
        assert(0 <= i < verdicts.len()) by {
            assert(order[0] == i);
        }
        let written = slots.update(i, verdicts[i]);
        assert forall|k: int| 0 <= k < order.drop_first().len() implies 0 <= #[trigger] order
            .drop_first()[k] < verdicts.len() by {
            assert(order.drop_first()[k] == order[k + 1]);
        }
        lemma_apply_completions_elem(written, verdicts, order.drop_first(), j);
        if order.drop_first().contains(j) {
            let k = choose|k: int|
                0 <= k < order.drop_first().len() && order.drop_first()[k] == j;
            assert(order[k + 1] == j);
            assert(order.contains(j));
        } else {
            if j == i {
                assert(order[0] == j);
                assert(order.contains(j));
            } else {
                if order.contains(j) {
                    let k = choose|k: int| 0 <= k < order.len() && order[k] == j;
                    assert(k > 0);
                    assert(order.drop_first()[k - 1] == j);
                }
            }
        }
    }
}

/// Reporting order: for any completion order of the parallel workers that
/// covers every test, the final result list is indexed identically to the
/// input test list — slot `j` holds test `j`'s verdict.
pub proof fn lemma_reporting_order(
    slots: Seq<TestResult>,
    verdicts: Seq<TestResult>,
    order: Seq<int>,
)
    requires
        slots.len() == verdicts.len(),
        forall|k: int| 0 <= k < order.len() ==> 0 <= #[trigger] order[k] < verdicts.len(),
        forall|j: int| 0 <= j < verdicts.len() ==> #[trigger] order.contains(j),
    ensures
        apply_completions(slots, verdicts, order) == verdicts,
{
    assert forall|j: int| 0 <= j < verdicts.len() implies apply_completions(
        slots,
        verdicts,
        order,
    )[j] == verdicts[j] by {
        lemma_apply_completions_elem(slots, verdicts, order, j);
    }
    if verdicts.len() > 0 {
        lemma_apply_completions_elem(slots, verdicts, order, 0);
    } else {
        assert(order.len() == 0) by {
            if order.len() > 0 {
                assert(0 <= order[0] < verdicts.len());
            }
        }
    }
    assert(apply_completions(slots, verdicts, order) =~= verdicts);
}

/// Parallel/sequential equivalence: two completion orders of the same suite —
/// say, the sequential one and any interleaving the parallel workers produce —
/// fill the slots identically, so the multiset of verdict kinds is the same.
pub proof fn lemma_parallel_sequential_equivalence(
    slots1: Seq<TestResult>,
    slots2: Seq<TestResult>,
    verdicts: Seq<TestResult>,
    order1: Seq<int>,
    order2: Seq<int>,
)
    requires
        slots1.len() == verdicts.len(),
        slots2.len() == verdicts.len(),
        forall|k: int| 0 <= k < order1.len() ==> 0 <= #[trigger] order1[k] < verdicts.len(),
        forall|k: int| 0 <= k < order2.len() ==> 0 <= #[trigger] order2[k] < verdicts.len(),
        forall|j: int| 0 <= j < verdicts.len() ==> #[trigger] order1.contains(j),
        forall|j: int| 0 <= j < verdicts.len() ==> #[trigger] order2.contains(j),
    ensures
        apply_completions(slots1, verdicts, order1) == apply_completions(slots2, verdicts, order2),
        kinds_of(apply_completions(slots1, verdicts, order1)).to_multiset() == kinds_of(
            apply_completions(slots2, verdicts, order2),
        ).to_multiset(),
{
    lemma_reporting_order(slots1, verdicts, order1);
    lemma_reporting_order(slots2, verdicts, order2);
}

} // verus!
