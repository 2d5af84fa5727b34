use crate::dot::{progress_glyph, DotReporter};
use crate::duration::{saturated, Duration};
use crate::junit::{suite_document, JUnitModel, JUnitReporter};
use crate::reporter::{views_of, Reporter};
use crate::strings::concat_map;
use crate::types::{
    RunSummary, RunSummaryView, TestItem, TestItemView, TestOutcome, TestOutcomeView, TestResult,
    TestResultView,
};
use vstd::prelude::*;

verus! {

/// How many of `results` passed.
pub open spec fn passed_count(results: Seq<TestResultView>) -> nat
    decreases results.len(),
{
    if results.len() == 0 {
        0
    } else {
        passed_count(results.drop_last()) + if results.last().outcome is Passed {
            1nat
        } else {
            0nat
        }
    }
}

/// How many of `results` failed.
pub open spec fn failed_count(results: Seq<TestResultView>) -> nat
    decreases results.len(),
{
    if results.len() == 0 {
        0
    } else {
        failed_count(results.drop_last()) + if results.last().outcome is Failed {
            1nat
        } else {
            0nat
        }
    }
}

/// How many of `results` were skipped.
pub open spec fn skipped_count(results: Seq<TestResultView>) -> nat
    decreases results.len(),
{
    if results.len() == 0 {
        0
    } else {
        skipped_count(results.drop_last()) + if results.last().outcome is Skipped {
            1nat
        } else {
            0nat
        }
    }
}

/// The time that `results` took together, in nanoseconds.
pub open spec fn total_nanos(results: Seq<TestResultView>) -> nat
    decreases results.len(),
{
    if results.len() == 0 {
        0
    } else {
        total_nanos(results.drop_last()) + results.last().duration
    }
}

/// The summary of a run with `results`: how many passed, failed and were skipped, and
/// the time they took together, held at the longest span a duration can be.
pub open spec fn summary_of(results: Seq<TestResultView>) -> RunSummaryView {
    RunSummaryView {
        passed: passed_count(results),
        failed: failed_count(results),
        skipped: skipped_count(results),
        duration: saturated(total_nanos(results)),
    }
}

/// Every result is counted once: as passed, as failed or as skipped.
pub proof fn lemma_counts_partition(results: Seq<TestResultView>)
    ensures
        passed_count(results) + failed_count(results) + skipped_count(results) == results.len(),
    decreases results.len(),
{
    if results.len() > 0 {
        lemma_counts_partition(results.drop_last());
    }
}

/// Folds `results` into the summary of their run.
pub fn summarize(results: &[TestResult]) -> (summary: RunSummary)
    ensures
        summary@ == summary_of(views_of(results@)),
{
    let ghost all = views_of(results@);
    let mut passed: usize = 0;
    let mut failed: usize = 0;
    let mut skipped: usize = 0;
    let mut duration = Duration::from_secs(0);
    let mut i: usize = 0;
    assert(all.take(0) =~= Seq::<TestResultView>::empty());
    while i < results.len()
        invariant
            i <= results.len(),
            all == views_of(results@),
            passed == passed_count(all.take(i as int)),
            failed == failed_count(all.take(i as int)),
            skipped == skipped_count(all.take(i as int)),
            duration@ == saturated(total_nanos(all.take(i as int))),
        decreases results.len() - i,
    {
        proof {
            assert(all.take(i + 1).drop_last() =~= all.take(i as int));
            assert(all.take(i + 1).last() == results[i as int]@);
            lemma_counts_partition(all.take(i as int));
        }
        match &results[i].outcome {
            TestOutcome::Passed => {
                passed += 1;
            },
            TestOutcome::Failed { .. } => {
                failed += 1;
            },
            TestOutcome::Skipped { .. } => {
                skipped += 1;
            },
        }
        duration = duration.saturating_add(results[i].duration);
        i += 1;
    }
    assert(all.take(results.len() as int) =~= all);
    RunSummary { passed, failed, skipped, duration }
}

/// The result of a test that passed in no time and wrote nothing.
pub open spec fn passed_at_once(test: TestItemView) -> TestResultView {
    TestResultView {
        test,
        outcome: TestOutcomeView::Passed,
        duration: 0,
        stdout: Seq::empty(),
        stderr: Seq::empty(),
    }
}

/// For each test a result that says it passed in no time, in the order of the tests.
pub fn fake_results(tests: &[TestItem]) -> (results: Vec<TestResult>)
    ensures
        results.deep_view() == views_of(tests@).map_values(|t: TestItemView| passed_at_once(t)),
{
    let mut results: Vec<TestResult> = Vec::new();
    let mut i: usize = 0;
    while i < tests.len()
        invariant
            i <= tests.len(),
            results.len() == i,
            forall|k: int| 0 <= k < i ==> (#[trigger] results[k])@ == passed_at_once(tests[k]@),
        decreases tests.len() - i,
    {
        results.push(
            TestResult {
                test: tests[i].clone(),
                outcome: TestOutcome::Passed,
                duration: Duration::from_secs(0),
                stdout: String::new(),
                stderr: String::new(),
            },
        );
        i += 1;
    }
    assert(results.deep_view() =~= views_of(tests@).map_values(
        |t: TestItemView| passed_at_once(t),
    ));
    results
}

/// The model of a reporter after the completion of each of `results`, in order.
pub open spec fn after_results<R: Reporter>(
    start: R::Model,
    results: Seq<TestResultView>,
) -> R::Model
    decreases results.len(),
{
    if results.len() == 0 {
        start
    } else {
        R::test_completed(after_results::<R>(start, results.drop_last()), results.last())
    }
}

/// The model of a reporter after a whole run: the start with `tests`, the completion of
/// each of `results` in order, and the end with their summary.
pub open spec fn after_run<R: Reporter>(
    before: R::Model,
    tests: Seq<TestItemView>,
    results: Seq<TestResultView>,
) -> R::Model {
    R::run_completed(
        after_results::<R>(R::run_started(before, tests), results),
        summary_of(results),
    )
}

/// The progress reporter writes one glyph for each completed test, in the order of
/// completion, and nothing else while the tests run.
pub proof fn law_progress_in_completion_order(start: Seq<char>, results: Seq<TestResultView>)
    ensures
        after_results::<DotReporter>(start, results) == start + concat_map(
            results,
            |r: TestResultView| progress_glyph(r.outcome),
        ),
    decreases results.len(),
{
    let glyph = |r: TestResultView| progress_glyph(r.outcome);
    if results.len() == 0 {
        assert(start + concat_map(results, glyph) =~= start);
    } else {
        law_progress_in_completion_order(start, results.drop_last());
        assert(after_results::<DotReporter>(start, results) =~= start + concat_map(
            results,
            glyph,
        ));
    }
}

/// The XML reporter writes nothing while the tests run and holds the results in the
/// order of completion; the document that ends the run has one element for each of
/// them, and its counts are those of the summary of the run.
pub proof fn law_document_holds_the_run(
    before: JUnitModel,
    tests: Seq<TestItemView>,
    results: Seq<TestResultView>,
)
    ensures
        after_results::<JUnitReporter>(before, results) == (JUnitModel {
            results: before.results + results,
            ..before
        }),
        after_run::<JUnitReporter>(before, tests, results).output == before.output
            + suite_document(before.results + results, summary_of(results)),
    decreases results.len(),
{
    if results.len() == 0 {
        assert(before.results + results =~= before.results);
    } else {
        law_document_holds_the_run(before, tests, results.drop_last());
        assert(before.results + results =~= (before.results + results.drop_last()).push(
            results.last(),
        ));
    }
}

/// Reports a run: its start with `tests`, each of `results` in the order given, and its
/// end with the summary of the results, which is returned.
pub fn run_test<R: Reporter>(reporter: &mut R, tests: &[TestItem], results: &[TestResult]) -> (summary:
    RunSummary)
    ensures
        final(reporter).model() == after_run::<R>(
            old(reporter).model(),
            views_of(tests@),
            views_of(results@),
        ),
        summary@ == summary_of(views_of(results@)),
{
    let ghost all = views_of(results@);
    reporter.on_run_start(tests);
    let ghost started = reporter.model();
    let mut i: usize = 0;
    assert(all.take(0) =~= Seq::<TestResultView>::empty());
    while i < results.len()
        invariant
            i <= results.len(),
            all == views_of(results@),
            reporter.model() == after_results::<R>(started, all.take(i as int)),
        decreases results.len() - i,
    {
        proof {
            assert(all.take(i + 1).drop_last() =~= all.take(i as int));
            assert(all.take(i + 1).last() == results[i as int]@);
        }
        reporter.on_test_complete(&results[i]);
        i += 1;
    }
    assert(all.take(results.len() as int) =~= all);
    let summary = summarize(results);
    reporter.on_run_complete(&summary);
    summary
}

/// Reports a collection of `tests`, none of which is executed.
pub fn run_collect_only<R: Reporter>(reporter: &mut R, tests: &[TestItem])
    ensures
        final(reporter).model() == R::collect_completed(old(reporter).model(), views_of(tests@)),
{
    reporter.on_collect_complete(tests);
}

} // verus!
