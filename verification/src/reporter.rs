use crate::types::{RunSummary, RunSummaryView, TestItem, TestItemView, TestResult, TestResultView};
use vstd::prelude::*;

verus! {

/// The models of the values of `items`, in order.
pub open spec fn views_of<T: DeepView>(items: Seq<T>) -> Seq<T::V> {
    Seq::new(items.len(), |i: int| items[i].deep_view())
}

/// The version of the library, as report headers show it.
pub open spec fn version_text() -> Seq<char> {
    "0.1.0"@
}

/// The version of the library.
pub fn version() -> (v: &'static str)
    ensures
        v@ == version_text(),
{
    "0.1.0"
}

/// A sink for the events of a run.
///
/// A run that executes tests calls `on_run_start` once, `on_test_complete` once for each
/// executed test in the order of execution, and `on_run_complete` once at the end. A run
/// that only collects calls `on_collect_complete` once and nothing else.
///
/// Each reporter has a model, and each event takes the model before it to the model after
/// it by a function of the model and the event alone.
pub trait Reporter {
    /// What is known of the reporter's state.
    type Model;

    /// The model of the reporter. A reporter that says nothing of itself has an
    /// arbitrary one.
    open spec fn model(&self) -> Self::Model {
        arbitrary()
    }

    /// The model after a run has started with `tests`.
    open spec fn run_started(before: Self::Model, tests: Seq<TestItemView>) -> Self::Model {
        arbitrary()
    }

    /// The model after one test has completed with `result`.
    open spec fn test_completed(before: Self::Model, result: TestResultView) -> Self::Model {
        arbitrary()
    }

    /// The model after the run has completed with `summary`.
    open spec fn run_completed(before: Self::Model, summary: RunSummaryView) -> Self::Model {
        arbitrary()
    }

    /// The model after a collection has completed with `tests`.
    open spec fn collect_completed(before: Self::Model, tests: Seq<TestItemView>) -> Self::Model {
        arbitrary()
    }

    fn on_run_start(&mut self, tests: &[TestItem])
        ensures
            final(self).model() == Self::run_started(old(self).model(), views_of(tests@)),
    ;

    fn on_test_complete(&mut self, result: &TestResult)
        ensures
            final(self).model() == Self::test_completed(old(self).model(), result@),
    ;

    fn on_run_complete(&mut self, summary: &RunSummary)
        ensures
            final(self).model() == Self::run_completed(old(self).model(), summary@),
    ;

    fn on_collect_complete(&mut self, tests: &[TestItem])
        ensures
            final(self).model() == Self::collect_completed(old(self).model(), views_of(tests@)),
    ;
}

} // verus!
