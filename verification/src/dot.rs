use crate::duration::{duration_text, push_duration};
use crate::reporter::{version, version_text, Reporter};
use crate::strings::{decimal, push_decimal};
use crate::style::{
    bold, bold_text, dimmed, dimmed_text, green, green_text, red, red_text, yellow, yellow_text,
};
use crate::types::{
    RunSummary, RunSummaryView, TestItem, TestItemView, TestOutcome, TestOutcomeView, TestResult,
    TestResultView,
};
use vstd::prelude::*;

verus! {

/// The two lines that open a report: the name of the tool in bold, the version dimmed,
/// and an empty line.
pub open spec fn banner() -> Seq<char> {
    bold_text("tryke test"@) + " "@ + dimmed_text("v"@ + version_text()) + "\n"@ + "\n"@
}

/// The glyph that stands for one completed test.
pub open spec fn progress_glyph(outcome: TestOutcomeView) -> Seq<char> {
    match outcome {
        TestOutcomeView::Passed => green_text("."@),
        TestOutcomeView::Failed { .. } => red_text("F"@),
        TestOutcomeView::Skipped { .. } => dimmed_text(yellow_text("s"@)),
    }
}

/// The lines that count what passed, failed and was skipped. A count of failed or of
/// skipped tests is shown only where it is not zero.
pub open spec fn count_lines(summary: RunSummaryView) -> Seq<char> {
    " "@ + green_text(decimal(summary.passed)) + " "@ + green_text("pass"@) + "\n"@ + (if summary.failed
        > 0 {
        " "@ + red_text(decimal(summary.failed)) + " "@ + red_text("fail"@) + "\n"@
    } else {
        Seq::empty()
    }) + (if summary.skipped > 0 {
        " "@ + yellow_text(decimal(summary.skipped)) + " "@ + yellow_text("skip"@) + "\n"@
    } else {
        Seq::empty()
    })
}

/// The line that closes a report: how many tests ran, and for how long.
pub open spec fn total_line(summary: RunSummaryView) -> Seq<char> {
    "Ran "@ + decimal(summary.total()) + " tests. ["@ + duration_text(summary.duration) + "]"@
        + "\n"@
}

/// Appends the banner to `out`.
pub fn push_banner(out: &mut String)
    ensures
        final(out)@ == old(out)@ + banner(),
{
    let name = bold("tryke test");
    let mut tag = String::from_str("v");
    tag.append(version());
    let tag = dimmed(tag.as_str());
    out.append(name.as_str());
    out.append(" ");
    out.append(tag.as_str());
    out.append("\n");
    out.append("\n");
    assert(out@ =~= old(out)@ + banner());
}

/// Appends the count lines of `summary` to `out`.
pub fn push_count_lines(out: &mut String, summary: &RunSummary)
    ensures
        final(out)@ == old(out)@ + count_lines(summary@),
{
    let mut passed = String::new();
    push_decimal(&mut passed, summary.passed as u128);
    out.append(" ");
    out.append(green(passed.as_str()).as_str());
    out.append(" ");
    out.append(green("pass").as_str());
    out.append("\n");
    if summary.failed > 0 {
        let mut failed = String::new();
        push_decimal(&mut failed, summary.failed as u128);
        out.append(" ");
        out.append(red(failed.as_str()).as_str());
        out.append(" ");
        out.append(red("fail").as_str());
        out.append("\n");
    }
    if summary.skipped > 0 {
        let mut skipped = String::new();
        push_decimal(&mut skipped, summary.skipped as u128);
        out.append(" ");
        out.append(yellow(skipped.as_str()).as_str());
        out.append(" ");
        out.append(yellow("skip").as_str());
        out.append("\n");
    }
    assert(out@ =~= old(out)@ + count_lines(summary@));
}

/// Appends the closing line of `summary` to `out`.
pub fn push_total_line(out: &mut String, summary: &RunSummary)
    ensures
        final(out)@ == old(out)@ + total_line(summary@),
{
    let total: u128 = summary.passed as u128 + summary.failed as u128 + summary.skipped as u128;
    out.append("Ran ");
    push_decimal(out, total);
    out.append(" tests. [");
    push_duration(out, summary.duration);
    out.append("]");
    out.append("\n");
    assert(out@ =~= old(out)@ + total_line(summary@));
}

/// A reporter that writes one glyph for each completed test and a summary at the end.
pub struct DotReporter {
    writer: String,
}

impl DotReporter {
    /// The text written so far.
    pub closed spec fn written(&self) -> Seq<char> {
        self.writer@
    }

    /// A reporter that has written nothing.
    #[must_use]
    pub fn new() -> (reporter: Self)
        ensures
            reporter.written() == Seq::<char>::empty(),
    {
        DotReporter { writer: String::new() }
    }

    /// A reporter that writes after what `writer` holds.
    pub fn with_writer(writer: String) -> (reporter: Self)
        ensures
            reporter.written() == writer@,
    {
        DotReporter { writer }
    }

    /// Gives back the writer with all that was written.
    pub fn into_writer(self) -> (writer: String)
        ensures
            writer@ == self.written(),
    {
        self.writer
    }

    /// Hands out what was written so far and starts again with an empty writer.
    pub fn take_output(&mut self) -> (output: String)
        ensures
            output@ == old(self).written(),
            final(self).written() == Seq::<char>::empty(),
    {
        let mut output = String::new();
        std::mem::swap(&mut output, &mut self.writer);
        output
    }
}

impl Default for DotReporter {
    fn default() -> (reporter: Self)
        ensures
            reporter.written() == Seq::<char>::empty(),
    {
        DotReporter::new()
    }
}

impl Reporter for DotReporter {
    type Model = Seq<char>;

    open spec fn model(&self) -> Seq<char> {
        self.written()
    }

    open spec fn run_started(before: Seq<char>, tests: Seq<TestItemView>) -> Seq<char> {
        before + banner()
    }

    open spec fn test_completed(before: Seq<char>, result: TestResultView) -> Seq<char> {
        before + progress_glyph(result.outcome)
    }

    open spec fn run_completed(before: Seq<char>, summary: RunSummaryView) -> Seq<char> {
        before + "\n"@ + "\n"@ + count_lines(summary) + total_line(summary)
    }

    open spec fn collect_completed(before: Seq<char>, tests: Seq<TestItemView>) -> Seq<char> {
        before
    }

    fn on_run_start(&mut self, tests: &[TestItem])
        ensures
            final(self).written() == old(self).written() + banner(),
    {
        push_banner(&mut self.writer);
    }

    fn on_test_complete(&mut self, result: &TestResult)
        ensures
            final(self).written() == old(self).written() + progress_glyph(result@.outcome),
    {
        let glyph = match &result.outcome {
            TestOutcome::Passed => green("."),
            TestOutcome::Failed { .. } => red("F"),
            TestOutcome::Skipped { .. } => dimmed(yellow("s").as_str()),
        };
        self.writer.append(glyph.as_str());
    }

    fn on_run_complete(&mut self, summary: &RunSummary)
        ensures
            final(self).written() == old(self).written() + "\n"@ + "\n"@ + count_lines(summary@)
                + total_line(summary@),
    {
        self.writer.append("\n");
        self.writer.append("\n");
        push_count_lines(&mut self.writer, summary);
        push_total_line(&mut self.writer, summary);
        assert(self.writer@ =~= Self::run_completed(old(self).writer@, summary@));
    }

    fn on_collect_complete(&mut self, tests: &[TestItem])
        ensures
            final(self).written() == old(self).written(),
    {
    }
}

} // verus!
