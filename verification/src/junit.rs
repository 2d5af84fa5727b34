use crate::duration::{push_seconds, seconds_text};
use crate::reporter::Reporter;
use crate::strings::{
    concat_map, decimal, lemma_concat_map_ends, lemma_concat_map_step, push_decimal,
};
use crate::text::shown_name;
use crate::types::{
    RunSummary, RunSummaryView, TestItem, TestItemView, TestOutcome, TestOutcomeView, TestResult,
    TestResultView,
};
use vstd::prelude::*;
use vstd::std_specs::iter::IteratorSpec;

verus! {

/// What stands for one character in XML text: an entity for `&`, `<`, `>`, `"` and `'`,
/// and the character itself otherwise.
pub open spec fn xml_char(c: char) -> Seq<char> {
    if c == '&' {
        "&amp;"@
    } else if c == '<' {
        "&lt;"@
    } else if c == '>' {
        "&gt;"@
    } else if c == '"' {
        "&quot;"@
    } else if c == '\'' {
        "&apos;"@
    } else {
        seq![c]
    }
}

/// `text` with each character replaced by what stands for it in XML.
pub open spec fn xml_escaped(text: Seq<char>) -> Seq<char> {
    concat_map(text, |c: char| xml_char(c))
}

/// `s` with `&`, `<`, `>`, `"` and `'` replaced by their entities.
pub fn xml_escape(s: &str) -> (escaped: String)
    ensures
        escaped@ == xml_escaped(s@),
{
    broadcast use vstd::string::group_string_axioms;

    let mut out = String::new();
    let ghost each = |c: char| xml_char(c);
    proof {
        lemma_concat_map_ends(s@, each);
    }
    for c in it: s.chars()
        invariant
            it.seq() == s@,
            each == |c: char| xml_char(c),
            out@ == concat_map(s@.take(it.index() as int), each),
    {
        proof {
            lemma_concat_map_step(s@, each, it.index() as int);
        }
        match c {
            '&' => out.append("&amp;"),
            '<' => out.append("&lt;"),
            '>' => out.append("&gt;"),
            '"' => out.append("&quot;"),
            '\'' => out.append("&apos;"),
            other => out.push(other),
        }
    }
    proof {
        lemma_concat_map_ends(s@, each);
    }
    out
}

/// The line that declares the document.
pub open spec fn xml_declaration() -> Seq<char> {
    "<?xml version=\"1.0\" encoding=\"UTF-8\"?>"@ + "\n"@
}

/// The opening tag of the suite: its name, how many tests ran, how many failed and were
/// skipped, and the time of the run in seconds.
pub open spec fn suite_open(summary: RunSummaryView) -> Seq<char> {
    "<testsuite name=\"tryke\" tests=\""@ + decimal(summary.total()) + "\" failures=\""@
        + decimal(summary.failed) + "\" skipped=\""@ + decimal(summary.skipped) + "\" time=\""@
        + seconds_text(summary.duration) + "\">"@ + "\n"@
}

/// The opening of a test case up to the end of its attributes: the shown name, the
/// module as class name, and the time in seconds.
pub open spec fn case_open(result: TestResultView) -> Seq<char> {
    "  <testcase name=\""@ + xml_escaped(result.test.shown_name()) + "\" classname=\""@
        + xml_escaped(result.test.module) + "\" time=\""@ + seconds_text(result.duration)
        + "\""@
}

/// The element of one test: closed at once where the test passed, and holding a failure
/// with its message, or a skipped mark, otherwise.
pub open spec fn case_element(result: TestResultView) -> Seq<char> {
    match result.outcome {
        TestOutcomeView::Passed => case_open(result) + "/>"@ + "\n"@,
        TestOutcomeView::Failed { message, .. } => case_open(result) + ">"@ + "\n"@
            + "    <failure message=\""@ + xml_escaped(message) + "\"/>"@ + "\n"@
            + "  </testcase>"@ + "\n"@,
        TestOutcomeView::Skipped { .. } => case_open(result) + ">"@ + "\n"@ + "    <skipped/>"@
            + "\n"@ + "  </testcase>"@ + "\n"@,
    }
}

/// The whole document: the declaration, the suite with one element for each result in
/// the order of completion, and the closing tag.
pub open spec fn suite_document(results: Seq<TestResultView>, summary: RunSummaryView) -> Seq<
    char,
> {
    xml_declaration() + suite_open(summary) + concat_map(
        results,
        |r: TestResultView| case_element(r),
    ) + "</testsuite>"@ + "\n"@
}

/// Appends the opening tag of the suite to `out`.
fn push_suite_open(out: &mut String, summary: &RunSummary)
    ensures
        final(out)@ == old(out)@ + suite_open(summary@),
{
    let total: u128 = summary.passed as u128 + summary.failed as u128 + summary.skipped as u128;
    out.append("<testsuite name=\"tryke\" tests=\"");
    push_decimal(out, total);
    out.append("\" failures=\"");
    push_decimal(out, summary.failed as u128);
    out.append("\" skipped=\"");
    push_decimal(out, summary.skipped as u128);
    out.append("\" time=\"");
    push_seconds(out, summary.duration);
    out.append("\">");
    out.append("\n");
    assert(out@ =~= old(out)@ + suite_open(summary@));
}

/// Appends the element of one test to `out`.
pub fn push_case_element(out: &mut String, result: &TestResult)
    ensures
        final(out)@ == old(out)@ + case_element(result@),
{
    let name = xml_escape(shown_name(&result.test));
    let classname = xml_escape(result.test.module.as_str());
    out.append("  <testcase name=\"");
    out.append(name.as_str());
    out.append("\" classname=\"");
    out.append(classname.as_str());
    out.append("\" time=\"");
    push_seconds(out, result.duration);
    out.append("\"");
    assert(out@ =~= old(out)@ + case_open(result@));
    match &result.outcome {
        TestOutcome::Passed => {
            out.append("/>");
            out.append("\n");
        },
        TestOutcome::Failed { message, .. } => {
            let msg = xml_escape(message.as_str());
            out.append(">");
            out.append("\n");
            out.append("    <failure message=\"");
            out.append(msg.as_str());
            out.append("\"/>");
            out.append("\n");
            out.append("  </testcase>");
            out.append("\n");
        },
        TestOutcome::Skipped { .. } => {
            out.append(">");
            out.append("\n");
            out.append("    <skipped/>");
            out.append("\n");
            out.append("  </testcase>");
            out.append("\n");
        },
    }
    assert(out@ =~= old(out)@ + case_element(result@));
}

/// The model of a [`JUnitReporter`]: what it wrote, and the results it holds back until
/// the run completes.
pub struct JUnitModel {
    pub output: Seq<char>,
    pub results: Seq<TestResultView>,
}

/// A reporter that holds all results back and writes one XML document when the run
/// completes.
pub struct JUnitReporter {
    writer: String,
    results: Vec<TestResult>,
}

impl View for JUnitReporter {
    type V = JUnitModel;

    closed spec fn view(&self) -> JUnitModel {
        JUnitModel { output: self.writer@, results: self.results.deep_view() }
    }
}

impl JUnitReporter {
    /// A reporter that holds no results and writes after what `writer` holds.
    pub fn with_writer(writer: String) -> (reporter: Self)
        ensures
            reporter@ == (JUnitModel { output: writer@, results: Seq::empty() }),
    {
        let reporter = JUnitReporter { writer, results: Vec::new() };
        assert(reporter.results.deep_view() =~= Seq::empty());
        reporter
    }

    /// Gives back the writer with all that was written.
    pub fn into_writer(self) -> (writer: String)
        ensures
            writer@ == self@.output,
    {
        self.writer
    }

    /// Hands out what was written so far and starts again with an empty writer.
    pub fn take_output(&mut self) -> (output: String)
        ensures
            output@ == old(self)@.output,
            final(self)@ == (JUnitModel { output: Seq::empty(), ..old(self)@ }),
    {
        let mut output = String::new();
        std::mem::swap(&mut output, &mut self.writer);
        output
    }
}

impl Reporter for JUnitReporter {
    type Model = JUnitModel;

    open spec fn model(&self) -> JUnitModel {
        self@
    }

    open spec fn run_started(before: JUnitModel, tests: Seq<TestItemView>) -> JUnitModel {
        before
    }

    open spec fn test_completed(before: JUnitModel, result: TestResultView) -> JUnitModel {
        JUnitModel { results: before.results.push(result), ..before }
    }

    open spec fn run_completed(before: JUnitModel, summary: RunSummaryView) -> JUnitModel {
        JUnitModel { output: before.output + suite_document(before.results, summary), ..before }
    }

    open spec fn collect_completed(before: JUnitModel, tests: Seq<TestItemView>) -> JUnitModel {
        before
    }

    fn on_run_start(&mut self, tests: &[TestItem])
        ensures
            final(self)@ == old(self)@,
    {
    }

    fn on_test_complete(&mut self, result: &TestResult)
        ensures
            final(self)@.output == old(self)@.output,
            final(self)@.results == old(self)@.results.push(result@),
    {
        self.results.push(result.clone());
        assert(self.results.deep_view() =~= old(self).results.deep_view().push(result@));
    }

    fn on_run_complete(&mut self, summary: &RunSummary)
        ensures
            final(self)@.output == old(self)@.output + suite_document(
                old(self)@.results,
                summary@,
            ),
            final(self)@.results == old(self)@.results,
    {
        let ghost held = self.results.deep_view();
        let ghost element = |r: TestResultView| case_element(r);
        self.writer.append("<?xml version=\"1.0\" encoding=\"UTF-8\"?>");
        self.writer.append("\n");
        push_suite_open(&mut self.writer, summary);
        let mut i: usize = 0;
        proof {
            lemma_concat_map_ends(held, element);
        }
        while i < self.results.len()
            invariant
                i <= self.results.len(),
                self.results == old(self).results,
                held == self.results.deep_view(),
                element == |r: TestResultView| case_element(r),
                self.writer@ == old(self).writer@ + xml_declaration() + suite_open(summary@)
                    + concat_map(held.take(i as int), element),
            decreases self.results.len() - i,
        {
            proof {
                lemma_concat_map_step(held, element, i as int);
            }
            push_case_element(&mut self.writer, &self.results[i]);
            assert(self.writer@ =~= old(self).writer@ + xml_declaration() + suite_open(summary@)
                + concat_map(held.take(i + 1), element));
            i += 1;
        }
        proof {
            lemma_concat_map_ends(held, element);
        }
        self.writer.append("</testsuite>");
        self.writer.append("\n");
        assert(self.writer@ =~= Self::run_completed(old(self)@, summary@).output);
    }

    fn on_collect_complete(&mut self, tests: &[TestItem])
        ensures
            final(self)@ == old(self)@,
    {
    }
}

impl JUnitReporter {
    /// A reporter that holds no results and has written nothing.
    #[must_use]
    pub fn new() -> (reporter: Self)
        ensures
            reporter@ == (JUnitModel { output: Seq::empty(), results: Seq::empty() }),
    {
        JUnitReporter::with_writer(String::new())
    }
}

impl Default for JUnitReporter {
    fn default() -> (reporter: Self)
        ensures
            reporter@ == (JUnitModel { output: Seq::empty(), results: Seq::empty() }),
    {
        JUnitReporter::new()
    }
}

} // verus!
