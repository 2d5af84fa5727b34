use crate::diagnostic::{diagnostics, render_assertions};
use crate::dot::{banner, count_lines, push_banner, push_count_lines, push_total_line, total_line};
use crate::duration::{duration_text, push_duration};
use crate::reporter::{views_of, Reporter};
use crate::strings::{
    concat_map, decimal, join, lemma_concat_map_ends, lemma_concat_map_step, push_decimal,
    push_joined, same_text,
};
use crate::style::{
    bold, bold_text, dimmed, dimmed_text, green, green_text, red, red_text, yellow, yellow_text,
};
use crate::types::{
    clone_opt_string, Assertion, AssertionView, ExpectedAssertionView, RunSummary, RunSummaryView,
    TestItem, TestItemView, TestOutcome, TestOutcomeView, TestResult, TestResultView,
};
use vstd::prelude::*;

verus! {

/// How much the text reporter writes.
#[derive(Debug, Clone, Copy, PartialEq, Eq, Structural)]
pub enum Verbosity {
    /// Only failures.
    Quiet,
    /// One line for each test.
    Normal,
    /// One line for each test and one for each assertion it is expected to make.
    Verbose,
}

/// How much a diagnostic log tells, from the least to the most.
#[derive(Debug, Clone, Copy, PartialEq, Eq, Structural)]
pub enum LogLevel {
    Error,
    Warn,
    Info,
    Debug,
    Trace,
}

impl Verbosity {
    /// The verbosity that goes with a log level: verbose from `Info` on, quiet for
    /// `Error` and for no logging at all, and normal for `Warn`.
    pub open spec fn for_level(level: Option<LogLevel>) -> Verbosity {
        match level {
            Some(LogLevel::Info) | Some(LogLevel::Debug) | Some(LogLevel::Trace) => {
                Verbosity::Verbose
            },
            Some(LogLevel::Error) | None => Verbosity::Quiet,
            Some(LogLevel::Warn) => Verbosity::Normal,
        }
    }

    /// The verbosity that goes with a log level.
    pub fn from_log_level(level: Option<LogLevel>) -> (verbosity: Verbosity)
        ensures
            verbosity == Verbosity::for_level(level),
    {
        match level {
            Some(LogLevel::Info) | Some(LogLevel::Debug) | Some(LogLevel::Trace) => {
                Verbosity::Verbose
            },
            Some(LogLevel::Error) | None => Verbosity::Quiet,
            Some(LogLevel::Warn) => Verbosity::Normal,
        }
    }
}

impl Default for Verbosity {
    fn default() -> (v: Verbosity)
        ensures
            v == Verbosity::Normal,
    {
        Verbosity::Normal
    }
}

/// The mark of a test or an assertion that passed.
pub open spec fn pass_mark() -> Seq<char> {
    green_text("\u{2713}"@)
}

/// The mark of a test or an assertion that failed.
pub open spec fn fail_mark() -> Seq<char> {
    red_text("\u{2717}"@)
}

/// The mark of a test that was skipped.
pub open spec fn skip_mark() -> Seq<char> {
    dimmed_text(yellow_text("\u{bb}"@))
}

/// The assertion as it would be written in a test: the subject inside `expect`, the
/// negation where there is one, the matcher, and its arguments separated by commas.
pub open spec fn assertion_call(a: ExpectedAssertionView) -> Seq<char> {
    "expect("@ + a.subject + ")."@ + (if a.negated {
        "not_."@
    } else {
        ""@
    }) + a.matcher + "("@ + join(a.args, ", "@) + ")"@
}

/// What stands for an expected assertion in a report: its label, or the call.
pub open spec fn assertion_text(a: ExpectedAssertionView) -> Seq<char> {
    match a.label {
        Some(label) => label,
        None => assertion_call(a),
    }
}

/// Whether one of the observed failures lies on `line`.
pub open spec fn failed_on_line(assertions: Seq<AssertionView>, line: u32) -> bool {
    exists|i: int| 0 <= i < assertions.len() && (#[trigger] assertions[i]).line == line as usize
}

/// Whether the outcome holds a failure observed on `line`.
pub open spec fn outcome_failed_on_line(outcome: TestOutcomeView, line: u32) -> bool {
    match outcome {
        TestOutcomeView::Failed { assertions, .. } => failed_on_line(assertions, line),
        _ => false,
    }
}

/// The line of one expected assertion: indented, marked as failed where a failure was
/// observed on its line and as passed otherwise, then its text dimmed.
pub open spec fn expected_line(a: ExpectedAssertionView, outcome: TestOutcomeView) -> Seq<char> {
    "  "@ + (if outcome_failed_on_line(outcome, a.line) {
        fail_mark()
    } else {
        pass_mark()
    }) + " "@ + dimmed_text(assertion_text(a)) + "\n"@
}

/// The lines of the expected assertions of a test, in source order.
pub open spec fn expected_lines(result: TestResultView) -> Seq<char> {
    concat_map(
        result.test.expected_assertions,
        |a: ExpectedAssertionView| expected_line(a, result.outcome),
    )
}

/// The time a test took, in square brackets and dimmed.
pub open spec fn elapsed_tag(nanos: nat) -> Seq<char> {
    dimmed_text("["@ + duration_text(nanos) + "]"@)
}

/// The line of a test that ran: the mark, its name in bold, the time it took.
pub open spec fn outcome_line(mark: Seq<char>, result: TestResultView) -> Seq<char> {
    mark + " "@ + bold_text(result.test.shown_name()) + " "@ + elapsed_tag(result.duration) + "\n"@
}

/// What separates the tests of one file from those of the file before: an empty line
/// after the tests of an earlier file, then the new file and a colon. Nothing is
/// written while the file stays the same, nor in quiet mode.
pub open spec fn file_header(
    previous: Option<Seq<char>>,
    file: Option<Seq<char>>,
    quiet: bool,
) -> Seq<char> {
    if file == previous || quiet {
        Seq::empty()
    } else {
        (if previous is Some {
            "\n"@
        } else {
            Seq::empty()
        }) + (match file {
            Some(path) => path + ":"@ + "\n"@,
            None => Seq::empty(),
        })
    }
}

/// What the completion of one test adds below the file header.
///
/// A passed test has its line, and in verbose mode the lines of its expected
/// assertions; in quiet mode it has nothing. A failed test always has its line, in
/// verbose mode the lines of its expected assertions, and the diagnostics of the
/// failures observed. A skipped test has one line, and nothing in quiet mode.
pub open spec fn test_block(result: TestResultView, verbosity: Verbosity) -> Seq<char> {
    match result.outcome {
        TestOutcomeView::Passed => if verbosity == Verbosity::Quiet {
            Seq::empty()
        } else {
            outcome_line(pass_mark(), result) + (if verbosity == Verbosity::Verbose {
                expected_lines(result)
            } else {
                Seq::empty()
            })
        },
        TestOutcomeView::Failed { assertions, .. } => outcome_line(fail_mark(), result) + (
        if verbosity == Verbosity::Verbose {
            expected_lines(result)
        } else {
            Seq::empty()
        }) + diagnostics(result.test.file_path, assertions),
        TestOutcomeView::Skipped { .. } => if verbosity == Verbosity::Quiet {
            Seq::empty()
        } else {
            skip_mark() + " "@ + dimmed_text(result.test.shown_name()) + "\n"@
        },
    }
}

/// The line of one collected test: its name, indented and dimmed.
pub open spec fn collected_line(test: TestItemView) -> Seq<char> {
    "  "@ + dimmed_text(test.shown_name()) + "\n"@
}

/// The file of the test before the one at `i`, where there is one.
pub open spec fn file_before(tests: Seq<TestItemView>, i: int) -> Option<Seq<char>> {
    if 0 < i <= tests.len() {
        tests[i - 1].file_path
    } else {
        None
    }
}

/// The listing of the first `n` collected tests, grouped by file in the order given.
pub open spec fn collected_listing(tests: Seq<TestItemView>, n: nat) -> Seq<char>
    decreases n,
{
    if n == 0 || n > tests.len() {
        Seq::empty()
    } else {
        collected_listing(tests, (n - 1) as nat) + file_header(
            file_before(tests, n - 1),
            tests[n - 1].file_path,
            false,
        ) + collected_line(tests[n - 1])
    }
}

/// The report of a collection: the banner, the listing, an empty line and the count.
pub open spec fn collection_report(tests: Seq<TestItemView>) -> Seq<char> {
    banner() + collected_listing(tests, tests.len()) + "\n"@ + decimal(tests.len())
        + " tests collected."@ + "\n"@
}

/// Whether one of `assertions` lies on `line`.
pub fn any_on_line(assertions: &Vec<Assertion>, line: u32) -> (found: bool)
    ensures
        found == failed_on_line(assertions.deep_view(), line),
{
    let mut i: usize = 0;
    while i < assertions.len()
        invariant
            i <= assertions.len(),
            forall|k: int| 0 <= k < i ==> (#[trigger] assertions.deep_view()[k]).line != line as usize,
        decreases assertions.len() - i,
    {
        if assertions[i].line == line as usize {
            assert(assertions.deep_view()[i as int].line == line as usize);
            return true;
        }
        i += 1;
    }
    false
}

/// The name a report shows for `test`.
pub fn shown_name(test: &TestItem) -> (name: &str)
    ensures
        name@ == test@.shown_name(),
{
    match &test.display_name {
        Some(label) => label.as_str(),
        None => test.name.as_str(),
    }
}

/// Appends to `out` the line of each assertion that `result` expected, marked by
/// whether a failure was observed on its line.
pub fn write_expected_assertions(out: &mut String, result: &TestResult)
    ensures
        final(out)@ == old(out)@ + expected_lines(result@),
{
    let ghost expected = result@.test.expected_assertions;
    let ghost line_of = |a: ExpectedAssertionView| expected_line(a, result@.outcome);
    let list = &result.test.expected_assertions;
    let mut i: usize = 0;
    proof {
        lemma_concat_map_ends(expected, line_of);
    }
    while i < list.len()
        invariant
            i <= list.len(),
            list == &result.test.expected_assertions,
            expected == result@.test.expected_assertions,
            line_of == |a: ExpectedAssertionView| expected_line(a, result@.outcome),
            out@ == old(out)@ + concat_map(expected.take(i as int), line_of),
        decreases list.len() - i,
    {
        let a = &list[i];
        assert(a@ == expected[i as int]);
        let failed = match &result.outcome {
            TestOutcome::Failed { assertions, .. } => any_on_line(assertions, a.line),
            _ => false,
        };
        assert(failed == outcome_failed_on_line(result@.outcome, a.line));
        let mut text = String::new();
        match &a.label {
            Some(label) => {
                text.append(label.as_str());
            },
            None => {
                text.append("expect(");
                text.append(a.subject.as_str());
                text.append(").");
                if a.negated {
                    text.append("not_.");
                } else {
                    text.append("");
                }
                text.append(a.matcher.as_str());
                text.append("(");
                push_joined(&mut text, &a.args, ", ");
                text.append(")");
            },
        }
        assert(text@ =~= assertion_text(a@));
        let mark = if failed {
            red("\u{2717}")
        } else {
            green("\u{2713}")
        };
        let ghost before = out@;
        out.append("  ");
        out.append(mark.as_str());
        out.append(" ");
        out.append(dimmed(text.as_str()).as_str());
        out.append("\n");
        proof {
            assert(out@ =~= before + expected_line(a@, result@.outcome));
            lemma_concat_map_step(expected, line_of, i as int);
            assert(out@ =~= old(out)@ + concat_map(expected.take(i + 1), line_of));
        }
        i += 1;
    }
    proof {
        lemma_concat_map_ends(expected, line_of);
    }
}

/// Appends the line of a test that ran to `out`.
fn push_outcome_line(out: &mut String, mark: &str, result: &TestResult)
    ensures
        final(out)@ == old(out)@ + outcome_line(mark@, result@),
{
    let mut tag = String::from_str("[");
    push_duration(&mut tag, result.duration);
    tag.append("]");
    assert(tag@ =~= "["@ + duration_text(result@.duration) + "]"@);
    out.append(mark);
    out.append(" ");
    out.append(bold(shown_name(&result.test)).as_str());
    out.append(" ");
    out.append(dimmed(tag.as_str()).as_str());
    out.append("\n");
    assert(out@ =~= old(out)@ + outcome_line(mark@, result@));
}

/// Appends to `out` what separates the tests of `file` from those of `previous`.
fn push_file_header(
    out: &mut String,
    previous: &Option<String>,
    file: &Option<String>,
    quiet: bool,
)
    ensures
        final(out)@ == old(out)@ + file_header(previous.deep_view(), file.deep_view(), quiet),
{
    if !same_text(file, previous) && !quiet {
        if previous.is_some() {
            out.append("\n");
        }
        match file {
            Some(path) => {
                out.append(path.as_str());
                out.append(":");
                out.append("\n");
            },
            None => {},
        }
    }
    assert(out@ =~= old(out)@ + file_header(previous.deep_view(), file.deep_view(), quiet));
}

/// Appends to `out` what the completion of `result` adds below the file header.
pub fn push_test_block(out: &mut String, result: &TestResult, verbosity: Verbosity)
    ensures
        final(out)@ == old(out)@ + test_block(result@, verbosity),
{
    let quiet = verbosity == Verbosity::Quiet;
    let verbose = verbosity == Verbosity::Verbose;
    match &result.outcome {
        TestOutcome::Passed => {
            if !quiet {
                push_outcome_line(out, green("\u{2713}").as_str(), result);
                if verbose {
                    write_expected_assertions(out, result);
                }
            }
        },
        TestOutcome::Failed { assertions, .. } => {
            push_outcome_line(out, red("\u{2717}").as_str(), result);
            if verbose {
                write_expected_assertions(out, result);
            }
            let file: Option<&str> = match &result.test.file_path {
                Some(path) => Some(path.as_str()),
                None => None,
            };
            assert(views_of(assertions@) =~= assertions.deep_view());
            render_assertions(file, assertions.as_slice(), out);
        },
        TestOutcome::Skipped { .. } => {
            if !quiet {
                out.append(dimmed(yellow("\u{bb}").as_str()).as_str());
                out.append(" ");
                out.append(dimmed(shown_name(&result.test)).as_str());
                out.append("\n");
            }
        },
    }
    assert(out@ =~= old(out)@ + test_block(result@, verbosity));
}

/// The line of an expected assertion carries the failed mark exactly where the outcome is
/// a failure with an observed assertion on the same line, and the passed mark in every
/// other case.
pub proof fn law_expected_mark(a: ExpectedAssertionView, outcome: TestOutcomeView)
    ensures
        expected_line(a, outcome) == "  "@ + (if outcome matches TestOutcomeView::Failed {
            assertions,
            ..
        } && exists|i: int|
            0 <= i < assertions.len() && (#[trigger] assertions[i]).line == a.line as usize {
            fail_mark()
        } else {
            pass_mark()
        }) + " "@ + dimmed_text(assertion_text(a)) + "\n"@,
        !(outcome is Failed) ==> expected_line(a, outcome) == "  "@ + pass_mark() + " "@
            + dimmed_text(assertion_text(a)) + "\n"@,
{
}

/// The model of a [`TextReporter`]: what it wrote, the file of the test it reported
/// last, and how much it writes.
pub struct TextModel {
    pub output: Seq<char>,
    pub current_file: Option<Seq<char>>,
    pub verbosity: Verbosity,
}

/// A reporter that writes one line for each test, grouped by file.
pub struct TextReporter {
    writer: String,
    current_file: Option<String>,
    verbosity: Verbosity,
}

impl View for TextReporter {
    type V = TextModel;

    closed spec fn view(&self) -> TextModel {
        TextModel {
            output: self.writer@,
            current_file: self.current_file.deep_view(),
            verbosity: self.verbosity,
        }
    }
}

impl TextReporter {
    /// A reporter of normal verbosity that has written nothing.
    #[must_use]
    pub fn new() -> (reporter: Self)
        ensures
            reporter@ == (TextModel {
                output: Seq::empty(),
                current_file: None,
                verbosity: Verbosity::Normal,
            }),
    {
        TextReporter { writer: String::new(), current_file: None, verbosity: Verbosity::Normal }
    }

    /// A reporter of the given verbosity that has written nothing.
    #[must_use]
    pub fn with_verbosity(verbosity: Verbosity) -> (reporter: Self)
        ensures
            reporter@ == (TextModel { output: Seq::empty(), current_file: None, verbosity }),
    {
        TextReporter { writer: String::new(), current_file: None, verbosity }
    }

    /// A reporter of normal verbosity that writes after what `writer` holds.
    pub fn with_writer(writer: String) -> (reporter: Self)
        ensures
            reporter@ == (TextModel {
                output: writer@,
                current_file: None,
                verbosity: Verbosity::Normal,
            }),
    {
        TextReporter { writer, current_file: None, verbosity: Verbosity::Normal }
    }

    /// A reporter of the given verbosity that writes after what `writer` holds.
    pub fn with_writer_and_verbosity(writer: String, verbosity: Verbosity) -> (reporter: Self)
        ensures
            reporter@ == (TextModel { output: writer@, current_file: None, verbosity }),
    {
        TextReporter { writer, current_file: None, verbosity }
    }

    /// Gives back the writer with all that was written.
    pub fn into_writer(self) -> (writer: String)
        ensures
            writer@ == self@.output,
    {
        self.writer
    }

    /// Hands out what was written so far and starts again with an empty writer.
    pub fn take_output(&mut self) -> (output: String)
        ensures
            output@ == old(self)@.output,
            final(self)@ == (TextModel { output: Seq::empty(), ..old(self)@ }),
    {
        let mut output = String::new();
        std::mem::swap(&mut output, &mut self.writer);
        output
    }
}

impl Default for TextReporter {
    fn default() -> (reporter: Self)
        ensures
            reporter@ == (TextModel {
                output: Seq::empty(),
                current_file: None,
                verbosity: Verbosity::Normal,
            }),
    {
        TextReporter::new()
    }
}

impl Reporter for TextReporter {
    type Model = TextModel;

    open spec fn model(&self) -> TextModel {
        self@
    }

    open spec fn run_started(before: TextModel, tests: Seq<TestItemView>) -> TextModel {
        TextModel { output: before.output + banner(), ..before }
    }

    open spec fn test_completed(before: TextModel, result: TestResultView) -> TextModel {
        TextModel {
            output: before.output + file_header(
                before.current_file,
                result.test.file_path,
                before.verbosity == Verbosity::Quiet,
            ) + test_block(result, before.verbosity),
            current_file: result.test.file_path,
            verbosity: before.verbosity,
        }
    }

    open spec fn run_completed(before: TextModel, summary: RunSummaryView) -> TextModel {
        TextModel {
            output: before.output + "\n"@ + count_lines(summary) + total_line(summary),
            ..before
        }
    }

    open spec fn collect_completed(before: TextModel, tests: Seq<TestItemView>) -> TextModel {
        TextModel { output: before.output + collection_report(tests), ..before }
    }

    fn on_run_start(&mut self, tests: &[TestItem])
        ensures
            final(self)@ == (TextModel { output: old(self)@.output + banner(), ..old(self)@ }),
    {
        push_banner(&mut self.writer);
    }

    fn on_test_complete(&mut self, result: &TestResult)
        ensures
            final(self)@.output == old(self)@.output + file_header(
                old(self)@.current_file,
                result@.test.file_path,
                old(self)@.verbosity == Verbosity::Quiet,
            ) + test_block(result@, old(self)@.verbosity),
            final(self)@.current_file == result@.test.file_path,
            final(self)@.verbosity == old(self)@.verbosity,
    {
        let quiet = self.verbosity == Verbosity::Quiet;
        push_file_header(&mut self.writer, &self.current_file, &result.test.file_path, quiet);
        self.current_file = clone_opt_string(&result.test.file_path);
        push_test_block(&mut self.writer, result, self.verbosity);
        assert(self.writer@ =~= Self::test_completed(old(self)@, result@).output);
    }

    fn on_run_complete(&mut self, summary: &RunSummary)
        ensures
            final(self)@ == (TextModel {
                output: old(self)@.output + "\n"@ + count_lines(summary@) + total_line(summary@),
                ..old(self)@
            }),
    {
        self.writer.append("\n");
        push_count_lines(&mut self.writer, summary);
        push_total_line(&mut self.writer, summary);
        assert(self.writer@ =~= Self::run_completed(old(self)@, summary@).output);
    }

    fn on_collect_complete(&mut self, tests: &[TestItem])
        ensures
            final(self)@ == (TextModel {
                output: old(self)@.output + collection_report(views_of(tests@)),
                ..old(self)@
            }),
    {
        let ghost items = views_of(tests@);
        push_banner(&mut self.writer);
        let mut i: usize = 0;
        while i < tests.len()
            invariant
                i <= tests.len(),
                items == views_of(tests@),
                self.current_file == old(self).current_file,
                self.verbosity == old(self).verbosity,
                self.writer@ == old(self).writer@ + banner() + collected_listing(items, i as nat),
            decreases tests.len() - i,
        {
            let test = &tests[i];
            let ghost before = self.writer@;
            if i == 0 {
                let none: Option<String> = None;
                push_file_header(&mut self.writer, &none, &test.file_path, false);
            } else {
                push_file_header(&mut self.writer, &tests[i - 1].file_path, &test.file_path, false);
            }
            self.writer.append("  ");
            self.writer.append(dimmed(shown_name(test)).as_str());
            self.writer.append("\n");
            proof {
                assert(items[i as int] == test@);
                assert(self.writer@ =~= before + file_header(
                    file_before(items, i as int),
                    items[i as int].file_path,
                    false,
                ) + collected_line(items[i as int]));
                assert(self.writer@ =~= old(self).writer@ + banner() + collected_listing(
                    items,
                    (i + 1) as nat,
                ));
            }
            i += 1;
        }
        self.writer.append("\n");
        push_decimal(&mut self.writer, tests.len() as u128);
        self.writer.append(" tests collected.");
        self.writer.append("\n");
        assert(self.writer@ =~= Self::collect_completed(old(self)@, items).output);
    }
}

} // verus!
