use crate::duration::Duration;
use crate::reporter::{views_of, Reporter};
use crate::strings::{concat_map, decimal, digit_char, join, lemma_join_step, push_decimal};
use crate::types::{
    Assertion, AssertionView, ExpectedAssertion, ExpectedAssertionView, RunSummary, RunSummaryView,
    TestItem, TestItemView, TestOutcome, TestOutcomeView, TestResult, TestResultView,
};
use vstd::prelude::*;

verus! {

/// The lower-case hexadecimal digit for `n`, for `n` below sixteen.
pub open spec fn hex_digit(n: nat) -> char {
    if n < 10 {
        digit_char(n)
    } else if n == 10 {
        'a'
    } else if n == 11 {
        'b'
    } else if n == 12 {
        'c'
    } else if n == 13 {
        'd'
    } else if n == 14 {
        'e'
    } else {
        'f'
    }
}

/// What stands for one character inside a JSON string: a two-character escape for the
/// quote, the backslash, backspace, tab, line feed, form feed and carriage return; a
/// `\u00` escape with two hexadecimal digits for the other characters below the space;
/// and the character itself otherwise.
pub open spec fn json_char(c: char) -> Seq<char> {
    if c == '"' {
        seq!['\\', '"']
    } else if c == '\\' {
        seq!['\\', '\\']
    } else if c == '\u{8}' {
        seq!['\\', 'b']
    } else if c == '\t' {
        seq!['\\', 't']
    } else if c == '\n' {
        seq!['\\', 'n']
    } else if c == '\u{c}' {
        seq!['\\', 'f']
    } else if c == '\r' {
        seq!['\\', 'r']
    } else if (c as u32) < 0x20 {
        seq!['\\', 'u', '0', '0', hex_digit((c as u32 / 16) as nat), hex_digit((c as u32 % 16) as nat)]
    } else {
        seq![c]
    }
}

/// `text` as a JSON string: between quotes, each character as [`json_char`] gives it.
pub open spec fn json_string(text: Seq<char>) -> Seq<char> {
    seq!['"'] + concat_map(text, |c: char| json_char(c)) + seq!['"']
}

/// Calls `serde_json::to_string` on a string slice. serde_json writes a quote, the
/// characters with the escapes of its table (`\"`, `\\`, `\b`, `\t`, `\n`, `\f`, `\r`,
/// `\u00XX` for the other bytes below 0x20, every other byte as it is) and a quote; for a
/// string slice it reports no error.
#[verifier::external_body]
pub(crate) fn to_json_string(text: &str) -> (json: String)
    ensures
        json@ == json_string(text@),
{
    match serde_json::to_string(text) {
        Ok(json) => json,
        Err(_) => String::new(),
    }
}

/// An optional string as JSON: the string, or `null`.
pub open spec fn json_opt_string(text: Option<Seq<char>>) -> Seq<char> {
    match text {
        Some(t) => json_string(t),
        None => "null"@,
    }
}

/// An optional number as JSON: its decimal digits, or `null`.
pub open spec fn json_opt_number(n: Option<u32>) -> Seq<char> {
    match n {
        Some(n) => decimal(n as nat),
        None => "null"@,
    }
}

/// A truth value as JSON.
pub open spec fn json_bool(b: bool) -> Seq<char> {
    if b {
        "true"@
    } else {
        "false"@
    }
}

/// A JSON array of the elements given, each already in JSON.
pub open spec fn json_array(elements: Seq<Seq<char>>) -> Seq<char> {
    "["@ + join(elements, ","@) + "]"@
}

/// A duration of `nanos` nanoseconds as JSON: its whole seconds and the nanoseconds of
/// the second that has begun.
pub open spec fn json_duration(nanos: nat) -> Seq<char> {
    "{\"secs\":"@ + decimal(nanos / 1_000_000_000) + ",\"nanos\":"@ + decimal(
        nanos % 1_000_000_000,
    ) + "}"@
}

/// An expected assertion as a JSON object.
pub open spec fn json_expected(a: ExpectedAssertionView) -> Seq<char> {
    "{\"subject\":"@ + json_string(a.subject) + ",\"matcher\":"@ + json_string(a.matcher)
        + ",\"negated\":"@ + json_bool(a.negated) + ",\"args\":"@ + json_array(
        a.args.map_values(|s: Seq<char>| json_string(s)),
    ) + ",\"line\":"@ + decimal(a.line as nat) + ",\"label\":"@ + json_opt_string(a.label) + "}"@
}

/// An observed assertion as a JSON object.
pub open spec fn json_assertion(a: AssertionView) -> Seq<char> {
    "{\"expression\":"@ + json_string(a.expression) + ",\"file\":"@ + json_opt_string(a.file)
        + ",\"line\":"@ + decimal(a.line as nat) + ",\"span_offset\":"@ + decimal(
        a.span_offset as nat,
    ) + ",\"span_length\":"@ + decimal(a.span_length as nat) + ",\"expected\":"@ + json_string(
        a.expected,
    ) + ",\"received\":"@ + json_string(a.received) + "}"@
}

/// A test as a JSON object.
pub open spec fn json_item(t: TestItemView) -> Seq<char> {
    "{\"name\":"@ + json_string(t.name) + ",\"module_path\":"@ + json_string(t.module)
        + ",\"file_path\":"@ + json_opt_string(t.file_path) + ",\"line_number\":"@
        + json_opt_number(t.line_number) + ",\"display_name\":"@ + json_opt_string(t.display_name)
        + ",\"expected_assertions\":"@ + json_array(
        t.expected_assertions.map_values(|a: ExpectedAssertionView| json_expected(a)),
    ) + "}"@
}

/// A list of tests as a JSON array.
pub open spec fn json_items(tests: Seq<TestItemView>) -> Seq<char> {
    json_array(tests.map_values(|t: TestItemView| json_item(t)))
}

/// An outcome as a JSON object: its status, and for a failed or skipped test the detail.
pub open spec fn json_outcome(o: TestOutcomeView) -> Seq<char> {
    match o {
        TestOutcomeView::Passed => "{\"status\":\"passed\"}"@,
        TestOutcomeView::Failed { message, assertions } =>
            "{\"status\":\"failed\",\"detail\":{\"message\":"@ + json_string(message)
                + ",\"assertions\":"@ + json_array(
                assertions.map_values(|a: AssertionView| json_assertion(a)),
            ) + "}}"@,
        TestOutcomeView::Skipped { reason } => "{\"status\":\"skipped\",\"detail\":{\"reason\":"@
            + json_opt_string(reason) + "}}"@,
    }
}

/// A result as a JSON object.
pub open spec fn json_result(r: TestResultView) -> Seq<char> {
    "{\"test\":"@ + json_item(r.test) + ",\"outcome\":"@ + json_outcome(r.outcome)
        + ",\"duration\":"@ + json_duration(r.duration) + ",\"stdout\":"@ + json_string(r.stdout)
        + ",\"stderr\":"@ + json_string(r.stderr) + "}"@
}

/// A summary as a JSON object.
pub open spec fn json_summary(s: RunSummaryView) -> Seq<char> {
    "{\"passed\":"@ + decimal(s.passed) + ",\"failed\":"@ + decimal(s.failed) + ",\"skipped\":"@
        + decimal(s.skipped) + ",\"duration\":"@ + json_duration(s.duration) + "}"@
}

/// The line of the event that starts a run.
pub open spec fn run_start_line(tests: Seq<TestItemView>) -> Seq<char> {
    "{\"event\":\"run_start\",\"tests\":"@ + json_items(tests) + "}"@ + "\n"@
}

/// The line of the event that completes one test.
pub open spec fn test_complete_line(result: TestResultView) -> Seq<char> {
    "{\"event\":\"test_complete\",\"result\":"@ + json_result(result) + "}"@ + "\n"@
}

/// The line of the event that completes a run.
pub open spec fn run_complete_line(summary: RunSummaryView) -> Seq<char> {
    "{\"event\":\"run_complete\",\"summary\":"@ + json_summary(summary) + "}"@ + "\n"@
}

/// The line of the event that completes a collection.
pub open spec fn collect_complete_line(tests: Seq<TestItemView>) -> Seq<char> {
    "{\"event\":\"collect_complete\",\"tests\":"@ + json_items(tests) + "}"@ + "\n"@
}

fn push_json_string(out: &mut String, text: &str)
    ensures
        final(out)@ == old(out)@ + json_string(text@),
{
    out.append(to_json_string(text).as_str());
}

fn push_json_opt_string(out: &mut String, text: &Option<String>)
    ensures
        final(out)@ == old(out)@ + json_opt_string(text.deep_view()),
{
    match text {
        Some(t) => push_json_string(out, t.as_str()),
        None => out.append("null"),
    }
}

fn push_json_opt_number(out: &mut String, n: Option<u32>)
    ensures
        final(out)@ == old(out)@ + json_opt_number(n),
{
    match n {
        Some(n) => push_decimal(out, n as u128),
        None => out.append("null"),
    }
}

fn push_json_bool(out: &mut String, b: bool)
    ensures
        final(out)@ == old(out)@ + json_bool(b),
{
    if b {
        out.append("true");
    } else {
        out.append("false");
    }
}

fn push_json_duration(out: &mut String, d: Duration)
    ensures
        final(out)@ == old(out)@ + json_duration(d@),
{
    out.append("{\"secs\":");
    push_decimal(out, d.as_secs() as u128);
    out.append(",\"nanos\":");
    push_decimal(out, d.subsec_nanos() as u128);
    out.append("}");
    assert(out@ =~= old(out)@ + json_duration(d@));
}

fn push_json_strings(out: &mut String, texts: &Vec<String>)
    ensures
        final(out)@ == old(out)@ + json_array(
            texts.deep_view().map_values(|s: Seq<char>| json_string(s)),
        ),
{
    let ghost elements = texts.deep_view().map_values(|s: Seq<char>| json_string(s));
    out.append("[");
    let mut i: usize = 0;
    assert(join(elements.take(0), ","@) =~= Seq::<char>::empty()) by {
        assert(elements.take(0) =~= Seq::<Seq<char>>::empty());
    }
    while i < texts.len()
        invariant
            i <= texts.len(),
            elements == texts.deep_view().map_values(|s: Seq<char>| json_string(s)),
            out@ == old(out)@ + "["@ + join(elements.take(i as int), ","@),
        decreases texts.len() - i,
    {
        if i > 0 {
            out.append(",");
        }
        push_json_string(out, texts[i].as_str());
        proof {
            lemma_join_step(elements, ","@, i as int);
            assert(out@ =~= old(out)@ + "["@ + join(elements.take(i + 1), ","@));
        }
        i += 1;
    }
    proof {
        if texts.len() > 0 {
            lemma_join_step(elements, ","@, 0);
        } else {
            assert(elements.take(0) =~= elements);
        }
    }
    out.append("]");
    assert(out@ =~= old(out)@ + json_array(elements));
}

fn push_json_expected(out: &mut String, a: &ExpectedAssertion)
    ensures
        final(out)@ == old(out)@ + json_expected(a@),
{
    out.append("{\"subject\":");
    push_json_string(out, a.subject.as_str());
    out.append(",\"matcher\":");
    push_json_string(out, a.matcher.as_str());
    out.append(",\"negated\":");
    push_json_bool(out, a.negated);
    out.append(",\"args\":");
    push_json_strings(out, &a.args);
    out.append(",\"line\":");
    push_decimal(out, a.line as u128);
    out.append(",\"label\":");
    push_json_opt_string(out, &a.label);
    out.append("}");
    assert(out@ =~= old(out)@ + json_expected(a@));
}

fn push_json_assertion(out: &mut String, a: &Assertion)
    ensures
        final(out)@ == old(out)@ + json_assertion(a@),
{
    out.append("{\"expression\":");
    push_json_string(out, a.expression.as_str());
    out.append(",\"file\":");
    push_json_opt_string(out, &a.file);
    out.append(",\"line\":");
    push_decimal(out, a.line as u128);
    out.append(",\"span_offset\":");
    push_decimal(out, a.span_offset as u128);
    out.append(",\"span_length\":");
    push_decimal(out, a.span_length as u128);
    out.append(",\"expected\":");
    push_json_string(out, a.expected.as_str());
    out.append(",\"received\":");
    push_json_string(out, a.received.as_str());
    out.append("}");
    assert(out@ =~= old(out)@ + json_assertion(a@));
}

fn push_json_expected_list(out: &mut String, list: &Vec<ExpectedAssertion>)
    ensures
        final(out)@ == old(out)@ + json_array(
            list.deep_view().map_values(|a: ExpectedAssertionView| json_expected(a)),
        ),
{
    let ghost elements = list.deep_view().map_values(|a: ExpectedAssertionView| json_expected(a));
    out.append("[");
    let mut i: usize = 0;
    assert(join(elements.take(0), ","@) =~= Seq::<char>::empty()) by {
        assert(elements.take(0) =~= Seq::<Seq<char>>::empty());
    }
    while i < list.len()
        invariant
            i <= list.len(),
            elements == list.deep_view().map_values(|a: ExpectedAssertionView| json_expected(a)),
            out@ == old(out)@ + "["@ + join(elements.take(i as int), ","@),
        decreases list.len() - i,
    {
        if i > 0 {
            out.append(",");
        }
        push_json_expected(out, &list[i]);
        proof {
            lemma_join_step(elements, ","@, i as int);
            assert(out@ =~= old(out)@ + "["@ + join(elements.take(i + 1), ","@));
        }
        i += 1;
    }
    proof {
        if list.len() > 0 {
            lemma_join_step(elements, ","@, 0);
        } else {
            assert(elements.take(0) =~= elements);
        }
    }
    out.append("]");
    assert(out@ =~= old(out)@ + json_array(elements));
}

fn push_json_assertion_list(out: &mut String, list: &Vec<Assertion>)
    ensures
        final(out)@ == old(out)@ + json_array(
            list.deep_view().map_values(|a: AssertionView| json_assertion(a)),
        ),
{
    let ghost elements = list.deep_view().map_values(|a: AssertionView| json_assertion(a));
    out.append("[");
    let mut i: usize = 0;
    assert(join(elements.take(0), ","@) =~= Seq::<char>::empty()) by {
        assert(elements.take(0) =~= Seq::<Seq<char>>::empty());
    }
    while i < list.len()
        invariant
            i <= list.len(),
            elements == list.deep_view().map_values(|a: AssertionView| json_assertion(a)),
            out@ == old(out)@ + "["@ + join(elements.take(i as int), ","@),
        decreases list.len() - i,
    {
        if i > 0 {
            out.append(",");
        }
        push_json_assertion(out, &list[i]);
        proof {
            lemma_join_step(elements, ","@, i as int);
            assert(out@ =~= old(out)@ + "["@ + join(elements.take(i + 1), ","@));
        }
        i += 1;
    }
    proof {
        if list.len() > 0 {
            lemma_join_step(elements, ","@, 0);
        } else {
            assert(elements.take(0) =~= elements);
        }
    }
    out.append("]");
    assert(out@ =~= old(out)@ + json_array(elements));
}

/// Appends `test` as a JSON object to `out`.
pub fn push_json_item(out: &mut String, test: &TestItem)
    ensures
        final(out)@ == old(out)@ + json_item(test@),
{
    out.append("{\"name\":");
    push_json_string(out, test.name.as_str());
    out.append(",\"module_path\":");
    push_json_string(out, test.module.as_str());
    out.append(",\"file_path\":");
    push_json_opt_string(out, &test.file_path);
    out.append(",\"line_number\":");
    push_json_opt_number(out, test.line_number);
    out.append(",\"display_name\":");
    push_json_opt_string(out, &test.display_name);
    out.append(",\"expected_assertions\":");
    push_json_expected_list(out, &test.expected_assertions);
    out.append("}");
    assert(out@ =~= old(out)@ + json_item(test@));
}

/// Appends `tests` as a JSON array to `out`.
pub fn push_json_items(out: &mut String, tests: &[TestItem])
    ensures
        final(out)@ == old(out)@ + json_items(views_of(tests@)),
{
    let ghost elements = views_of(tests@).map_values(|t: TestItemView| json_item(t));
    out.append("[");
    let mut i: usize = 0;
    assert(join(elements.take(0), ","@) =~= Seq::<char>::empty()) by {
        assert(elements.take(0) =~= Seq::<Seq<char>>::empty());
    }
    while i < tests.len()
        invariant
            i <= tests.len(),
            elements == views_of(tests@).map_values(|t: TestItemView| json_item(t)),
            out@ == old(out)@ + "["@ + join(elements.take(i as int), ","@),
        decreases tests.len() - i,
    {
        if i > 0 {
            out.append(",");
        }
        push_json_item(out, &tests[i]);
        proof {
            lemma_join_step(elements, ","@, i as int);
            assert(out@ =~= old(out)@ + "["@ + join(elements.take(i + 1), ","@));
        }
        i += 1;
    }
    proof {
        if tests.len() > 0 {
            lemma_join_step(elements, ","@, 0);
        } else {
            assert(elements.take(0) =~= elements);
        }
    }
    out.append("]");
    assert(out@ =~= old(out)@ + json_items(views_of(tests@)));
}

/// Appends `outcome` as a JSON object to `out`.
pub fn push_json_outcome(out: &mut String, outcome: &TestOutcome)
    ensures
        final(out)@ == old(out)@ + json_outcome(outcome@),
{
    match outcome {
        TestOutcome::Passed => {
            out.append("{\"status\":\"passed\"}");
        },
        TestOutcome::Failed { message, assertions } => {
            out.append("{\"status\":\"failed\",\"detail\":{\"message\":");
            push_json_string(out, message.as_str());
            out.append(",\"assertions\":");
            push_json_assertion_list(out, assertions);
            out.append("}}");
        },
        TestOutcome::Skipped { reason } => {
            out.append("{\"status\":\"skipped\",\"detail\":{\"reason\":");
            push_json_opt_string(out, reason);
            out.append("}}");
        },
    }
    assert(out@ =~= old(out)@ + json_outcome(outcome@));
}

/// Appends `result` as a JSON object to `out`.
pub fn push_json_result(out: &mut String, result: &TestResult)
    ensures
        final(out)@ == old(out)@ + json_result(result@),
{
    out.append("{\"test\":");
    push_json_item(out, &result.test);
    out.append(",\"outcome\":");
    push_json_outcome(out, &result.outcome);
    out.append(",\"duration\":");
    push_json_duration(out, result.duration);
    out.append(",\"stdout\":");
    push_json_string(out, result.stdout.as_str());
    out.append(",\"stderr\":");
    push_json_string(out, result.stderr.as_str());
    out.append("}");
    assert(out@ =~= old(out)@ + json_result(result@));
}

/// Appends `summary` as a JSON object to `out`.
pub fn push_json_summary(out: &mut String, summary: &RunSummary)
    ensures
        final(out)@ == old(out)@ + json_summary(summary@),
{
    out.append("{\"passed\":");
    push_decimal(out, summary.passed as u128);
    out.append(",\"failed\":");
    push_decimal(out, summary.failed as u128);
    out.append(",\"skipped\":");
    push_decimal(out, summary.skipped as u128);
    out.append(",\"duration\":");
    push_json_duration(out, summary.duration);
    out.append("}");
    assert(out@ =~= old(out)@ + json_summary(summary@));
}

/// A reporter that writes each event as one line of JSON.
pub struct JSONReporter {
    writer: String,
}

impl JSONReporter {
    /// The text written so far.
    pub closed spec fn written(&self) -> Seq<char> {
        self.writer@
    }

    /// A reporter that has written nothing.
    #[must_use]
    pub fn new() -> (reporter: Self)
        ensures
            reporter.written() == Seq::<char>::empty(),
    {
        JSONReporter { writer: String::new() }
    }

    /// A reporter that writes after what `writer` holds.
    pub fn with_writer(writer: String) -> (reporter: Self)
        ensures
            reporter.written() == writer@,
    {
        JSONReporter { writer }
    }

    /// Gives back the writer with all that was written.
    pub fn into_writer(self) -> (writer: String)
        ensures
            writer@ == self.written(),
    {
        self.writer
    }

    /// Hands out what was written so far and starts again with an empty writer.
    pub fn take_output(&mut self) -> (output: String)
        ensures
            output@ == old(self).written(),
            final(self).written() == Seq::<char>::empty(),
    {
        let mut output = String::new();
        std::mem::swap(&mut output, &mut self.writer);
        output
    }
}

impl Default for JSONReporter {
    fn default() -> (reporter: Self)
        ensures
            reporter.written() == Seq::<char>::empty(),
    {
        JSONReporter::new()
    }
}

impl Reporter for JSONReporter {
    type Model = Seq<char>;

    open spec fn model(&self) -> Seq<char> {
        self.written()
    }

    open spec fn run_started(before: Seq<char>, tests: Seq<TestItemView>) -> Seq<char> {
        before + run_start_line(tests)
    }

    open spec fn test_completed(before: Seq<char>, result: TestResultView) -> Seq<char> {
        before + test_complete_line(result)
    }

    open spec fn run_completed(before: Seq<char>, summary: RunSummaryView) -> Seq<char> {
        before + run_complete_line(summary)
    }

    open spec fn collect_completed(before: Seq<char>, tests: Seq<TestItemView>) -> Seq<char> {
        before + collect_complete_line(tests)
    }

    fn on_run_start(&mut self, tests: &[TestItem])
        ensures
            final(self).written() == old(self).written() + run_start_line(views_of(tests@)),
    {
        self.writer.append("{\"event\":\"run_start\",\"tests\":");
        push_json_items(&mut self.writer, tests);
        self.writer.append("}");
        self.writer.append("\n");
        assert(self.writer@ =~= old(self).writer@ + run_start_line(views_of(tests@)));
    }

    fn on_test_complete(&mut self, result: &TestResult)
        ensures
            final(self).written() == old(self).written() + test_complete_line(result@),
    {
        self.writer.append("{\"event\":\"test_complete\",\"result\":");
        push_json_result(&mut self.writer, result);
        self.writer.append("}");
        self.writer.append("\n");
        assert(self.writer@ =~= old(self).writer@ + test_complete_line(result@));
    }

    fn on_run_complete(&mut self, summary: &RunSummary)
        ensures
            final(self).written() == old(self).written() + run_complete_line(summary@),
    {
        self.writer.append("{\"event\":\"run_complete\",\"summary\":");
        push_json_summary(&mut self.writer, summary);
        self.writer.append("}");
        self.writer.append("\n");
        assert(self.writer@ =~= old(self).writer@ + run_complete_line(summary@));
    }

    fn on_collect_complete(&mut self, tests: &[TestItem])
        ensures
            final(self).written() == old(self).written() + collect_complete_line(
                views_of(tests@),
            ),
    {
        self.writer.append("{\"event\":\"collect_complete\",\"tests\":");
        push_json_items(&mut self.writer, tests);
        self.writer.append("}");
        self.writer.append("\n");
        assert(self.writer@ =~= old(self).writer@ + collect_complete_line(views_of(tests@)));
    }
}

} // verus!
