use crate::duration::Duration;
use vstd::prelude::*;

verus! {

/// An assertion that a test body is expected to make, found by reading its source.
#[derive(Debug)]
pub struct ExpectedAssertion {
    pub subject: String,
    pub matcher: String,
    pub negated: bool,
    pub args: Vec<String>,
    pub line: u32,
    pub label: Option<String>,
}

/// The model of an [`ExpectedAssertion`].
pub struct ExpectedAssertionView {
    pub subject: Seq<char>,
    pub matcher: Seq<char>,
    pub negated: bool,
    pub args: Seq<Seq<char>>,
    pub line: u32,
    pub label: Option<Seq<char>>,
}

impl DeepView for ExpectedAssertion {
    type V = ExpectedAssertionView;

    open spec fn deep_view(&self) -> ExpectedAssertionView {
        ExpectedAssertionView {
            subject: self.subject@,
            matcher: self.matcher@,
            negated: self.negated,
            args: self.args.deep_view(),
            line: self.line,
            label: self.label.deep_view(),
        }
    }
}

impl View for ExpectedAssertion {
    type V = ExpectedAssertionView;

    open spec fn view(&self) -> ExpectedAssertionView {
        self.deep_view()
    }
}

/// A copy of the strings of `v`.
pub fn clone_strings(v: &Vec<String>) -> (copy: Vec<String>)
    ensures
        copy.deep_view() == v.deep_view(),
{
    let mut copy: Vec<String> = Vec::new();
    let mut i: usize = 0;
    while i < v.len()
        invariant
            i <= v.len(),
            copy.len() == i,
            forall|k: int| 0 <= k < i ==> copy[k]@ == v[k]@,
        decreases v.len() - i,
    {
        copy.push(v[i].clone());
        i += 1;
    }
    assert(copy.deep_view() =~= v.deep_view());
    copy
}

/// A copy of an optional string.
pub fn clone_opt_string(v: &Option<String>) -> (copy: Option<String>)
    ensures
        copy.deep_view() == v.deep_view(),
{
    match v {
        Some(s) => Some(s.clone()),
        None => None,
    }
}

impl Clone for ExpectedAssertion {
    fn clone(&self) -> (copy: Self)
        ensures
            copy@ == self@,
    {
        ExpectedAssertion {
            subject: self.subject.clone(),
            matcher: self.matcher.clone(),
            negated: self.negated,
            args: clone_strings(&self.args),
            line: self.line,
            label: clone_opt_string(&self.label),
        }
    }
}

/// What the execution of a test observed of one failed assertion.
///
/// `span_offset` and `span_length` locate the failing part inside `expression`, in bytes.
#[derive(Debug)]
pub struct Assertion {
    pub expression: String,
    pub file: Option<String>,
    pub line: usize,
    pub span_offset: usize,
    pub span_length: usize,
    pub expected: String,
    pub received: String,
}

/// The model of an [`Assertion`].
pub struct AssertionView {
    pub expression: Seq<char>,
    pub file: Option<Seq<char>>,
    pub line: usize,
    pub span_offset: usize,
    pub span_length: usize,
    pub expected: Seq<char>,
    pub received: Seq<char>,
}

impl DeepView for Assertion {
    type V = AssertionView;

    open spec fn deep_view(&self) -> AssertionView {
        AssertionView {
            expression: self.expression@,
            file: self.file.deep_view(),
            line: self.line,
            span_offset: self.span_offset,
            span_length: self.span_length,
            expected: self.expected@,
            received: self.received@,
        }
    }
}

impl View for Assertion {
    type V = AssertionView;

    open spec fn view(&self) -> AssertionView {
        self.deep_view()
    }
}

impl Clone for Assertion {
    fn clone(&self) -> (copy: Self)
        ensures
            copy@ == self@,
    {
        Assertion {
            expression: self.expression.clone(),
            file: clone_opt_string(&self.file),
            line: self.line,
            span_offset: self.span_offset,
            span_length: self.span_length,
            expected: self.expected.clone(),
            received: self.received.clone(),
        }
    }
}

/// A test found by reading source text.
#[derive(Debug)]
pub struct TestItem {
    pub name: String,
    pub module: String,
    pub file_path: Option<String>,
    pub line_number: Option<u32>,
    pub display_name: Option<String>,
    pub expected_assertions: Vec<ExpectedAssertion>,
}

/// The model of a [`TestItem`].
pub struct TestItemView {
    pub name: Seq<char>,
    pub module: Seq<char>,
    pub file_path: Option<Seq<char>>,
    pub line_number: Option<u32>,
    pub display_name: Option<Seq<char>>,
    pub expected_assertions: Seq<ExpectedAssertionView>,
}

impl TestItemView {
    /// The name a report shows: the display name where there is one, else the name.
    pub open spec fn shown_name(self) -> Seq<char> {
        match self.display_name {
            Some(label) => label,
            None => self.name,
        }
    }

    /// The identifier of the test: where it lives, two colons, its name.
    pub open spec fn id(self) -> Seq<char> {
        match self.file_path {
            Some(path) => path + seq![':', ':'] + self.name,
            None => self.module + seq![':', ':'] + self.name,
        }
    }
}

impl DeepView for TestItem {
    type V = TestItemView;

    open spec fn deep_view(&self) -> TestItemView {
        TestItemView {
            name: self.name@,
            module: self.module@,
            file_path: self.file_path.deep_view(),
            line_number: self.line_number,
            display_name: self.display_name.deep_view(),
            expected_assertions: self.expected_assertions.deep_view(),
        }
    }
}

impl View for TestItem {
    type V = TestItemView;

    open spec fn view(&self) -> TestItemView {
        self.deep_view()
    }
}

/// A copy of a list of expected assertions.
pub fn clone_expected(v: &Vec<ExpectedAssertion>) -> (copy: Vec<ExpectedAssertion>)
    ensures
        copy.deep_view() == v.deep_view(),
{
    let mut copy: Vec<ExpectedAssertion> = Vec::new();
    let mut i: usize = 0;
    while i < v.len()
        invariant
            i <= v.len(),
            copy.len() == i,
            forall|k: int| 0 <= k < i ==> copy[k]@ == v[k]@,
        decreases v.len() - i,
    {
        copy.push(v[i].clone());
        i += 1;
    }
    assert(copy.deep_view() =~= v.deep_view());
    copy
}

impl Clone for TestItem {
    fn clone(&self) -> (copy: Self)
        ensures
            copy@ == self@,
    {
        TestItem {
            name: self.name.clone(),
            module: self.module.clone(),
            file_path: clone_opt_string(&self.file_path),
            line_number: self.line_number,
            display_name: clone_opt_string(&self.display_name),
            expected_assertions: clone_expected(&self.expected_assertions),
        }
    }
}

impl TestItem {
    /// The identifier of the test: its file where it has one, else its module path,
    /// then two colons and its name.
    #[must_use]
    pub fn id(&self) -> (id: String)
        ensures
            id@ == self@.id(),
    {
        let mut id = match &self.file_path {
            Some(path) => path.clone(),
            None => self.module.clone(),
        };
        id.push(':');
        id.push(':');
        id.append(self.name.as_str());
        assert(id@ =~= self@.id());
        id
    }
}

/// How a test ended.
#[derive(Debug)]
pub enum TestOutcome {
    Passed,
    Failed { message: String, assertions: Vec<Assertion> },
    Skipped { reason: Option<String> },
}

/// The model of a [`TestOutcome`].
pub enum TestOutcomeView {
    Passed,
    Failed { message: Seq<char>, assertions: Seq<AssertionView> },
    Skipped { reason: Option<Seq<char>> },
}

impl DeepView for TestOutcome {
    type V = TestOutcomeView;

    open spec fn deep_view(&self) -> TestOutcomeView {
        match self {
            TestOutcome::Passed => TestOutcomeView::Passed,
            TestOutcome::Failed { message, assertions } => TestOutcomeView::Failed {
                message: message@,
                assertions: assertions.deep_view(),
            },
            TestOutcome::Skipped { reason } => TestOutcomeView::Skipped {
                reason: reason.deep_view(),
            },
        }
    }
}

impl View for TestOutcome {
    type V = TestOutcomeView;

    open spec fn view(&self) -> TestOutcomeView {
        self.deep_view()
    }
}

/// A copy of a list of observed assertions.
pub fn clone_assertions(v: &Vec<Assertion>) -> (copy: Vec<Assertion>)
    ensures
        copy.deep_view() == v.deep_view(),
{
    let mut copy: Vec<Assertion> = Vec::new();
    let mut i: usize = 0;
    while i < v.len()
        invariant
            i <= v.len(),
            copy.len() == i,
            forall|k: int| 0 <= k < i ==> copy[k]@ == v[k]@,
        decreases v.len() - i,
    {
        copy.push(v[i].clone());
        i += 1;
    }
    assert(copy.deep_view() =~= v.deep_view());
    copy
}

impl Clone for TestOutcome {
    fn clone(&self) -> (copy: Self)
        ensures
            copy@ == self@,
    {
        match self {
            TestOutcome::Passed => TestOutcome::Passed,
            TestOutcome::Failed { message, assertions } => TestOutcome::Failed {
                message: message.clone(),
                assertions: clone_assertions(assertions),
            },
            TestOutcome::Skipped { reason } => TestOutcome::Skipped {
                reason: clone_opt_string(reason),
            },
        }
    }
}

/// A test together with how its execution ended.
#[derive(Debug)]
pub struct TestResult {
    pub test: TestItem,
    pub outcome: TestOutcome,
    pub duration: Duration,
    pub stdout: String,
    pub stderr: String,
}

/// The model of a [`TestResult`]; the duration is in nanoseconds.
pub struct TestResultView {
    pub test: TestItemView,
    pub outcome: TestOutcomeView,
    pub duration: nat,
    pub stdout: Seq<char>,
    pub stderr: Seq<char>,
}

impl DeepView for TestResult {
    type V = TestResultView;

    open spec fn deep_view(&self) -> TestResultView {
        TestResultView {
            test: self.test@,
            outcome: self.outcome@,
            duration: self.duration@,
            stdout: self.stdout@,
            stderr: self.stderr@,
        }
    }
}

impl View for TestResult {
    type V = TestResultView;

    open spec fn view(&self) -> TestResultView {
        self.deep_view()
    }
}

impl Clone for TestResult {
    fn clone(&self) -> (copy: Self)
        ensures
            copy@ == self@,
    {
        TestResult {
            test: self.test.clone(),
            outcome: self.outcome.clone(),
            duration: self.duration,
            stdout: self.stdout.clone(),
            stderr: self.stderr.clone(),
        }
    }
}

/// The counts of one run and the time it took.
#[derive(Debug)]
pub struct RunSummary {
    pub passed: usize,
    pub failed: usize,
    pub skipped: usize,
    pub duration: Duration,
}

/// The model of a [`RunSummary`]; the duration is in nanoseconds.
pub struct RunSummaryView {
    pub passed: nat,
    pub failed: nat,
    pub skipped: nat,
    pub duration: nat,
}

impl RunSummaryView {
    /// The number of tests the summary counts.
    pub open spec fn total(self) -> nat {
        self.passed + self.failed + self.skipped
    }
}

impl DeepView for RunSummary {
    type V = RunSummaryView;

    open spec fn deep_view(&self) -> RunSummaryView {
        RunSummaryView {
            passed: self.passed as nat,
            failed: self.failed as nat,
            skipped: self.skipped as nat,
            duration: self.duration@,
        }
    }
}

impl View for RunSummary {
    type V = RunSummaryView;

    open spec fn view(&self) -> RunSummaryView {
        self.deep_view()
    }
}

impl Clone for RunSummary {
    fn clone(&self) -> (copy: Self)
        ensures
            copy@ == self@,
    {
        RunSummary {
            passed: self.passed,
            failed: self.failed,
            skipped: self.skipped,
            duration: self.duration,
        }
    }
}

/// A problem met while reading one file.
#[derive(Debug)]
pub struct DiscoveryError {
    pub file_path: String,
    pub message: String,
    pub line_number: Option<u32>,
}

/// The model of a [`DiscoveryError`].
pub struct DiscoveryErrorView {
    pub file_path: Seq<char>,
    pub message: Seq<char>,
    pub line_number: Option<u32>,
}

impl DeepView for DiscoveryError {
    type V = DiscoveryErrorView;

    open spec fn deep_view(&self) -> DiscoveryErrorView {
        DiscoveryErrorView {
            file_path: self.file_path@,
            message: self.message@,
            line_number: self.line_number,
        }
    }
}

impl View for DiscoveryError {
    type V = DiscoveryErrorView;

    open spec fn view(&self) -> DiscoveryErrorView {
        self.deep_view()
    }
}

impl Clone for DiscoveryError {
    fn clone(&self) -> (copy: Self)
        ensures
            copy@ == self@,
    {
        DiscoveryError {
            file_path: self.file_path.clone(),
            message: self.message.clone(),
            line_number: self.line_number,
        }
    }
}

/// The tests found in one file.
#[derive(Debug)]
pub struct FileDiscovery {
    pub file_path: String,
    pub tests: Vec<TestItem>,
}

/// The model of a [`FileDiscovery`].
pub struct FileDiscoveryView {
    pub file_path: Seq<char>,
    pub tests: Seq<TestItemView>,
}

impl DeepView for FileDiscovery {
    type V = FileDiscoveryView;

    open spec fn deep_view(&self) -> FileDiscoveryView {
        FileDiscoveryView { file_path: self.file_path@, tests: self.tests.deep_view() }
    }
}

impl View for FileDiscovery {
    type V = FileDiscoveryView;

    open spec fn view(&self) -> FileDiscoveryView {
        self.deep_view()
    }
}

/// A copy of a list of tests.
pub fn clone_items(v: &Vec<TestItem>) -> (copy: Vec<TestItem>)
    ensures
        copy.deep_view() == v.deep_view(),
{
    let mut copy: Vec<TestItem> = Vec::new();
    let mut i: usize = 0;
    while i < v.len()
        invariant
            i <= v.len(),
            copy.len() == i,
            forall|k: int| 0 <= k < i ==> copy[k]@ == v[k]@,
        decreases v.len() - i,
    {
        copy.push(v[i].clone());
        i += 1;
    }
    assert(copy.deep_view() =~= v.deep_view());
    copy
}

impl Clone for FileDiscovery {
    fn clone(&self) -> (copy: Self)
        ensures
            copy@ == self@,
    {
        FileDiscovery { file_path: self.file_path.clone(), tests: clone_items(&self.tests) }
    }
}

/// What one discovery pass found: the tests by file, the problems, the time taken.
#[derive(Debug)]
pub struct DiscoveryResult {
    pub files: Vec<FileDiscovery>,
    pub errors: Vec<DiscoveryError>,
    pub duration: Duration,
}

/// The model of a [`DiscoveryResult`]; the duration is in nanoseconds.
pub struct DiscoveryResultView {
    pub files: Seq<FileDiscoveryView>,
    pub errors: Seq<DiscoveryErrorView>,
    pub duration: nat,
}

impl DeepView for DiscoveryResult {
    type V = DiscoveryResultView;

    open spec fn deep_view(&self) -> DiscoveryResultView {
        DiscoveryResultView {
            files: self.files.deep_view(),
            errors: self.errors.deep_view(),
            duration: self.duration@,
        }
    }
}

impl View for DiscoveryResult {
    type V = DiscoveryResultView;

    open spec fn view(&self) -> DiscoveryResultView {
        self.deep_view()
    }
}

impl Clone for DiscoveryResult {
    fn clone(&self) -> (copy: Self)
        ensures
            copy@ == self@,
    {
        let mut files: Vec<FileDiscovery> = Vec::new();
        let mut i: usize = 0;
        while i < self.files.len()
            invariant
                i <= self.files.len(),
                files.len() == i,
                forall|k: int| 0 <= k < i ==> files[k]@ == self.files[k]@,
            decreases self.files.len() - i,
        {
            files.push(self.files[i].clone());
            i += 1;
        }
        let mut errors: Vec<DiscoveryError> = Vec::new();
        let mut j: usize = 0;
        while j < self.errors.len()
            invariant
                j <= self.errors.len(),
                errors.len() == j,
                forall|k: int| 0 <= k < j ==> errors[k]@ == self.errors[k]@,
            decreases self.errors.len() - j,
        {
            errors.push(self.errors[j].clone());
            j += 1;
        }
        assert(files.deep_view() =~= self.files.deep_view());
        assert(errors.deep_view() =~= self.errors.deep_view());
        DiscoveryResult { files, errors, duration: self.duration }
    }
}

} // verus!
