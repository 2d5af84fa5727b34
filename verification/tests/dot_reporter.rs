use tryke::{DotReporter, Duration, Reporter, RunSummary, TestItem, TestOutcome, TestResult};

fn reporter() -> DotReporter {
    DotReporter::with_writer(String::new())
}

fn test_item(name: &str) -> TestItem {
    TestItem {
        name: name.into(),
        module: "tests.mod".into(),
        file_path: None,
        line_number: None,
        display_name: None,
        expected_assertions: vec![],
    }
}

fn result(outcome: TestOutcome, millis: u64) -> TestResult {
    TestResult {
        test: test_item("t"),
        outcome,
        duration: Duration::from_millis(millis),
        stdout: String::new(),
        stderr: String::new(),
    }
}

#[test]
fn on_test_complete_passed() {
    let mut r = reporter();
    r.on_test_complete(&result(TestOutcome::Passed, 1));
    assert!(r.into_writer().contains('.'));
}

#[test]
fn on_test_complete_failed() {
    let mut r = reporter();
    r.on_test_complete(&result(
        TestOutcome::Failed { message: "bad".into(), assertions: vec![] },
        1,
    ));
    assert!(r.into_writer().contains('F'));
}

#[test]
fn on_test_complete_skipped() {
    let mut r = reporter();
    r.on_test_complete(&result(TestOutcome::Skipped { reason: None }, 0));
    assert!(r.into_writer().contains('s'));
}

#[test]
fn dot_run_complete_shows_summary() {
    let mut r = reporter();
    r.on_run_complete(&RunSummary {
        passed: 3,
        failed: 1,
        skipped: 2,
        duration: Duration::from_millis(100),
    });
    let out = r.into_writer();
    assert!(out.contains("pass"));
    assert!(out.contains("fail"));
    assert!(out.contains("skip"));
    assert!(out.contains("Ran 6 tests"));
}

#[test]
fn dot_full_lifecycle() {
    let mut r = reporter();
    let tests = vec![test_item("test_one")];

    r.on_run_start(&tests);
    r.on_test_complete(&TestResult {
        test: tests[0].clone(),
        outcome: TestOutcome::Passed,
        duration: Duration::from_millis(10),
        stdout: String::new(),
        stderr: String::new(),
    });
    r.on_run_complete(&RunSummary {
        passed: 1,
        failed: 0,
        skipped: 0,
        duration: Duration::from_millis(10),
    });

    let out = r.into_writer();
    assert!(out.contains("tryke test"));
    assert!(out.contains('.'));
    assert!(out.contains("pass"));
    assert!(out.contains("Ran 1 tests"));
}

#[test]
fn dot_glyphs_are_styled_as_the_terminal_expects() {
    let mut r = reporter();
    r.on_test_complete(&result(TestOutcome::Passed, 12));
    r.on_test_complete(&result(
        TestOutcome::Failed { message: "bad".into(), assertions: vec![] },
        5,
    ));
    r.on_test_complete(&result(TestOutcome::Skipped { reason: None }, 0));
    assert_eq!(
        r.into_writer(),
        "\x1b[32m.\x1b[39m\x1b[31mF\x1b[39m\x1b[2m\x1b[33ms\x1b[39m\x1b[0m"
    );
}

#[test]
fn dot_glyphs_follow_completion_order() {
    let mut r = reporter();
    r.on_test_complete(&result(TestOutcome::Passed, 12));
    r.on_test_complete(&result(
        TestOutcome::Failed { message: "bad".into(), assertions: vec![] },
        5,
    ));
    r.on_test_complete(&result(TestOutcome::Skipped { reason: None }, 0));
    let out = r.into_writer();
    assert_eq!(out.matches('.').count(), 1);
    assert_eq!(out.matches('F').count(), 1);
    assert_eq!(out.matches('s').count(), 1);
    let dot = out.find('.').unwrap();
    let fail = out.find('F').unwrap();
    let skip = out.find('s').unwrap();
    assert!(dot < fail && fail < skip);
    assert!(!out.contains('\n'));
}

#[test]
fn dot_run_start_writes_banner() {
    let mut r = reporter();
    r.on_run_start(&[]);
    assert_eq!(r.into_writer(), "\x1b[1mtryke test\x1b[0m \x1b[2mv0.1.0\x1b[0m\n\n");
}

#[test]
fn dot_run_complete_exact_text() {
    let mut r = reporter();
    r.on_run_complete(&RunSummary {
        passed: 3,
        failed: 1,
        skipped: 0,
        duration: Duration::from_millis(100),
    });
    assert_eq!(
        r.into_writer(),
        "\n\n \x1b[32m3\x1b[39m \x1b[32mpass\x1b[39m\n \x1b[31m1\x1b[39m \x1b[31mfail\x1b[39m\nRan 4 tests. [100.00ms]\n"
    );
}

#[test]
fn dot_collect_writes_nothing() {
    let mut r = reporter();
    r.on_collect_complete(&[test_item("a")]);
    assert_eq!(r.into_writer(), "");
}

#[test]
fn dot_take_output_drains_the_writer() {
    let mut r = DotReporter::new();
    r.on_test_complete(&result(TestOutcome::Passed, 1));
    let first = r.take_output();
    assert_eq!(first, "\x1b[32m.\x1b[39m");
    assert_eq!(r.take_output(), "");
    r.on_test_complete(&result(TestOutcome::Passed, 1));
    assert_eq!(r.into_writer(), "\x1b[32m.\x1b[39m");
}
