use tryke::junit::xml_escape;
use tryke::{Duration, JUnitReporter, Reporter, RunSummary, TestItem, TestOutcome, TestResult};

fn reporter() -> JUnitReporter {
    JUnitReporter::with_writer(String::new())
}

fn test_item(name: &str, module: &str) -> TestItem {
    TestItem {
        name: name.into(),
        module: module.into(),
        file_path: None,
        line_number: None,
        display_name: None,
        expected_assertions: vec![],
    }
}

fn run_suite(r: &mut JUnitReporter) {
    r.on_test_complete(&TestResult {
        test: test_item("test_add", "tests.math"),
        outcome: TestOutcome::Passed,
        duration: Duration::from_millis(12),
        stdout: String::new(),
        stderr: String::new(),
    });
    r.on_test_complete(&TestResult {
        test: test_item("test_sub", "tests.math"),
        outcome: TestOutcome::Failed {
            message: "assertion failed: 3 - 1 == 3".into(),
            assertions: vec![],
        },
        duration: Duration::from_millis(5),
        stdout: String::new(),
        stderr: String::new(),
    });
    r.on_test_complete(&TestResult {
        test: test_item("test_skip", "tests.parser"),
        outcome: TestOutcome::Skipped { reason: None },
        duration: Duration::from_millis(0),
        stdout: String::new(),
        stderr: String::new(),
    });
    r.on_run_complete(&RunSummary {
        passed: 1,
        failed: 1,
        skipped: 1,
        duration: Duration::from_millis(15),
    });
}

#[test]
fn emits_xml_header() {
    let mut r = reporter();
    run_suite(&mut r);
    assert!(r.into_writer().starts_with("<?xml"));
}

#[test]
fn testsuite_attributes() {
    let mut r = reporter();
    run_suite(&mut r);
    let out = r.into_writer();
    assert!(out.contains(r#"tests="3""#));
    assert!(out.contains(r#"failures="1""#));
    assert!(out.contains(r#"skipped="1""#));
}

#[test]
fn passed_testcase_is_self_closing() {
    let mut r = reporter();
    run_suite(&mut r);
    let out = r.into_writer();
    assert!(out.contains(r#"<testcase name="test_add" classname="tests.math""#));
    assert!(out.contains(r#"name="test_add" classname="tests.math" time="0.012"/>"#));
}

#[test]
fn failed_testcase_has_failure_element() {
    let mut r = reporter();
    run_suite(&mut r);
    let out = r.into_writer();
    assert!(out.contains(r#"<failure message="assertion failed: 3 - 1 == 3"/>"#));
}

#[test]
fn skipped_testcase_has_skipped_element() {
    let mut r = reporter();
    run_suite(&mut r);
    assert!(r.into_writer().contains("<skipped/>"));
}

#[test]
fn xml_escape_in_failure_message() {
    let mut r = reporter();
    r.on_test_complete(&TestResult {
        test: test_item("test_amp", "tests.misc"),
        outcome: TestOutcome::Failed { message: "a & b".into(), assertions: vec![] },
        duration: Duration::from_millis(1),
        stdout: String::new(),
        stderr: String::new(),
    });
    r.on_run_complete(&RunSummary {
        passed: 0,
        failed: 1,
        skipped: 0,
        duration: Duration::from_millis(1),
    });
    assert!(r.into_writer().contains("a &amp; b"));
}

#[test]
fn junit_whole_document() {
    let mut r = reporter();
    r.on_run_start(&[test_item("ignored", "m")]);
    run_suite(&mut r);
    let expected = concat_lines(&[
        r#"<?xml version="1.0" encoding="UTF-8"?>"#,
        r#"<testsuite name="tryke" tests="3" failures="1" skipped="1" time="0.015">"#,
        r#"  <testcase name="test_add" classname="tests.math" time="0.012"/>"#,
        r#"  <testcase name="test_sub" classname="tests.math" time="0.005">"#,
        r#"    <failure message="assertion failed: 3 - 1 == 3"/>"#,
        r#"  </testcase>"#,
        r#"  <testcase name="test_skip" classname="tests.parser" time="0.000">"#,
        r#"    <skipped/>"#,
        r#"  </testcase>"#,
        r#"</testsuite>"#,
    ]);
    assert_eq!(r.into_writer(), expected);
}

fn concat_lines(lines: &[&str]) -> String {
    let mut out = String::new();
    for line in lines {
        out.push_str(line);
        out.push('\n');
    }
    out
}

#[test]
fn junit_writes_nothing_before_the_run_completes() {
    let mut r = reporter();
    r.on_run_start(&[]);
    r.on_test_complete(&TestResult {
        test: test_item("test_add", "tests.math"),
        outcome: TestOutcome::Passed,
        duration: Duration::from_millis(12),
        stdout: String::new(),
        stderr: String::new(),
    });
    r.on_collect_complete(&[]);
    assert_eq!(r.take_output(), "");
}

#[test]
fn junit_uses_display_name_and_escapes_attributes() {
    let mut r = reporter();
    let mut item = test_item("test_fn", "tests.<m>");
    item.display_name = Some("it's \"quoted\"".into());
    r.on_test_complete(&TestResult {
        test: item,
        outcome: TestOutcome::Passed,
        duration: Duration::from_micros(1500),
        stdout: String::new(),
        stderr: String::new(),
    });
    r.on_run_complete(&RunSummary {
        passed: 1,
        failed: 0,
        skipped: 0,
        duration: Duration::from_micros(1500),
    });
    let out = r.into_writer();
    assert!(out.contains(
        r#"<testcase name="it&apos;s &quot;quoted&quot;" classname="tests.&lt;m&gt;" time="0.002"/>"#
    ));
    assert!(out.contains(r#"time="0.002">"#));
}

#[test]
fn xml_escape_replaces_the_five_characters() {
    assert_eq!(xml_escape("a & b < c > d \" e ' f"), "a &amp; b &lt; c &gt; d &quot; e &apos; f");
    assert_eq!(xml_escape(""), "");
    assert_eq!(xml_escape("plain \u{e9}"), "plain \u{e9}");
    assert_eq!(xml_escape("&amp;"), "&amp;amp;");
}
