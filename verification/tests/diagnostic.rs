use tryke::diagnostic::{push_block, render_assertion, render_assertions, span_fits};
use tryke::Assertion;

fn make_assertion(expression: &str, offset: usize, len: usize) -> Assertion {
    Assertion {
        expression: expression.into(),
        file: None,
        line: 10,
        span_offset: offset,
        span_length: len,
        expected: "2".into(),
        received: "3".into(),
    }
}

#[test]
fn single_assertion() {
    let assertions = vec![make_assertion("assert_eq!(a, 2)", 14, 1)];
    let mut buf = String::new();
    render_assertions(Some("tests/math.rs"), &assertions, &mut buf);

    assert!(buf.contains("assertion failed"));
    assert!(buf.contains("expected 2, received 3"));
    assert!(buf.contains("tests/math.rs"));
    assert!(buf.contains("1/1 assertions failed"));
}

#[test]
fn multiple_assertions() {
    let assertions =
        vec![make_assertion("assert_eq!(a, 2)", 14, 1), make_assertion("assert_eq!(b, 5)", 14, 1)];
    let mut buf = String::new();
    render_assertions(Some("tests/math.rs"), &assertions, &mut buf);

    assert!(buf.contains("2/2 assertions failed"));
}

#[test]
fn empty_assertions() {
    let mut buf = String::new();
    render_assertions(Some("tests/math.rs"), &[], &mut buf);

    assert!(buf.is_empty());
}

#[test]
fn no_file_path() {
    let assertions = vec![make_assertion("assert_eq!(x, 1)", 14, 1)];
    let mut buf = String::new();
    render_assertions(None, &assertions, &mut buf);

    assert!(buf.contains("<unknown>"));
    assert!(buf.contains("assertion failed"));
}

#[test]
fn diagnostic_block_shows_the_source_and_marks_the_span() {
    let mut buf = String::from("before\n");
    render_assertion(Some("tests/math.rs"), &make_assertion("assert_eq!(a, 2)", 14, 1), &mut buf);
    let expected = [
        "before\n",
        "  \u{d7} assertion failed\n",
        "   \u{256d}\u{2500}[tests/math.rs:1:15]\n",
        " 1 \u{2502} assert_eq!(a, 2)\n",
        "   \u{b7}               \u{252c}\n",
        "   \u{b7}               \u{2570}\u{2500}\u{2500} expected 2, received 3\n",
        "   \u{2570}\u{2500}\u{2500}\u{2500}\u{2500}\n",
    ]
    .concat();
    assert_eq!(buf, expected);
}

#[test]
fn diagnostic_tally_is_the_last_line() {
    let assertions =
        vec![make_assertion("assert_eq!(a, 2)", 14, 1), make_assertion("assert_eq!(b, 5)", 11, 1)];
    let mut buf = String::new();
    render_assertions(Some("t.py"), &assertions, &mut buf);
    assert!(buf.ends_with("  2/2 assertions failed\n"));
    assert_eq!(buf.matches("assertion failed").count(), 2);
    let first = buf.find("assert_eq!(a, 2)").unwrap();
    let second = buf.find("assert_eq!(b, 5)").unwrap();
    assert!(first < second);
}

#[test]
fn diagnostic_span_outside_the_expression_has_no_block() {
    let assertions = vec![make_assertion("abc", 2, 5)];
    let mut buf = String::new();
    render_assertions(None, &assertions, &mut buf);
    assert_eq!(buf, "  1/1 assertions failed\n");

    let mut one = String::new();
    render_assertion(None, &make_assertion("abc", usize::MAX, 2), &mut one);
    assert_eq!(one, "");
}

#[test]
fn span_fits_only_between_characters() {
    assert!(span_fits("abc", 0, 3));
    assert!(span_fits("abc", 3, 0));
    assert!(!span_fits("abc", 3, 1));
    assert!(!span_fits("abc", 4, 0));
    assert!(!span_fits("abc", usize::MAX, usize::MAX));
    assert!(span_fits("h\u{e9}llo", 1, 2));
    assert!(!span_fits("h\u{e9}llo", 1, 1));
    assert!(!span_fits("h\u{e9}llo", 2, 1));
}

#[test]
fn push_block_adds_the_text_or_nothing() {
    let mut buf = String::from("a");
    push_block(&mut buf, &Some("bc".to_string()));
    assert_eq!(buf, "abc");
    push_block(&mut buf, &None);
    assert_eq!(buf, "abc");
}

struct AssertionReport {
    source: miette::NamedSource<String>,
    label: miette::LabeledSpan,
}

impl std::fmt::Debug for AssertionReport {
    fn fmt(&self, f: &mut std::fmt::Formatter<'_>) -> std::fmt::Result {
        f.debug_struct("AssertionReport").finish()
    }
}

impl std::fmt::Display for AssertionReport {
    fn fmt(&self, f: &mut std::fmt::Formatter<'_>) -> std::fmt::Result {
        f.write_str("assertion failed")
    }
}

impl std::error::Error for AssertionReport {}

impl miette::Diagnostic for AssertionReport {
    fn severity(&self) -> Option<miette::Severity> {
        Some(miette::Severity::Error)
    }

    fn source_code(&self) -> Option<&dyn miette::SourceCode> {
        Some(&self.source)
    }

    fn labels(&self) -> Option<Box<dyn Iterator<Item = miette::LabeledSpan> + '_>> {
        Some(Box::new(std::iter::once(self.label.clone())))
    }
}

fn rendered_by_hand(file: Option<&str>, assertions: &[Assertion]) -> String {
    let mut buf = String::new();
    if assertions.is_empty() {
        return buf;
    }
    let handler =
        miette::GraphicalReportHandler::new_themed(miette::GraphicalTheme::unicode_nocolor());
    for assertion in assertions {
        let source =
            miette::NamedSource::new(file.unwrap_or("<unknown>"), assertion.expression.clone());
        let text = format!("expected {}, received {}", assertion.expected, assertion.received);
        let label =
            miette::LabeledSpan::new(Some(text), assertion.span_offset, assertion.span_length);
        let report = miette::Report::new(AssertionReport { source, label });
        let mut rendered = String::new();
        if handler.render_report(&mut rendered, report.as_ref()).is_ok() {
            buf.push_str(&rendered);
        }
    }
    buf.push_str(&format!("  {}/{} assertions failed\n", assertions.len(), assertions.len()));
    buf
}

#[test]
fn diagnostics_match_a_report_that_carries_its_own_source() {
    let cases = vec![
        vec![make_assertion("assert_eq!(a, 2)", 14, 1)],
        vec![make_assertion("assert_eq!(a, 2)", 0, 16), make_assertion("x", 0, 1)],
        vec![make_assertion("expect(value).to_equal(\n    other,\n)", 7, 5)],
        vec![make_assertion("expect(value).to_equal(\n    other,\n)", 14, 20)],
        vec![make_assertion("expect(\"h\u{e9}llo\").to_be(\"w\u{f6}rld\")", 7, 8)],
        vec![make_assertion("\texpect(a)", 1, 6), make_assertion("", 0, 0)],
        vec![make_assertion("a\r\nb", 3, 1), make_assertion("end", 3, 0)],
    ];
    for assertions in cases {
        for file in [Some("tests/math.py"), None] {
            let mut found = String::new();
            render_assertions(file, &assertions, &mut found);
            assert_eq!(found, rendered_by_hand(file, &assertions), "{assertions:?}");
        }
    }
}
