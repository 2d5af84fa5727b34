use tryke::assertion::{
    collect_assertions_from_expr, collect_assertions_from_stmt, extract_expect_call_info,
    extract_expected_assertions, try_extract_assertion,
};
use tryke::discovery::tests_in_module;
use tryke::lines::{src_text, LineTable};
use tryke::marker::{
    char_is_whitespace, extract_decorator_name, extract_docstring, is_locally_defined,
    is_tryke_test_decorator, trim_first_line,
};
use tryke::placement::{block_is_placed, expr_is_placed, stmt_is_placed};
use tryke::syntax::{Clause, Expression, KeywordArgument, Span, Statement};
use tryke::{discover, parse_source, parse_tests_from_file, ParseError, SourceFile, TestItem};

fn parse(source: &str) -> Vec<TestItem> {
    parse_tests_from_file("/proj", "/proj/test.py", Some(source))
}

#[test]
fn extracts_test_decorated_functions() {
    let source = "@test\ndef test_one():\n    pass\n\n@test\ndef test_two():\n    pass\n\ndef not_a_test():\n    pass\n";
    let items = parse(source);
    assert_eq!(items.len(), 2);
    let names: Vec<_> = items.iter().map(|i| i.name.as_str()).collect();
    assert!(names.contains(&"test_one"));
    assert!(names.contains(&"test_two"));
}

#[test]
fn skips_non_test_decorators() {
    let source = "@pytest.mark.skip\ndef test_skipped():\n    pass\n";
    let items = parse(source);
    assert_eq!(items.len(), 0);
}

#[test]
fn captures_correct_line_number() {
    // @test is on line 3 (1-indexed), func range starts at the decorator
    let source = "\n\n@test\ndef test_fn():\n    pass\n";
    let items = parse(source);
    assert_eq!(items.len(), 1);
    assert_eq!(items[0].line_number, Some(3));
}

#[test]
fn returns_empty_for_parse_error() {
    let source = "this is not valid python @@@";
    let items = parse(source);
    assert_eq!(items.len(), 0);
}

#[test]
fn returns_empty_for_unreadable_file() {
    let items = parse_tests_from_file("/proj", "/proj/nonexistent.py", None);
    assert_eq!(items.len(), 0);
}

#[test]
fn skips_locally_defined_test_function() {
    let source = "def test(fn):\n    return fn\n@test\ndef my_func():\n    pass\n";
    let items = parse(source);
    assert_eq!(items.len(), 0);
}

#[test]
fn skips_assigned_test_name() {
    let source = "test = lambda fn: fn\n@test\ndef my_func():\n    pass\n";
    let items = parse(source);
    assert_eq!(items.len(), 0);
}

#[test]
fn recognizes_qualified_tryke_test() {
    let source = "import tryke\n@tryke.test\ndef my_func():\n    pass\n";
    let items = parse(source);
    assert_eq!(items.len(), 1);
    assert_eq!(items[0].name, "my_func");
}

#[test]
fn qualified_form_overrides_local_definition() {
    let source = "def test(fn):\n    return fn\nimport tryke\n@tryke.test\ndef my_func():\n    pass\n";
    let items = parse(source);
    assert_eq!(items.len(), 1);
    assert_eq!(items[0].name, "my_func");
}

#[test]
fn extracts_simple_assertion() {
    let source = "@test\ndef test_fn():\n    expect(add(1, 1)).to_equal(2)\n";
    let items = parse(source);
    assert_eq!(items.len(), 1);
    let assertions = &items[0].expected_assertions;
    assert_eq!(assertions.len(), 1);
    assert_eq!(assertions[0].subject, "add(1, 1)");
    assert_eq!(assertions[0].matcher, "to_equal");
    assert!(!assertions[0].negated);
    assert_eq!(assertions[0].args, vec!["2"]);
}

#[test]
fn extracts_negated_assertion() {
    let source = "@test\ndef test_fn():\n    expect(x).not_.to_be_none()\n";
    let items = parse(source);
    assert_eq!(items[0].expected_assertions.len(), 1);
    let a = &items[0].expected_assertions[0];
    assert_eq!(a.subject, "x");
    assert_eq!(a.matcher, "to_be_none");
    assert!(a.negated);
    assert!(a.args.is_empty());
}

#[test]
fn extracts_multiple_assertions() {
    let source = "@test\ndef test_fn():\n    expect(a).to_equal(1)\n    expect(b).to_equal(2)\n";
    let items = parse(source);
    assert_eq!(items[0].expected_assertions.len(), 2);
}

#[test]
fn no_assertions_when_none_present() {
    let source = "@test\ndef test_fn():\n    result = add(1, 1)\n    assert result == 2\n";
    let items = parse(source);
    assert_eq!(items[0].expected_assertions.len(), 0);
}

#[test]
fn extracts_assertion_with_line_number() {
    let source = "@test\ndef test_fn():\n    pass\n    expect(x).to_equal(1)\n";
    let items = parse(source);
    assert_eq!(items[0].expected_assertions.len(), 1);
    assert_eq!(items[0].expected_assertions[0].line, 4);
}

#[test]
fn recognizes_call_form_decorator() {
    let source = "@test()\ndef test_fn():\n    pass\n";
    let items = parse(source);
    assert_eq!(items.len(), 1);
    assert_eq!(items[0].name, "test_fn");
}

#[test]
fn display_name_from_positional_string() {
    let source = "@test(\"addition works\")\ndef test_fn():\n    pass\n";
    let items = parse(source);
    assert_eq!(items.len(), 1);
    assert_eq!(items[0].display_name.as_deref(), Some("addition works"));
}

#[test]
fn display_name_from_name_kwarg() {
    let source = "@test(name=\"my label\")\ndef test_fn():\n    pass\n";
    let items = parse(source);
    assert_eq!(items.len(), 1);
    assert_eq!(items[0].display_name.as_deref(), Some("my label"));
}

#[test]
fn display_name_kwarg_beats_positional() {
    let source = "@test(\"pos\", name=\"kwarg\")\ndef test_fn():\n    pass\n";
    let items = parse(source);
    assert_eq!(items[0].display_name.as_deref(), Some("kwarg"));
}

#[test]
fn display_name_from_docstring() {
    let source = "@test\ndef test_fn():\n    \"\"\"docstring name\"\"\"\n    pass\n";
    let items = parse(source);
    assert_eq!(items[0].display_name.as_deref(), Some("docstring name"));
}

#[test]
fn decorator_name_beats_docstring() {
    let source = "@test(name=\"explicit\")\ndef test_fn():\n    \"\"\"docstring\"\"\"\n    pass\n";
    let items = parse(source);
    assert_eq!(items[0].display_name.as_deref(), Some("explicit"));
}

#[test]
fn bare_test_no_display_name() {
    let source = "@test\ndef test_fn():\n    pass\n";
    let items = parse(source);
    assert_eq!(items[0].display_name, None);
}

#[test]
fn expect_label_from_name_kwarg() {
    let source = "@test\ndef test_fn():\n    expect(x, name=\"my label\").to_equal(1)\n";
    let items = parse(source);
    let a = &items[0].expected_assertions[0];
    assert_eq!(a.label.as_deref(), Some("my label"));
    assert_eq!(a.subject, "x");
}

#[test]
fn expect_label_from_positional_string() {
    let source = "@test\ndef test_fn():\n    expect(x, \"my label\").to_equal(1)\n";
    let items = parse(source);
    let a = &items[0].expected_assertions[0];
    assert_eq!(a.label.as_deref(), Some("my label"));
    assert_eq!(a.subject, "x");
}

#[test]
fn expect_name_kwarg_beats_positional_label() {
    let source = "@test\ndef test_fn():\n    expect(x, \"pos\", name=\"kw\").to_equal(1)\n";
    let items = parse(source);
    assert_eq!(items[0].expected_assertions[0].label.as_deref(), Some("kw"));
}

#[test]
fn expect_no_label_by_default() {
    let source = "@test\ndef test_fn():\n    expect(x).to_equal(1)\n";
    let items = parse(source);
    assert_eq!(items[0].expected_assertions[0].label, None);
}

#[test]
fn tryke_test_call_form_qualified() {
    let source = "import tryke\n@tryke.test(name=\"foo\")\ndef my_func():\n    pass\n";
    let items = parse(source);
    assert_eq!(items.len(), 1);
    assert_eq!(items[0].display_name.as_deref(), Some("foo"));
}

fn assertions_of(body: &str) -> Vec<tryke::ExpectedAssertion> {
    let source = format!("@test\ndef test_fn():\n{body}");
    let mut items = parse(&source);
    assert_eq!(items.len(), 1);
    items.remove(0).expected_assertions
}

#[test]
fn discovery_keeps_definition_order_and_fills_every_field() {
    let source = "import tryke\n\n@test\ndef first():\n    expect(a).to_be(1)\n\ndef helper():\n    pass\n\n@tryke.test(\"second one\")\ndef second():\n    pass\n";
    let items = parse_tests_from_file("/proj", "/proj/tests/unit/test_math.py", Some(source));
    assert_eq!(items.len(), 2);
    assert_eq!(items[0].name, "first");
    assert_eq!(items[0].module, "tests.unit.test_math");
    assert_eq!(items[0].file_path.as_deref(), Some("tests/unit/test_math.py"));
    assert_eq!(items[0].line_number, Some(3));
    assert_eq!(items[0].display_name, None);
    assert_eq!(items[0].expected_assertions.len(), 1);
    assert_eq!(items[0].id(), "tests/unit/test_math.py::first");
    assert_eq!(items[1].name, "second");
    assert_eq!(items[1].line_number, Some(10));
    assert_eq!(items[1].display_name.as_deref(), Some("second one"));
    assert!(items[1].expected_assertions.is_empty());
}

#[test]
fn discovery_is_repeatable() {
    let source = "@test(name=\"n\")\ndef t():\n    \"\"\"doc\"\"\"\n    expect(x, \"l\").not_.to_be(1, 2)\n";
    let first = parse(source);
    let second = parse(source);
    assert_eq!(format!("{first:?}"), format!("{second:?}"));
}

#[test]
fn shadowing_by_class_assignment_or_annotation() {
    for shadow in ["class test:\n    pass\n", "test = 1\n", "test: int = 1\n", "a = test = 2\n"] {
        let bare = format!("{shadow}@test\ndef f():\n    pass\n");
        assert_eq!(parse(&bare).len(), 0, "{shadow}");
        let after = format!("@test\ndef f():\n    pass\n{shadow}");
        assert_eq!(parse(&after).len(), 0, "{shadow}");
        let qualified = format!("{shadow}@tryke.test\ndef f():\n    pass\n");
        assert_eq!(parse(&qualified).len(), 1, "{shadow}");
        let called = format!("{shadow}@test()\ndef f():\n    pass\n");
        assert_eq!(parse(&called).len(), 0, "{shadow}");
    }
}

#[test]
fn nested_definitions_do_not_shadow_and_are_not_tests() {
    let source = "def outer():\n    test = 1\n    @test\n    def inner():\n        pass\n@test\ndef real():\n    pass\n";
    let items = parse(source);
    assert_eq!(items.len(), 1);
    assert_eq!(items[0].name, "real");
}

#[test]
fn other_owners_and_other_attributes_are_no_markers() {
    assert_eq!(parse("@other.test\ndef f():\n    pass\n").len(), 0);
    assert_eq!(parse("@tryke.tests\ndef f():\n    pass\n").len(), 0);
    assert_eq!(parse("@a.tryke.test\ndef f():\n    pass\n").len(), 0);
    assert_eq!(parse("@tryke.test()()\ndef f():\n    pass\n").len(), 1);
    assert_eq!(parse("@skip\n@test\ndef f():\n    pass\n").len(), 1);
}

#[test]
fn display_name_comes_from_the_first_marker_only() {
    let source = "@decorate(\"not this\")\n@test\n@test(\"nor this\")\ndef f():\n    \"\"\"  from the doc  \n    more\"\"\"\n";
    let items = parse(source);
    assert_eq!(items[0].display_name.as_deref(), Some("from the doc"));
    let source = "@test(1, name=other)\ndef f():\n    pass\n";
    assert_eq!(parse(source)[0].display_name, None);
    let source = "@test(name=other, name2=\"x\", **kw)\ndef f():\n    '''doc'''\n";
    assert_eq!(parse(source)[0].display_name.as_deref(), Some("doc"));
}

#[test]
fn docstring_gives_its_first_line_trimmed() {
    assert_eq!(trim_first_line("  hello world  \nsecond"), "hello world");
    assert_eq!(trim_first_line("first\r\nsecond"), "first");
    assert_eq!(trim_first_line("\nsecond"), "");
    assert_eq!(trim_first_line(""), "");
    assert_eq!(trim_first_line(" \t\u{a0} "), "");
    assert_eq!(trim_first_line("a\rb\n"), "a\rb");
    assert_eq!(trim_first_line("\u{2003}wide\u{3000}"), "wide");
    let source = "@test\ndef f():\n    \"\"\"\n    starts on the second line\n    \"\"\"\n";
    assert_eq!(parse(source)[0].display_name.as_deref(), Some(""));
}

#[test]
fn assertions_come_in_source_order_through_every_block() {
    let body = "    expect(a).to_be(1)\n    if expect(b).to_be(2):\n        expect(c).to_be(3)\n    elif expect(d).to_be(4):\n        expect(e).to_be(5)\n    else:\n        expect(f).to_be(6)\n    for i in expect(skipped).to_be(0):\n        expect(g).to_be(7)\n    else:\n        expect(h).to_be(8)\n    while expect(skipped).to_be(0):\n        expect(i).to_be(9)\n    else:\n        expect(j).to_be(10)\n    with expect(skipped).to_be(0):\n        expect(k).to_be(11)\n    try:\n        expect(l).to_be(12)\n    except expect(skipped).to_be(0):\n        expect(m).to_be(13)\n    except E as e:\n        expect(n).to_be(14)\n    else:\n        expect(o).to_be(15)\n    finally:\n        expect(p).to_be(16)\n    return expect(q).to_be(17)\n";
    let found = assertions_of(body);
    let subjects: Vec<&str> = found.iter().map(|a| a.subject.as_str()).collect();
    assert_eq!(
        subjects,
        ["a", "b", "c", "d", "e", "f", "g", "h", "i", "j", "k", "l", "m", "n", "o", "p", "q"]
    );
    let args: Vec<&str> = found.iter().map(|a| a.args[0].as_str()).collect();
    assert_eq!(
        args,
        [
            "1", "2", "3", "4", "5", "6", "7", "8", "9", "10", "11", "12", "13", "14", "15", "16",
            "17"
        ]
    );
    let lines: Vec<u32> = found.iter().map(|a| a.line).collect();
    assert_eq!(lines, [3, 4, 5, 6, 7, 9, 11, 13, 15, 17, 19, 21, 23, 25, 27, 29, 30]);
}

#[test]
fn statements_that_are_not_read_hold_no_assertions() {
    let body = "    x = expect(a).to_be(1)\n    assert expect(b).to_be(2)\n    def inner():\n        expect(c).to_be(3)\n    class C:\n        expect(d).to_be(4)\n    match v:\n        case 1:\n            expect(e).to_be(5)\n    [expect(f).to_be(6)]\n    not expect(g).to_be(7)\n    expect(h)\n    expect(i).not_\n    to_be(expect)\n";
    assert!(assertions_of(body).is_empty());
}

#[test]
fn every_block_of_a_try_is_read() {
    let body = "    try:\n        expect(a).to_equal(1)\n    except E:\n        expect(b).to_equal(2)\n    else:\n        expect(c).to_equal(3)\n    finally:\n        expect(d).to_equal(4)\n";
    let found = assertions_of(body);
    let subjects: Vec<&str> = found.iter().map(|a| a.subject.as_str()).collect();
    assert_eq!(subjects, ["a", "b", "c", "d"]);
    let nested = "    try:\n        pass\n    except A:\n        try:\n            pass\n        except B:\n            expect(deep).to_be(1)\n    except C:\n        if x:\n            expect(late).to_be(2)\n";
    let found = assertions_of(nested);
    let subjects: Vec<&str> = found.iter().map(|a| a.subject.as_str()).collect();
    assert_eq!(subjects, ["deep", "late"]);
}

#[test]
fn what_stands_behind_an_attribute_is_read() {
    let found = assertions_of("    expect(f(expect(b).to_be(2)), \"x\", \"y\").to_equal(1)\n");
    assert_eq!(found.len(), 1);
    assert_eq!(found[0].subject, "b");
    assert_eq!(found[0].matcher, "to_be");
    assert_eq!(found[0].args, vec!["2"]);

    let body = "    expect(h).to_be(8).again\n    expect(i).to_be(9).then.to_equal(10)\n    expect().not_.to_be(expect(j).to_be(11))\n    obj.method(expect(k).to_be(12)).chain(expect(l).to_be(13))\n    a.b(expect(m).to_be(14)).c.d\n";
    let found = assertions_of(body);
    let subjects: Vec<&str> = found.iter().map(|a| a.subject.as_str()).collect();
    assert_eq!(subjects, ["h", "i", "j", "k", "l", "m"]);
    let lines: Vec<u32> = found.iter().map(|a| a.line).collect();
    assert_eq!(lines, [3, 4, 5, 6, 6, 7]);
}

#[test]
fn the_subject_of_an_assertion_is_read() {
    let body = "    expect(expect(inner).to_be(0)).to_be(5)\n    expect(f(expect(a).to_be(1)), expect(b).to_be(2)).not_.to_equal(expect(c).to_be(3))\n";
    let found = assertions_of(body);
    let subjects: Vec<&str> = found.iter().map(|a| a.subject.as_str()).collect();
    assert_eq!(
        subjects,
        ["expect(inner).to_be(0)", "inner", "f(expect(a).to_be(1))", "a", "b", "c"]
    );
    assert!(found[2].negated);
    assert_eq!(found[2].label, None);
}

#[test]
fn nested_calls_are_scanned() {
    let body = "    run(expect(a).to_be(1), other(expect(b).to_be(2)))\n    expect(c).to_equal(expect(d).to_be(4))\n    expect(expect(hidden).to_be(0)).to_be(5)\n    wrap(expect(e).to_be(6))(expect(f).to_be(7))\n    obj.method(expect(g).to_be(8)).chain(expect(h).to_be(9))\n";
    let found = assertions_of(body);
    let subjects: Vec<&str> = found.iter().map(|a| a.subject.as_str()).collect();
    assert_eq!(
        subjects,
        ["a", "b", "c", "d", "expect(hidden).to_be(0)", "hidden", "e", "f", "g", "h"]
    );
}

#[test]
fn entry_call_takes_one_or_two_positional_arguments() {
    assert!(assertions_of("    expect().to_be(1)\n").is_empty());
    assert!(assertions_of("    expect(a, b, c).to_be(1)\n").is_empty());
    assert!(assertions_of("    expect(name=\"only\").to_be(1)\n").is_empty());
    let nested = assertions_of("    expect(a, b, c).to_be(expect(x).to_be(1))\n");
    assert_eq!(nested.len(), 1);
    assert_eq!(nested[0].subject, "x");
    let two = assertions_of("    expect(a, b).to_be(1)\n");
    assert_eq!(two.len(), 1);
    assert_eq!(two[0].label, None);
    let keyword_not_literal = assertions_of("    expect(a, \"pos\", name=var).to_be(1)\n");
    assert_eq!(keyword_not_literal[0].label.as_deref(), Some("pos"));
}

#[test]
fn entry_call_may_be_an_attribute_named_expect() {
    let found = assertions_of("    t.expect(a).to_be(1)\n    expected(b).to_be(2)\n    t.expects(c).to_be(3)\n");
    assert_eq!(found.len(), 1);
    assert_eq!(found[0].subject, "a");
    assert_eq!(found[0].matcher, "to_be");
}

#[test]
fn negation_needs_not_directly_before_the_matcher() {
    let found = assertions_of("    expect(a).not_.to_be(1)\n    expect(b).not_.not_.to_be(2)\n    expect(c).nope.to_be(3)\n    expect(d).not_\n    x.not_.to_be(4)\n");
    assert_eq!(found.len(), 1);
    assert!(found[0].negated);
    assert_eq!(found[0].subject, "a");
}

#[test]
fn arguments_and_subject_are_the_source_text() {
    let found = assertions_of("    expect( add(1,  2) , \"sum\").to_equal(  3 ,\n        [4,\n         5], key=ignored)\n");
    assert_eq!(found.len(), 1);
    assert_eq!(found[0].subject, "add(1,  2)");
    assert_eq!(found[0].args, vec!["3", "[4,\n         5]"]);
    assert_eq!(found[0].label.as_deref(), Some("sum"));
    assert_eq!(found[0].line, 3);
}

#[test]
fn source_text_with_wide_characters() {
    let found = assertions_of("    expect(\"h\u{e9}llo\").to_equal(\"\u{4e16}\u{754c}\", caf\u{e9})\n    expect(z).to_be(1)\n");
    assert_eq!(found[0].subject, "\"h\u{e9}llo\"");
    assert_eq!(found[0].args, vec!["\"\u{4e16}\u{754c}\"", "caf\u{e9}"]);
    assert_eq!(found[1].subject, "z");
    assert_eq!(found[1].line, 4);
}

#[test]
fn lines_count_every_kind_of_line_ending() {
    let source = "\r\n\r@test\r\ndef f():\r\n    expect(a).to_be(1)\r    expect(b).to_be(2)\n";
    let items = parse(source);
    assert_eq!(items.len(), 1);
    assert_eq!(items[0].line_number, Some(3));
    let lines: Vec<u32> = items[0].expected_assertions.iter().map(|a| a.line).collect();
    assert_eq!(lines, [5, 6]);
}

#[test]
fn line_table_counts_the_starts_at_or_before_an_offset() {
    let table = LineTable::of("ab\ncd\r\nef\rgh").expect("short text");
    let lines: Vec<usize> = (0..13).map(|offset| table.line_of(offset)).collect();
    assert_eq!(lines, [1, 1, 1, 2, 2, 2, 2, 3, 3, 3, 4, 4, 4]);
    assert_eq!(table.line_of(usize::MAX), 4);
    let empty = LineTable::of("").expect("empty text");
    assert_eq!(empty.line_of(0), 1);
}

#[test]
fn src_text_cuts_between_characters_only() {
    let text = "h\u{e9}llo w\u{f6}rld";
    assert_eq!(src_text(text, Span { start: 0, end: 6 }), "h\u{e9}llo");
    assert_eq!(src_text(text, Span { start: 7, end: 13 }), "w\u{f6}rld");
    assert_eq!(src_text(text, Span { start: 3, end: 3 }), "");
    assert_eq!(src_text(text, Span { start: 2, end: 6 }), "");
    assert_eq!(src_text(text, Span { start: 0, end: 2 }), "");
    assert_eq!(src_text(text, Span { start: 5, end: 4 }), "");
    assert_eq!(src_text(text, Span { start: 0, end: 14 }), "");
    assert_eq!(src_text(text, Span { start: 0, end: 13 }), text);
}

fn span(start: usize, end: usize) -> Span {
    Span { start, end }
}

fn name(id: &str, at: usize) -> Expression {
    Expression::Name { id: id.into(), span: span(at, at + id.len()) }
}

fn call(func: Expression, args: Vec<Expression>, keywords: Vec<KeywordArgument>, s: Span) -> Expression {
    Expression::Call { func: Box::new(func), args, keywords, span: s }
}

fn attribute(value: Expression, attr: &str, s: Span) -> Expression {
    Expression::Attribute { value: Box::new(value), attr: attr.into(), span: s }
}

fn literal(value: &str, s: Span) -> Expression {
    Expression::StringLiteral { value: value.into(), span: s }
}

// expect(x).to_be(1)
const SIMPLE: &str = "expect(x).to_be(1)";

fn simple_assertion(negated: bool) -> Expression {
    let entry = call(name("expect", 0), vec![name("x", 7)], vec![], span(0, 9));
    let receiver = if negated { attribute(entry, "not_", span(0, 9)) } else { entry };
    call(
        attribute(receiver, "to_be", span(0, 15)),
        vec![Expression::Other { span: span(16, 17) }],
        vec![],
        span(0, 18),
    )
}

#[test]
fn marker_rules_on_hand_built_expressions() {
    let bare = name("test", 0);
    assert!(is_tryke_test_decorator(&bare, false));
    assert!(!is_tryke_test_decorator(&bare, true));
    let qualified = attribute(name("tryke", 0), "test", span(0, 10));
    assert!(is_tryke_test_decorator(&qualified, false));
    assert!(is_tryke_test_decorator(&qualified, true));
    let called = call(name("test", 0), vec![], vec![], span(0, 6));
    assert!(is_tryke_test_decorator(&called, false));
    assert!(!is_tryke_test_decorator(&called, true));
    let called_qualified = call(qualified, vec![], vec![], span(0, 12));
    assert!(is_tryke_test_decorator(&called_qualified, true));
    let deep = attribute(attribute(name("a", 0), "tryke", span(0, 7)), "test", span(0, 12));
    assert!(!is_tryke_test_decorator(&deep, false));
    assert!(!is_tryke_test_decorator(&literal("test", span(0, 6)), false));
    assert!(!is_tryke_test_decorator(&Expression::Other { span: span(0, 1) }, false));
}

#[test]
fn local_definitions_on_hand_built_statements() {
    let at = span(0, 1);
    let body = vec![
        Statement::Other { span: at },
        Statement::Assign {
            targets: vec![attribute(name("a", 0), "test", span(0, 6)), name("b", 9)],
            span: at,
        },
        Statement::AnnAssign { target: name("c", 0), span: at },
        Statement::ClassDef { name: "D".into(), span: at },
        Statement::FunctionDef { name: "e".into(), decorators: vec![], body: vec![], span: at },
        Statement::Expression { value: name("f", 0), span: at },
    ];
    for defined in ["b", "c", "D", "e"] {
        assert!(is_locally_defined(defined, &body), "{defined}");
    }
    for absent in ["a", "test", "f", "d", ""] {
        assert!(!is_locally_defined(absent, &body), "{absent}");
    }
    assert!(!is_locally_defined("b", &[]));
}

#[test]
fn decorator_names_on_hand_built_calls() {
    let keyword = |arg: Option<&str>, value: Expression| KeywordArgument { arg: arg.map(String::from), value };
    let at = span(0, 1);
    let both = call(
        name("test", 0),
        vec![literal("pos", at)],
        vec![keyword(None, literal("splat", at)), keyword(Some("name"), name("x", 0)), keyword(Some("name"), literal("kw", at))],
        at,
    );
    assert_eq!(extract_decorator_name(&both).as_deref(), Some("kw"));
    let positional = call(name("test", 0), vec![literal("pos", at), literal("two", at)], vec![], at);
    assert_eq!(extract_decorator_name(&positional).as_deref(), Some("pos"));
    let second_only = call(name("test", 0), vec![name("x", 0), literal("two", at)], vec![], at);
    assert_eq!(extract_decorator_name(&second_only), None);
    assert_eq!(extract_decorator_name(&name("test", 0)), None);
    assert_eq!(extract_decorator_name(&call(name("test", 0), vec![], vec![], at)), None);
}

#[test]
fn docstring_needs_a_literal_as_first_statement() {
    let at = span(0, 1);
    let doc = Statement::Expression { value: literal(" first \nsecond", at), span: at };
    assert_eq!(extract_docstring(&[doc]).as_deref(), Some("first"));
    let late = vec![
        Statement::Other { span: at },
        Statement::Expression { value: literal("late", at), span: at },
    ];
    assert_eq!(extract_docstring(&late), None);
    let named = Statement::Expression { value: name("x", 0), span: at };
    assert_eq!(extract_docstring(&[named]), None);
    assert_eq!(extract_docstring(&[]), None);
}

#[test]
fn assertion_of_a_hand_built_call() {
    let lines = LineTable::of(SIMPLE).expect("short text");
    let found = try_extract_assertion(&simple_assertion(false), SIMPLE, &lines).expect("an assertion");
    assert_eq!(found.subject, "x");
    assert_eq!(found.matcher, "to_be");
    assert!(!found.negated);
    assert_eq!(found.args, vec!["1"]);
    assert_eq!(found.line, 1);
    assert_eq!(found.label, None);
    let negated = try_extract_assertion(&simple_assertion(true), SIMPLE, &lines).expect("an assertion");
    assert!(negated.negated);
    assert!(try_extract_assertion(&name("expect", 0), SIMPLE, &lines).is_none());
    let plain_call = call(name("expect", 0), vec![name("x", 7)], vec![], span(0, 9));
    assert!(try_extract_assertion(&plain_call, SIMPLE, &lines).is_none());
    let info = extract_expect_call_info(&plain_call, SIMPLE).expect("an entry call");
    assert_eq!(info, ("x".to_string(), None));
    assert!(extract_expect_call_info(&name("expect", 0), SIMPLE).is_none());
    let other = call(name("check", 0), vec![name("x", 7)], vec![], span(0, 9));
    assert!(extract_expect_call_info(&other, SIMPLE).is_none());
}

#[test]
fn collecting_appends_after_what_is_there() {
    let lines = LineTable::of(SIMPLE).expect("short text");
    let mut out = vec![tryke::ExpectedAssertion {
        subject: "kept".into(),
        matcher: "m".into(),
        negated: false,
        args: vec![],
        line: 9,
        label: None,
    }];
    collect_assertions_from_expr(&simple_assertion(false), SIMPLE, &lines, &mut out);
    let whole = span(0, 18);
    let returned = Statement::Return { value: Some(simple_assertion(true)), span: whole };
    collect_assertions_from_stmt(&returned, SIMPLE, &lines, &mut out);
    collect_assertions_from_stmt(&Statement::Return { value: None, span: whole }, SIMPLE, &lines, &mut out);
    collect_assertions_from_stmt(&Statement::Other { span: whole }, SIMPLE, &lines, &mut out);
    let stated = Statement::Expression { value: simple_assertion(false), span: whole };
    let clause = Clause { test: None, body: vec![stated], span: whole };
    let conditional =
        Statement::If { test: name("c", 0), body: vec![], clauses: vec![clause], span: whole };
    collect_assertions_from_stmt(&conditional, SIMPLE, &lines, &mut out);
    let summary: Vec<(&str, bool)> = out.iter().map(|a| (a.subject.as_str(), a.negated)).collect();
    assert_eq!(summary, [("kept", false), ("x", false), ("x", true), ("x", false)]);
    let stated = Statement::Expression { value: simple_assertion(false), span: whole };
    let body = vec![Statement::With { body: vec![stated], span: whole }];
    assert_eq!(extract_expected_assertions(&body, SIMPLE, &lines).len(), 1);
}

#[test]
fn tests_of_a_hand_built_module() {
    let lines = LineTable::of(SIMPLE).expect("short text");
    let function = |name_: &str, decorators: Vec<Expression>| Statement::FunctionDef {
        name: name_.into(),
        decorators,
        body: vec![Statement::Expression { value: simple_assertion(false), span: span(0, 18) }],
        span: span(0, 18),
    };
    let body = vec![
        function("one", vec![name("test", 0)]),
        function("plain", vec![]),
        function("two", vec![name("other", 0), attribute(name("tryke", 0), "test", span(0, 10))]),
        Statement::ClassDef { name: "Holder".into(), span: span(0, 18) },
    ];
    let found = tests_in_module(&body, "pkg.mod", "pkg/mod.py", SIMPLE, &lines);
    let names: Vec<&str> = found.iter().map(|t| t.name.as_str()).collect();
    assert_eq!(names, ["one", "two"]);
    assert!(found.iter().all(|t| t.module == "pkg.mod"));
    assert!(found.iter().all(|t| t.file_path.as_deref() == Some("pkg/mod.py")));
    assert!(found.iter().all(|t| t.line_number == Some(1)));
    assert!(found.iter().all(|t| t.expected_assertions.len() == 1));

    let mut shadowed = body;
    shadowed.push(Statement::Assign { targets: vec![name("test", 0)], span: span(0, 18) });
    let found = tests_in_module(&shadowed, "pkg.mod", "pkg/mod.py", SIMPLE, &lines);
    let names: Vec<&str> = found.iter().map(|t| t.name.as_str()).collect();
    assert_eq!(names, ["two"]);
}

#[test]
fn discover_takes_the_files_in_the_order_of_their_paths() {
    let file = |path: &str, source: Option<&str>| SourceFile {
        path: path.into(),
        source: source.map(String::from),
    };
    let files = vec![
        file("/proj/b.py", Some("@test\ndef b1():\n    pass\n@test\ndef b2():\n    pass\n")),
        file("/proj/broken.py", Some("def (:\n")),
        file("/proj/unreadable.py", None),
        file("/proj/a/c.py", Some("@test\ndef c1():\n    pass\n")),
    ];
    let found = discover("/proj", &files);
    let ids: Vec<String> = found.iter().map(|t| t.id()).collect();
    assert_eq!(ids, ["a/c.py::c1", "b.py::b1", "b.py::b2"]);
    assert_eq!(found[0].module, "a.c");
    assert!(discover("/proj", &[]).is_empty());
}

#[test]
fn discover_sorts_by_components_and_keeps_equal_paths_in_place() {
    let one_test = |name: &str| format!("@test\ndef {name}():\n    pass\n");
    let file = |path: &str, name: &str| SourceFile {
        path: path.into(),
        source: Some(one_test(name)),
    };
    let files = vec![
        file("/p/a-b/x.py", "dash"),
        file("/p/a/x.py", "plain"),
        file("/p/a.py", "dotted"),
        file("/p/a/x.py", "again"),
        file("/p/a", "short"),
        file("/p/Z.py", "upper"),
        file("/p//a/./w.py", "untidy"),
    ];
    let names: Vec<String> = discover("/p", &files).into_iter().map(|t| t.name).collect();
    assert_eq!(names, ["upper", "short", "untidy", "plain", "again", "dash", "dotted"]);
}

#[test]
fn white_space_is_what_the_standard_library_calls_so() {
    for code in 0..=0x10ffffu32 {
        if let Some(c) = char::from_u32(code) {
            assert_eq!(char_is_whitespace(c), c.is_whitespace(), "{code:#x}");
        }
    }
}

#[test]
fn trimming_agrees_with_the_standard_library() {
    let samples = [
        "", " ", "a", "  a  ", "\ta b\t\n c", "\r\n", "x\r\ny", "x\ry", "\u{a0}x\u{2003}\nrest",
        " \u{85}\u{1680}mid dle\u{2028}\u{3000}", "no newline\r", "\n\n", "tail \r\n more",
    ];
    for sample in samples {
        let expected = sample.lines().next().unwrap_or("").trim();
        assert_eq!(trim_first_line(sample), expected, "{sample:?}");
    }
}

#[test]
fn line_table_from_given_starts() {
    let table = LineTable::new(vec![0, 5, 9]).expect("rising starts");
    let lines: Vec<usize> = [0, 4, 5, 8, 9, 100].iter().map(|&o| table.line_of(o)).collect();
    assert_eq!(lines, [1, 1, 2, 2, 3, 3]);
    assert!(LineTable::new(vec![0, 5, 5]).is_none());
    assert!(LineTable::new(vec![3, 1]).is_none());
    let late = LineTable::new(vec![4, 8]).expect("rising starts");
    assert_eq!(late.line_of(0), 0);
    assert_eq!(late.line_of(4), 1);
    let empty = LineTable::new(vec![]).expect("no starts");
    assert_eq!(empty.line_of(7), 0);
}

#[test]
fn line_table_agrees_with_the_line_index() {
    let source = "a\nbb\r\nccc\rdddd\n\n\u{e9}\u{e9}\n";
    let table = LineTable::of(source).expect("short text");
    let index = ruff_source_file::LineIndex::from_source_text(source);
    for offset in 0..=source.len() {
        let expected = index.line_index(ruff_text_size::TextSize::new(offset as u32)).get();
        assert_eq!(table.line_of(offset), expected, "{offset}");
    }
}

#[test]
fn parse_source_gives_the_tree_or_the_reason() {
    let tree = parse_source("x = 1\n\ndef f():\n    return g(x)\n").expect("a module");
    assert_eq!(tree.body.len(), 2);
    assert!(matches!(tree.body[0], Statement::Assign { .. }));
    match &tree.body[1] {
        Statement::FunctionDef { name, decorators, body, span } => {
            assert_eq!(name, "f");
            assert!(decorators.is_empty());
            assert_eq!((span.start, span.end), (7, 31));
            assert!(matches!(body[0], Statement::Return { value: Some(Expression::Call { .. }), .. }));
        }
        other => panic!("{other:?}"),
    }
    assert_eq!(tree.lines.line_of(7), 3);
    assert_eq!(parse_source("def (:\n").err(), Some(ParseError::Syntax));
    assert!(parse_source("").expect("an empty module").body.is_empty());
}

const PLACED: &str = "@test\ndef t():\n    expect(a).to_be(1)\n    if expect(b).to_be(2):\n        run(expect(c).to_be(3), expect(d).to_be(4))\n    elif other:\n        pass\n    else:\n        expect(e).not_.to_be(5)\n    for i in x:\n        wrap(expect(f).to_be(6))(expect(g).to_be(7))\n    else:\n        pass\n    while y:\n        expect(h).to_equal(expect(i).to_be(9))\n    with z as w:\n        (expect(j)).to_be(10)\n    try:\n        expect(k).to_be(11)\n    except E:\n        pass\n    else:\n        expect(l).to_be(12)\n    finally:\n        return expect(m).to_be(\n            13,\n        )\n";

#[test]
fn parsed_trees_are_well_placed() {
    let tree = parse_source(PLACED).expect("a module");
    match &tree.body[0] {
        Statement::FunctionDef { body, span, .. } => {
            assert!(block_is_placed(body, span.start, *span).is_some());
            assert!(body.iter().all(stmt_is_placed));
        }
        other => panic!("{other:?}"),
    }
    let found = parse(PLACED).remove(0).expected_assertions;
    let lines: Vec<u32> = found.iter().map(|a| a.line).collect();
    assert_eq!(lines, [3, 4, 5, 5, 9, 11, 11, 15, 15, 17, 19, 23, 25]);
    assert!(lines.windows(2).all(|pair| pair[0] <= pair[1]));
}

#[test]
fn misplaced_trees_are_found_out() {
    assert!(expr_is_placed(&simple_assertion(false)));
    let backwards = Expression::Name { id: "x".into(), span: span(5, 2) };
    assert!(!expr_is_placed(&backwards));
    let outside = call(name("f", 0), vec![name("x", 9)], vec![], span(0, 4));
    assert!(!expr_is_placed(&outside));
    let overlapping = call(name("f", 0), vec![name("xy", 2), name("z", 3)], vec![], span(0, 5));
    assert!(!expr_is_placed(&overlapping));
    let ordered = call(name("f", 0), vec![name("xy", 2), name("z", 4)], vec![], span(0, 6));
    assert!(expr_is_placed(&ordered));
    let stated = |at: Span| Statement::Expression { value: name("x", at.start), span: at };
    assert!(block_is_placed(&vec![stated(span(0, 1)), stated(span(1, 2))], 0, span(0, 2)).is_some());
    assert_eq!(block_is_placed(&vec![], 3, span(0, 9)), Some(3));
    assert!(block_is_placed(&vec![stated(span(1, 2)), stated(span(0, 1))], 0, span(0, 2)).is_none());
    assert!(block_is_placed(&vec![stated(span(0, 1))], 0, span(5, 9)).is_none());
    assert!(!stmt_is_placed(&Statement::Expression { value: name("long", 0), span: span(0, 1) }));
}

#[test]
fn a_hand_built_try_gives_body_handlers_else_and_finally() {
    // expect(x).to_be(1) stands four times, 20 bytes apart
    let source = "expect(x).to_be(1)\n\nexpect(x).to_be(1)\n\nexpect(x).to_be(1)\n\nexpect(x).to_be(1)\n\n";
    let lines = LineTable::of(source).expect("short text");
    let assertion_at = |at: usize, matcher: &str| {
        let entry = call(name("expect", at), vec![name("x", at + 7)], vec![], span(at, at + 9));
        call(
            attribute(entry, matcher, span(at, at + 15)),
            vec![Expression::Other { span: span(at + 16, at + 17) }],
            vec![],
            span(at, at + 18),
        )
    };
    let stated = |at: usize, matcher: &str| Statement::Expression {
        value: assertion_at(at, matcher),
        span: span(at, at + 18),
    };
    let handler = |at: usize, matcher: &str| Clause {
        test: None,
        body: vec![stated(at, matcher)],
        span: span(at, at + 19),
    };
    let tried = Statement::Try {
        body: vec![stated(0, "in_body")],
        handlers: vec![handler(20, "in_handler")],
        orelse: vec![stated(40, "in_else")],
        finalbody: vec![stated(60, "in_finally")],
        span: span(0, 80),
    };
    let mut out = Vec::new();
    collect_assertions_from_stmt(&tried, source, &lines, &mut out);
    let found: Vec<(&str, u32)> = out.iter().map(|a| (a.matcher.as_str(), a.line)).collect();
    assert_eq!(found, [("in_body", 1), ("in_handler", 3), ("in_else", 5), ("in_finally", 7)]);
    assert!(stmt_is_placed(&tried));

    let misplaced = Statement::Try {
        body: vec![stated(0, "in_body")],
        handlers: vec![handler(40, "in_handler")],
        orelse: vec![stated(20, "in_else")],
        finalbody: vec![],
        span: span(0, 80),
    };
    assert!(!stmt_is_placed(&misplaced));
    let inside_out = attribute(name("long_name", 0), "a", span(0, 3));
    assert!(!expr_is_placed(&inside_out));
}
