use crate::reporter::views_of;
use crate::strings::{
    concat_map, decimal, lemma_concat_map_ends, lemma_concat_map_step, push_decimal,
};
use crate::types::{Assertion, AssertionView};
use miette::{
    GraphicalReportHandler, GraphicalTheme, LabeledSpan, MietteDiagnostic, NamedSource, Report,
    Severity,
};
use vstd::prelude::*;
use vstd::utf8::{encode_utf8, is_char_boundary};

verus! {

/// What miette's graphical handler, with the monochrome unicode theme, writes for an
/// error with the message `message` and one label `label` on the `length` bytes from
/// `offset` of the source `source` named `source_name`; `None` where it reports a
/// formatting error.
pub uninterp spec fn rendered_report(
    message: Seq<char>,
    source_name: Seq<char>,
    source: Seq<char>,
    label: Seq<char>,
    offset: nat,
    length: nat,
) -> Option<Seq<char>>;

/// Whether the `length` bytes from `offset` lie inside `text` and begin and end between
/// two characters.
pub open spec fn span_in_text(text: Seq<char>, offset: nat, length: nat) -> bool {
    let bytes = encode_utf8(text);
    &&& offset + length <= bytes.len()
    &&& is_char_boundary(bytes, offset as int)
    &&& is_char_boundary(bytes, (offset + length) as int)
}

/// Builds a `MietteDiagnostic` of severity error with one `LabeledSpan`, gives it a
/// `NamedSource` through `Report::with_source_code`, and renders it with
/// `GraphicalReportHandler::render_report` under `GraphicalTheme::unicode_nocolor`.
/// The handler's settings are fixed by `new_themed`, so the text depends on the
/// arguments alone. The span is required to lie inside the source, where the handler
/// reads it.
#[verifier::external_body]
fn render_report(
    message: &str,
    source_name: &str,
    source: &str,
    label: &str,
    offset: usize,
    length: usize,
) -> (rendered: Option<String>)
    requires
        span_in_text(source@, offset as nat, length as nat),
    ensures
        rendered.deep_view() == rendered_report(
            message@,
            source_name@,
            source@,
            label@,
            offset as nat,
            length as nat,
        ),
{
    let handler = GraphicalReportHandler::new_themed(GraphicalTheme::unicode_nocolor());
    let span = LabeledSpan::new(Some(label.to_owned()), offset, length);
    let diagnostic = MietteDiagnostic::new(message).with_severity(Severity::Error).with_label(span);
    let named = NamedSource::new(source_name, source.to_owned());
    let report = Report::new(diagnostic).with_source_code(named);
    let mut rendered = String::new();
    match handler.render_report(&mut rendered, report.as_ref()) {
        Ok(()) => Some(rendered),
        Err(_) => None,
    }
}

/// The name under which a diagnostic shows its source: the file, or `<unknown>`.
pub open spec fn source_name(file: Option<Seq<char>>) -> Seq<char> {
    match file {
        Some(name) => name,
        None => "<unknown>"@,
    }
}

/// The annotation under the failing part: what was expected and what was received.
pub open spec fn annotation(assertion: AssertionView) -> Seq<char> {
    "expected "@ + assertion.expected + ", received "@ + assertion.received
}

/// What a rendering contributes to the output: its text, or nothing where it failed.
pub open spec fn block_text(rendered: Option<Seq<char>>) -> Seq<char> {
    match rendered {
        Some(text) => text,
        None => Seq::empty(),
    }
}

/// The block of one failed assertion: its expression as a one-line source with the
/// failing part marked and annotated. An assertion whose span does not lie inside its
/// expression has no block.
pub open spec fn assertion_block(file: Option<Seq<char>>, assertion: AssertionView) -> Seq<char> {
    if span_in_text(
        assertion.expression,
        assertion.span_offset as nat,
        assertion.span_length as nat,
    ) {
        block_text(
            rendered_report(
                "assertion failed"@,
                source_name(file),
                assertion.expression,
                annotation(assertion),
                assertion.span_offset as nat,
                assertion.span_length as nat,
            ),
        )
    } else {
        Seq::empty()
    }
}

/// The line that closes the blocks: how many of how many assertions failed.
pub open spec fn tally_line(failed: nat, total: nat) -> Seq<char> {
    "  "@ + decimal(failed) + "/"@ + decimal(total) + " assertions failed"@ + "\n"@
}

/// The diagnostics of a failed test: one block for each assertion, in order, then the
/// tally. No assertions give no output at all.
pub open spec fn diagnostics(file: Option<Seq<char>>, assertions: Seq<AssertionView>) -> Seq<char> {
    if assertions.len() == 0 {
        Seq::empty()
    } else {
        concat_map(assertions, |a: AssertionView| assertion_block(file, a)) + tally_line(
            assertions.len(),
            assertions.len(),
        )
    }
}

/// Whether the `length` bytes from `offset` lie inside `text` between two characters.
pub fn span_fits(text: &str, offset: usize, length: usize) -> (fits: bool)
    ensures
        fits == span_in_text(text@, offset as nat, length as nat),
{
    let n: usize = text.as_bytes().len();
    if offset > n || length > n - offset {
        return false;
    }
    let end: usize = offset + length;
    text.is_char_boundary(offset) && text.is_char_boundary(end)
}

/// Appends to `buf` what a rendering contributes: its text, or nothing where it failed.
pub fn push_block(buf: &mut String, rendered: &Option<String>)
    ensures
        final(buf)@ == old(buf)@ + block_text(rendered.deep_view()),
{
    match rendered {
        Some(text) => {
            buf.append(text.as_str());
        },
        None => {
            assert(buf@ =~= old(buf)@ + block_text(rendered.deep_view()));
        },
    }
}

/// Appends the block of one failed assertion to `buf`.
pub fn render_assertion(file: Option<&str>, assertion: &Assertion, buf: &mut String)
    ensures
        final(buf)@ == old(buf)@ + assertion_block(file.deep_view(), assertion@),
{
    if span_fits(assertion.expression.as_str(), assertion.span_offset, assertion.span_length) {
        let name: &str = match file {
            Some(name) => name,
            None => "<unknown>",
        };
        let mut label = String::from_str("expected ");
        label.append(assertion.expected.as_str());
        label.append(", received ");
        label.append(assertion.received.as_str());
        assert(label@ =~= annotation(assertion@));
        let rendered = render_report(
            "assertion failed",
            name,
            assertion.expression.as_str(),
            label.as_str(),
            assertion.span_offset,
            assertion.span_length,
        );
        push_block(buf, &rendered);
    } else {
        assert(buf@ =~= old(buf)@ + assertion_block(file.deep_view(), assertion@));
    }
}

/// Appends the diagnostics of `assertions` to `buf`: a block for each, then the tally.
pub fn render_assertions(file: Option<&str>, assertions: &[Assertion], buf: &mut String)
    ensures
        final(buf)@ == old(buf)@ + diagnostics(file.deep_view(), views_of(assertions@)),
{
    if assertions.len() == 0 {
        assert(buf@ =~= old(buf)@ + diagnostics(file.deep_view(), views_of(assertions@)));
        return ;
    }
    let ghost views = views_of(assertions@);
    let ghost block = |a: AssertionView| assertion_block(file.deep_view(), a);
    let mut failed: usize = 0;
    proof {
        lemma_concat_map_ends(views, block);
    }
    while failed < assertions.len()
        invariant
            failed <= assertions.len(),
            views == views_of(assertions@),
            block == |a: AssertionView| assertion_block(file.deep_view(), a),
            buf@ == old(buf)@ + concat_map(views.take(failed as int), block),
        decreases assertions.len() - failed,
    {
        proof {
            lemma_concat_map_step(views, block, failed as int);
        }
        render_assertion(file, &assertions[failed], buf);
        assert(buf@ =~= old(buf)@ + concat_map(views.take(failed + 1), block));
        failed += 1;
    }
    proof {
        lemma_concat_map_ends(views, block);
    }
    buf.append("  ");
    push_decimal(buf, failed as u128);
    buf.append("/");
    push_decimal(buf, assertions.len() as u128);
    buf.append(" assertions failed");
    buf.append("\n");
    assert(buf@ =~= old(buf)@ + diagnostics(file.deep_view(), views_of(assertions@)));
}

} // verus!
