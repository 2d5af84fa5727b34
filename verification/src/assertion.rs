use crate::lines::{line_at, src_text, text_at, LineTable};
use crate::marker::{call_label, label_of_call, literal_text, named_literal};
use crate::strings::str_eq;
use crate::syntax::{Clause, Expression, Statement};
use crate::types::{ExpectedAssertion, ExpectedAssertionView};
use vstd::prelude::*;

verus! {

/// Whether a call is made to something named `expect`: the bare name, or an attribute
/// of that name. A call of anything but a name or an attribute has no answer.
pub open spec fn calls_expect(func: Expression) -> Option<bool> {
    match func {
        Expression::Name { id, .. } => Some(id@ == "expect"@),
        Expression::Attribute { attr, .. } => Some(attr@ == "expect"@),
        _ => None,
    }
}

/// What an entry call tells: the source text of its subject and its label.
///
/// The expression must be a call of `expect` with one or two positional arguments. The
/// subject is the first of them as the source has it. The label is the `name=` keyword
/// with a string literal, else the second positional argument where it is a string
/// literal, else none.
pub open spec fn expect_info(call: Expression, source: Seq<char>) -> Option<
    (Seq<char>, Option<Seq<char>>),
> {
    match call {
        Expression::Call { func, args, keywords, .. } => if calls_expect(*func) == Some(true) && 1
            <= args@.len() <= 2 {
            Some((text_at(source, args@[0].span_of()), call_label(args@, keywords@, 1)))
        } else {
            None
        },
        _ => None,
    }
}

/// The source texts of `exprs`, in order.
pub open spec fn texts_of(exprs: Seq<Expression>, source: Seq<char>) -> Seq<Seq<char>> {
    Seq::new(exprs.len(), |i: int| text_at(source, exprs[i].span_of()))
}

/// The line on which the byte at `offset` stands, or zero where the number of the line
/// does not fit 32 bits.
pub open spec fn line_or_zero(starts: Seq<usize>, offset: usize) -> u32 {
    if line_at(starts, offset) <= u32::MAX {
        line_at(starts, offset) as u32
    } else {
        0
    }
}

/// The entry call behind the receiver of a matcher, and whether the matcher is negated:
/// the receiver itself where it is a call, or the call whose attribute `not_` it is.
pub open spec fn entry_of(receiver: Expression) -> Option<(Expression, bool)> {
    match receiver {
        Expression::Call { .. } => Some((receiver, false)),
        Expression::Attribute { value, attr, .. } => if attr@ == "not_"@ && *value is Call {
            Some((*value, true))
        } else {
            None
        },
        _ => None,
    }
}

/// The assertion that a call makes, where it has the shape
/// `expect(subject).matcher(args)` or `expect(subject).not_.matcher(args)`.
///
/// The matcher is the attribute that is called, its arguments are the positional
/// arguments as the source has them, and the line is that on which the call begins.
pub open spec fn assertion_of(call: Expression, source: Seq<char>, starts: Seq<usize>) -> Option<
    ExpectedAssertionView,
> {
    match call {
        Expression::Call { func, args, span, .. } => match *func {
            Expression::Attribute { value, attr, .. } => match entry_of(*value) {
                Some((entry, negated)) => match expect_info(entry, source) {
                    Some((subject, label)) => Some(
                        ExpectedAssertionView {
                            subject,
                            matcher: attr@,
                            negated,
                            args: texts_of(args@, source),
                            line: line_or_zero(starts, span.start),
                            label,
                        },
                    ),
                    None => None,
                },
                None => None,
            },
            _ => None,
        },
        _ => None,
    }
}

/// What a call adds to the assertions by itself: the assertion that it makes, where it
/// has the shape of one.
pub open spec fn own_assertion(
    call: Expression,
    source: Seq<char>,
    starts: Seq<usize>,
) -> Seq<ExpectedAssertionView> {
    match assertion_of(call, source, starts) {
        Some(found) => seq![found],
        None => Seq::empty(),
    }
}

/// The assertions that an expression makes, in the order of the source.
///
/// A call gives the assertion that it makes itself, where it has the shape of one, then
/// the assertions in what it calls, then those in its positional arguments. This holds
/// of every call, so the subject of an assertion is read like any other argument, and
/// so are the arguments of a call of `expect` that is no entry call. An attribute gives
/// the assertions of the value whose attribute it is. No other expression is read.
pub open spec fn assertions_in_expr(
    expr: Expression,
    source: Seq<char>,
    starts: Seq<usize>,
) -> Seq<ExpectedAssertionView>
    decreases expr,
{
    match expr {
        Expression::Call { func, args, .. } => own_assertion(expr, source, starts)
            + assertions_in_expr(*func, source, starts) + assertions_in_exprs(
            args@,
            args@.len(),
            source,
            starts,
        ),
        Expression::Attribute { value, .. } => assertions_in_expr(*value, source, starts),
        _ => Seq::empty(),
    }
}

/// The assertions that the first `n` of `exprs` make, in order.
pub open spec fn assertions_in_exprs(
    exprs: Seq<Expression>,
    n: nat,
    source: Seq<char>,
    starts: Seq<usize>,
) -> Seq<ExpectedAssertionView>
    decreases exprs, n,
{
    if n == 0 || n > exprs.len() {
        Seq::empty()
    } else {
        assertions_in_exprs(exprs, (n - 1) as nat, source, starts) + assertions_in_expr(
            exprs[n - 1],
            source,
            starts,
        )
    }
}

/// The assertions that a statement makes, in the order of the source.
///
/// Expression statements and returns are read; of a conditional its test, its body and
/// its clauses; of a loop its body and its `else` block; of a `with` its body; of a
/// `try` its body, its `except` clauses, its `else` block and its `finally` block. No
/// other statement is read.
pub open spec fn assertions_in_stmt(
    stmt: Statement,
    source: Seq<char>,
    starts: Seq<usize>,
) -> Seq<ExpectedAssertionView>
    decreases stmt,
{
    match stmt {
        Statement::Expression { value, .. } => assertions_in_expr(value, source, starts),
        Statement::Return { value, .. } => match value {
            Some(v) => assertions_in_expr(v, source, starts),
            None => Seq::empty(),
        },
        Statement::If { test, body, clauses, .. } => assertions_in_expr(test, source, starts)
            + assertions_in_stmts(body@, body@.len(), source, starts) + assertions_in_clauses(
            clauses@,
            clauses@.len(),
            source,
            starts,
        ),
        Statement::For { body, orelse, .. } => assertions_in_stmts(
            body@,
            body@.len(),
            source,
            starts,
        )
            + assertions_in_stmts(orelse@, orelse@.len(), source, starts),
        Statement::While { body, orelse, .. } => assertions_in_stmts(
            body@,
            body@.len(),
            source,
            starts,
        ) + assertions_in_stmts(orelse@, orelse@.len(), source, starts),
        Statement::With { body, .. } => assertions_in_stmts(body@, body@.len(), source, starts),
        Statement::Try { body, handlers, orelse, finalbody, .. } => assertions_in_stmts(
            body@,
            body@.len(),
            source,
            starts,
        ) + assertions_in_clauses(handlers@, handlers@.len(), source, starts)
            + assertions_in_stmts(orelse@, orelse@.len(), source, starts) + assertions_in_stmts(
            finalbody@,
            finalbody@.len(),
            source,
            starts,
        ),
        _ => Seq::empty(),
    }
}

/// The assertions that the first `n` of `stmts` make, in order.
pub open spec fn assertions_in_stmts(
    stmts: Seq<Statement>,
    n: nat,
    source: Seq<char>,
    starts: Seq<usize>,
) -> Seq<ExpectedAssertionView>
    decreases stmts, n,
{
    if n == 0 || n > stmts.len() {
        Seq::empty()
    } else {
        assertions_in_stmts(stmts, (n - 1) as nat, source, starts) + assertions_in_stmt(
            stmts[n - 1],
            source,
            starts,
        )
    }
}

/// The assertions that one clause makes: those of its test, then those of its body.
pub open spec fn assertions_in_clause(
    clause: Clause,
    source: Seq<char>,
    starts: Seq<usize>,
) -> Seq<ExpectedAssertionView>
    decreases clause,
{
    (match clause.test {
        Some(test) => assertions_in_expr(test, source, starts),
        None => Seq::empty(),
    }) + assertions_in_stmts(clause.body@, clause.body@.len(), source, starts)
}

/// The assertions that the first `n` of `clauses` make, in order.
pub open spec fn assertions_in_clauses(
    clauses: Seq<Clause>,
    n: nat,
    source: Seq<char>,
    starts: Seq<usize>,
) -> Seq<ExpectedAssertionView>
    decreases clauses, n,
{
    if n == 0 || n > clauses.len() {
        Seq::empty()
    } else {
        assertions_in_clauses(clauses, (n - 1) as nat, source, starts) + assertions_in_clause(
            clauses[n - 1],
            source,
            starts,
        )
    }
}

/// The assertions that a test body is expected to make, in the order of the source.
pub open spec fn expected_assertions(
    body: Seq<Statement>,
    source: Seq<char>,
    starts: Seq<usize>,
) -> Seq<ExpectedAssertionView> {
    assertions_in_stmts(body, body.len(), source, starts)
}

/// What an entry call tells: the source text of its subject and its label; `None`
/// where the expression is no call of `expect` with one or two positional arguments.
pub fn extract_expect_call_info(call: &Expression, source: &str) -> (info: Option<
    (String, Option<String>),
>)
    ensures
        match info {
            Some((subject, label)) => expect_info(*call, source@) == Some(
                (subject@, label.deep_view()),
            ),
            None => expect_info(*call, source@) is None,
        },
{
    match call {
        Expression::Call { func, args, keywords, .. } => {
            let is_expect = match &**func {
                Expression::Name { id, .. } => str_eq(id.as_str(), "expect"),
                Expression::Attribute { attr, .. } => str_eq(attr.as_str(), "expect"),
                _ => false,
            };
            let nargs = args.len();
            if !is_expect || nargs == 0 || nargs > 2 {
                return None;
            }
            let subject = src_text(source, args[0].span());
            let label = label_of_call(args, keywords, 1);
            Some((subject, label))
        },
        _ => None,
    }
}

/// The source texts of `exprs`, in order.
pub fn source_texts(exprs: &Vec<Expression>, source: &str) -> (texts: Vec<String>)
    ensures
        texts.deep_view() == texts_of(exprs@, source@),
{
    let mut texts: Vec<String> = Vec::new();
    let mut i: usize = 0;
    while i < exprs.len()
        invariant
            i <= exprs.len(),
            texts.len() == i,
            forall|k: int| 0 <= k < i ==> (#[trigger] texts[k])@ == text_at(source@, exprs[k].span_of()),
        decreases exprs.len() - i,
    {
        texts.push(src_text(source, exprs[i].span()));
        i += 1;
    }
    assert(texts.deep_view() =~= texts_of(exprs@, source@));
    texts
}

/// The assertion that a call makes, where it has the shape of one.
pub fn try_extract_assertion(call: &Expression, source: &str, lines: &LineTable) -> (found: Option<
    ExpectedAssertion,
>)
    ensures
        found.deep_view() == assertion_of(*call, source@, lines@),
{
    match call {
        Expression::Call { func, args, span, .. } => match &**func {
            Expression::Attribute { value, attr, .. } => {
                let (info, negated) = match &**value {
                    Expression::Call { .. } => (extract_expect_call_info(value, source), false),
                    Expression::Attribute { value: inner, attr: accessor, .. } => {
                        if str_eq(accessor.as_str(), "not_") {
                            match &**inner {
                                Expression::Call { .. } => (
                                    extract_expect_call_info(inner, source),
                                    true,
                                ),
                                _ => (None, true),
                            }
                        } else {
                            (None, false)
                        }
                    },
                    _ => (None, false),
                };
                match info {
                    Some((subject, label)) => {
                        let line = lines.line_of(span.start);
                        let line: u32 = if line <= u32::MAX as usize {
                            line as u32
                        } else {
                            0
                        };
                        Some(
                            ExpectedAssertion {
                                subject,
                                matcher: attr.clone(),
                                negated,
                                args: source_texts(args, source),
                                line,
                                label,
                            },
                        )
                    },
                    None => None,
                }
            },
            _ => None,
        },
        _ => None,
    }
}

/// Appends to `out` the assertions that `expr` makes, in the order of the source.
pub fn collect_assertions_from_expr(
    expr: &Expression,
    source: &str,
    lines: &LineTable,
    out: &mut Vec<ExpectedAssertion>,
)
    ensures
        final(out).deep_view() == old(out).deep_view() + assertions_in_expr(
            *expr,
            source@,
            lines@,
        ),
    decreases *expr,
{
    match expr {
        Expression::Call { func, args, .. } => {
            match try_extract_assertion(expr, source, lines) {
                Some(found) => {
                    out.push(found);
                    assert(out.deep_view() =~= old(out).deep_view() + seq![found@]);
                },
                None => {},
            }
            assert(out.deep_view() =~= old(out).deep_view() + own_assertion(
                *expr,
                source@,
                lines@,
            ));
            collect_assertions_from_expr(func, source, lines, out);
            let ghost before = out.deep_view();
            let mut i: usize = 0;
            while i < args.len()
                invariant
                    i <= args.len(),
                    *expr is Call,
                    args == expr->args,
                    out.deep_view() == before + assertions_in_exprs(
                        args@,
                        i as nat,
                        source@,
                        lines@,
                    ),
                decreases args.len() - i,
            {
                collect_assertions_from_expr(&args[i], source, lines, out);
                assert(out.deep_view() =~= before + assertions_in_exprs(
                    args@,
                    (i + 1) as nat,
                    source@,
                    lines@,
                ));
                i += 1;
            }
            assert(out.deep_view() =~= old(out).deep_view() + assertions_in_expr(
                *expr,
                source@,
                lines@,
            ));
        },
        Expression::Attribute { value, .. } => {
            collect_assertions_from_expr(value, source, lines, out);
        },
        _ => {
            assert(out.deep_view() =~= old(out).deep_view() + assertions_in_expr(
                *expr,
                source@,
                lines@,
            ));
        },
    }
}

/// Appends to `out` the assertions that `clauses` make: of each its test, then its body.
pub fn collect_assertions_from_clauses(
    clauses: &Vec<Clause>,
    source: &str,
    lines: &LineTable,
    out: &mut Vec<ExpectedAssertion>,
)
    ensures
        final(out).deep_view() == old(out).deep_view() + assertions_in_clauses(
            clauses@,
            clauses@.len(),
            source@,
            lines@,
        ),
    decreases *clauses,
{
    let mut i: usize = 0;
    assert(out.deep_view() =~= old(out).deep_view() + assertions_in_clauses(
        clauses@,
        0,
        source@,
        lines@,
    ));
    while i < clauses.len()
        invariant
            i <= clauses.len(),
            out.deep_view() == old(out).deep_view() + assertions_in_clauses(
                clauses@,
                i as nat,
                source@,
                lines@,
            ),
        decreases clauses.len() - i,
    {
        let clause = &clauses[i];
        let ghost reached = out.deep_view();
        match &clause.test {
            Some(test) => {
                collect_assertions_from_expr(test, source, lines, out);
            },
            None => {},
        }
        collect_assertions_from_block(&clause.body, source, lines, out);
        assert(out.deep_view() =~= reached + assertions_in_clause(
            clauses@[i as int],
            source@,
            lines@,
        ));
        assert(out.deep_view() =~= old(out).deep_view() + assertions_in_clauses(
            clauses@,
            (i + 1) as nat,
            source@,
            lines@,
        ));
        i += 1;
    }
}

/// Appends to `out` the assertions that the statements of `block` make, in order.
pub fn collect_assertions_from_block(
    block: &Vec<Statement>,
    source: &str,
    lines: &LineTable,
    out: &mut Vec<ExpectedAssertion>,
)
    ensures
        final(out).deep_view() == old(out).deep_view() + assertions_in_stmts(
            block@,
            block@.len(),
            source@,
            lines@,
        ),
    decreases *block,
{
    let mut i: usize = 0;
    assert(out.deep_view() =~= old(out).deep_view() + assertions_in_stmts(
        block@,
        0,
        source@,
        lines@,
    ));
    while i < block.len()
        invariant
            i <= block.len(),
            out.deep_view() == old(out).deep_view() + assertions_in_stmts(
                block@,
                i as nat,
                source@,
                lines@,
            ),
        decreases block.len() - i,
    {
        collect_assertions_from_stmt(&block[i], source, lines, out);
        assert(out.deep_view() =~= old(out).deep_view() + assertions_in_stmts(
            block@,
            (i + 1) as nat,
            source@,
            lines@,
        ));
        i += 1;
    }
}

/// Appends to `out` the assertions that `stmt` makes, in the order of the source.
pub fn collect_assertions_from_stmt(
    stmt: &Statement,
    source: &str,
    lines: &LineTable,
    out: &mut Vec<ExpectedAssertion>,
)
    ensures
        final(out).deep_view() == old(out).deep_view() + assertions_in_stmt(
            *stmt,
            source@,
            lines@,
        ),
    decreases *stmt,
{
    match stmt {
        Statement::Expression { value, .. } => {
            collect_assertions_from_expr(value, source, lines, out);
        },
        Statement::Return { value, .. } => {
            match value {
                Some(v) => {
                    collect_assertions_from_expr(v, source, lines, out);
                },
                None => {},
            }
        },
        Statement::If { test, body, clauses, .. } => {
            collect_assertions_from_expr(test, source, lines, out);
            collect_assertions_from_block(body, source, lines, out);
            collect_assertions_from_clauses(clauses, source, lines, out);
        },
        Statement::For { body, orelse, .. } => {
            collect_assertions_from_block(body, source, lines, out);
            collect_assertions_from_block(orelse, source, lines, out);
        },
        Statement::While { body, orelse, .. } => {
            collect_assertions_from_block(body, source, lines, out);
            collect_assertions_from_block(orelse, source, lines, out);
        },
        Statement::With { body, .. } => {
            collect_assertions_from_block(body, source, lines, out);
        },
        Statement::Try { body, handlers, orelse, finalbody, .. } => {
            collect_assertions_from_block(body, source, lines, out);
            collect_assertions_from_clauses(handlers, source, lines, out);
            collect_assertions_from_block(orelse, source, lines, out);
            collect_assertions_from_block(finalbody, source, lines, out);
        },
        _ => {},
    }
    assert(out.deep_view() =~= old(out).deep_view() + assertions_in_stmt(*stmt, source@, lines@));
}

/// The assertions that a test body is expected to make, in the order of the source.
pub fn extract_expected_assertions(body: &Vec<Statement>, source: &str, lines: &LineTable) -> (found:
    Vec<ExpectedAssertion>)
    ensures
        found.deep_view() == expected_assertions(body@, source@, lines@),
{
    let mut found: Vec<ExpectedAssertion> = Vec::new();
    collect_assertions_from_block(body, source, lines, &mut found);
    assert(found.deep_view() =~= expected_assertions(body@, source@, lines@));
    found
}

/// The label of an assertion follows the same order of precedence: the `name=` keyword
/// of the entry call, then its second positional argument, and no label without them.
pub proof fn law_label_precedence(call: Expression, source: Seq<char>)
    requires
        expect_info(call, source) is Some,
    ensures
        call matches Expression::Call { args, keywords, .. } && {
            let info = expect_info(call, source)->0;
            let label = info.1;
            &&& named_literal(keywords@, 0) is Some ==> label == named_literal(keywords@, 0)
            &&& named_literal(keywords@, 0) is None && args@.len() == 2 ==> label == literal_text(
                args@[1],
            )
            &&& named_literal(keywords@, 0) is None && args@.len() == 1 ==> label is None
        },
{
}

} // verus!
