use crate::assertion::{
    assertion_of, assertions_in_clause, assertions_in_clauses, assertions_in_expr,
    assertions_in_exprs, assertions_in_stmt, assertions_in_stmts, expected_assertions,
    own_assertion,
};
use crate::lines::{lemma_line_at_monotone, line_at};
use crate::syntax::{Clause, Expression, Span, Statement};
use crate::types::ExpectedAssertionView;
use vstd::prelude::*;

verus! {

/// Whether `inner` lies inside `outer` and does not end before it begins.
pub open spec fn inside(inner: Span, outer: Span) -> bool {
    outer.start <= inner.start <= inner.end <= outer.end
}

/// Where the first `n` of `exprs` end: at the end of the last of them, or at `from`
/// where there is none.
pub open spec fn exprs_end(exprs: Seq<Expression>, n: nat, from: usize) -> usize {
    if n == 0 || n > exprs.len() {
        from
    } else {
        exprs[n - 1].span_of().end
    }
}

/// Where the first `n` of `stmts` end: at the end of the last of them, or at `from`
/// where there is none.
pub open spec fn stmts_end(stmts: Seq<Statement>, n: nat, from: usize) -> usize {
    if n == 0 || n > stmts.len() {
        from
    } else {
        stmts[n - 1].span_of().end
    }
}

/// Whether an expression is well placed: a call holds what it calls and then its
/// arguments, one after the other, inside its own span, and each of them is well placed;
/// an attribute holds its value inside its own span, and the value is well placed.
pub open spec fn expr_placed(expr: Expression) -> bool
    decreases expr,
{
    match expr {
        Expression::Call { func, args, span, .. } => {
            &&& inside(func.span_of(), span)
            &&& expr_placed(*func)
            &&& exprs_placed(args@, args@.len(), func.span_of().end, span)
        },
        Expression::Attribute { value, span, .. } => {
            &&& inside(value.span_of(), span)
            &&& expr_placed(*value)
        },
        _ => expr.span_of().start <= expr.span_of().end,
    }
}

/// Whether the first `n` of `exprs` are well placed, one after the other from `from` on
/// and inside `outer`.
pub open spec fn exprs_placed(exprs: Seq<Expression>, n: nat, from: usize, outer: Span) -> bool
    decreases exprs, n,
{
    if n == 0 || n > exprs.len() {
        true
    } else {
        &&& exprs_placed(exprs, (n - 1) as nat, from, outer)
        &&& expr_placed(exprs[n - 1])
        &&& inside(exprs[n - 1].span_of(), outer)
        &&& exprs_end(exprs, (n - 1) as nat, from) <= exprs[n - 1].span_of().start
    }
}

/// Where the `except` clauses of a `try` begin: behind its body.
pub open spec fn try_handlers_from(stmt: Statement) -> usize
    recommends
        stmt is Try,
{
    stmts_end(stmt->Try_body@, stmt->Try_body@.len(), stmt.span_of().start)
}

/// Where the `else` block of a `try` begins: behind its `except` clauses.
pub open spec fn try_else_from(stmt: Statement) -> usize
    recommends
        stmt is Try,
{
    clauses_end(stmt->handlers@, stmt->handlers@.len(), try_handlers_from(stmt))
}

/// Where the `finally` block of a `try` begins: behind its `else` block.
pub open spec fn try_finally_from(stmt: Statement) -> usize
    recommends
        stmt is Try,
{
    stmts_end(stmt->Try_orelse@, stmt->Try_orelse@.len(), try_else_from(stmt))
}

/// Whether a statement is well placed: what is read of it stands one after the other in
/// the order of reading, inside its own span, and each part is well placed.
pub open spec fn stmt_placed(stmt: Statement) -> bool
    decreases stmt,
{
    let span = stmt.span_of();
    match stmt {
        Statement::Expression { value, .. } => inside(value.span_of(), span) && expr_placed(value),
        Statement::Return { value, .. } => match value {
            Some(v) => inside(v.span_of(), span) && expr_placed(v),
            None => span.start <= span.end,
        },
        Statement::If { test, body, clauses, .. } => {
            &&& inside(test.span_of(), span)
            &&& expr_placed(test)
            &&& stmts_placed(body@, body@.len(), test.span_of().end, span)
            &&& clauses_placed(
                clauses@,
                clauses@.len(),
                stmts_end(body@, body@.len(), test.span_of().end),
                span,
            )
        },
        Statement::For { body, orelse, .. } => {
            &&& span.start <= span.end
            &&& stmts_placed(body@, body@.len(), span.start, span)
            &&& stmts_placed(
                orelse@,
                orelse@.len(),
                stmts_end(body@, body@.len(), span.start),
                span,
            )
        },
        Statement::While { body, orelse, .. } => {
            &&& span.start <= span.end
            &&& stmts_placed(body@, body@.len(), span.start, span)
            &&& stmts_placed(
                orelse@,
                orelse@.len(),
                stmts_end(body@, body@.len(), span.start),
                span,
            )
        },
        Statement::With { body, .. } => {
            &&& span.start <= span.end
            &&& stmts_placed(body@, body@.len(), span.start, span)
        },
        Statement::Try { body, handlers, orelse, finalbody, .. } => {
            &&& span.start <= span.end
            &&& stmts_placed(body@, body@.len(), span.start, span)
            &&& clauses_placed(handlers@, handlers@.len(), try_handlers_from(stmt), span)
            &&& stmts_placed(orelse@, orelse@.len(), try_else_from(stmt), span)
            &&& stmts_placed(finalbody@, finalbody@.len(), try_finally_from(stmt), span)
        },
        _ => span.start <= span.end,
    }
}

/// Whether the first `n` of `stmts` are well placed, one after the other from `from` on
/// and inside `outer`.
pub open spec fn stmts_placed(stmts: Seq<Statement>, n: nat, from: usize, outer: Span) -> bool
    decreases stmts, n,
{
    if n == 0 || n > stmts.len() {
        true
    } else {
        &&& stmts_placed(stmts, (n - 1) as nat, from, outer)
        &&& stmt_placed(stmts[n - 1])
        &&& inside(stmts[n - 1].span_of(), outer)
        &&& stmts_end(stmts, (n - 1) as nat, from) <= stmts[n - 1].span_of().start
    }
}

/// Where the body of a clause begins: behind its test, or at the beginning of the
/// clause where it has none.
pub open spec fn clause_body_from(clause: Clause) -> usize {
    match clause.test {
        Some(test) => test.span_of().end,
        None => clause.span.start,
    }
}

/// Whether a clause is well placed: its test, then the statements of its body, inside
/// its own span.
pub open spec fn clause_placed(clause: Clause) -> bool
    decreases clause,
{
    &&& clause.span.start <= clause.span.end
    &&& match clause.test {
        Some(test) => inside(test.span_of(), clause.span) && expr_placed(test),
        None => true,
    }
    &&& stmts_placed(clause.body@, clause.body@.len(), clause_body_from(clause), clause.span)
}

/// Where the first `n` of `clauses` end.
pub open spec fn clauses_end(clauses: Seq<Clause>, n: nat, from: usize) -> usize {
    if n == 0 || n > clauses.len() {
        from
    } else {
        clauses[n - 1].span.end
    }
}

/// Whether the first `n` of `clauses` are well placed, one after the other from `from`
/// on and inside `outer`.
pub open spec fn clauses_placed(clauses: Seq<Clause>, n: nat, from: usize, outer: Span) -> bool
    decreases clauses, n,
{
    if n == 0 || n > clauses.len() {
        true
    } else {
        &&& clauses_placed(clauses, (n - 1) as nat, from, outer)
        &&& clause_placed(clauses[n - 1])
        &&& inside(clauses[n - 1].span, outer)
        &&& clauses_end(clauses, (n - 1) as nat, from) <= clauses[n - 1].span.start
    }
}

/// Whether `inner` lies inside `outer` and does not end before it begins.
pub fn lies_inside(inner: Span, outer: Span) -> (within: bool)
    ensures
        within == inside(inner, outer),
{
    outer.start <= inner.start && inner.start <= inner.end && inner.end <= outer.end
}

/// Whether an expression is well placed.
pub fn expr_is_placed(expr: &Expression) -> (placed: bool)
    ensures
        placed == expr_placed(*expr),
    decreases *expr,
{
    match expr {
        Expression::Call { func, args, span, .. } => {
            if !lies_inside(func.span(), *span) || !expr_is_placed(func) {
                return false;
            }
            let mut reached: usize = func.span().end;
            let mut i: usize = 0;
            while i < args.len()
                invariant
                    i <= args.len(),
                    *expr is Call,
                    args == expr->args,
                    func == expr->func,
                    span == expr->Call_span,
                    exprs_placed(args@, i as nat, func.span_of().end, *span),
                    reached == exprs_end(args@, i as nat, func.span_of().end),
                decreases args.len() - i,
            {
                let arg = &args[i];
                if !expr_is_placed(arg) || !lies_inside(arg.span(), *span) || reached
                    > arg.span().start {
                    assert(!exprs_placed(args@, (i + 1) as nat, func.span_of().end, *span));
                    proof {
                        if exprs_placed(args@, args@.len(), func.span_of().end, *span) {
                            lemma_exprs_placed_prefix(
                                args@,
                                (i + 1) as nat,
                                args@.len(),
                                func.span_of().end,
                                *span,
                            );
                        }
                    }
                    return false;
                }
                reached = arg.span().end;
                i += 1;
            }
            true
        },
        Expression::Attribute { value, span, .. } => lies_inside(value.span(), *span)
            && expr_is_placed(value),
        _ => expr.span().start <= expr.span().end,
    }
}

/// Where more expressions are well placed, fewer are.
proof fn lemma_exprs_placed_prefix(
    exprs: Seq<Expression>,
    n: nat,
    m: nat,
    from: usize,
    outer: Span,
)
    requires
        n <= m <= exprs.len(),
        exprs_placed(exprs, m, from, outer),
    ensures
        exprs_placed(exprs, n, from, outer),
    decreases m,
{
    if n < m {
        lemma_exprs_placed_prefix(exprs, n, (m - 1) as nat, from, outer);
    }
}

/// Where more statements are well placed, fewer are.
proof fn lemma_stmts_placed_prefix(
    stmts: Seq<Statement>,
    n: nat,
    m: nat,
    from: usize,
    outer: Span,
)
    requires
        n <= m <= stmts.len(),
        stmts_placed(stmts, m, from, outer),
    ensures
        stmts_placed(stmts, n, from, outer),
    decreases m,
{
    if n < m {
        lemma_stmts_placed_prefix(stmts, n, (m - 1) as nat, from, outer);
    }
}

/// Where more clauses are well placed, fewer are.
proof fn lemma_clauses_placed_prefix(
    clauses: Seq<Clause>,
    n: nat,
    m: nat,
    from: usize,
    outer: Span,
)
    requires
        n <= m <= clauses.len(),
        clauses_placed(clauses, m, from, outer),
    ensures
        clauses_placed(clauses, n, from, outer),
    decreases m,
{
    if n < m {
        lemma_clauses_placed_prefix(clauses, n, (m - 1) as nat, from, outer);
    }
}

/// Whether the statements of `block` are well placed, one after the other from `from`
/// on and inside `outer`; where they are, also where they end.
pub fn block_is_placed(block: &Vec<Statement>, from: usize, outer: Span) -> (end: Option<usize>)
    ensures
        end is Some <==> stmts_placed(block@, block@.len(), from, outer),
        end matches Some(reached) ==> reached == stmts_end(block@, block@.len(), from),
    decreases *block,
{
    let mut reached: usize = from;
    let mut i: usize = 0;
    while i < block.len()
        invariant
            i <= block.len(),
            stmts_placed(block@, i as nat, from, outer),
            reached == stmts_end(block@, i as nat, from),
        decreases block.len() - i,
    {
        let stmt = &block[i];
        if !stmt_is_placed(stmt) || !lies_inside(stmt.span(), outer) || reached
            > stmt.span().start {
            assert(!stmts_placed(block@, (i + 1) as nat, from, outer));
            proof {
                if stmts_placed(block@, block@.len(), from, outer) {
                    lemma_stmts_placed_prefix(block@, (i + 1) as nat, block@.len(), from, outer);
                }
            }
            return None;
        }
        reached = stmt.span().end;
        i += 1;
    }
    Some(reached)
}

/// Whether a clause is well placed.
pub fn clause_is_placed(clause: &Clause) -> (placed: bool)
    ensures
        placed == clause_placed(*clause),
    decreases *clause,
{
    if clause.span.start > clause.span.end {
        return false;
    }
    let from = match &clause.test {
        Some(test) => {
            if !lies_inside(test.span(), clause.span) || !expr_is_placed(test) {
                return false;
            }
            test.span().end
        },
        None => clause.span.start,
    };
    block_is_placed(&clause.body, from, clause.span).is_some()
}

/// Whether `clauses` are well placed, one after the other from `from` on and inside
/// `outer`; where they are, also where they end.
pub fn clauses_are_placed(clauses: &Vec<Clause>, from: usize, outer: Span) -> (end: Option<usize>)
    ensures
        end is Some <==> clauses_placed(clauses@, clauses@.len(), from, outer),
        end matches Some(reached) ==> reached == clauses_end(clauses@, clauses@.len(), from),
    decreases *clauses,
{
    let mut reached: usize = from;
    let mut i: usize = 0;
    while i < clauses.len()
        invariant
            i <= clauses.len(),
            clauses_placed(clauses@, i as nat, from, outer),
            reached == clauses_end(clauses@, i as nat, from),
        decreases clauses.len() - i,
    {
        let clause = &clauses[i];
        if !clause_is_placed(clause) || !lies_inside(clause.span, outer) || reached
            > clause.span.start {
            assert(!clauses_placed(clauses@, (i + 1) as nat, from, outer));
            proof {
                if clauses_placed(clauses@, clauses@.len(), from, outer) {
                    lemma_clauses_placed_prefix(
                        clauses@,
                        (i + 1) as nat,
                        clauses@.len(),
                        from,
                        outer,
                    );
                }
            }
            return None;
        }
        reached = clause.span.end;
        i += 1;
    }
    Some(reached)
}

/// Whether a statement is well placed.
pub fn stmt_is_placed(stmt: &Statement) -> (placed: bool)
    ensures
        placed == stmt_placed(*stmt),
    decreases *stmt,
{
    let span = stmt.span();
    match stmt {
        Statement::Expression { value, .. } => lies_inside(value.span(), span) && expr_is_placed(
            value,
        ),
        Statement::Return { value, .. } => match value {
            Some(v) => lies_inside(v.span(), span) && expr_is_placed(v),
            None => span.start <= span.end,
        },
        Statement::If { test, body, clauses, .. } => {
            if !lies_inside(test.span(), span) || !expr_is_placed(test) {
                return false;
            }
            match block_is_placed(body, test.span().end, span) {
                Some(done) => clauses_are_placed(clauses, done, span).is_some(),
                None => false,
            }
        },
        Statement::For { body, orelse, .. } => {
            if span.start > span.end {
                return false;
            }
            match block_is_placed(body, span.start, span) {
                Some(done) => block_is_placed(orelse, done, span).is_some(),
                None => false,
            }
        },
        Statement::While { body, orelse, .. } => {
            if span.start > span.end {
                return false;
            }
            match block_is_placed(body, span.start, span) {
                Some(done) => block_is_placed(orelse, done, span).is_some(),
                None => false,
            }
        },
        Statement::With { body, .. } => {
            span.start <= span.end && block_is_placed(body, span.start, span).is_some()
        },
        Statement::Try { body, handlers, orelse, finalbody, .. } => {
            if span.start > span.end {
                return false;
            }
            let done = match block_is_placed(body, span.start, span) {
                Some(done) => done,
                None => {
                    return false;
                },
            };
            let caught = match clauses_are_placed(handlers, done, span) {
                Some(caught) => caught,
                None => {
                    return false;
                },
            };
            match block_is_placed(orelse, caught, span) {
                Some(other) => block_is_placed(finalbody, other, span).is_some(),
                None => false,
            }
        },
        _ => span.start <= span.end,
    }
}

/// What a call adds to the calls that make assertions by itself: the call, where it has
/// the shape of an assertion.
pub open spec fn own_call(call: Expression, source: Seq<char>, starts: Seq<usize>) -> Seq<
    Expression,
> {
    if assertion_of(call, source, starts) is Some {
        seq![call]
    } else {
        Seq::empty()
    }
}

/// The calls of an expression that make assertions, in the order of reading: a call
/// itself where it makes one, then those in what it calls, then those in its
/// arguments; for an attribute, those of its value.
pub open spec fn assertion_calls_in_expr(
    expr: Expression,
    source: Seq<char>,
    starts: Seq<usize>,
) -> Seq<Expression>
    decreases expr,
{
    match expr {
        Expression::Call { func, args, .. } => own_call(expr, source, starts)
            + assertion_calls_in_expr(*func, source, starts) + assertion_calls_in_exprs(
            args@,
            args@.len(),
            source,
            starts,
        ),
        Expression::Attribute { value, .. } => assertion_calls_in_expr(*value, source, starts),
        _ => Seq::empty(),
    }
}

/// The calls of the first `n` of `exprs` that make assertions, in order.
pub open spec fn assertion_calls_in_exprs(
    exprs: Seq<Expression>,
    n: nat,
    source: Seq<char>,
    starts: Seq<usize>,
) -> Seq<Expression>
    decreases exprs, n,
{
    if n == 0 || n > exprs.len() {
        Seq::empty()
    } else {
        assertion_calls_in_exprs(exprs, (n - 1) as nat, source, starts)
            + assertion_calls_in_expr(exprs[n - 1], source, starts)
    }
}

/// The calls of a statement that make assertions, in the order of reading.
pub open spec fn assertion_calls_in_stmt(
    stmt: Statement,
    source: Seq<char>,
    starts: Seq<usize>,
) -> Seq<Expression>
    decreases stmt,
{
    match stmt {
        Statement::Expression { value, .. } => assertion_calls_in_expr(value, source, starts),
        Statement::Return { value, .. } => match value {
            Some(v) => assertion_calls_in_expr(v, source, starts),
            None => Seq::empty(),
        },
        Statement::If { test, body, clauses, .. } => assertion_calls_in_expr(test, source, starts)
            + assertion_calls_in_stmts(body@, body@.len(), source, starts)
            + assertion_calls_in_clauses(clauses@, clauses@.len(), source, starts),
        Statement::For { body, orelse, .. } => assertion_calls_in_stmts(
            body@,
            body@.len(),
            source,
            starts,
        ) + assertion_calls_in_stmts(orelse@, orelse@.len(), source, starts),
        Statement::While { body, orelse, .. } => assertion_calls_in_stmts(
            body@,
            body@.len(),
            source,
            starts,
        ) + assertion_calls_in_stmts(orelse@, orelse@.len(), source, starts),
        Statement::With { body, .. } => assertion_calls_in_stmts(
            body@,
            body@.len(),
            source,
            starts,
        ),
        Statement::Try { body, handlers, orelse, finalbody, .. } => assertion_calls_in_stmts(
            body@,
            body@.len(),
            source,
            starts,
        ) + assertion_calls_in_clauses(handlers@, handlers@.len(), source, starts)
            + assertion_calls_in_stmts(orelse@, orelse@.len(), source, starts)
            + assertion_calls_in_stmts(finalbody@, finalbody@.len(), source, starts),
        _ => Seq::empty(),
    }
}

/// The calls of the first `n` of `stmts` that make assertions, in order.
pub open spec fn assertion_calls_in_stmts(
    stmts: Seq<Statement>,
    n: nat,
    source: Seq<char>,
    starts: Seq<usize>,
) -> Seq<Expression>
    decreases stmts, n,
{
    if n == 0 || n > stmts.len() {
        Seq::empty()
    } else {
        assertion_calls_in_stmts(stmts, (n - 1) as nat, source, starts)
            + assertion_calls_in_stmt(stmts[n - 1], source, starts)
    }
}

/// The calls of one clause that make assertions: those of its test, then those of its
/// body.
pub open spec fn assertion_calls_in_clause(
    clause: Clause,
    source: Seq<char>,
    starts: Seq<usize>,
) -> Seq<Expression>
    decreases clause,
{
    (match clause.test {
        Some(test) => assertion_calls_in_expr(test, source, starts),
        None => Seq::empty(),
    }) + assertion_calls_in_stmts(clause.body@, clause.body@.len(), source, starts)
}

/// The calls of the first `n` of `clauses` that make assertions, in order.
pub open spec fn assertion_calls_in_clauses(
    clauses: Seq<Clause>,
    n: nat,
    source: Seq<char>,
    starts: Seq<usize>,
) -> Seq<Expression>
    decreases clauses, n,
{
    if n == 0 || n > clauses.len() {
        Seq::empty()
    } else {
        assertion_calls_in_clauses(clauses, (n - 1) as nat, source, starts)
            + assertion_calls_in_clause(clauses[n - 1], source, starts)
    }
}

/// The calls of a test body that make assertions, in the order of reading.
pub open spec fn assertion_calls(
    body: Seq<Statement>,
    source: Seq<char>,
    starts: Seq<usize>,
) -> Seq<Expression> {
    assertion_calls_in_stmts(body, body.len(), source, starts)
}

/// Whether `found` holds, call by call and in the same order, the assertions that
/// `calls` make, and each of `calls` makes one.
pub open spec fn made_by(
    found: Seq<ExpectedAssertionView>,
    calls: Seq<Expression>,
    source: Seq<char>,
    starts: Seq<usize>,
) -> bool {
    &&& found.len() == calls.len()
    &&& forall|k: int|
        0 <= k < calls.len() ==> assertion_of(#[trigger] calls[k], source, starts) == Some(
            found[k],
        )
}

/// Whether the calls begin between `low` and `high`, and none begins before a call that
/// stands earlier.
pub open spec fn starts_rise_within(calls: Seq<Expression>, low: usize, high: usize) -> bool {
    &&& forall|k: int| 0 <= k < calls.len() ==> low <= (#[trigger] calls[k]).span_of().start <= high
    &&& forall|j: int, k: int|
        0 <= j <= k < calls.len() ==> (#[trigger] calls[j]).span_of().start <= (
        #[trigger] calls[k]).span_of().start
}

/// Whether the lines of `found` lie between `low` and `high` and never fall from one
/// assertion to the next.
pub open spec fn lines_rise_within(found: Seq<ExpectedAssertionView>, low: nat, high: nat) -> bool {
    &&& forall|k: int| 0 <= k < found.len() ==> low <= (#[trigger] found[k]).line <= high
    &&& forall|j: int, k: int|
        0 <= j <= k < found.len() ==> (#[trigger] found[j]).line <= (#[trigger] found[k]).line
}

proof fn lemma_made_joined(
    first: Seq<ExpectedAssertionView>,
    first_calls: Seq<Expression>,
    second: Seq<ExpectedAssertionView>,
    second_calls: Seq<Expression>,
    source: Seq<char>,
    starts: Seq<usize>,
)
    requires
        made_by(first, first_calls, source, starts),
        made_by(second, second_calls, source, starts),
    ensures
        made_by(first + second, first_calls + second_calls, source, starts),
{
    let found = first + second;
    let calls = first_calls + second_calls;
    assert forall|k: int| 0 <= k < calls.len() implies assertion_of(
        #[trigger] calls[k],
        source,
        starts,
    ) == Some(found[k]) by {
        if k < first_calls.len() {
            assert(calls[k] == first_calls[k] && found[k] == first[k]);
        } else {
            assert(calls[k] == second_calls[k - first_calls.len()]);
            assert(found[k] == second[k - first.len()]);
        }
    }
}

proof fn lemma_expr_made(expr: Expression, source: Seq<char>, starts: Seq<usize>)
    ensures
        made_by(
            assertions_in_expr(expr, source, starts),
            assertion_calls_in_expr(expr, source, starts),
            source,
            starts,
        ),
    decreases expr,
{
    match expr {
        Expression::Call { func, args, .. } => {
            let own = own_assertion(expr, source, starts);
            let own_calls = own_call(expr, source, starts);
            assert(made_by(own, own_calls, source, starts));
            lemma_expr_made(*func, source, starts);
            lemma_exprs_made(args@, args@.len(), source, starts);
            lemma_made_joined(
                own,
                own_calls,
                assertions_in_expr(*func, source, starts),
                assertion_calls_in_expr(*func, source, starts),
                source,
                starts,
            );
            lemma_made_joined(
                own + assertions_in_expr(*func, source, starts),
                own_calls + assertion_calls_in_expr(*func, source, starts),
                assertions_in_exprs(args@, args@.len(), source, starts),
                assertion_calls_in_exprs(args@, args@.len(), source, starts),
                source,
                starts,
            );
        },
        Expression::Attribute { value, .. } => {
            lemma_expr_made(*value, source, starts);
        },
        _ => {},
    }
}

proof fn lemma_exprs_made(exprs: Seq<Expression>, n: nat, source: Seq<char>, starts: Seq<usize>)
    requires
        n <= exprs.len(),
    ensures
        made_by(
            assertions_in_exprs(exprs, n, source, starts),
            assertion_calls_in_exprs(exprs, n, source, starts),
            source,
            starts,
        ),
    decreases exprs, n,
{
    if n > 0 {
        lemma_exprs_made(exprs, (n - 1) as nat, source, starts);
        lemma_expr_made(exprs[n - 1], source, starts);
        lemma_made_joined(
            assertions_in_exprs(exprs, (n - 1) as nat, source, starts),
            assertion_calls_in_exprs(exprs, (n - 1) as nat, source, starts),
            assertions_in_expr(exprs[n - 1], source, starts),
            assertion_calls_in_expr(exprs[n - 1], source, starts),
            source,
            starts,
        );
    }
}

proof fn lemma_stmts_made(stmts: Seq<Statement>, n: nat, source: Seq<char>, starts: Seq<usize>)
    requires
        n <= stmts.len(),
    ensures
        made_by(
            assertions_in_stmts(stmts, n, source, starts),
            assertion_calls_in_stmts(stmts, n, source, starts),
            source,
            starts,
        ),
    decreases stmts, n,
{
    if n > 0 {
        lemma_stmts_made(stmts, (n - 1) as nat, source, starts);
        lemma_stmt_made(stmts[n - 1], source, starts);
        lemma_made_joined(
            assertions_in_stmts(stmts, (n - 1) as nat, source, starts),
            assertion_calls_in_stmts(stmts, (n - 1) as nat, source, starts),
            assertions_in_stmt(stmts[n - 1], source, starts),
            assertion_calls_in_stmt(stmts[n - 1], source, starts),
            source,
            starts,
        );
    }
}

proof fn lemma_clause_made(clause: Clause, source: Seq<char>, starts: Seq<usize>)
    ensures
        made_by(
            assertions_in_clause(clause, source, starts),
            assertion_calls_in_clause(clause, source, starts),
            source,
            starts,
        ),
    decreases clause,
{
    lemma_stmts_made(clause.body@, clause.body@.len(), source, starts);
    let behind = assertions_in_stmts(clause.body@, clause.body@.len(), source, starts);
    let behind_calls = assertion_calls_in_stmts(clause.body@, clause.body@.len(), source, starts);
    match clause.test {
        Some(test) => {
            lemma_expr_made(test, source, starts);
            lemma_made_joined(
                assertions_in_expr(test, source, starts),
                assertion_calls_in_expr(test, source, starts),
                behind,
                behind_calls,
                source,
                starts,
            );
        },
        None => {
            lemma_made_joined(Seq::empty(), Seq::empty(), behind, behind_calls, source, starts);
        },
    }
}

proof fn lemma_clauses_made(clauses: Seq<Clause>, n: nat, source: Seq<char>, starts: Seq<usize>)
    requires
        n <= clauses.len(),
    ensures
        made_by(
            assertions_in_clauses(clauses, n, source, starts),
            assertion_calls_in_clauses(clauses, n, source, starts),
            source,
            starts,
        ),
    decreases clauses, n,
{
    if n > 0 {
        lemma_clauses_made(clauses, (n - 1) as nat, source, starts);
        lemma_clause_made(clauses[n - 1], source, starts);
        lemma_made_joined(
            assertions_in_clauses(clauses, (n - 1) as nat, source, starts),
            assertion_calls_in_clauses(clauses, (n - 1) as nat, source, starts),
            assertions_in_clause(clauses[n - 1], source, starts),
            assertion_calls_in_clause(clauses[n - 1], source, starts),
            source,
            starts,
        );
    }
}

proof fn lemma_stmt_made(stmt: Statement, source: Seq<char>, starts: Seq<usize>)
    ensures
        made_by(
            assertions_in_stmt(stmt, source, starts),
            assertion_calls_in_stmt(stmt, source, starts),
            source,
            starts,
        ),
    decreases stmt,
{
    match stmt {
        Statement::Expression { value, .. } => {
            lemma_expr_made(value, source, starts);
        },
        Statement::Return { value, .. } => {
            match value {
                Some(v) => {
                    lemma_expr_made(v, source, starts);
                },
                None => {},
            }
        },
        Statement::If { test, body, clauses, .. } => {
            lemma_expr_made(test, source, starts);
            lemma_stmts_made(body@, body@.len(), source, starts);
            lemma_clauses_made(clauses@, clauses@.len(), source, starts);
            lemma_made_joined(
                assertions_in_expr(test, source, starts),
                assertion_calls_in_expr(test, source, starts),
                assertions_in_stmts(body@, body@.len(), source, starts),
                assertion_calls_in_stmts(body@, body@.len(), source, starts),
                source,
                starts,
            );
            lemma_made_joined(
                assertions_in_expr(test, source, starts) + assertions_in_stmts(
                    body@,
                    body@.len(),
                    source,
                    starts,
                ),
                assertion_calls_in_expr(test, source, starts) + assertion_calls_in_stmts(
                    body@,
                    body@.len(),
                    source,
                    starts,
                ),
                assertions_in_clauses(clauses@, clauses@.len(), source, starts),
                assertion_calls_in_clauses(clauses@, clauses@.len(), source, starts),
                source,
                starts,
            );
        },
        Statement::For { body, orelse, .. } => {
            lemma_stmts_made(body@, body@.len(), source, starts);
            lemma_stmts_made(orelse@, orelse@.len(), source, starts);
            lemma_made_joined(
                assertions_in_stmts(body@, body@.len(), source, starts),
                assertion_calls_in_stmts(body@, body@.len(), source, starts),
                assertions_in_stmts(orelse@, orelse@.len(), source, starts),
                assertion_calls_in_stmts(orelse@, orelse@.len(), source, starts),
                source,
                starts,
            );
        },
        Statement::While { body, orelse, .. } => {
            lemma_stmts_made(body@, body@.len(), source, starts);
            lemma_stmts_made(orelse@, orelse@.len(), source, starts);
            lemma_made_joined(
                assertions_in_stmts(body@, body@.len(), source, starts),
                assertion_calls_in_stmts(body@, body@.len(), source, starts),
                assertions_in_stmts(orelse@, orelse@.len(), source, starts),
                assertion_calls_in_stmts(orelse@, orelse@.len(), source, starts),
                source,
                starts,
            );
        },
        Statement::With { body, .. } => {
            lemma_stmts_made(body@, body@.len(), source, starts);
        },
        Statement::Try { body, handlers, orelse, finalbody, .. } => {
            lemma_stmts_made(body@, body@.len(), source, starts);
            lemma_clauses_made(handlers@, handlers@.len(), source, starts);
            lemma_stmts_made(orelse@, orelse@.len(), source, starts);
            lemma_stmts_made(finalbody@, finalbody@.len(), source, starts);
            let a = assertions_in_stmts(body@, body@.len(), source, starts);
            let ac = assertion_calls_in_stmts(body@, body@.len(), source, starts);
            let b = assertions_in_clauses(handlers@, handlers@.len(), source, starts);
            let bc = assertion_calls_in_clauses(handlers@, handlers@.len(), source, starts);
            let c = assertions_in_stmts(orelse@, orelse@.len(), source, starts);
            let cc = assertion_calls_in_stmts(orelse@, orelse@.len(), source, starts);
            let d = assertions_in_stmts(finalbody@, finalbody@.len(), source, starts);
            let dc = assertion_calls_in_stmts(finalbody@, finalbody@.len(), source, starts);
            lemma_made_joined(a, ac, b, bc, source, starts);
            lemma_made_joined(a + b, ac + bc, c, cc, source, starts);
            lemma_made_joined(a + b + c, ac + bc + cc, d, dc, source, starts);
        },
        _ => {},
    }
}

/// Calls that rise within one range, followed by calls that rise within a later range,
/// rise within the whole.
proof fn lemma_starts_joined(
    first: Seq<Expression>,
    second: Seq<Expression>,
    low: usize,
    middle: usize,
    later: usize,
    high: usize,
)
    requires
        starts_rise_within(first, low, middle),
        starts_rise_within(second, later, high),
        low <= later,
        middle <= later,
        middle <= high,
    ensures
        starts_rise_within(first + second, low, high),
{
    let both = first + second;
    assert forall|k: int| 0 <= k < both.len() implies low <= (#[trigger] both[k]).span_of().start
        <= high by {
        if k < first.len() {
            assert(both[k] == first[k]);
        } else {
            assert(both[k] == second[k - first.len()]);
        }
    }
    assert forall|j: int, k: int| 0 <= j <= k < both.len() implies (
    #[trigger] both[j]).span_of().start <= (#[trigger] both[k]).span_of().start by {
        if k < first.len() {
            assert(both[j] == first[j] && both[k] == first[k]);
        } else if j < first.len() {
            assert(both[j] == first[j] && both[k] == second[k - first.len()]);
        } else {
            assert(both[j] == second[j - first.len()] && both[k] == second[k - first.len()]);
        }
    }
}

/// Narrower bounds hold as wider ones.
proof fn lemma_starts_widened(
    calls: Seq<Expression>,
    low: usize,
    high: usize,
    lower: usize,
    higher: usize,
)
    requires
        starts_rise_within(calls, low, high),
        lower <= low,
        high <= higher,
    ensures
        starts_rise_within(calls, lower, higher),
{
}

proof fn lemma_expr_starts(expr: Expression, source: Seq<char>, starts: Seq<usize>)
    requires
        expr_placed(expr),
    ensures
        expr.span_of().start <= expr.span_of().end,
        starts_rise_within(
            assertion_calls_in_expr(expr, source, starts),
            expr.span_of().start,
            expr.span_of().end,
        ),
    decreases expr,
{
    let span = expr.span_of();
    match expr {
        Expression::Call { func, args, .. } => {
            let inner = func.span_of();
            lemma_expr_starts(*func, source, starts);
            lemma_exprs_starts(args@, args@.len(), inner.end, span, source, starts);
            let reached = exprs_end(args@, args@.len(), inner.end);
            let own = own_call(expr, source, starts);
            let called = assertion_calls_in_expr(*func, source, starts);
            let behind = assertion_calls_in_exprs(args@, args@.len(), source, starts);
            assert(starts_rise_within(own, span.start, span.start));
            lemma_starts_joined(own, called, span.start, span.start, inner.start, inner.end);
            lemma_starts_joined(own + called, behind, span.start, inner.end, inner.end, reached);
            lemma_starts_widened(own + called + behind, span.start, reached, span.start, span.end);
        },
        Expression::Attribute { value, .. } => {
            lemma_expr_starts(*value, source, starts);
            lemma_starts_widened(
                assertion_calls_in_expr(*value, source, starts),
                value.span_of().start,
                value.span_of().end,
                span.start,
                span.end,
            );
        },
        _ => {},
    }
}

proof fn lemma_exprs_starts(
    exprs: Seq<Expression>,
    n: nat,
    from: usize,
    outer: Span,
    source: Seq<char>,
    starts: Seq<usize>,
)
    requires
        n <= exprs.len(),
        exprs_placed(exprs, n, from, outer),
        from <= outer.end,
    ensures
        from <= exprs_end(exprs, n, from) <= outer.end,
        starts_rise_within(
            assertion_calls_in_exprs(exprs, n, source, starts),
            from,
            exprs_end(exprs, n, from),
        ),
    decreases exprs, n,
{
    if n > 0 {
        let last = exprs[n - 1];
        let reached = exprs_end(exprs, (n - 1) as nat, from);
        lemma_exprs_starts(exprs, (n - 1) as nat, from, outer, source, starts);
        lemma_expr_starts(last, source, starts);
        lemma_starts_joined(
            assertion_calls_in_exprs(exprs, (n - 1) as nat, source, starts),
            assertion_calls_in_expr(last, source, starts),
            from,
            reached,
            last.span_of().start,
            last.span_of().end,
        );
    }
}

proof fn lemma_stmts_starts(
    stmts: Seq<Statement>,
    n: nat,
    from: usize,
    outer: Span,
    source: Seq<char>,
    starts: Seq<usize>,
)
    requires
        n <= stmts.len(),
        stmts_placed(stmts, n, from, outer),
        from <= outer.end,
    ensures
        from <= stmts_end(stmts, n, from) <= outer.end,
        starts_rise_within(
            assertion_calls_in_stmts(stmts, n, source, starts),
            from,
            stmts_end(stmts, n, from),
        ),
    decreases stmts, n,
{
    if n > 0 {
        let last = stmts[n - 1];
        let reached = stmts_end(stmts, (n - 1) as nat, from);
        lemma_stmts_starts(stmts, (n - 1) as nat, from, outer, source, starts);
        lemma_stmt_starts(last, source, starts);
        lemma_starts_joined(
            assertion_calls_in_stmts(stmts, (n - 1) as nat, source, starts),
            assertion_calls_in_stmt(last, source, starts),
            from,
            reached,
            last.span_of().start,
            last.span_of().end,
        );
    }
}

proof fn lemma_clause_starts(clause: Clause, source: Seq<char>, starts: Seq<usize>)
    requires
        clause_placed(clause),
    ensures
        starts_rise_within(
            assertion_calls_in_clause(clause, source, starts),
            clause.span.start,
            clause.span.end,
        ),
    decreases clause,
{
    let span = clause.span;
    let from = clause_body_from(clause);
    let done = stmts_end(clause.body@, clause.body@.len(), from);
    let behind = assertion_calls_in_stmts(clause.body@, clause.body@.len(), source, starts);
    match clause.test {
        Some(test) => {
            lemma_expr_starts(test, source, starts);
            lemma_stmts_starts(clause.body@, clause.body@.len(), from, span, source, starts);
            let first = assertion_calls_in_expr(test, source, starts);
            lemma_starts_joined(first, behind, test.span_of().start, from, from, done);
            lemma_starts_widened(first + behind, test.span_of().start, done, span.start, span.end);
        },
        None => {
            lemma_stmts_starts(clause.body@, clause.body@.len(), from, span, source, starts);
            lemma_starts_widened(behind, span.start, done, span.start, span.end);
            assert(Seq::<Expression>::empty() + behind =~= behind);
        },
    }
}

proof fn lemma_clauses_starts(
    clauses: Seq<Clause>,
    n: nat,
    from: usize,
    outer: Span,
    source: Seq<char>,
    starts: Seq<usize>,
)
    requires
        n <= clauses.len(),
        clauses_placed(clauses, n, from, outer),
        from <= outer.end,
    ensures
        from <= clauses_end(clauses, n, from) <= outer.end,
        starts_rise_within(
            assertion_calls_in_clauses(clauses, n, source, starts),
            from,
            clauses_end(clauses, n, from),
        ),
    decreases clauses, n,
{
    if n > 0 {
        let last = clauses[n - 1];
        let reached = clauses_end(clauses, (n - 1) as nat, from);
        lemma_clauses_starts(clauses, (n - 1) as nat, from, outer, source, starts);
        lemma_clause_starts(last, source, starts);
        lemma_starts_joined(
            assertion_calls_in_clauses(clauses, (n - 1) as nat, source, starts),
            assertion_calls_in_clause(last, source, starts),
            from,
            reached,
            last.span.start,
            last.span.end,
        );
    }
}

proof fn lemma_stmt_starts(stmt: Statement, source: Seq<char>, starts: Seq<usize>)
    requires
        stmt_placed(stmt),
    ensures
        stmt.span_of().start <= stmt.span_of().end,
        starts_rise_within(
            assertion_calls_in_stmt(stmt, source, starts),
            stmt.span_of().start,
            stmt.span_of().end,
        ),
    decreases stmt,
{
    let span = stmt.span_of();
    match stmt {
        Statement::Expression { value, .. } => {
            lemma_expr_starts(value, source, starts);
            lemma_starts_widened(
                assertion_calls_in_expr(value, source, starts),
                value.span_of().start,
                value.span_of().end,
                span.start,
                span.end,
            );
        },
        Statement::Return { value, .. } => {
            match value {
                Some(v) => {
                    lemma_expr_starts(v, source, starts);
                    lemma_starts_widened(
                        assertion_calls_in_expr(v, source, starts),
                        v.span_of().start,
                        v.span_of().end,
                        span.start,
                        span.end,
                    );
                },
                None => {},
            }
        },
        Statement::If { test, body, clauses, .. } => {
            let tested = test.span_of().end;
            let done = stmts_end(body@, body@.len(), tested);
            let closed = clauses_end(clauses@, clauses@.len(), done);
            lemma_expr_starts(test, source, starts);
            lemma_stmts_starts(body@, body@.len(), tested, span, source, starts);
            lemma_clauses_starts(clauses@, clauses@.len(), done, span, source, starts);
            let first = assertion_calls_in_expr(test, source, starts);
            let second = assertion_calls_in_stmts(body@, body@.len(), source, starts);
            let third = assertion_calls_in_clauses(clauses@, clauses@.len(), source, starts);
            lemma_starts_joined(first, second, test.span_of().start, tested, tested, done);
            lemma_starts_joined(first + second, third, test.span_of().start, done, done, closed);
            lemma_starts_widened(
                first + second + third,
                test.span_of().start,
                closed,
                span.start,
                span.end,
            );
        },
        Statement::For { body, orelse, .. } => {
            let done = stmts_end(body@, body@.len(), span.start);
            let closed = stmts_end(orelse@, orelse@.len(), done);
            lemma_stmts_starts(body@, body@.len(), span.start, span, source, starts);
            lemma_stmts_starts(orelse@, orelse@.len(), done, span, source, starts);
            let first = assertion_calls_in_stmts(body@, body@.len(), source, starts);
            let second = assertion_calls_in_stmts(orelse@, orelse@.len(), source, starts);
            lemma_starts_joined(first, second, span.start, done, done, closed);
            lemma_starts_widened(first + second, span.start, closed, span.start, span.end);
        },
        Statement::While { body, orelse, .. } => {
            let done = stmts_end(body@, body@.len(), span.start);
            let closed = stmts_end(orelse@, orelse@.len(), done);
            lemma_stmts_starts(body@, body@.len(), span.start, span, source, starts);
            lemma_stmts_starts(orelse@, orelse@.len(), done, span, source, starts);
            let first = assertion_calls_in_stmts(body@, body@.len(), source, starts);
            let second = assertion_calls_in_stmts(orelse@, orelse@.len(), source, starts);
            lemma_starts_joined(first, second, span.start, done, done, closed);
            lemma_starts_widened(first + second, span.start, closed, span.start, span.end);
        },
        Statement::With { body, .. } => {
            let done = stmts_end(body@, body@.len(), span.start);
            lemma_stmts_starts(body@, body@.len(), span.start, span, source, starts);
            lemma_starts_widened(
                assertion_calls_in_stmts(body@, body@.len(), source, starts),
                span.start,
                done,
                span.start,
                span.end,
            );
        },
        Statement::Try { body, handlers, orelse, finalbody, .. } => {
            let done = try_handlers_from(stmt);
            let caught = try_else_from(stmt);
            let other = try_finally_from(stmt);
            let closed = stmts_end(finalbody@, finalbody@.len(), other);
            lemma_stmts_starts(body@, body@.len(), span.start, span, source, starts);
            lemma_clauses_starts(handlers@, handlers@.len(), done, span, source, starts);
            lemma_stmts_starts(orelse@, orelse@.len(), caught, span, source, starts);
            lemma_stmts_starts(finalbody@, finalbody@.len(), other, span, source, starts);
            let first = assertion_calls_in_stmts(body@, body@.len(), source, starts);
            let second = assertion_calls_in_clauses(handlers@, handlers@.len(), source, starts);
            let third = assertion_calls_in_stmts(orelse@, orelse@.len(), source, starts);
            let fourth = assertion_calls_in_stmts(finalbody@, finalbody@.len(), source, starts);
            lemma_starts_joined(first, second, span.start, done, done, caught);
            lemma_starts_joined(first + second, third, span.start, caught, caught, other);
            lemma_starts_joined(first + second + third, fourth, span.start, other, other, closed);
            lemma_starts_widened(
                first + second + third + fourth,
                span.start,
                closed,
                span.start,
                span.end,
            );
        },
        _ => {},
    }
}

/// The expected assertions of a test are the assertions of the calls of its body that
/// have the shape of one, call by call in the order of reading: there are as many
/// assertions as such calls, each assertion is the one that its call makes, with the
/// subject, matcher, negation, arguments, line and label of that call, and nothing else
/// is among them.
pub proof fn law_assertions_are_made_by_calls(
    body: Seq<Statement>,
    source: Seq<char>,
    starts: Seq<usize>,
)
    ensures
        made_by(
            expected_assertions(body, source, starts),
            assertion_calls(body, source, starts),
            source,
            starts,
        ),
{
    lemma_stmts_made(body, body.len(), source, starts);
}

/// The expected assertions of a test stand in the order of the source. Where the body
/// of the test is well placed inside the span `outer`, the calls that make the
/// assertions stand in the order in which they begin: none begins before a call that
/// stands earlier. Where the lines of that span can be numbered with 32 bits, the lines
/// of the assertions never fall from one assertion to the next either, and all of them
/// lie on the lines of that span.
pub proof fn law_assertions_in_source_order(
    body: Seq<Statement>,
    outer: Span,
    source: Seq<char>,
    starts: Seq<usize>,
)
    requires
        outer.start <= outer.end,
        stmts_placed(body, body.len(), outer.start, outer),
    ensures
        made_by(
            expected_assertions(body, source, starts),
            assertion_calls(body, source, starts),
            source,
            starts,
        ),
        starts_rise_within(assertion_calls(body, source, starts), outer.start, outer.end),
        line_at(starts, outer.end) <= u32::MAX ==> lines_rise_within(
            expected_assertions(body, source, starts),
            line_at(starts, outer.start),
            line_at(starts, outer.end),
        ),
{
    let found = expected_assertions(body, source, starts);
    let calls = assertion_calls(body, source, starts);
    lemma_stmts_made(body, body.len(), source, starts);
    lemma_stmts_starts(body, body.len(), outer.start, outer, source, starts);
    lemma_starts_widened(
        calls,
        outer.start,
        stmts_end(body, body.len(), outer.start),
        outer.start,
        outer.end,
    );
    if line_at(starts, outer.end) <= u32::MAX {
        assert forall|k: int| 0 <= k < found.len() implies (#[trigger] found[k]).line == line_at(
            starts,
            calls[k].span_of().start,
        ) && line_at(starts, outer.start) <= found[k].line <= line_at(starts, outer.end) by {
            assert(assertion_of(calls[k], source, starts) == Some(found[k]));
            lemma_line_at_monotone(starts, outer.start, calls[k].span_of().start);
            lemma_line_at_monotone(starts, calls[k].span_of().start, outer.end);
        }
        assert forall|j: int, k: int| 0 <= j <= k < found.len() implies (#[trigger] found[j]).line
            <= (#[trigger] found[k]).line by {
            assert(calls[j].span_of().start <= calls[k].span_of().start);
            lemma_line_at_monotone(starts, calls[j].span_of().start, calls[k].span_of().start);
        }
    }
}

} // verus!
