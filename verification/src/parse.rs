use crate::syntax::{Clause, Expression, KeywordArgument, Span, Statement};
use ruff_python_ast::{Expr, Stmt};
use ruff_source_file::LineIndex;
use ruff_text_size::Ranged;
use vstd::prelude::*;
use vstd::utf8::encode_utf8;

verus! {

/// A statement of the parser's own syntax tree.
#[verifier::external_type_specification]
#[verifier::external_body]
pub struct ExParsedStmt(ruff_python_ast::Stmt);

/// An expression of the parser's own syntax tree.
#[verifier::external_type_specification]
#[verifier::external_body]
pub struct ExParsedExpr(ruff_python_ast::Expr);

/// A keyword argument of the parser's own syntax tree.
#[verifier::external_type_specification]
#[verifier::external_body]
pub struct ExParsedKeyword(ruff_python_ast::Keyword);

/// A function definition of the parser's own syntax tree.
#[verifier::external_type_specification]
#[verifier::external_body]
pub struct ExParsedFunction(ruff_python_ast::StmtFunctionDef);

/// An `elif` or `else` clause of the parser's own syntax tree.
#[verifier::external_type_specification]
#[verifier::external_body]
pub struct ExParsedClause(ruff_python_ast::ElifElseClause);

/// An `except` clause of the parser's own syntax tree.
#[verifier::external_type_specification]
#[verifier::external_body]
pub struct ExParsedHandler(ruff_python_ast::ExceptHandler);

/// A `try` statement of the parser's own syntax tree.
#[verifier::external_type_specification]
#[verifier::external_body]
pub struct ExParsedTry(ruff_python_ast::StmtTry);

/// A range of the source text, as the parser gives it.
#[verifier::external_type_specification]
#[verifier::external_body]
pub struct ExTextRange(ruff_text_size::TextRange);

/// The statements at the top level of the module that `source` holds, as
/// `ruff_python_parser::parse_module` reads it; `None` where it is no module.
pub uninterp spec fn parsed_module(source: Seq<char>) -> Option<Seq<Statement>>;

/// Whether a line ends with the byte at `i`: a line feed, or a carriage return that no
/// line feed follows.
pub open spec fn ends_line(bytes: Seq<u8>, i: int) -> bool {
    bytes[i] == 0x0a || (bytes[i] == 0x0d && !(i + 1 < bytes.len() && bytes[i + 1] == 0x0a))
}

/// The offsets at which lines begin at or before the byte at `n`: the offset 0, and the
/// offset behind each byte that ends a line.
pub open spec fn line_starts_upto(bytes: Seq<u8>, n: nat) -> Seq<usize>
    decreases n,
{
    if n == 0 || n > bytes.len() {
        seq![0usize]
    } else if ends_line(bytes, n - 1) {
        line_starts_upto(bytes, (n - 1) as nat).push(n as usize)
    } else {
        line_starts_upto(bytes, (n - 1) as nat)
    }
}

/// The byte offsets at which the lines of `source` begin.
pub open spec fn line_starts_of(source: Seq<char>) -> Seq<usize> {
    line_starts_upto(encode_utf8(source), encode_utf8(source).len())
}

/// Line starts rise, begin with 0 and do not pass the byte they were read up to.
pub proof fn lemma_line_starts_rise(bytes: Seq<u8>, n: nat)
    requires
        n <= bytes.len(),
        n <= usize::MAX,
    ensures
        line_starts_upto(bytes, n).len() > 0,
        line_starts_upto(bytes, n)[0] == 0,
        forall|k: int| 0 <= k < line_starts_upto(bytes, n).len() ==> line_starts_upto(bytes, n)[k] <= n,
        forall|i: int, j: int|
            0 <= i < j < line_starts_upto(bytes, n).len() ==> line_starts_upto(bytes, n)[i]
                < line_starts_upto(bytes, n)[j],
    decreases n,
{
    if n > 0 {
        lemma_line_starts_rise(bytes, (n - 1) as nat);
    }
}

/// Takes the two ends out of a `TextRange`.
#[verifier::external_body]
fn lower_span(range: ruff_text_size::TextRange) -> Span {
    Span { start: range.start().to_usize(), end: range.end().to_usize() }
}

/// Carries a keyword argument over: its name where it has one, and its value.
#[verifier::external_body]
fn lower_keyword(keyword: &ruff_python_ast::Keyword) -> KeywordArgument {
    let arg = keyword.arg.as_ref().map(|name| name.to_string());
    KeywordArgument { arg, value: lower_expr(&keyword.value) }
}

/// Carries a list of expressions over, one by one.
#[verifier::external_body]
fn lower_exprs(exprs: &[ruff_python_ast::Expr]) -> Vec<Expression> {
    exprs.iter().map(lower_expr).collect()
}

/// Carries an expression over: names, attributes, calls and string literals with what
/// they hold, every other expression as `Other`, each with its range.
#[verifier::external_body]
fn lower_expr(expr: &ruff_python_ast::Expr) -> Expression {
    let span = lower_span(expr.range());
    match expr {
        Expr::Name(n) => Expression::Name { id: n.id.to_string(), span },
        Expr::Attribute(a) => {
            Expression::Attribute { value: Box::new(lower_expr(&a.value)), attr: a.attr.to_string(), span }
        },
        Expr::Call(c) => {
            let keywords = c.arguments.keywords.iter().map(lower_keyword).collect();
            Expression::Call { func: Box::new(lower_expr(&c.func)), args: lower_exprs(&c.arguments.args), keywords, span }
        },
        Expr::StringLiteral(s) => Expression::StringLiteral { value: s.value.to_str().to_owned(), span },
        _ => Expression::Other { span },
    }
}

/// Carries a list of statements over, one by one.
#[verifier::external_body]
fn lower_body(body: &[ruff_python_ast::Stmt]) -> Vec<Statement> {
    body.iter().map(lower_stmt).collect()
}

/// Carries an `elif` or `else` clause over: its test where it has one, its body and its
/// range.
#[verifier::external_body]
fn lower_clause(clause: &ruff_python_ast::ElifElseClause) -> Clause {
    let test = clause.test.as_ref().map(lower_expr);
    Clause { test, body: lower_body(&clause.body), span: lower_span(clause.range) }
}

/// Carries an `except` clause over: its body and its range.
#[verifier::external_body]
fn lower_handler(handler: &ruff_python_ast::ExceptHandler) -> Clause {
    let ruff_python_ast::ExceptHandler::ExceptHandler(clause) = handler;
    Clause { test: None, body: lower_body(&clause.body), span: lower_span(clause.range) }
}

/// Carries a `try` statement over: its body, its `except` clauses, its `else` block, its
/// `finally` block and its range.
#[verifier::external_body]
fn lower_try(stmt: &ruff_python_ast::StmtTry) -> Statement {
    let handlers = stmt.handlers.iter().map(lower_handler).collect();
    let (body, orelse) = (lower_body(&stmt.body), lower_body(&stmt.orelse));
    let finalbody = lower_body(&stmt.finalbody);
    Statement::Try { body, handlers, orelse, finalbody, span: lower_span(stmt.range) }
}

/// Carries a function definition over: its name, the expressions of its decorators, its
/// body and its range.
#[verifier::external_body]
fn lower_function(def: &ruff_python_ast::StmtFunctionDef) -> Statement {
    let decorators = def.decorator_list.iter().map(|d| lower_expr(&d.expression)).collect();
    let body = lower_body(&def.body);
    Statement::FunctionDef { name: def.name.to_string(), decorators, body, span: lower_span(def.range) }
}

/// Carries a statement over with its range: definitions, assignments, expression
/// statements and returns here, the rest through `lower_block`.
#[verifier::external_body]
fn lower_stmt(stmt: &ruff_python_ast::Stmt) -> Statement {
    let span = lower_span(stmt.range());
    match stmt {
        Stmt::FunctionDef(f) => lower_function(f),
        Stmt::ClassDef(c) => Statement::ClassDef { name: c.name.to_string(), span },
        Stmt::Assign(a) => Statement::Assign { targets: lower_exprs(&a.targets), span },
        Stmt::AnnAssign(a) => Statement::AnnAssign { target: lower_expr(&a.target), span },
        Stmt::Expr(e) => Statement::Expression { value: lower_expr(&e.value), span },
        Stmt::Return(r) => Statement::Return { value: r.value.as_deref().map(lower_expr), span },
        other => lower_block(other),
    }
}

/// Carries a statement with blocks over with its range: conditionals, `with` and `try`
/// with the blocks that are read, the rest through `lower_loop`.
#[verifier::external_body]
fn lower_block(stmt: &ruff_python_ast::Stmt) -> Statement {
    let span = lower_span(stmt.range());
    match stmt {
        Stmt::If(s) => {
            let clauses = s.elif_else_clauses.iter().map(lower_clause).collect();
            Statement::If { test: lower_expr(&s.test), body: lower_body(&s.body), clauses, span }
        },
        Stmt::With(s) => Statement::With { body: lower_body(&s.body), span },
        Stmt::Try(s) => lower_try(s),
        other => lower_loop(other),
    }
}

/// Carries a loop over with its body, its `else` block and its range, every other
/// statement as `Other` with its range.
#[verifier::external_body]
fn lower_loop(stmt: &ruff_python_ast::Stmt) -> Statement {
    let span = lower_span(stmt.range());
    match stmt {
        Stmt::For(s) => Statement::For { body: lower_body(&s.body), orelse: lower_body(&s.orelse), span },
        Stmt::While(s) => Statement::While { body: lower_body(&s.body), orelse: lower_body(&s.orelse), span },
        _ => Statement::Other { span },
    }
}

/// Calls `ruff_python_parser::parse_module` and carries the body of the module over.
/// The parser reads offsets as 32-bit numbers, so the source is required to be shorter
/// than that. What it returns depends on the source text alone.
#[verifier::external_body]
pub(crate) fn parse_module(source: &str) -> (body: Option<Vec<Statement>>)
    requires
        encode_utf8(source@).len() <= u32::MAX,
    ensures
        match body {
            Some(stmts) => parsed_module(source@) == Some(stmts@),
            None => parsed_module(source@) is None,
        },
{
    match ruff_python_parser::parse_module(source) {
        Ok(parsed) => Some(lower_body(&parsed.syntax().body)),
        Err(_) => None,
    }
}

/// Builds a `ruff_source_file::LineIndex` with `from_source_text` and takes out its
/// `line_starts`. The index begins with the offset 0 and adds the offset behind each
/// line feed and behind each carriage return that no line feed follows, as it meets
/// them; it refuses a source of more than `u32::MAX` bytes.
#[verifier::external_body]
pub(crate) fn line_starts(source: &str) -> (starts: Vec<usize>)
    requires
        encode_utf8(source@).len() <= u32::MAX,
    ensures
        starts@ == line_starts_of(source@),
{
    LineIndex::from_source_text(source).line_starts().iter().map(|start| start.to_usize()).collect()
}

} // verus!
