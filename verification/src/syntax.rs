use vstd::prelude::*;

verus! {

/// Where a piece of syntax stands in the source text: from the byte at `start` up to,
/// and without, the byte at `end`.
#[derive(Debug, Clone, Copy, PartialEq, Eq, Structural)]
pub struct Span {
    pub start: usize,
    pub end: usize,
}

/// An expression, as far as discovery reads it.
#[allow(inconsistent_fields)]
#[derive(Debug)]
pub enum Expression {
    /// A bare name.
    Name { id: String, span: Span },
    /// An attribute of a value: `value.attr`.
    Attribute { value: Box<Expression>, attr: String, span: Span },
    /// A call: `func(args, keywords)`.
    Call { func: Box<Expression>, args: Vec<Expression>, keywords: Vec<KeywordArgument>, span: Span },
    /// A string literal with the text it denotes.
    StringLiteral { value: String, span: Span },
    /// Any other expression.
    Other { span: Span },
}

/// An argument given by keyword. A `**` argument has no name.
#[derive(Debug)]
pub struct KeywordArgument {
    pub arg: Option<String>,
    pub value: Expression,
}

/// A clause of a conditional or of a `try`: an `elif` clause with its test, an `else`
/// clause without one, or an `except` clause, whose header is not read.
#[derive(Debug)]
pub struct Clause {
    pub test: Option<Expression>,
    pub body: Vec<Statement>,
    pub span: Span,
}

/// A statement, as far as discovery reads it.
#[allow(inconsistent_fields)]
#[derive(Debug)]
pub enum Statement {
    /// A function definition with the expressions of its decorators.
    FunctionDef { name: String, decorators: Vec<Expression>, body: Vec<Statement>, span: Span },
    /// A class definition.
    ClassDef { name: String, span: Span },
    /// An assignment to one or more targets.
    Assign { targets: Vec<Expression>, span: Span },
    /// An annotated assignment.
    AnnAssign { target: Expression, span: Span },
    /// An expression that stands as a statement.
    Expression { value: Expression, span: Span },
    /// A `return`, with the value where it has one.
    Return { value: Option<Expression>, span: Span },
    /// A conditional with its `elif` and `else` clauses.
    If { test: Expression, body: Vec<Statement>, clauses: Vec<Clause>, span: Span },
    /// A `for` loop.
    For { body: Vec<Statement>, orelse: Vec<Statement>, span: Span },
    /// A `while` loop.
    While { body: Vec<Statement>, orelse: Vec<Statement>, span: Span },
    /// A `with` block.
    With { body: Vec<Statement>, span: Span },
    /// A `try` block with its `except` clauses in order, its `else` block and its
    /// `finally` block.
    Try {
        body: Vec<Statement>,
        handlers: Vec<Clause>,
        orelse: Vec<Statement>,
        finalbody: Vec<Statement>,
        span: Span,
    },
    /// Any other statement.
    Other { span: Span },
}

impl Statement {
    /// Where the statement stands in the source.
    pub open spec fn span_of(self) -> Span {
        match self {
            Statement::FunctionDef { span, .. } => span,
            Statement::ClassDef { span, .. } => span,
            Statement::Assign { span, .. } => span,
            Statement::AnnAssign { span, .. } => span,
            Statement::Expression { span, .. } => span,
            Statement::Return { span, .. } => span,
            Statement::If { span, .. } => span,
            Statement::For { span, .. } => span,
            Statement::While { span, .. } => span,
            Statement::With { span, .. } => span,
            Statement::Try { span, .. } => span,
            Statement::Other { span } => span,
        }
    }

    /// Where the statement stands in the source.
    pub fn span(&self) -> (span: Span)
        ensures
            span == self.span_of(),
    {
        match self {
            Statement::FunctionDef { span, .. } => *span,
            Statement::ClassDef { span, .. } => *span,
            Statement::Assign { span, .. } => *span,
            Statement::AnnAssign { span, .. } => *span,
            Statement::Expression { span, .. } => *span,
            Statement::Return { span, .. } => *span,
            Statement::If { span, .. } => *span,
            Statement::For { span, .. } => *span,
            Statement::While { span, .. } => *span,
            Statement::With { span, .. } => *span,
            Statement::Try { span, .. } => *span,
            Statement::Other { span } => *span,
        }
    }
}

impl Expression {
    /// Where the expression stands in the source.
    pub open spec fn span_of(self) -> Span {
        match self {
            Expression::Name { span, .. } => span,
            Expression::Attribute { span, .. } => span,
            Expression::Call { span, .. } => span,
            Expression::StringLiteral { span, .. } => span,
            Expression::Other { span } => span,
        }
    }

    /// Where the expression stands in the source.
    pub fn span(&self) -> (span: Span)
        ensures
            span == self.span_of(),
    {
        match self {
            Expression::Name { span, .. } => *span,
            Expression::Attribute { span, .. } => *span,
            Expression::Call { span, .. } => *span,
            Expression::StringLiteral { span, .. } => *span,
            Expression::Other { span } => *span,
        }
    }
}

} // verus!
