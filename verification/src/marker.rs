use crate::strings::{chars_of, str_eq, string_of};
use crate::syntax::{Expression, KeywordArgument, Statement};
use vstd::prelude::*;

verus! {

/// Whether `expr` is the bare name `name`.
pub open spec fn is_name(expr: Expression, name: Seq<char>) -> bool {
    match expr {
        Expression::Name { id, .. } => id@ == name,
        _ => false,
    }
}

/// Whether the statement gives `name` a meaning of its own: a function or a class of
/// that name, or an assignment, plain or annotated, to that bare name.
pub open spec fn defines_name(stmt: Statement, name: Seq<char>) -> bool {
    match stmt {
        Statement::FunctionDef { name: defined, .. } => defined@ == name,
        Statement::ClassDef { name: defined, .. } => defined@ == name,
        Statement::Assign { targets, .. } => exists|i: int|
            0 <= i < targets@.len() && is_name(#[trigger] targets@[i], name),
        Statement::AnnAssign { target, .. } => is_name(target, name),
        _ => false,
    }
}

/// Whether one of the statements of `body` gives `name` a meaning of its own.
pub open spec fn locally_defined(name: Seq<char>, body: Seq<Statement>) -> bool {
    exists|i: int| 0 <= i < body.len() && defines_name(#[trigger] body[i], name)
}

/// Whether a decorator marks its function as a test.
///
/// A bare `test` is the marker unless the name is `shadowed`, that is, defined anew at
/// the top level of the file. `tryke.test` is always the marker. A call is the marker
/// where what it calls is.
pub open spec fn is_test_marker(expr: Expression, shadowed: bool) -> bool
    decreases expr,
{
    match expr {
        Expression::Attribute { value, attr, .. } => attr@ == "test"@ && is_name(
            *value,
            "tryke"@,
        ),
        Expression::Name { id, .. } => id@ == "test"@ && !shadowed,
        Expression::Call { func, .. } => is_test_marker(*func, shadowed),
        _ => false,
    }
}

/// Whether one of `decorators` marks its function as a test.
pub open spec fn has_test_marker(decorators: Seq<Expression>, shadowed: bool) -> bool {
    exists|i: int| 0 <= i < decorators.len() && is_test_marker(#[trigger] decorators[i], shadowed)
}

/// Whether the statement is a function that a decorator marks as a test.
pub open spec fn is_test_function(stmt: Statement, shadowed: bool) -> bool {
    match stmt {
        Statement::FunctionDef { decorators, .. } => has_test_marker(decorators@, shadowed),
        _ => false,
    }
}

/// The text of a string literal; no other expression has one.
pub open spec fn literal_text(expr: Expression) -> Option<Seq<char>> {
    match expr {
        Expression::StringLiteral { value, .. } => Some(value@),
        _ => None,
    }
}

/// Whether the keyword argument is `name=` with a string literal.
pub open spec fn is_name_keyword(keyword: KeywordArgument) -> bool {
    &&& keyword.arg matches Some(arg)
    &&& arg@ == "name"@
    &&& keyword.value is StringLiteral
}

/// The text of the first `name=` keyword with a string literal, from the one at `from`.
pub open spec fn named_literal(keywords: Seq<KeywordArgument>, from: nat) -> Option<Seq<char>>
    decreases keywords.len() - from,
{
    if from >= keywords.len() {
        None
    } else if is_name_keyword(keywords[from as int]) {
        literal_text(keywords[from as int].value)
    } else {
        named_literal(keywords, from + 1)
    }
}

/// The label that a call gives: the `name=` keyword with a string literal, else the
/// positional argument at `position` where it is a string literal, else none.
pub open spec fn call_label(
    args: Seq<Expression>,
    keywords: Seq<KeywordArgument>,
    position: int,
) -> Option<Seq<char>> {
    match named_literal(keywords, 0) {
        Some(text) => Some(text),
        None => if 0 <= position < args.len() {
            literal_text(args[position])
        } else {
            None
        },
    }
}

/// The display name that a decorator gives: for a call, the `name=` keyword with a
/// string literal, else the first positional argument where it is a string literal.
pub open spec fn decorator_name(expr: Expression) -> Option<Seq<char>> {
    match expr {
        Expression::Call { args, keywords, .. } => call_label(args@, keywords@, 0),
        _ => None,
    }
}

/// Whether `c` is white space: one of the characters with the Unicode property
/// `White_Space`.
pub open spec fn is_whitespace(c: char) -> bool {
    let code = c as u32;
    ||| 0x09 <= code <= 0x0d
    ||| code == 0x20
    ||| code == 0x85
    ||| code == 0xa0
    ||| code == 0x1680
    ||| 0x2000 <= code <= 0x200a
    ||| code == 0x2028
    ||| code == 0x2029
    ||| code == 0x202f
    ||| code == 0x205f
    ||| code == 0x3000
}

/// Whether `c` is white space.
pub fn char_is_whitespace(c: char) -> (white: bool)
    ensures
        white == is_whitespace(c),
{
    let code: u32 = c as u32;
    (0x09 <= code && code <= 0x0d) || code == 0x20 || code == 0x85 || code == 0xa0 || code
        == 0x1680 || (0x2000 <= code && code <= 0x200a) || code == 0x2028 || code == 0x2029
        || code == 0x202f || code == 0x205f || code == 0x3000
}

/// The place of the first line feed of `text` at or after `from`, or the length of the
/// text where there is none.
pub open spec fn line_feed_from(text: Seq<char>, from: nat) -> nat
    decreases text.len() - from,
{
    if from >= text.len() {
        text.len()
    } else if text[from as int] == '\n' {
        from
    } else {
        line_feed_from(text, from + 1)
    }
}

/// Where the first line of `text` ends: before its line feed, and before the carriage
/// return that stands right before that line feed.
pub open spec fn first_line_end(text: Seq<char>) -> nat {
    let feed = line_feed_from(text, 0);
    if feed < text.len() && feed > 0 && text[feed - 1] == '\r' {
        (feed - 1) as nat
    } else {
        feed
    }
}

/// The place of the first character at or after `from` and before `end` that is not
/// white space, or `end`.
pub open spec fn skip_white(text: Seq<char>, from: nat, end: nat) -> nat
    decreases end - from,
{
    if from >= end || from >= text.len() {
        end
    } else if is_whitespace(text[from as int]) {
        skip_white(text, from + 1, end)
    } else {
        from
    }
}

/// The place after the last character before `end` and not before `floor` that is not
/// white space, or `floor`.
pub open spec fn skip_white_back(text: Seq<char>, floor: nat, end: nat) -> nat
    decreases end,
{
    if end <= floor || end > text.len() {
        floor
    } else if is_whitespace(text[end - 1]) {
        skip_white_back(text, floor, (end - 1) as nat)
    } else {
        end
    }
}

/// The first line of `text` without the white space around it.
pub open spec fn first_line_trimmed(text: Seq<char>) -> Seq<char> {
    let end = first_line_end(text);
    let start = skip_white(text, 0, end);
    text.subrange(start as int, skip_white_back(text, start, end) as int)
}

/// The docstring of a body: where its first statement is a string literal, the first
/// line of that text without the white space around it.
pub open spec fn docstring_of(body: Seq<Statement>) -> Option<Seq<char>> {
    if body.len() > 0 {
        match body[0] {
            Statement::Expression { value, .. } => match literal_text(value) {
                Some(text) => Some(first_line_trimmed(text)),
                None => None,
            },
            _ => None,
        }
    } else {
        None
    }
}

/// Whether `expr` is the bare name `name`.
pub fn names(expr: &Expression, name: &str) -> (same: bool)
    ensures
        same == is_name(*expr, name@),
{
    match expr {
        Expression::Name { id, .. } => str_eq(id.as_str(), name),
        _ => false,
    }
}

/// Whether one of `targets` is the bare name `name`.
fn any_names(targets: &Vec<Expression>, name: &str) -> (found: bool)
    ensures
        found == exists|k: int| 0 <= k < targets@.len() && is_name(#[trigger] targets@[k], name@),
{
    let mut j: usize = 0;
    while j < targets.len()
        invariant
            j <= targets.len(),
            forall|k: int| 0 <= k < j ==> !is_name(#[trigger] targets@[k], name@),
        decreases targets.len() - j,
    {
        if names(&targets[j], name) {
            return true;
        }
        j += 1;
    }
    false
}

/// Whether one of the statements of `body` gives `name` a meaning of its own.
pub fn is_locally_defined(name: &str, body: &[Statement]) -> (defined: bool)
    ensures
        defined == locally_defined(name@, body@),
{
    let mut i: usize = 0;
    while i < body.len()
        invariant
            i <= body.len(),
            forall|k: int| 0 <= k < i ==> !defines_name(#[trigger] body@[k], name@),
        decreases body.len() - i,
    {
        let found = match &body[i] {
            Statement::FunctionDef { name: defined, .. } => str_eq(defined.as_str(), name),
            Statement::ClassDef { name: defined, .. } => str_eq(defined.as_str(), name),
            Statement::Assign { targets, .. } => any_names(targets, name),
            Statement::AnnAssign { target, .. } => names(target, name),
            _ => false,
        };
        if found {
            return true;
        }
        i += 1;
    }
    false
}

/// Whether a decorator marks its function as a test; `shadowed` says whether the name
/// `test` is defined anew at the top level of the file.
pub fn is_tryke_test_decorator(expr: &Expression, shadowed: bool) -> (marker: bool)
    ensures
        marker == is_test_marker(*expr, shadowed),
    decreases *expr,
{
    match expr {
        Expression::Attribute { value, attr, .. } => str_eq(attr.as_str(), "test") && names(
            value,
            "tryke",
        ),
        Expression::Name { id, .. } => str_eq(id.as_str(), "test") && !shadowed,
        Expression::Call { func, .. } => is_tryke_test_decorator(func, shadowed),
        _ => false,
    }
}

/// The text of the expression where it is a string literal.
pub fn literal_of(expr: &Expression) -> (text: Option<String>)
    ensures
        text.deep_view() == literal_text(*expr),
{
    match expr {
        Expression::StringLiteral { value, .. } => Some(value.clone()),
        _ => None,
    }
}

/// The label that a call gives: the `name=` keyword with a string literal, else the
/// positional argument at `position` where it is a string literal.
pub fn label_of_call(
    args: &Vec<Expression>,
    keywords: &Vec<KeywordArgument>,
    position: usize,
) -> (label: Option<String>)
    ensures
        label.deep_view() == call_label(args@, keywords@, position as int),
{
    let mut i: usize = 0;
    while i < keywords.len()
        invariant
            i <= keywords.len(),
            named_literal(keywords@, 0) == named_literal(keywords@, i as nat),
        decreases keywords.len() - i,
    {
        let keyword = &keywords[i];
        let named = match &keyword.arg {
            Some(arg) => str_eq(arg.as_str(), "name"),
            None => false,
        };
        if named {
            match &keyword.value {
                Expression::StringLiteral { value, .. } => {
                    return Some(value.clone());
                },
                _ => {},
            }
        }
        i += 1;
    }
    if position < args.len() {
        literal_of(&args[position])
    } else {
        None
    }
}

/// The display name that a decorator gives.
pub fn extract_decorator_name(expr: &Expression) -> (name: Option<String>)
    ensures
        name.deep_view() == decorator_name(*expr),
{
    match expr {
        Expression::Call { args, keywords, .. } => label_of_call(args, keywords, 0),
        _ => None,
    }
}

/// The first line of `text` without the white space around it.
pub fn trim_first_line(text: &str) -> (line: String)
    ensures
        line@ == first_line_trimmed(text@),
{
    let chars = chars_of(text);
    let mut feed: usize = 0;
    while feed < chars.len() && chars[feed] != '\n'
        invariant
            feed <= chars.len(),
            line_feed_from(chars@, 0) == line_feed_from(chars@, feed as nat),
        decreases chars.len() - feed,
    {
        feed += 1;
    }
    let end: usize = if feed < chars.len() && feed > 0 && chars[feed - 1] == '\r' {
        feed - 1
    } else {
        feed
    };
    assert(end == first_line_end(chars@));
    let mut start: usize = 0;
    while start < end && char_is_whitespace(chars[start])
        invariant
            start <= end <= chars.len(),
            skip_white(chars@, 0, end as nat) == skip_white(chars@, start as nat, end as nat),
        decreases end - start,
    {
        start += 1;
    }
    let mut stop: usize = end;
    while stop > start && char_is_whitespace(chars[stop - 1])
        invariant
            start <= stop <= end <= chars.len(),
            skip_white_back(chars@, start as nat, end as nat) == skip_white_back(
                chars@,
                start as nat,
                stop as nat,
            ),
        decreases stop,
    {
        stop -= 1;
    }
    string_of(&chars, start, stop)
}

/// The docstring of a body: where its first statement is a string literal, the first
/// line of that text without the white space around it.
pub fn extract_docstring(body: &[Statement]) -> (doc: Option<String>)
    ensures
        doc.deep_view() == docstring_of(body@),
{
    if body.len() == 0 {
        return None;
    }
    match &body[0] {
        Statement::Expression { value, .. } => match value {
            Expression::StringLiteral { value: text, .. } => Some(trim_first_line(text.as_str())),
            _ => None,
        },
        _ => None,
    }
}

/// The first of the decorators from the one at `from` that marks a test.
pub open spec fn first_marker(decorators: Seq<Expression>, from: nat, shadowed: bool) -> Option<
    Expression,
>
    decreases decorators.len() - from,
{
    if from >= decorators.len() {
        None
    } else if is_test_marker(decorators[from as int], shadowed) {
        Some(decorators[from as int])
    } else {
        first_marker(decorators, from + 1, shadowed)
    }
}

/// The display name of a test: the one that its first marker gives, else its
/// docstring, else none.
pub open spec fn display_name_of(
    decorators: Seq<Expression>,
    body: Seq<Statement>,
    shadowed: bool,
) -> Option<Seq<char>> {
    let explicit = match first_marker(decorators, 0, shadowed) {
        Some(marker) => decorator_name(marker),
        None => None,
    };
    match explicit {
        Some(name) => Some(name),
        None => docstring_of(body),
    }
}

/// The first of `decorators` that marks a test, by its place.
pub fn find_marker(decorators: &Vec<Expression>, shadowed: bool) -> (place: Option<usize>)
    ensures
        match place {
            Some(i) => i < decorators.len() && first_marker(decorators@, 0, shadowed) == Some(
                decorators@[i as int],
            ) && is_test_marker(decorators@[i as int], shadowed),
            None => first_marker(decorators@, 0, shadowed) is None && !has_test_marker(
                decorators@,
                shadowed,
            ),
        },
{
    let mut i: usize = 0;
    while i < decorators.len()
        invariant
            i <= decorators.len(),
            first_marker(decorators@, 0, shadowed) == first_marker(decorators@, i as nat, shadowed),
            forall|k: int| 0 <= k < i ==> !is_test_marker(#[trigger] decorators@[k], shadowed),
        decreases decorators.len() - i,
    {
        if is_tryke_test_decorator(&decorators[i], shadowed) {
            return Some(i);
        }
        i += 1;
    }
    None
}

/// A bare `test` marks a test exactly where the name is not shadowed, and so does a
/// call of it; `tryke.test` and a call of it mark a test whether the name is shadowed
/// or not.
pub proof fn law_marker_and_shadowing(expr: Expression, shadowed: bool)
    ensures
        is_name(expr, "test"@) ==> (is_test_marker(expr, shadowed) <==> !shadowed),
        (expr matches Expression::Call { func, .. } && is_name(*func, "test"@)) ==> (is_test_marker(
            expr,
            shadowed,
        ) <==> !shadowed),
        (expr matches Expression::Attribute { value, attr, .. } && attr@ == "test"@ && is_name(
            *value,
            "tryke"@,
        )) ==> is_test_marker(expr, shadowed),
        (expr matches Expression::Call { func, .. } && (*func matches Expression::Attribute {
            value,
            attr,
            ..
        } && attr@ == "test"@ && is_name(*value, "tryke"@))) ==> is_test_marker(expr, shadowed),
{
    reveal_with_fuel(is_test_marker, 3);
}

/// The display name of a test follows a fixed order of precedence: the `name=` keyword
/// of its marker, then the first positional argument of the marker, then the
/// docstring; a test with none of them has no display name.
pub proof fn law_display_name_precedence(
    marker: Expression,
    decorators: Seq<Expression>,
    body: Seq<Statement>,
    shadowed: bool,
)
    requires
        first_marker(decorators, 0, shadowed) == Some(marker),
    ensures
        marker matches Expression::Call { args, keywords, .. } ==> {
            &&& named_literal(keywords@, 0) is Some ==> display_name_of(
                decorators,
                body,
                shadowed,
            ) == named_literal(keywords@, 0)
            &&& named_literal(keywords@, 0) is None && args@.len() > 0 && literal_text(args@[0])
                is Some ==> display_name_of(decorators, body, shadowed) == literal_text(args@[0])
        },
        decorator_name(marker) is None ==> display_name_of(decorators, body, shadowed)
            == docstring_of(body),
        decorator_name(marker) is None && docstring_of(body) is None ==> display_name_of(
            decorators,
            body,
            shadowed,
        ) is None,
{
}

} // verus!
