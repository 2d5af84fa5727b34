use crate::analysis::parse_source;
use crate::assertion::{expected_assertions, extract_expected_assertions};
use crate::lines::{line_at, LineTable};
use crate::marker::{
    display_name_of, extract_decorator_name, extract_docstring, find_marker, is_locally_defined,
    is_name, is_test_function, locally_defined,
};
use crate::order::{law_sorted_order, sort_paths, sorted_order};
use crate::parse::{line_starts_of, parsed_module};
use crate::paths::{module_path_of, path_from_root, path_to_module, relative_path};
use crate::syntax::Statement;
use crate::types::{TestItem, TestItemView};
use vstd::prelude::*;
use vstd::utf8::encode_utf8;

verus! {

/// The line on which the byte at `offset` stands, where its number fits 32 bits.
pub open spec fn line_if_fits(starts: Seq<usize>, offset: usize) -> Option<u32> {
    if line_at(starts, offset) <= u32::MAX {
        Some(line_at(starts, offset) as u32)
    } else {
        None
    }
}

/// The test that a function definition gives.
pub open spec fn item_of(
    stmt: Statement,
    module: Seq<char>,
    file_path: Seq<char>,
    source: Seq<char>,
    starts: Seq<usize>,
    shadowed: bool,
) -> TestItemView
    recommends
        stmt is FunctionDef,
{
    TestItemView {
        name: stmt->FunctionDef_name@,
        module,
        file_path: Some(file_path),
        line_number: line_if_fits(starts, stmt->FunctionDef_span.start),
        display_name: display_name_of(
            stmt->FunctionDef_decorators@,
            stmt->FunctionDef_body@,
            shadowed,
        ),
        expected_assertions: expected_assertions(stmt->FunctionDef_body@, source, starts),
    }
}

/// The tests among the first `n` statements of a module, in the order of definition:
/// one for each function at the top level that a decorator marks as a test.
pub open spec fn tests_among(
    body: Seq<Statement>,
    n: nat,
    module: Seq<char>,
    file_path: Seq<char>,
    source: Seq<char>,
    starts: Seq<usize>,
) -> Seq<TestItemView>
    decreases n,
{
    if n == 0 || n > body.len() {
        Seq::empty()
    } else {
        let shadowed = locally_defined("test"@, body);
        tests_among(body, (n - 1) as nat, module, file_path, source, starts) + if is_test_function(
            body[n - 1],
            shadowed,
        ) {
            seq![item_of(body[n - 1], module, file_path, source, starts, shadowed)]
        } else {
            Seq::empty()
        }
    }
}

/// The tests of a module with the statements `body`.
pub open spec fn tests_in(
    body: Seq<Statement>,
    module: Seq<char>,
    file_path: Seq<char>,
    source: Seq<char>,
    starts: Seq<usize>,
) -> Seq<TestItemView> {
    tests_among(body, body.len(), module, file_path, source, starts)
}

/// The tests of the file `file` below `root` that holds `source`. A file that could not
/// be read, that is longer than `u32::MAX` bytes, or whose text is no module has none.
pub open spec fn tests_of_file(root: Seq<char>, file: Seq<char>, source: Option<Seq<char>>) -> Seq<
    TestItemView,
> {
    match source {
        Some(text) => if encode_utf8(text).len() <= u32::MAX {
            match parsed_module(text) {
                Some(body) => tests_in(
                    body,
                    module_path_of(root, file),
                    relative_path(root, file),
                    text,
                    line_starts_of(text),
                ),
                None => Seq::empty(),
            }
        } else {
            Seq::empty()
        },
        None => Seq::empty(),
    }
}

/// The tests of a module with the statements `body`, in the order of definition.
///
/// `module` and `file_path` say where the module lives, `source` is its text and
/// `lines` the line starts of that text.
pub fn tests_in_module(
    body: &Vec<Statement>,
    module: &str,
    file_path: &str,
    source: &str,
    lines: &LineTable,
) -> (tests: Vec<TestItem>)
    ensures
        tests.deep_view() == tests_in(body@, module@, file_path@, source@, lines@),
{
    let shadowed = is_locally_defined("test", body.as_slice());
    let mut tests: Vec<TestItem> = Vec::new();
    let mut i: usize = 0;
    assert(tests.deep_view() =~= tests_among(body@, 0, module@, file_path@, source@, lines@));
    while i < body.len()
        invariant
            i <= body.len(),
            shadowed == locally_defined("test"@, body@),
            tests.deep_view() == tests_among(
                body@,
                i as nat,
                module@,
                file_path@,
                source@,
                lines@,
            ),
        decreases body.len() - i,
    {
        let ghost before = tests.deep_view();
        match &body[i] {
            Statement::FunctionDef { name, decorators, body: inner, span } => {
                match find_marker(decorators, shadowed) {
                    Some(place) => {
                        let explicit = extract_decorator_name(&decorators[place]);
                        let display_name = match explicit {
                            Some(text) => Some(text),
                            None => extract_docstring(inner.as_slice()),
                        };
                        let line = lines.line_of(span.start);
                        let line_number: Option<u32> = if line <= u32::MAX as usize {
                            Some(line as u32)
                        } else {
                            None
                        };
                        let item = TestItem {
                            name: name.clone(),
                            module: String::from_str(module),
                            file_path: Some(String::from_str(file_path)),
                            line_number,
                            display_name,
                            expected_assertions: extract_expected_assertions(inner, source, lines),
                        };
                        assert(item@ == item_of(
                            body@[i as int],
                            module@,
                            file_path@,
                            source@,
                            lines@,
                            shadowed,
                        ));
                        tests.push(item);
                        assert(tests.deep_view() =~= before.push(item@));
                    },
                    None => {},
                }
            },
            _ => {},
        }
        assert(tests.deep_view() =~= tests_among(
            body@,
            (i + 1) as nat,
            module@,
            file_path@,
            source@,
            lines@,
        ));
        i += 1;
    }
    tests
}

/// The tests of the file `file` below `root`, whose text is `source`; `None` stands for
/// a file that could not be read.
pub fn parse_tests_from_file(root: &str, file: &str, source: Option<&str>) -> (tests: Vec<TestItem>)
    ensures
        tests.deep_view() == tests_of_file(root@, file@, source.deep_view()),
{
    let text = match source {
        Some(text) => text,
        None => {
            let none: Vec<TestItem> = Vec::new();
            assert(none.deep_view() =~= Seq::empty());
            return none;
        },
    };
    match parse_source(text) {
        Ok(tree) => {
            let module = path_to_module(root, file);
            let file_path = path_from_root(root, file);
            tests_in_module(&tree.body, module.as_str(), file_path.as_str(), text, &tree.lines)
        },
        Err(_) => {
            let none: Vec<TestItem> = Vec::new();
            assert(none.deep_view() =~= Seq::empty());
            none
        },
    }
}

/// A file of the project: its path, and its text where it could be read.
#[derive(Debug)]
pub struct SourceFile {
    pub path: String,
    pub source: Option<String>,
}

/// The paths of `files`, in the order given.
pub open spec fn paths_of(files: Seq<SourceFile>) -> Seq<Seq<char>> {
    Seq::new(files.len(), |i: int| files[i].path@)
}

/// The tests of the files at the first `n` places of `order`, file after file.
pub open spec fn tests_of_files(
    root: Seq<char>,
    files: Seq<SourceFile>,
    order: Seq<usize>,
    n: nat,
) -> Seq<TestItemView>
    decreases n,
{
    if n == 0 || n > order.len() {
        Seq::empty()
    } else {
        tests_of_files(root, files, order, (n - 1) as nat) + if order[n - 1] < files.len() {
            tests_of_file(
                root,
                files[order[n - 1] as int].path@,
                files[order[n - 1] as int].source.deep_view(),
            )
        } else {
            Seq::empty()
        }
    }
}

/// The tests of a project: those of each file, the files taken in the order of their
/// paths, and within a file in the order of definition.
pub open spec fn discovered(root: Seq<char>, files: Seq<SourceFile>) -> Seq<TestItemView> {
    tests_of_files(root, files, sorted_order(paths_of(files), files.len()), files.len())
}

/// The tests of `files` below `root`: the files are taken in the order of their paths,
/// whatever the order in which they are given, and within a file the tests stand in the
/// order of definition.
#[must_use]
pub fn discover(root: &str, files: &[SourceFile]) -> (tests: Vec<TestItem>)
    ensures
        tests.deep_view() == discovered(root@, files@),
{
    let mut paths: Vec<String> = Vec::new();
    let mut p: usize = 0;
    while p < files.len()
        invariant
            p <= files.len(),
            paths.len() == p,
            forall|k: int| 0 <= k < p ==> (#[trigger] paths[k])@ == files[k].path@,
        decreases files.len() - p,
    {
        paths.push(files[p].path.clone());
        p += 1;
    }
    assert(paths.deep_view() =~= paths_of(files@));
    let order = sort_paths(&paths);
    proof {
        law_sorted_order(paths_of(files@), files@.len());
    }
    let mut tests: Vec<TestItem> = Vec::new();
    let mut i: usize = 0;
    assert(tests.deep_view() =~= tests_of_files(root@, files@, order@, 0));
    while i < order.len()
        invariant
            i <= order.len(),
            order.len() == files.len(),
            forall|k: int| 0 <= k < order.len() ==> (#[trigger] order[k]) < files.len(),
            tests.deep_view() == tests_of_files(root@, files@, order@, i as nat),
        decreases order.len() - i,
    {
        let file = &files[order[i]];
        let source: Option<&str> = match &file.source {
            Some(text) => Some(text.as_str()),
            None => None,
        };
        let mut found = parse_tests_from_file(root, file.path.as_str(), source);
        let ghost before = tests.deep_view();
        let ghost added = found.deep_view();
        tests.append(&mut found);
        assert(tests.deep_view() =~= before + added);
        i += 1;
    }
    tests
}

/// The tests of a module are its top-level functions that a decorator marks as a test,
/// one test for each, in the order of definition. Where the name `test` is not defined
/// anew at the top level, every function with a bare `test` among its decorators is one
/// of them.
pub proof fn law_tests_follow_definitions(
    body: Seq<Statement>,
    module: Seq<char>,
    file_path: Seq<char>,
    source: Seq<char>,
    starts: Seq<usize>,
)
    ensures
        tests_in(body, module, file_path, source, starts) == body.filter(
            |s: Statement| is_test_function(s, locally_defined("test"@, body)),
        ).map_values(
            |s: Statement|
                item_of(s, module, file_path, source, starts, locally_defined("test"@, body)),
        ),
        tests_in(body, module, file_path, source, starts).len() == body.filter(
            |s: Statement| is_test_function(s, locally_defined("test"@, body)),
        ).len(),
        !locally_defined("test"@, body) ==> forall|i: int, j: int|
            0 <= i < body.len() && (#[trigger] body[i]) is FunctionDef && 0 <= j
                < body[i]->FunctionDef_decorators@.len() && is_name(
                #[trigger] body[i]->FunctionDef_decorators@[j],
                "test"@,
            ) ==> is_test_function(body[i], false),
{
    lemma_tests_among_filter(body, body.len(), module, file_path, source, starts);
    assert(body.take(body.len() as int) =~= body);
}

proof fn lemma_tests_among_filter(
    body: Seq<Statement>,
    n: nat,
    module: Seq<char>,
    file_path: Seq<char>,
    source: Seq<char>,
    starts: Seq<usize>,
)
    requires
        n <= body.len(),
    ensures
        tests_among(body, n, module, file_path, source, starts) == body.take(n as int).filter(
            |s: Statement| is_test_function(s, locally_defined("test"@, body)),
        ).map_values(
            |s: Statement|
                item_of(s, module, file_path, source, starts, locally_defined("test"@, body)),
        ),
    decreases n,
{
    let shadowed = locally_defined("test"@, body);
    let marked = |s: Statement| is_test_function(s, shadowed);
    let item = |s: Statement| item_of(s, module, file_path, source, starts, shadowed);
    if n == 0 {
        assert(body.take(0).filter(marked).map_values(item) =~= Seq::<TestItemView>::empty());
    } else {
        lemma_tests_among_filter(body, (n - 1) as nat, module, file_path, source, starts);
        let before = body.take(n - 1);
        assert(body.take(n as int).drop_last() =~= before);
        assert(body.take(n as int).last() == body[n - 1]);
        reveal_with_fuel(Seq::filter, 2);
        if marked(body[n - 1]) {
            assert(body.take(n as int).filter(marked) =~= before.filter(marked).push(body[n - 1]));
            assert(before.filter(marked).push(body[n - 1]).map_values(item) =~= before.filter(
                marked,
            ).map_values(item).push(item(body[n - 1])));
            assert(tests_among(body, n, module, file_path, source, starts) =~= body.take(
                n as int,
            ).filter(marked).map_values(item));
        } else {
            assert(body.take(n as int).filter(marked) =~= before.filter(marked));
            assert(tests_among(body, n, module, file_path, source, starts) =~= body.take(
                n as int,
            ).filter(marked).map_values(item));
        }
    }
}

/// What discovery finds depends on the paths and the text alone: two passes over the
/// same file find the same tests, with the same assertions in the same order.
pub proof fn law_discovery_repeatable(
    root: Seq<char>,
    file: Seq<char>,
    source: Option<Seq<char>>,
    first: Seq<TestItemView>,
    second: Seq<TestItemView>,
)
    requires
        first == tests_of_file(root, file, source),
        second == tests_of_file(root, file, source),
    ensures
        first == second,
        forall|i: int|
            0 <= i < first.len() ==> (#[trigger] first[i]).expected_assertions
                == second[i].expected_assertions,
{
}

} // verus!
