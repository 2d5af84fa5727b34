use crate::strings::{chars_of, join, lemma_join_step, string_of};
use vstd::prelude::*;

verus! {

/// The piece of the path that is being read after its first `n` characters: what stands
/// after the last separator among them.
pub open spec fn current_piece(path: Seq<char>, n: nat) -> Seq<char>
    decreases n,
{
    if n == 0 || n > path.len() || path[n - 1] == '/' {
        Seq::empty()
    } else {
        current_piece(path, (n - 1) as nat).push(path[n - 1])
    }
}

/// Whether no separator stands among the first `n` characters of the path.
pub open spec fn in_first_piece(path: Seq<char>, n: nat) -> bool
    decreases n,
{
    if n == 0 || n > path.len() {
        true
    } else {
        path[n - 1] != '/' && in_first_piece(path, (n - 1) as nat)
    }
}

/// What a piece between two separators adds to the components: nothing where it is
/// empty, nothing where it is `.` and not the first piece, and itself otherwise.
pub open spec fn kept_piece(piece: Seq<char>, first: bool) -> Seq<Seq<char>> {
    if piece.len() == 0 || (piece == seq!['.'] && !first) {
        Seq::empty()
    } else {
        seq![piece]
    }
}

/// The components that the pieces closed by a separator among the first `n` characters
/// give.
pub open spec fn closed_components(path: Seq<char>, n: nat) -> Seq<Seq<char>>
    decreases n,
{
    if n == 0 || n > path.len() {
        Seq::empty()
    } else if path[n - 1] == '/' {
        closed_components(path, (n - 1) as nat) + kept_piece(
            current_piece(path, (n - 1) as nat),
            in_first_piece(path, (n - 1) as nat),
        )
    } else {
        closed_components(path, (n - 1) as nat)
    }
}

/// The components of a path whose separator is `/`.
///
/// A path that begins with a separator has the root `/` as its first component. Then
/// come the pieces between the separators, without the empty ones and without each `.`
/// that is not the first piece of a path without root.
pub open spec fn components(path: Seq<char>) -> Seq<Seq<char>> {
    (if path.len() > 0 && path[0] == '/' {
        seq![seq!['/']]
    } else {
        Seq::empty()
    }) + closed_components(path, path.len()) + kept_piece(
        current_piece(path, path.len()),
        in_first_piece(path, path.len()),
    )
}

/// The place of the last dot among the first `n` characters of a piece.
pub open spec fn last_dot(piece: Seq<char>, n: nat) -> Option<nat>
    decreases n,
{
    if n == 0 || n > piece.len() {
        None
    } else if piece[n - 1] == '.' {
        Some((n - 1) as nat)
    } else {
        last_dot(piece, (n - 1) as nat)
    }
}

/// The name of a file without its extension: what stands before the last dot, where
/// that dot is not the first character. `..` has no extension.
pub open spec fn stem(piece: Seq<char>) -> Seq<char> {
    if piece == seq!['.', '.'] {
        piece
    } else {
        match last_dot(piece, piece.len()) {
            Some(dot) => if dot > 0 {
                piece.take(dot as int)
            } else {
                piece
            },
            None => piece,
        }
    }
}

/// The extension of the name of a file: what stands after the last dot, where that dot
/// is not the first character.
pub open spec fn extension(piece: Seq<char>) -> Option<Seq<char>> {
    if piece == seq!['.', '.'] {
        None
    } else {
        match last_dot(piece, piece.len()) {
            Some(dot) => if dot > 0 {
                Some(piece.skip(dot as int + 1))
            } else {
                None
            },
            None => None,
        }
    }
}

/// Whether `prefix` stands at the beginning of `whole`, component by component.
pub open spec fn begins_with(whole: Seq<Seq<char>>, prefix: Seq<Seq<char>>) -> bool {
    prefix.len() <= whole.len() && whole.take(prefix.len() as int) == prefix
}

/// The components of `file` below `root`; where the file does not lie below the root,
/// all the components of the file.
pub open spec fn relative_components(root: Seq<char>, file: Seq<char>) -> Seq<Seq<char>> {
    if begins_with(components(file), components(root)) {
        components(file).skip(components(root).len() as int)
    } else {
        components(file)
    }
}

/// The path of `file` as seen from `root`: its components below the root with `/`
/// between them; where the file does not lie below the root, the file as it is.
pub open spec fn relative_path(root: Seq<char>, file: Seq<char>) -> Seq<char> {
    if begins_with(components(file), components(root)) {
        join(relative_components(root, file), seq!['/'])
    } else {
        file
    }
}

/// The name of a file with its extension taken off. Where only a dot would be left, the
/// dot of the extension stays, so that `..py` becomes `..`.
pub open spec fn strip_extension(piece: Seq<char>) -> Seq<char> {
    if stem(piece) == seq!['.'] && piece.len() > 1 {
        seq!['.', '.']
    } else {
        stem(piece)
    }
}

/// The components with the extension taken off the last one.
pub open spec fn without_extension(parts: Seq<Seq<char>>) -> Seq<Seq<char>> {
    if parts.len() == 0 {
        parts
    } else {
        parts.drop_last().push(strip_extension(parts.last()))
    }
}

/// The dotted module path of `file` as seen from `root`: the components of the file
/// below the root, the extension taken off, with dots in place of the separators.
pub open spec fn module_path_of(root: Seq<char>, file: Seq<char>) -> Seq<char> {
    join(without_extension(relative_components(root, file)), seq!['.'])
}

/// Whether the path names a file with the extension `py`.
pub open spec fn is_python_path(path: Seq<char>) -> bool {
    let parts = components(path);
    parts.len() > 0 && parts.last() != seq!['/'] && extension(parts.last()) == Some("py"@)
}

/// The components of `path`.
pub fn path_components(path: &str) -> (parts: Vec<String>)
    ensures
        parts.deep_view() == components(path@),
{
    let chars = chars_of(path);
    let mut parts: Vec<String> = Vec::new();
    if chars.len() > 0 && chars[0] == '/' {
        parts.push(String::from_str("/"));
        proof {
            reveal_strlit("/");
            assert("/"@ =~= seq!['/']);
        }
    }
    let ghost root = parts.deep_view();
    assert(root =~= if path@.len() > 0 && path@[0] == '/' {
        seq![seq!['/']]
    } else {
        Seq::empty()
    });
    let mut current: Vec<char> = Vec::new();
    let mut first = true;
    let mut i: usize = 0;
    assert(parts.deep_view() =~= root + closed_components(chars@, 0));
    while i < chars.len()
        invariant
            i <= chars.len(),
            current@ == current_piece(chars@, i as nat),
            first == in_first_piece(chars@, i as nat),
            parts.deep_view() == root + closed_components(chars@, i as nat),
        decreases chars.len() - i,
    {
        if chars[i] == '/' {
            let keep = current.len() > 0 && !(current.len() == 1 && current[0] == '.' && !first);
            assert(keep == (kept_piece(current@, first).len() > 0)) by {
                if current.len() == 1 && current[0] == '.' {
                    assert(current@ =~= seq!['.']);
                }
            }
            if keep {
                let piece = string_of(&current, 0, current.len());
                assert(piece@ =~= current@);
                let ghost closed = parts.deep_view();
                parts.push(piece);
                assert(parts.deep_view() =~= closed.push(current@));
                assert(kept_piece(current@, first) =~= seq![current@]);
                assert(parts.deep_view() =~= root + closed_components(chars@, (i + 1) as nat));
            } else {
                assert(parts.deep_view() =~= root + closed_components(chars@, (i + 1) as nat));
            }
            current = Vec::new();
            first = false;
        } else {
            current.push(chars[i]);
        }
        i += 1;
    }
    let keep = current.len() > 0 && !(current.len() == 1 && current[0] == '.' && !first);
    assert(keep == (kept_piece(current@, first).len() > 0)) by {
        if current.len() == 1 && current[0] == '.' {
            assert(current@ =~= seq!['.']);
        }
    }
    if keep {
        let piece = string_of(&current, 0, current.len());
        assert(piece@ =~= current@);
        let ghost closed = parts.deep_view();
        parts.push(piece);
        assert(parts.deep_view() =~= closed.push(current@));
        assert(kept_piece(current@, first) =~= seq![current@]);
        assert(parts.deep_view() =~= components(path@));
    } else {
        assert(parts.deep_view() =~= components(path@));
    }
    parts
}

/// Whether `prefix` stands at the beginning of `whole`, component by component.
pub fn starts_with_components(whole: &Vec<String>, prefix: &Vec<String>) -> (begins: bool)
    ensures
        begins == begins_with(whole.deep_view(), prefix.deep_view()),
{
    if prefix.len() > whole.len() {
        return false;
    }
    let mut i: usize = 0;
    while i < prefix.len()
        invariant
            i <= prefix.len() <= whole.len(),
            forall|k: int| 0 <= k < i ==> (#[trigger] whole.deep_view()[k]) == prefix.deep_view()[k],
        decreases prefix.len() - i,
    {
        if whole[i] != prefix[i] {
            assert(whole.deep_view().take(prefix.len() as int)[i as int] != prefix.deep_view()[i as int]);
            return false;
        }
        i += 1;
    }
    assert(whole.deep_view().take(prefix.len() as int) =~= prefix.deep_view());
    true
}

/// The name of a file without its extension.
pub fn file_stem(piece: &str) -> (name: String)
    ensures
        name@ == stem(piece@),
{
    let chars = chars_of(piece);
    if chars.len() == 2 && chars[0] == '.' && chars[1] == '.' {
        assert(chars@ =~= seq!['.', '.']);
        return string_of(&chars, 0, 2);
    }
    let mut n: usize = chars.len();
    while n > 0 && chars[n - 1] != '.'
        invariant
            n <= chars.len(),
            last_dot(chars@, chars@.len()) == last_dot(chars@, n as nat),
        decreases n,
    {
        n -= 1;
    }
    if n > 1 {
        let name = string_of(&chars, 0, n - 1);
        assert(name@ =~= chars@.take(n - 1));
        name
    } else {
        let name = string_of(&chars, 0, chars.len());
        assert(name@ =~= chars@);
        name
    }
}

/// The name of a file with its extension taken off.
pub fn file_without_extension(piece: &str) -> (name: String)
    ensures
        name@ == strip_extension(piece@),
{
    let name = file_stem(piece);
    let length = chars_of(piece).len();
    proof {
        reveal_strlit(".");
        reveal_strlit("..");
        assert("."@ =~= seq!['.']);
        assert(".."@ =~= seq!['.', '.']);
    }
    if name == String::from_str(".") && length > 1 {
        String::from_str("..")
    } else {
        name
    }
}

/// The extension of the name of a file, where it has one.
pub fn file_extension(piece: &str) -> (ext: Option<String>)
    ensures
        ext.deep_view() == extension(piece@),
{
    let chars = chars_of(piece);
    if chars.len() == 2 && chars[0] == '.' && chars[1] == '.' {
        assert(chars@ =~= seq!['.', '.']);
        return None;
    }
    let mut n: usize = chars.len();
    while n > 0 && chars[n - 1] != '.'
        invariant
            n <= chars.len(),
            last_dot(chars@, chars@.len()) == last_dot(chars@, n as nat),
        decreases n,
    {
        n -= 1;
    }
    if n > 1 {
        let ext = string_of(&chars, n, chars.len());
        assert(ext@ =~= chars@.skip(n as int));
        Some(ext)
    } else {
        None
    }
}

/// Whether the path names a file with the extension `py`.
pub fn has_python_extension(path: &str) -> (python: bool)
    ensures
        python == is_python_path(path@),
{
    let parts = path_components(path);
    if parts.len() == 0 {
        return false;
    }
    let last = &parts[parts.len() - 1];
    assert(last@ == components(path@).last());
    proof {
        reveal_strlit("/");
        assert("/"@ =~= seq!['/']);
    }
    if *last == String::from_str("/") {
        return false;
    }
    match file_extension(last.as_str()) {
        Some(ext) => ext == String::from_str("py"),
        None => false,
    }
}

/// The components of `file` below `root`, and whether the file lies below the root.
fn components_below(root: &str, file: &str) -> (found: (Vec<String>, bool))
    ensures
        found.0.deep_view() == relative_components(root@, file@),
        found.1 == begins_with(components(file@), components(root@)),
{
    let base = path_components(root);
    let whole = path_components(file);
    if !starts_with_components(&whole, &base) {
        return (whole, false);
    }
    let mut rest: Vec<String> = Vec::new();
    let mut i: usize = base.len();
    while i < whole.len()
        invariant
            base.len() <= i <= whole.len(),
            rest.len() == i - base.len(),
            forall|k: int| 0 <= k < rest.len() ==> (#[trigger] rest[k])@ == whole[k + base.len()]@,
        decreases whole.len() - i,
    {
        rest.push(whole[i].clone());
        i += 1;
    }
    assert(rest.deep_view() =~= whole.deep_view().skip(base.len() as int));
    (rest, true)
}

/// Appends the strings of `parts` to `out` with the character `sep` between them.
fn push_with_separator(out: &mut String, parts: &Vec<String>, sep: char)
    ensures
        final(out)@ == old(out)@ + join(parts.deep_view(), seq![sep]),
{
    let ghost texts = parts.deep_view();
    let mut i: usize = 0;
    proof {
        assert(texts.take(0) =~= Seq::<Seq<char>>::empty());
        assert(out@ =~= old(out)@ + join(texts.take(0), seq![sep]));
    }
    while i < parts.len()
        invariant
            i <= parts.len(),
            texts == parts.deep_view(),
            out@ == old(out)@ + join(texts.take(i as int), seq![sep]),
        decreases parts.len() - i,
    {
        if i > 0 {
            out.push(sep);
        }
        out.append(parts[i].as_str());
        proof {
            lemma_join_step(texts, seq![sep], i as int);
            assert(out@ =~= old(out)@ + join(texts.take(i + 1), seq![sep]));
        }
        i += 1;
    }
    proof {
        assert(texts.take(parts.len() as int) =~= texts);
    }
}

/// The path of `file` as seen from `root`.
pub fn path_from_root(root: &str, file: &str) -> (path: String)
    ensures
        path@ == relative_path(root@, file@),
{
    let (rest, below) = components_below(root, file);
    if below {
        let mut path = String::new();
        push_with_separator(&mut path, &rest, '/');
        assert(path@ =~= relative_path(root@, file@));
        path
    } else {
        String::from_str(file)
    }
}

/// The dotted module path of `file` as seen from `root`.
pub fn path_to_module(root: &str, file: &str) -> (module: String)
    ensures
        module@ == module_path_of(root@, file@),
{
    let (rest, _) = components_below(root, file);
    let mut parts = rest;
    let ghost before = parts.deep_view();
    if parts.len() > 0 {
        let last = parts.pop().unwrap();
        assert(parts.deep_view() =~= before.drop_last());
        parts.push(file_without_extension(last.as_str()));
        assert(parts.deep_view() =~= before.drop_last().push(strip_extension(before.last())));
    }
    assert(parts.deep_view() =~= without_extension(before));
    let mut module = String::new();
    push_with_separator(&mut module, &parts, '.');
    assert(module@ =~= module_path_of(root@, file@));
    module
}

/// What a walk of the project tree found at one place.
#[derive(Debug)]
pub struct WalkEntry {
    pub path: String,
    pub is_file: bool,
}

/// Whether an entry is a source file: a file whose path has the extension `py`.
pub open spec fn is_source_entry(entry: WalkEntry) -> bool {
    entry.is_file && is_python_path(entry.path@)
}

/// The paths of the source files among the first `n` entries, in the order given.
pub open spec fn source_paths(entries: Seq<WalkEntry>, n: nat) -> Seq<Seq<char>>
    decreases n,
{
    if n == 0 || n > entries.len() {
        Seq::empty()
    } else {
        source_paths(entries, (n - 1) as nat) + if is_source_entry(entries[n - 1]) {
            seq![entries[n - 1].path@]
        } else {
            Seq::empty()
        }
    }
}

/// The paths of the source files among `entries`, in the order given.
pub fn collect_python_files(entries: &[WalkEntry]) -> (files: Vec<String>)
    ensures
        files.deep_view() == source_paths(entries@, entries@.len()),
{
    let mut files: Vec<String> = Vec::new();
    let mut i: usize = 0;
    assert(files.deep_view() =~= source_paths(entries@, 0));
    while i < entries.len()
        invariant
            i <= entries.len(),
            files.deep_view() == source_paths(entries@, i as nat),
        decreases entries.len() - i,
    {
        if entries[i].is_file && has_python_extension(entries[i].path.as_str()) {
            files.push(entries[i].path.clone());
        }
        assert(files.deep_view() =~= source_paths(entries@, (i + 1) as nat));
        i += 1;
    }
    files
}

/// The path made of the first `k` components: the components with a separator between
/// them, and none behind the root.
pub open spec fn prefix_text(parts: Seq<Seq<char>>, k: nat) -> Seq<char>
    decreases k,
{
    if k == 0 || k > parts.len() {
        Seq::empty()
    } else if k == 1 {
        parts[0]
    } else if k == 2 && parts[0] == seq!['/'] {
        parts[0] + parts[1]
    } else {
        prefix_text(parts, (k - 1) as nat) + seq!['/'] + parts[k - 1]
    }
}

/// How many components the outermost ancestor of a path keeps: the root of a path that
/// has one, and nothing of any other path.
pub open spec fn outermost(parts: Seq<Seq<char>>) -> nat {
    if parts.len() > 0 && parts[0] == seq!['/'] {
        1
    } else {
        0
    }
}

/// The directories from a path outward: the path itself, then the path without its last
/// component, and so on to the root, or to the empty path where the path has no root.
pub open spec fn ancestors_of(path: Seq<char>) -> Seq<Seq<char>> {
    let parts = components(path);
    Seq::new(
        (parts.len() - outermost(parts) + 1) as nat,
        |i: int| prefix_text(parts, (parts.len() - i) as nat),
    )
}

/// The directories from `path` outward, the path itself first.
pub fn ancestors(path: &str) -> (dirs: Vec<String>)
    ensures
        dirs.deep_view() == ancestors_of(path@),
{
    let parts = path_components(path);
    proof {
        reveal_strlit("/");
        assert("/"@ =~= seq!['/']);
    }
    let lowest: usize = if parts.len() > 0 && parts[0] == String::from_str("/") {
        1
    } else {
        0
    };
    let ghost texts = parts.deep_view();
    assert(lowest == outermost(texts));
    let mut rising: Vec<String> = Vec::new();
    let mut text = String::new();
    let mut k: usize = 0;
    while k < parts.len()
        invariant
            k <= parts.len(),
            lowest <= parts.len(),
            lowest == outermost(texts),
            texts == parts.deep_view(),
            text@ == prefix_text(texts, k as nat),
            rising.len() == (if k > lowest {
                k - lowest
            } else {
                0
            }),
            forall|i: int|
                0 <= i < rising.len() ==> (#[trigger] rising[i])@ == prefix_text(
                    texts,
                    (i + lowest) as nat,
                ),
        decreases parts.len() - k,
    {
        if k >= lowest {
            rising.push(text.clone());
        }
        if k >= 2 || (k == 1 && lowest == 0) {
            text.push('/');
        }
        text.append(parts[k].as_str());
        assert(text@ =~= prefix_text(texts, (k + 1) as nat));
        k += 1;
    }
    rising.push(text);
    let mut dirs: Vec<String> = Vec::new();
    let mut i: usize = rising.len();
    while i > 0
        invariant
            i <= rising.len(),
            rising.len() == parts.len() - lowest + 1,
            dirs.len() == rising.len() - i,
            forall|j: int|
                0 <= j < dirs.len() ==> (#[trigger] dirs[j])@ == rising[rising.len() - 1 - j]@,
        decreases i,
    {
        i -= 1;
        dirs.push(rising[i].clone());
    }
    assert(dirs.deep_view() =~= ancestors_of(path@));
    dirs
}

/// A directory on the way from a starting directory up to the root, and whether the
/// file that marks a project root was found in it.
#[derive(Debug)]
pub struct DirProbe {
    pub path: String,
    pub has_marker: bool,
}

/// The place of the first of the first `n` directories that holds the marker.
pub open spec fn first_marked(dirs: Seq<DirProbe>, n: nat) -> Option<nat>
    decreases n,
{
    if n == 0 || n > dirs.len() {
        None
    } else {
        match first_marked(dirs, (n - 1) as nat) {
            Some(i) => Some(i),
            None => if dirs[n - 1].has_marker {
                Some((n - 1) as nat)
            } else {
                None
            },
        }
    }
}

/// The project root: the first of `dirs`, which lead from the starting directory
/// outward, that holds the marker; none where no directory holds it.
pub open spec fn project_root(dirs: Seq<DirProbe>) -> Option<Seq<char>> {
    match first_marked(dirs, dirs.len()) {
        Some(i) => Some(dirs[i as int].path@),
        None => None,
    }
}

/// The project root among `dirs`, which lead from the starting directory outward.
pub fn find_project_root(dirs: &[DirProbe]) -> (root: Option<String>)
    ensures
        root.deep_view() == project_root(dirs@),
{
    let mut i: usize = 0;
    while i < dirs.len()
        invariant
            i <= dirs.len(),
            first_marked(dirs@, i as nat) is None,
        decreases dirs.len() - i,
    {
        if dirs[i].has_marker {
            proof {
                lemma_first_marked_stays(dirs@, (i + 1) as nat, dirs@.len());
            }
            return Some(dirs[i].path.clone());
        }
        i += 1;
    }
    None
}

/// Once a directory with the marker is found among the first `n`, it stays the first
/// among more.
proof fn lemma_first_marked_stays(dirs: Seq<DirProbe>, n: nat, m: nat)
    requires
        n <= m <= dirs.len(),
        first_marked(dirs, n) is Some,
    ensures
        first_marked(dirs, m) == first_marked(dirs, n),
    decreases m,
{
    if m > n {
        lemma_first_marked_stays(dirs, n, (m - 1) as nat);
    }
}

} // verus!
