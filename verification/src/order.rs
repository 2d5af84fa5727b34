use crate::paths::{components, path_components};
use crate::strings::chars_of;
use vstd::prelude::*;

verus! {

/// Where a component stands among the kinds of components: the root first, then the
/// current directory, then the parent directory, then every other name.
pub open spec fn component_rank(part: Seq<char>) -> nat {
    if part == seq!['/'] {
        0
    } else if part == seq!['.'] {
        1
    } else if part == seq!['.', '.'] {
        2
    } else {
        3
    }
}

/// Whether `a` comes before `b` or is `b`, reading both from the character at `from`:
/// the first character in which they differ decides, and a text comes before each text
/// that it begins.
pub open spec fn text_le_from(a: Seq<char>, b: Seq<char>, from: nat) -> bool
    decreases a.len() - from,
{
    if from >= a.len() {
        true
    } else if from >= b.len() {
        false
    } else if a[from as int] != b[from as int] {
        (a[from as int] as u32) < (b[from as int] as u32)
    } else {
        text_le_from(a, b, from + 1)
    }
}

/// Whether the component `a` comes before the component `b` or is `b`: by kind first,
/// then by text.
pub open spec fn component_le(a: Seq<char>, b: Seq<char>) -> bool {
    component_rank(a) < component_rank(b) || (component_rank(a) == component_rank(b)
        && text_le_from(a, b, 0))
}

/// Whether the components `a` come before the components `b` or are `b`, reading both
/// from the component at `from`: the first component in which they differ decides, and
/// a path comes before each path that it begins.
pub open spec fn parts_le_from(a: Seq<Seq<char>>, b: Seq<Seq<char>>, from: nat) -> bool
    decreases a.len() - from,
{
    if from >= a.len() {
        true
    } else if from >= b.len() {
        false
    } else if a[from as int] != b[from as int] {
        component_le(a[from as int], b[from as int])
    } else {
        parts_le_from(a, b, from + 1)
    }
}

/// Whether the path `a` comes before the path `b` or names the same place: the order of
/// paths, component by component.
pub open spec fn path_le(a: Seq<char>, b: Seq<char>) -> bool {
    parts_le_from(components(a), components(b), 0)
}

proof fn lemma_text_le_total(a: Seq<char>, b: Seq<char>, from: nat)
    ensures
        text_le_from(a, b, from) || text_le_from(b, a, from),
    decreases a.len() - from,
{
    if from < a.len() && from < b.len() {
        if a[from as int] == b[from as int] {
            lemma_text_le_total(a, b, from + 1);
        } else {
            vstd::utf8::char_u32_cast(a[from as int], a[from as int] as u32);
            vstd::utf8::char_u32_cast(b[from as int], b[from as int] as u32);
        }
    }
}

proof fn lemma_parts_le_total(a: Seq<Seq<char>>, b: Seq<Seq<char>>, from: nat)
    ensures
        parts_le_from(a, b, from) || parts_le_from(b, a, from),
    decreases a.len() - from,
{
    if from < a.len() && from < b.len() {
        if a[from as int] == b[from as int] {
            lemma_parts_le_total(a, b, from + 1);
        } else {
            lemma_text_le_total(a[from as int], b[from as int], 0);
        }
    }
}

/// Of two paths, one comes before the other or names the same place.
pub proof fn lemma_path_le_total(a: Seq<char>, b: Seq<char>)
    ensures
        path_le(a, b) || path_le(b, a),
{
    lemma_parts_le_total(components(a), components(b), 0);
}

proof fn lemma_text_le_reflexive(a: Seq<char>, from: nat)
    ensures
        text_le_from(a, a, from),
    decreases a.len() - from,
{
    if from < a.len() {
        lemma_text_le_reflexive(a, from + 1);
    }
}

proof fn lemma_text_le_transitive(a: Seq<char>, b: Seq<char>, c: Seq<char>, from: nat)
    requires
        text_le_from(a, b, from),
        text_le_from(b, c, from),
    ensures
        text_le_from(a, c, from),
    decreases a.len() - from,
{
    if from < a.len() {
        if a[from as int] == b[from as int] && b[from as int] == c[from as int] {
            lemma_text_le_transitive(a, b, c, from + 1);
        }
    }
}

proof fn lemma_text_le_antisymmetric(a: Seq<char>, b: Seq<char>, from: nat)
    requires
        text_le_from(a, b, from),
        text_le_from(b, a, from),
        from <= a.len(),
        from <= b.len(),
        a.take(from as int) == b.take(from as int),
    ensures
        a == b,
    decreases a.len() - from,
{
    if from < a.len() {
        vstd::utf8::char_u32_cast(a[from as int], a[from as int] as u32);
        vstd::utf8::char_u32_cast(b[from as int], b[from as int] as u32);
        assert(a.take(from as int + 1) =~= a.take(from as int).push(a[from as int]));
        assert(b.take(from as int + 1) =~= b.take(from as int).push(b[from as int]));
        lemma_text_le_antisymmetric(a, b, from + 1);
    } else {
        assert(a.take(from as int) =~= a);
        assert(b.take(from as int) =~= b);
    }
}

proof fn lemma_component_le_transitive(a: Seq<char>, b: Seq<char>, c: Seq<char>)
    requires
        component_le(a, b),
        component_le(b, c),
    ensures
        component_le(a, c),
{
    if component_rank(a) == component_rank(b) && component_rank(b) == component_rank(c) {
        lemma_text_le_transitive(a, b, c, 0);
    }
}

proof fn lemma_component_le_antisymmetric(a: Seq<char>, b: Seq<char>)
    requires
        component_le(a, b),
        component_le(b, a),
    ensures
        a == b,
{
    assert(a.take(0) =~= b.take(0));
    lemma_text_le_antisymmetric(a, b, 0);
}

proof fn lemma_parts_le_reflexive(a: Seq<Seq<char>>, from: nat)
    ensures
        parts_le_from(a, a, from),
    decreases a.len() - from,
{
    if from < a.len() {
        lemma_parts_le_reflexive(a, from + 1);
    }
}

proof fn lemma_parts_le_transitive(
    a: Seq<Seq<char>>,
    b: Seq<Seq<char>>,
    c: Seq<Seq<char>>,
    from: nat,
)
    requires
        parts_le_from(a, b, from),
        parts_le_from(b, c, from),
    ensures
        parts_le_from(a, c, from),
    decreases a.len() - from,
{
    if from < a.len() {
        let x = a[from as int];
        let y = b[from as int];
        let z = c[from as int];
        if x == y && y == z {
            lemma_parts_le_transitive(a, b, c, from + 1);
        } else if x != y && y != z {
            lemma_component_le_transitive(x, y, z);
            if x == z {
                lemma_component_le_antisymmetric(x, y);
            }
        }
    }
}

/// Each path comes before itself or names the same place as itself.
pub proof fn lemma_path_le_reflexive(a: Seq<char>)
    ensures
        path_le(a, a),
{
    lemma_parts_le_reflexive(components(a), 0);
}

/// What comes before a path that comes before a third comes before the third.
pub proof fn lemma_path_le_transitive(a: Seq<char>, b: Seq<char>, c: Seq<char>)
    requires
        path_le(a, b),
        path_le(b, c),
    ensures
        path_le(a, c),
{
    lemma_parts_le_transitive(components(a), components(b), components(c), 0);
}

/// Where the path at `index` is put among the paths at the places in `order`: behind
/// the last of them that comes before it or names the same place.
pub open spec fn insert_position(paths: Seq<Seq<char>>, order: Seq<usize>, index: usize) -> nat
    decreases order.len(),
{
    if order.len() == 0 {
        0
    } else if path_le(paths[order.last() as int], paths[index as int]) {
        order.len()
    } else {
        insert_position(paths, order.drop_last(), index)
    }
}

/// The places of the first `n` paths in the order of the paths; of two paths that name
/// the same place, the one given first stays first.
pub open spec fn sorted_order(paths: Seq<Seq<char>>, n: nat) -> Seq<usize>
    decreases n,
{
    if n == 0 || n > paths.len() || n > usize::MAX {
        Seq::empty()
    } else {
        let before = sorted_order(paths, (n - 1) as nat);
        before.insert(insert_position(paths, before, (n - 1) as usize) as int, (n - 1) as usize)
    }
}

/// Whether the paths at the places in `order` stand in the order of the paths: none
/// comes before a path that stands earlier, unless both name the same place.
pub open spec fn in_order(paths: Seq<Seq<char>>, order: Seq<usize>) -> bool {
    forall|j: int, k: int|
        0 <= j < k < order.len() ==> path_le(
            paths[(#[trigger] order[j]) as int],
            paths[(#[trigger] order[k]) as int],
        )
}

/// Whether `order` holds the place `v`.
pub open spec fn holds_place(order: Seq<usize>, v: int) -> bool {
    exists|k: int| 0 <= k < order.len() && #[trigger] order[k] == v
}

/// Whether `order` holds each place below `n` once and nothing else.
pub open spec fn holds_each_once(order: Seq<usize>, n: nat) -> bool {
    &&& order.len() == n
    &&& forall|k: int| 0 <= k < order.len() ==> (#[trigger] order[k]) < n
    &&& forall|j: int, k: int| 0 <= j < k < order.len() ==> order[j] != order[k]
    &&& forall|v: int| 0 <= v < n ==> #[trigger] holds_place(order, v)
}

proof fn lemma_insert_position(paths: Seq<Seq<char>>, order: Seq<usize>, index: usize)
    ensures
        insert_position(paths, order, index) <= order.len(),
        insert_position(paths, order, index) > 0 ==> path_le(
            paths[order[insert_position(paths, order, index) - 1] as int],
            paths[index as int],
        ),
        forall|k: int|
            insert_position(paths, order, index) <= k < order.len() ==> !path_le(
                paths[(#[trigger] order[k]) as int],
                paths[index as int],
            ),
    decreases order.len(),
{
    if order.len() > 0 && !path_le(paths[order.last() as int], paths[index as int]) {
        lemma_insert_position(paths, order.drop_last(), index);
        let at = insert_position(paths, order, index);
        assert forall|k: int| at <= k < order.len() implies !path_le(
            paths[(#[trigger] order[k]) as int],
            paths[index as int],
        ) by {
            if k < order.len() - 1 {
                assert(order.drop_last()[k] == order[k]);
            }
        }
        if at > 0 {
            assert(order.drop_last()[at - 1] == order[at - 1]);
        }
    }
}

/// The sorted order holds each place once, and the paths at its places stand in the
/// order of the paths: it is the given paths, sorted.
pub proof fn law_sorted_order(paths: Seq<Seq<char>>, n: nat)
    requires
        n <= paths.len(),
        n <= usize::MAX,
    ensures
        holds_each_once(sorted_order(paths, n), n),
        in_order(paths, sorted_order(paths, n)),
    decreases n,
{
    if n > 0 {
        law_sorted_order(paths, (n - 1) as nat);
        let before = sorted_order(paths, (n - 1) as nat);
        let index = (n - 1) as usize;
        let at = insert_position(paths, before, index) as int;
        lemma_insert_position(paths, before, index);
        let after = before.insert(at, index);
        assert(after == sorted_order(paths, n));
        assert forall|v: int| 0 <= v < n implies #[trigger] holds_place(after, v) by {
            if v == n - 1 {
                assert(after[at] == v);
            } else {
                assert(holds_place(before, v));
                let k = choose|k: int| 0 <= k < before.len() && #[trigger] before[k] == v;
                if k < at {
                    assert(after[k] == v);
                } else {
                    assert(after[k + 1] == v);
                }
            }
        }
        assert forall|j: int, k: int| 0 <= j < k < after.len() implies path_le(
            paths[(#[trigger] after[j]) as int],
            paths[(#[trigger] after[k]) as int],
        ) by {
            let first = if j < at {
                before[j]
            } else if j == at {
                index
            } else {
                before[j - 1]
            };
            let second = if k < at {
                before[k]
            } else if k == at {
                index
            } else {
                before[k - 1]
            };
            assert(after[j] == first && after[k] == second);
            if k == at {
                if j < at - 1 {
                    lemma_path_le_transitive(
                        paths[before[j] as int],
                        paths[before[at - 1] as int],
                        paths[index as int],
                    );
                }
            } else if j == at {
                lemma_path_le_total(paths[before[k - 1] as int], paths[index as int]);
            } else if j < at && k > at {
                lemma_path_le_total(paths[before[k - 1] as int], paths[index as int]);
                if j < at - 1 {
                    lemma_path_le_transitive(
                        paths[before[j] as int],
                        paths[before[at - 1] as int],
                        paths[index as int],
                    );
                }
                lemma_path_le_transitive(
                    paths[before[j] as int],
                    paths[index as int],
                    paths[before[k - 1] as int],
                );
            }
        }
    }
}

/// Where all the places from `at` on hold paths that do not come before the path at
/// `index`, and the place before `at` holds one that does, `at` is where that path is
/// put.
proof fn lemma_insert_position_is(
    paths: Seq<Seq<char>>,
    order: Seq<usize>,
    index: usize,
    at: nat,
)
    requires
        at <= order.len(),
        at > 0 ==> path_le(paths[order[at - 1] as int], paths[index as int]),
        forall|k: int|
            at <= k < order.len() ==> !path_le(
                paths[(#[trigger] order[k]) as int],
                paths[index as int],
            ),
    ensures
        insert_position(paths, order, index) == at,
    decreases order.len(),
{
    if order.len() > at {
        assert(!path_le(paths[order[order.len() - 1] as int], paths[index as int]));
        let fewer = order.drop_last();
        assert forall|k: int| at <= k < fewer.len() implies !path_le(
            paths[(#[trigger] fewer[k]) as int],
            paths[index as int],
        ) by {
            assert(fewer[k] == order[k]);
        }
        if at > 0 {
            assert(fewer[at - 1] == order[at - 1]);
        }
        lemma_insert_position_is(paths, fewer, index, at);
    }
}

/// Whether the text `a` comes before the text `b` or is `b`.
fn text_in_order(a: &str, b: &str) -> (ordered: bool)
    ensures
        ordered == text_le_from(a@, b@, 0),
{
    let first = chars_of(a);
    let second = chars_of(b);
    let mut i: usize = 0;
    while i < first.len() && i < second.len() && first[i] == second[i]
        invariant
            i <= first.len(),
            i <= second.len(),
            text_le_from(first@, second@, 0) == text_le_from(first@, second@, i as nat),
        decreases first.len() - i,
    {
        i += 1;
    }
    if i >= first.len() {
        true
    } else if i >= second.len() {
        false
    } else {
        (first[i] as u32) < (second[i] as u32)
    }
}

/// Where a component stands among the kinds of components.
fn rank_of(part: &str) -> (rank: u8)
    ensures
        rank == component_rank(part@),
{
    let chars = chars_of(part);
    if chars.len() == 1 && chars[0] == '/' {
        assert(chars@ =~= seq!['/']);
        0
    } else if chars.len() == 1 && chars[0] == '.' {
        assert(chars@ =~= seq!['.']);
        1
    } else if chars.len() == 2 && chars[0] == '.' && chars[1] == '.' {
        assert(chars@ =~= seq!['.', '.']);
        2
    } else {
        3
    }
}

/// Whether the components `a` come before the components `b` or are `b`.
pub fn components_in_order(a: &Vec<String>, b: &Vec<String>) -> (ordered: bool)
    ensures
        ordered == parts_le_from(a.deep_view(), b.deep_view(), 0),
{
    let mut i: usize = 0;
    while i < a.len() && i < b.len() && a[i] == b[i]
        invariant
            i <= a.len(),
            i <= b.len(),
            parts_le_from(a.deep_view(), b.deep_view(), 0) == parts_le_from(
                a.deep_view(),
                b.deep_view(),
                i as nat,
            ),
        decreases a.len() - i,
    {
        i += 1;
    }
    if i >= a.len() {
        true
    } else if i >= b.len() {
        false
    } else {
        let first = rank_of(a[i].as_str());
        let second = rank_of(b[i].as_str());
        first < second || (first == second && text_in_order(a[i].as_str(), b[i].as_str()))
    }
}

/// Whether the path `a` comes before the path `b` or names the same place.
pub fn paths_in_order(a: &str, b: &str) -> (ordered: bool)
    ensures
        ordered == path_le(a@, b@),
{
    components_in_order(&path_components(a), &path_components(b))
}

/// The places of `paths` in the order of the paths.
pub fn sort_paths(paths: &Vec<String>) -> (order: Vec<usize>)
    ensures
        order@ == sorted_order(paths.deep_view(), paths.len() as nat),
{
    let ghost texts = paths.deep_view();
    let mut parts: Vec<Vec<String>> = Vec::new();
    let mut i: usize = 0;
    while i < paths.len()
        invariant
            i <= paths.len(),
            parts.len() == i,
            forall|k: int| 0 <= k < i ==> (#[trigger] parts[k]).deep_view() == components(paths[k]@),
        decreases paths.len() - i,
    {
        parts.push(path_components(paths[i].as_str()));
        i += 1;
    }
    let mut order: Vec<usize> = Vec::new();
    let mut n: usize = 0;
    while n < paths.len()
        invariant
            n <= paths.len(),
            texts == paths.deep_view(),
            parts.len() == paths.len(),
            forall|k: int|
                0 <= k < parts.len() ==> (#[trigger] parts[k]).deep_view() == components(
                    paths[k]@,
                ),
            order@ == sorted_order(texts, n as nat),
            holds_each_once(order@, n as nat),
            in_order(texts, order@),
        decreases paths.len() - n,
    {
        let mut low: usize = 0;
        let mut high: usize = order.len();
        while low < high
            invariant
                low <= high <= order.len(),
                n < paths.len(),
                texts == paths.deep_view(),
                parts.len() == paths.len(),
                holds_each_once(order@, n as nat),
                in_order(texts, order@),
                forall|k: int|
                    0 <= k < parts.len() ==> (#[trigger] parts[k]).deep_view() == components(
                        paths[k]@,
                    ),
                forall|k: int|
                    0 <= k < low ==> path_le(texts[(#[trigger] order[k]) as int], texts[n as int]),
                forall|k: int|
                    high <= k < order.len() ==> !path_le(
                        texts[(#[trigger] order[k]) as int],
                        texts[n as int],
                    ),
            decreases high - low,
        {
            let middle: usize = low + (high - low) / 2;
            if components_in_order(&parts[order[middle]], &parts[n]) {
                assert forall|k: int| 0 <= k < middle + 1 implies path_le(
                    texts[(#[trigger] order[k]) as int],
                    texts[n as int],
                ) by {
                    if k < middle {
                        lemma_path_le_transitive(
                            texts[order[k] as int],
                            texts[order[middle as int] as int],
                            texts[n as int],
                        );
                    }
                }
                low = middle + 1;
            } else {
                assert forall|k: int| middle <= k < order.len() implies !path_le(
                    texts[(#[trigger] order[k]) as int],
                    texts[n as int],
                ) by {
                    if k > middle && path_le(texts[order[k] as int], texts[n as int]) {
                        lemma_path_le_transitive(
                            texts[order[middle as int] as int],
                            texts[order[k] as int],
                            texts[n as int],
                        );
                    }
                }
                high = middle;
            }
        }
        let at = low;
        proof {
            lemma_insert_position_is(texts, order@, n, at as nat);
            law_sorted_order(texts, (n + 1) as nat);
        }
        order.insert(at, n);
        n += 1;
    }
    order
}

} // verus!
