//! Queries on a document by local name: namespace prefixes play no part in
//! any of them.

use crate::document::{DecodeError, Document, Node};
use crate::text::chars_of;
use vstd::prelude::*;

verus! {

/// Whether the element `i` lies on `path`: its local name is the last name
/// of the path, that of the element that holds it the one before, and so on
/// up to the root, which bears the first.
pub open spec fn on_path(nodes: Seq<Node>, i: int, path: Seq<Seq<char>>) -> bool
    decreases path.len(),
{
    path.len() > 0 && 0 <= i < nodes.len() && nodes[i].local == path.last() && match nodes[i].parent {
        None => path.len() == 1,
        Some(p) => path.len() > 1 && on_path(nodes, p, path.drop_last()),
    }
}

/// The elements before `upto` that lie on `path`, in document order.
pub open spec fn selected(nodes: Seq<Node>, path: Seq<Seq<char>>, upto: int) -> Seq<usize>
    decreases upto,
{
    if upto <= 0 {
        Seq::empty()
    } else if on_path(nodes, upto - 1, path) {
        selected(nodes, path, upto - 1).push((upto - 1) as usize)
    } else {
        selected(nodes, path, upto - 1)
    }
}

/// The elements that lie on `path`, in document order.
pub open spec fn select_all(nodes: Seq<Node>, path: Seq<Seq<char>>) -> Seq<usize> {
    selected(nodes, path, nodes.len() as int)
}

/// Whether the element `i` stands directly inside `parent` and has the
/// local name `name`.
pub open spec fn is_child(nodes: Seq<Node>, i: int, parent: int, name: Seq<char>) -> bool {
    0 <= i < nodes.len() && nodes[i].parent == Some(parent) && nodes[i].local == name
}

/// The elements before `upto` that stand directly inside `parent` and have
/// the local name `name`, in document order.
pub open spec fn children_upto(nodes: Seq<Node>, parent: int, name: Seq<char>, upto: int) -> Seq<
    usize,
>
    decreases upto,
{
    if upto <= 0 {
        Seq::empty()
    } else if is_child(nodes, upto - 1, parent, name) {
        children_upto(nodes, parent, name, upto - 1).push((upto - 1) as usize)
    } else {
        children_upto(nodes, parent, name, upto - 1)
    }
}

/// The elements directly inside `parent` with the local name `name`, in
/// document order.
pub open spec fn children_of(nodes: Seq<Node>, parent: int, name: Seq<char>) -> Seq<usize> {
    children_upto(nodes, parent, name, nodes.len() as int)
}

/// The texts of the elements `indices`, in that order.
pub open spec fn texts_of(nodes: Seq<Node>, indices: Seq<usize>) -> Seq<Seq<char>> {
    Seq::new(indices.len(), |k: int| nodes[indices[k] as int].text)
}

/// The names that a path holds.
pub open spec fn path_names(path: Seq<Vec<char>>) -> Seq<Seq<char>> {
    Seq::new(path.len(), |k: int| path[k]@)
}

/// The names that a path of string slices holds.
pub open spec fn str_names(path: Seq<&str>) -> Seq<Seq<char>> {
    Seq::new(path.len(), |k: int| path[k]@)
}

/// Every index among `indices` is below `bound`, and they ascend.
pub open spec fn ascending_below(indices: Seq<usize>, bound: int) -> bool {
    &&& forall|k: int| 0 <= k < indices.len() ==> #[trigger] indices[k] < bound
    &&& forall|j: int, k: int| 0 <= j < k < indices.len() ==> indices[j] < indices[k]
}

/// What `selected` holds: exactly the elements before `upto` that lie on
/// the path, in ascending order.
pub proof fn lemma_selected(nodes: Seq<Node>, path: Seq<Seq<char>>, upto: int)
    requires
        0 <= upto <= nodes.len(),
        upto <= usize::MAX,
    ensures
        ascending_below(selected(nodes, path, upto), upto),
        forall|k: int|
            0 <= k < selected(nodes, path, upto).len() ==> on_path(
                nodes,
                #[trigger] selected(nodes, path, upto)[k] as int,
                path,
            ),
        forall|i: int|
            0 <= i < upto && on_path(nodes, i, path) ==> selected(nodes, path, upto).contains(
                i as usize,
            ),
    decreases upto,
{
    if upto > 0 {
        lemma_selected(nodes, path, upto - 1);
        let before = selected(nodes, path, upto - 1);
        let all = selected(nodes, path, upto);
        if on_path(nodes, upto - 1, path) {
            assert(all[all.len() - 1] == (upto - 1) as usize);
        }
        assert forall|i: int| 0 <= i < upto && on_path(nodes, i, path) implies all.contains(
            i as usize,
        ) by {
            if i < upto - 1 {
                let k = choose|k: int| 0 <= k < before.len() && before[k] == i as usize;
                assert(all[k] == i as usize);
            } else {
                assert(all[all.len() - 1] == i as usize);
            }
        }
    }
}

/// What `children_upto` holds: exactly the elements before `upto` that are
/// such children, in ascending order.
pub proof fn lemma_children(nodes: Seq<Node>, parent: int, name: Seq<char>, upto: int)
    requires
        0 <= upto <= nodes.len(),
        upto <= usize::MAX,
    ensures
        ascending_below(children_upto(nodes, parent, name, upto), upto),
        forall|k: int|
            0 <= k < children_upto(nodes, parent, name, upto).len() ==> is_child(
                nodes,
                #[trigger] children_upto(nodes, parent, name, upto)[k] as int,
                parent,
                name,
            ),
        forall|i: int|
            0 <= i < upto && is_child(nodes, i, parent, name) ==> children_upto(
                nodes,
                parent,
                name,
                upto,
            ).contains(i as usize),
    decreases upto,
{
    if upto > 0 {
        lemma_children(nodes, parent, name, upto - 1);
        let before = children_upto(nodes, parent, name, upto - 1);
        let all = children_upto(nodes, parent, name, upto);
        if is_child(nodes, upto - 1, parent, name) {
            assert(all[all.len() - 1] == (upto - 1) as usize);
        }
        assert forall|i: int| 0 <= i < upto && is_child(nodes, i, parent, name) implies all.contains(
            i as usize,
        ) by {
            if i < upto - 1 {
                let k = choose|k: int| 0 <= k < before.len() && before[k] == i as usize;
                assert(all[k] == i as usize);
            } else {
                assert(all[all.len() - 1] == i as usize);
            }
        }
    }
}

/// Two documents that differ at most in the namespace prefixes and the
/// attributes of their elements: the same elements in the same places, with
/// the same local names and texts.
pub open spec fn same_but_prefixes(a: Seq<Node>, b: Seq<Node>) -> bool {
    &&& a.len() == b.len()
    &&& forall|i: int|
        0 <= i < a.len() ==> (#[trigger] a[i]).local == b[i].local && a[i].parent == b[i].parent
            && a[i].text == b[i].text
}

/// Whether an element lies on a path does not depend on prefixes.
pub proof fn lemma_on_path_ignores_prefixes(
    a: Seq<Node>,
    b: Seq<Node>,
    i: int,
    path: Seq<Seq<char>>,
)
    requires
        same_but_prefixes(a, b),
    ensures
        on_path(a, i, path) == on_path(b, i, path),
    decreases path.len(),
{
    if path.len() > 0 && 0 <= i < a.len() {
        match a[i].parent {
            None => {},
            Some(p) => {
                if path.len() > 1 {
                    lemma_on_path_ignores_prefixes(a, b, p, path.drop_last());
                }
            },
        }
    }
}

/// The elements on a path do not depend on prefixes.
pub proof fn lemma_selected_ignores_prefixes(
    a: Seq<Node>,
    b: Seq<Node>,
    path: Seq<Seq<char>>,
    upto: int,
)
    requires
        same_but_prefixes(a, b),
    ensures
        selected(a, path, upto) == selected(b, path, upto),
    decreases upto,
{
    if upto > 0 {
        lemma_selected_ignores_prefixes(a, b, path, upto - 1);
        lemma_on_path_ignores_prefixes(a, b, upto - 1, path);
    }
}

/// The elements inside an element do not depend on prefixes.
pub proof fn lemma_children_ignore_prefixes(
    a: Seq<Node>,
    b: Seq<Node>,
    parent: int,
    name: Seq<char>,
    upto: int,
)
    requires
        same_but_prefixes(a, b),
    ensures
        children_upto(a, parent, name, upto) == children_upto(b, parent, name, upto),
    decreases upto,
{
    if upto > 0 {
        lemma_children_ignore_prefixes(a, b, parent, name, upto - 1);
    }
}

/// The text of the first element inside an element does not depend on
/// prefixes.
pub proof fn lemma_child_text_ignores_prefixes(
    a: Seq<Node>,
    b: Seq<Node>,
    parent: int,
    name: Seq<char>,
)
    requires
        same_but_prefixes(a, b),
        a.len() <= usize::MAX,
    ensures
        children_of(a, parent, name) == children_of(b, parent, name),
        first_text_of(a, children_of(a, parent, name)) == first_text_of(
            b,
            children_of(b, parent, name),
        ),
{
    lemma_children_ignore_prefixes(a, b, parent, name, a.len() as int);
    lemma_children(a, parent, name, a.len() as int);
}

/// The names of a path as character vectors.
pub(crate) fn path_of(path: &[&str]) -> (r: Vec<Vec<char>>)
    ensures
        path_names(r@) == str_names(path@),
{
    let mut r: Vec<Vec<char>> = Vec::new();
    let mut k: usize = 0;
    while k < path.len()
        invariant
            k <= path.len(),
            r.len() == k,
            forall|j: int| 0 <= j < k ==> (#[trigger] r@[j])@ == path@[j]@,
        decreases path.len() - k,
    {
        r.push(chars_of(path[k]));
        k += 1;
    }
    assert(path_names(r@) =~= str_names(path@));
    r
}

/// Whether the element `i` lies on `path`.
pub(crate) fn lies_on_path(doc: &Document, i: usize, path: &Vec<Vec<char>>) -> (r: bool)
    requires
        i < doc@.len(),
    ensures
        r == on_path(doc@, i as int, path_names(path@)),
{
    let n = path.len();
    if n == 0 {
        return false;
    }
    let ghost names = path_names(path@);
    let mut cur: usize = i;
    let mut k: usize = n;
    assert(names.take(n as int) =~= names);
    loop
        invariant
            1 <= k <= n,
            n == path.len(),
            names == path_names(path@),
            cur < doc@.len(),
            on_path(doc@, i as int, names) == on_path(doc@, cur as int, names.take(k as int)),
        decreases k,
    {
        assert(names.take(k as int).last() == path@[k - 1]@);
        assert(names.take(k as int).drop_last() =~= names.take(k - 1));
        if !doc.is_named(cur, &path[k - 1]) {
            return false;
        }
        match doc.parent_of(cur) {
            None => {
                return k == 1;
            },
            Some(p) => {
                if k == 1 {
                    return false;
                }
                cur = p;
                k -= 1;
            },
        }
    }
}

/// The elements that lie on `path`, in document order.
pub fn select(doc: &Document, path: &[&str]) -> (r: Vec<usize>)
    ensures
        r@ == select_all(doc@, str_names(path@)),
        ascending_below(r@, doc@.len() as int),
{
    let names = path_of(path);
    let n = doc.len();
    let mut r: Vec<usize> = Vec::new();
    let mut j: usize = 0;
    while j < n
        invariant
            j <= n,
            n == doc@.len(),
            path_names(names@) == str_names(path@),
            r@ == selected(doc@, str_names(path@), j as int),
        decreases n - j,
    {
        if lies_on_path(doc, j, &names) {
            r.push(j);
        }
        j += 1;
    }
    proof {
        lemma_selected(doc@, str_names(path@), n as int);
    }
    r
}

/// The elements directly inside `parent` with the local name `name`, in
/// document order.
pub fn children(doc: &Document, parent: usize, name: &str) -> (r: Vec<usize>)
    ensures
        r@ == children_of(doc@, parent as int, name@),
        ascending_below(r@, doc@.len() as int),
{
    let wanted = chars_of(name);
    let n = doc.len();
    let mut r: Vec<usize> = Vec::new();
    let mut j: usize = 0;
    while j < n
        invariant
            j <= n,
            n == doc@.len(),
            wanted@ == name@,
            r@ == children_upto(doc@, parent as int, name@, j as int),
        decreases n - j,
    {
        let inside = match doc.parent_of(j) {
            Some(p) => p == parent,
            None => false,
        };
        if inside && doc.is_named(j, &wanted) {
            r.push(j);
        }
        j += 1;
    }
    proof {
        lemma_children(doc@, parent as int, name@, n as int);
    }
    r
}

/// The texts of the elements `indices`, in that order.
pub(crate) fn texts(doc: &Document, indices: &Vec<usize>) -> (r: Vec<String>)
    requires
        forall|k: int| 0 <= k < indices.len() ==> #[trigger] indices@[k] < doc@.len(),
    ensures
        r.deep_view() == texts_of(doc@, indices@),
{
    let mut r: Vec<String> = Vec::new();
    let mut k: usize = 0;
    while k < indices.len()
        invariant
            k <= indices.len(),
            forall|j: int| 0 <= j < indices.len() ==> #[trigger] indices@[j] < doc@.len(),
            r.len() == k,
            forall|j: int| 0 <= j < k ==> (#[trigger] r@[j])@ == doc@[indices@[j] as int].text,
        decreases indices.len() - k,
    {
        r.push(doc.text_of(indices[k]));
        k += 1;
    }
    assert(r.deep_view() =~= texts_of(doc@, indices@));
    r
}

/// The texts of the elements that lie on `path`, in document order.
pub fn select_texts(doc: &Document, path: &[&str]) -> (r: Vec<String>)
    ensures
        r.deep_view() == texts_of(doc@, select_all(doc@, str_names(path@))),
{
    let found = select(doc, path);
    texts(doc, &found)
}

/// The text of the first element that lies on `path`. Where none does, the
/// field is not found.
pub fn first_text(doc: &Document, path: &[&str]) -> (r: Result<String, DecodeError>)
    ensures
        match r {
            Ok(t) => select_all(doc@, str_names(path@)).len() > 0 && t@ == doc@[select_all(
                doc@,
                str_names(path@),
            )[0] as int].text,
            Err(e) => e == DecodeError::FieldNotFound && select_all(doc@, str_names(path@)).len()
                == 0,
        },
{
    let found = select(doc, path);
    if found.len() == 0 {
        Err(DecodeError::FieldNotFound)
    } else {
        Ok(doc.text_of(found[0]))
    }
}

/// The text of the first element directly inside `parent` with the local
/// name `name`; the empty text where there is none.
pub fn child_text(doc: &Document, parent: usize, name: &str) -> (r: String)
    ensures
        r@ == first_text_of(doc@, children_of(doc@, parent as int, name@)),
{
    let found = children(doc, parent, name);
    if found.len() == 0 {
        let empty: Vec<char> = Vec::new();
        crate::text::string_of(&empty)
    } else {
        doc.text_of(found[0])
    }
}

/// The text of the first of `indices`; the empty text where there is none.
pub open spec fn first_text_of(nodes: Seq<Node>, indices: Seq<usize>) -> Seq<char> {
    if indices.len() == 0 {
        Seq::empty()
    } else {
        nodes[indices[0] as int].text
    }
}

} // verus!
