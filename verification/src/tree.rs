//! The namespace tree: which resources stand directly in which namespace,
//! with child namespaces in the order of their names and, once sorted, the
//! resources of each namespace in the order of their leaf names.
use vstd::prelude::*;
use crate::entries::{entries_view, EntryView, ResourceEntry};
use crate::text::{
    is_text_less, lemma_text_less_asymmetric, lemma_text_less_total,
    lemma_text_less_transitive, str_eq, text_less, texts,
};

verus! {

/// A namespace: its child namespaces by name, and the positions (in the
/// list of entries) of the resources that stand directly in it.
#[derive(Debug)]
pub struct NamespaceNode {
    pub children: Vec<(String, NamespaceNode)>,
    pub resource_indices: Vec<usize>,
}

/// The mathematical value of a `NamespaceNode`.
pub struct TreeView {
    pub children: Seq<(Seq<char>, TreeView)>,
    pub leaves: Seq<int>,
}

pub open spec fn children_view(cs: Seq<(String, NamespaceNode)>) -> Seq<(Seq<char>, TreeView)>
    decreases cs,
{
    Seq::new(
        cs.len(),
        |i: int|
            if 0 <= i < cs.len() {
                (cs[i].0@, node_view(cs[i].1))
            } else {
                arbitrary()
            },
    )
}

pub open spec fn node_view(n: NamespaceNode) -> TreeView
    decreases n,
{
    TreeView {
        children: children_view(n.children@),
        leaves: Seq::new(n.resource_indices@.len(), |i: int| n.resource_indices@[i] as int),
    }
}

impl View for NamespaceNode {
    type V = TreeView;

    open spec fn view(&self) -> TreeView {
        node_view(*self)
    }
}

/// The namespace without children and resources.
pub open spec fn empty_tree() -> TreeView {
    TreeView { children: Seq::empty(), leaves: Seq::empty() }
}

impl NamespaceNode {
    pub fn new() -> (n: Self)
        ensures
            n@ == empty_tree(),
    {
        let n = NamespaceNode { children: Vec::new(), resource_indices: Vec::new() };
        assert(n@.children =~= Seq::empty());
        assert(n@.leaves =~= Seq::empty());
        n
    }
}

/// The first position at or after `i` whose child does not sort before
/// `name`: where a child of that name stands, or where it would go.
pub open spec fn child_slot(cs: Seq<(Seq<char>, TreeView)>, name: Seq<char>, i: int) -> int
    decreases cs.len() - i,
{
    if i < 0 || i >= cs.len() {
        i
    } else if text_less(cs[i].0, name) {
        child_slot(cs, name, i + 1)
    } else {
        i
    }
}

/// The tree with the resource at position `idx` added in the namespace
/// that `path` leads to. Namespaces on the way are created where they are
/// missing, each at the place that its name gives it among its siblings.
pub open spec fn tree_insert(t: TreeView, path: Seq<Seq<char>>, idx: int) -> TreeView
    decreases path.len(),
{
    if path.len() == 0 {
        TreeView { children: t.children, leaves: t.leaves.push(idx) }
    } else {
        let p = child_slot(t.children, path[0], 0);
        if 0 <= p < t.children.len() && t.children[p].0 == path[0] {
            TreeView {
                children: t.children.update(
                    p,
                    (path[0], tree_insert(t.children[p].1, path.skip(1), idx)),
                ),
                leaves: t.leaves,
            }
        } else if 0 <= p <= t.children.len() {
            TreeView {
                children: t.children.insert(
                    p,
                    (path[0], tree_insert(empty_tree(), path.skip(1), idx)),
                ),
                leaves: t.leaves,
            }
        } else {
            t
        }
    }
}

/// The tree of the first `n` entries: each added at its namespace path, in
/// order.
pub open spec fn tree_of(entries: Seq<EntryView>, n: int) -> TreeView
    decreases n,
{
    if n <= 0 || n > entries.len() {
        empty_tree()
    } else {
        tree_insert(tree_of(entries, n - 1), entries[n - 1].namespace_path, n - 1)
    }
}

fn find_child(children: &Vec<(String, NamespaceNode)>, name: &str) -> (r: (usize, bool))
    ensures
        r.0 == child_slot(children_view(children@), name@, 0),
        r.0 <= children@.len(),
        r.1 == (r.0 < children@.len() && children@[r.0 as int].0@ == name@),
{
    let mut i: usize = 0;
    while i < children.len()
        invariant
            i <= children@.len(),
            child_slot(children_view(children@), name@, 0) == child_slot(
                children_view(children@),
                name@,
                i as int,
            ),
        decreases children@.len() - i,
    {
        assert(children_view(children@)[i as int].0 == children@[i as int].0@);
        if !is_text_less(children[i].0.as_str(), name) {
            return (i, str_eq(children[i].0.as_str(), name));
        }
        i = i + 1;
    }
    (i, false)
}

fn insert(node: NamespaceNode, path: &Vec<String>, depth: usize, idx: usize) -> (r: NamespaceNode)
    requires
        depth <= path@.len(),
    ensures
        r@ == tree_insert(node@, texts(path@).skip(depth as int), idx as int),
    decreases path@.len() - depth,
{
    let mut node = node;
    let ghost before = node@;
    let ghost rest = texts(path@).skip(depth as int);
    if depth == path.len() {
        node.resource_indices.push(idx);
        assert(node@.leaves =~= before.leaves.push(idx as int));
        assert(node@.children == before.children);
        return node;
    }
    assert(rest[0] == path@[depth as int]@);
    assert(rest.skip(1) =~= texts(path@).skip(depth + 1));
    let (p, found) = find_child(&node.children, path[depth].as_str());
    if found {
        let (name, child) = node.children.remove(p);
        let child = insert(child, path, depth + 1, idx);
        node.children.insert(p, (name, child));
        assert(node@.children =~= before.children.update(
            p as int,
            (rest[0], tree_insert(before.children[p as int].1, rest.skip(1), idx as int)),
        ));
        assert(node@.leaves == before.leaves);
    } else {
        let child = insert(NamespaceNode::new(), path, depth + 1, idx);
        node.children.insert(p, (path[depth].clone(), child));
        assert(node@.children =~= before.children.insert(
            p as int,
            (rest[0], tree_insert(empty_tree(), rest.skip(1), idx as int)),
        ));
        assert(node@.leaves == before.leaves);
    }
    node
}

/// Builds the namespace tree of the entries.
pub fn build_namespace_tree(entries: &Vec<ResourceEntry>) -> (root: NamespaceNode)
    ensures
        root@ == tree_of(entries_view(entries@), entries@.len() as int),
{
    let mut root = NamespaceNode::new();
    let mut i: usize = 0;
    while i < entries.len()
        invariant
            i <= entries@.len(),
            root@ == tree_of(entries_view(entries@), i as int),
        decreases entries@.len() - i,
    {
        assert(entries_view(entries@)[i as int] == entries@[i as int]@);
        assert(texts(entries@[i as int].namespace_path@).skip(0) =~= texts(
            entries@[i as int].namespace_path@,
        ));
        root = insert(root, &entries[i].namespace_path, 0, i);
        i = i + 1;
    }
    root
}

/// The leaf name by which the resource at position `idx` is ordered; a
/// position outside the entries counts as an empty name.
pub open spec fn leaf_key(entries: Seq<EntryView>, idx: int) -> Seq<char> {
    if 0 <= idx < entries.len() {
        entries[idx].leaf_name
    } else {
        Seq::empty()
    }
}

/// The first position at or after `i` whose resource sorts strictly after
/// `key`: where a resource of that key goes, behind all that do not sort
/// after it.
pub open spec fn sort_slot(sorted: Seq<int>, key: Seq<char>, entries: Seq<EntryView>, i: int) -> int
    decreases sorted.len() - i,
{
    if i < 0 || i >= sorted.len() {
        i
    } else if text_less(key, leaf_key(entries, sorted[i])) {
        i
    } else {
        sort_slot(sorted, key, entries, i + 1)
    }
}

/// The first `n` positions in the order of their leaf names; positions of
/// equal name keep the order in which they came.
pub open spec fn sorted_leaves(leaves: Seq<int>, entries: Seq<EntryView>, n: int) -> Seq<int>
    decreases n,
{
    if n <= 0 || n > leaves.len() {
        Seq::empty()
    } else {
        let before = sorted_leaves(leaves, entries, n - 1);
        let p = sort_slot(before, leaf_key(entries, leaves[n - 1]), entries, 0);
        if 0 <= p <= before.len() {
            before.insert(p, leaves[n - 1])
        } else {
            before
        }
    }
}

pub open spec fn sorted_children(cs: Seq<(Seq<char>, TreeView)>, entries: Seq<EntryView>) -> Seq<
    (Seq<char>, TreeView),
>
    decreases cs,
{
    Seq::new(
        cs.len(),
        |i: int|
            if 0 <= i < cs.len() {
                (cs[i].0, sorted_tree(cs[i].1, entries))
            } else {
                arbitrary()
            },
    )
}

/// The tree with the resources of every namespace in the order of their
/// leaf names.
pub open spec fn sorted_tree(t: TreeView, entries: Seq<EntryView>) -> TreeView
    decreases t,
{
    TreeView {
        children: sorted_children(t.children, entries),
        leaves: sorted_leaves(t.leaves, entries, t.leaves.len() as int),
    }
}

fn leaf_name(entries: &Vec<ResourceEntry>, idx: usize) -> (r: String)
    ensures
        r@ == leaf_key(entries_view(entries@), idx as int),
{
    if idx < entries.len() {
        assert(entries_view(entries@)[idx as int] == entries@[idx as int]@);
        entries[idx].leaf_name.clone()
    } else {
        String::new()
    }
}

fn sort_indices(indices: &Vec<usize>, entries: &Vec<ResourceEntry>) -> (r: Vec<usize>)
    ensures
        Seq::new(r@.len(), |i: int| r@[i] as int) == sorted_leaves(
            Seq::new(indices@.len(), |i: int| indices@[i] as int),
            entries_view(entries@),
            indices@.len() as int,
        ),
{
    let ghost leaves = Seq::new(indices@.len(), |i: int| indices@[i] as int);
    let ghost es = entries_view(entries@);
    let mut out: Vec<usize> = Vec::new();
    let mut n: usize = 0;
    assert(Seq::new(out@.len(), |i: int| out@[i] as int) =~= sorted_leaves(leaves, es, 0));
    while n < indices.len()
        invariant
            n <= indices@.len(),
            leaves == Seq::new(indices@.len(), |i: int| indices@[i] as int),
            es == entries_view(entries@),
            Seq::new(out@.len(), |i: int| out@[i] as int) == sorted_leaves(leaves, es, n as int),
        decreases indices@.len() - n,
    {
        let x = indices[n];
        let key = leaf_name(entries, x);
        let ghost before = Seq::new(out@.len(), |i: int| out@[i] as int);
        let mut p: usize = 0;
        while p < out.len()
            invariant
                p <= out@.len(),
                before == Seq::new(out@.len(), |i: int| out@[i] as int),
                es == entries_view(entries@),
                key@ == leaf_key(es, x as int),
                sort_slot(before, key@, es, 0) == sort_slot(before, key@, es, p as int),
            ensures
                p <= out@.len(),
                p == sort_slot(before, key@, es, 0),
            decreases out@.len() - p,
        {
            let other = leaf_name(entries, out[p]);
            assert(before[p as int] == out@[p as int] as int);
            if is_text_less(key.as_str(), other.as_str()) {
                assert(sort_slot(before, key@, es, p as int) == p);
                break;
            }
            p = p + 1;
        }
        assert(p == sort_slot(before, key@, es, 0));
        out.insert(p, x);
        n = n + 1;
        assert(leaves[n - 1] == x as int);
        assert(Seq::new(out@.len(), |i: int| out@[i] as int) =~= before.insert(p as int, x as int));
    }
    out
}

/// Orders the resources of every namespace by leaf name, keeping the order
/// of equal names.
#[verifier::loop_isolation(false)]
pub fn sort_namespace_tree(node: &NamespaceNode, entries: &Vec<ResourceEntry>) -> (r: NamespaceNode)
    ensures
        r@ == sorted_tree(node@, entries_view(entries@)),
    decreases node,
{
    let mut children: Vec<(String, NamespaceNode)> = Vec::new();
    let mut i: usize = 0;
    while i < node.children.len()
        invariant
            i <= node.children@.len(),
            children@.len() == i,
            forall|j: int|
                0 <= j < i ==> children@[j].0@ == node.children@[j].0@ && node_view(children@[j].1)
                    == sorted_tree(node_view(node.children@[j].1), entries_view(entries@)),
        decreases node.children@.len() - i,
    {
        proof {
            vstd::std_specs::vec::axiom_vec_index_decreases(node.children, i as int);
        }
        let child = sort_namespace_tree(&node.children[i].1, entries);
        children.push((node.children[i].0.clone(), child));
        i = i + 1;
    }
    let resource_indices = sort_indices(&node.resource_indices, entries);
    let r = NamespaceNode { children, resource_indices };
    assert(r@.children =~= sorted_children(node@.children, entries_view(entries@)));
    r
}

/// Whether the resource at position `idx` stands in the namespace that
/// `path` leads to.
pub open spec fn has_leaf_at(t: TreeView, path: Seq<Seq<char>>, idx: int) -> bool
    decreases path.len(),
{
    if path.len() == 0 {
        t.leaves.contains(idx)
    } else {
        exists|j: int|
            0 <= j < t.children.len() && (#[trigger] t.children[j]).0 == path[0] && has_leaf_at(
                t.children[j].1,
                path.skip(1),
                idx,
            )
    }
}

/// Whether the child namespaces of every namespace stand in the strict
/// order of their names: no name twice, and the order of emission fixed
/// by the names alone.
pub open spec fn children_ordered(t: TreeView) -> bool
    decreases t,
{
    &&& forall|i: int, j: int|
        0 <= i < j < t.children.len() ==> text_less(
            (#[trigger] t.children[i]).0,
            (#[trigger] t.children[j]).0,
        )
    &&& forall|i: int|
        0 <= i < t.children.len() ==> children_ordered((#[trigger] t.children[i]).1)
}

/// Whether the positions stand in the order of their leaf names.
pub open spec fn leaves_ordered(leaves: Seq<int>, entries: Seq<EntryView>) -> bool {
    forall|i: int, j: int|
        0 <= i < j < leaves.len() ==> !text_less(
            leaf_key(entries, #[trigger] leaves[j]),
            leaf_key(entries, #[trigger] leaves[i]),
        )
}

/// Whether the resources of every namespace stand in the order of their
/// leaf names.
pub open spec fn all_leaves_ordered(t: TreeView, entries: Seq<EntryView>) -> bool
    decreases t,
{
    &&& leaves_ordered(t.leaves, entries)
    &&& forall|i: int|
        0 <= i < t.children.len() ==> all_leaves_ordered((#[trigger] t.children[i]).1, entries)
}

proof fn lemma_child_slot(cs: Seq<(Seq<char>, TreeView)>, name: Seq<char>, i: int)
    requires
        0 <= i <= cs.len(),
    ensures
        i <= child_slot(cs, name, i) <= cs.len(),
        forall|k: int| i <= k < child_slot(cs, name, i) ==> text_less((#[trigger] cs[k]).0, name),
        child_slot(cs, name, i) < cs.len() ==> !text_less(cs[child_slot(cs, name, i)].0, name),
    decreases cs.len() - i,
{
    if i < cs.len() && text_less(cs[i].0, name) {
        lemma_child_slot(cs, name, i + 1);
    }
}

proof fn lemma_sort_slot(sorted: Seq<int>, key: Seq<char>, entries: Seq<EntryView>, i: int)
    requires
        0 <= i <= sorted.len(),
    ensures
        i <= sort_slot(sorted, key, entries, i) <= sorted.len(),
        forall|k: int|
            i <= k < sort_slot(sorted, key, entries, i) ==> !text_less(
                key,
                leaf_key(entries, #[trigger] sorted[k]),
            ),
        sort_slot(sorted, key, entries, i) < sorted.len() ==> text_less(
            key,
            leaf_key(entries, sorted[sort_slot(sorted, key, entries, i)]),
        ),
    decreases sorted.len() - i,
{
    if i < sorted.len() && !text_less(key, leaf_key(entries, sorted[i])) {
        lemma_sort_slot(sorted, key, entries, i + 1);
    }
}

/// Adding a resource puts it in the namespace of its path.
pub proof fn lemma_insert_adds(t: TreeView, path: Seq<Seq<char>>, idx: int)
    ensures
        has_leaf_at(tree_insert(t, path, idx), path, idx),
    decreases path.len(),
{
    let r = tree_insert(t, path, idx);
    if path.len() == 0 {
        assert(r.leaves[t.leaves.len() as int] == idx);
    } else {
        lemma_child_slot(t.children, path[0], 0);
        let p = child_slot(t.children, path[0], 0);
        if p < t.children.len() && t.children[p].0 == path[0] {
            lemma_insert_adds(t.children[p].1, path.skip(1), idx);
            assert(r.children[p].0 == path[0]);
        } else {
            lemma_insert_adds(empty_tree(), path.skip(1), idx);
            assert(r.children[p].0 == path[0]);
        }
    }
}

/// Adding a resource leaves every other where it stands.
pub proof fn lemma_insert_keeps(
    t: TreeView,
    path: Seq<Seq<char>>,
    idx: int,
    q: Seq<Seq<char>>,
    k: int,
)
    requires
        has_leaf_at(t, q, k),
    ensures
        has_leaf_at(tree_insert(t, path, idx), q, k),
    decreases path.len(),
{
    let r = tree_insert(t, path, idx);
    if path.len() == 0 {
        if q.len() == 0 {
            let m = choose|m: int| 0 <= m < t.leaves.len() && t.leaves[m] == k;
            assert(r.leaves[m] == k);
        } else {
            assert(r.children == t.children);
        }
    } else {
        lemma_child_slot(t.children, path[0], 0);
        let p = child_slot(t.children, path[0], 0);
        if q.len() == 0 {
            assert(r.leaves == t.leaves);
        } else {
            let j = choose|j: int|
                0 <= j < t.children.len() && (#[trigger] t.children[j]).0 == q[0] && has_leaf_at(
                    t.children[j].1,
                    q.skip(1),
                    k,
                );
            if p < t.children.len() && t.children[p].0 == path[0] {
                if j == p {
                    lemma_insert_keeps(t.children[p].1, path.skip(1), idx, q.skip(1), k);
                    assert(r.children[p].0 == q[0]);
                } else {
                    assert(r.children[j] == t.children[j]);
                }
            } else {
                if j < p {
                    assert(r.children[j] == t.children[j]);
                } else {
                    assert(r.children[j + 1] == t.children[j]);
                }
            }
        }
    }
}

/// Every entry stands in the tree in the namespace of its path.
pub proof fn lemma_tree_holds_entries(entries: Seq<EntryView>, n: int, i: int)
    requires
        0 <= i < n <= entries.len(),
    ensures
        has_leaf_at(tree_of(entries, n), entries[i].namespace_path, i),
    decreases n,
{
    let before = tree_of(entries, n - 1);
    if i == n - 1 {
        lemma_insert_adds(before, entries[n - 1].namespace_path, n - 1);
    } else {
        lemma_tree_holds_entries(entries, n - 1, i);
        lemma_insert_keeps(
            before,
            entries[n - 1].namespace_path,
            n - 1,
            entries[i].namespace_path,
            i,
        );
    }
}

/// Adding a resource keeps the child namespaces in the order of their
/// names.
pub proof fn lemma_insert_keeps_children_ordered(t: TreeView, path: Seq<Seq<char>>, idx: int)
    requires
        children_ordered(t),
    ensures
        children_ordered(tree_insert(t, path, idx)),
    decreases path.len(),
{
    let r = tree_insert(t, path, idx);
    if path.len() > 0 {
        lemma_child_slot(t.children, path[0], 0);
        let p = child_slot(t.children, path[0], 0);
        let name = path[0];
        if p < t.children.len() && t.children[p].0 == name {
            lemma_insert_keeps_children_ordered(t.children[p].1, path.skip(1), idx);
            assert forall|i: int, j: int| 0 <= i < j < r.children.len() implies text_less(
                (#[trigger] r.children[i]).0,
                (#[trigger] r.children[j]).0,
            ) by {
                assert(r.children[i].0 == t.children[i].0);
                assert(r.children[j].0 == t.children[j].0);
            }
            assert forall|i: int| 0 <= i < r.children.len() implies children_ordered(
                (#[trigger] r.children[i]).1,
            ) by {
                if i != p {
                    assert(r.children[i] == t.children[i]);
                }
            }
        } else {
            lemma_insert_keeps_children_ordered(empty_tree(), path.skip(1), idx);
            if p < t.children.len() {
                lemma_text_less_total(name, t.children[p].0);
            }
            assert forall|i: int, j: int| 0 <= i < j < r.children.len() implies text_less(
                (#[trigger] r.children[i]).0,
                (#[trigger] r.children[j]).0,
            ) by {
                let a: int = if i < p {
                    i
                } else {
                    i - 1
                };
                let b: int = if j < p {
                    j
                } else {
                    j - 1
                };
                if i == p {
                    assert(r.children[j] == t.children[b]);
                    if b > p {
                        assert(text_less(t.children[p].0, t.children[b].0));
                        lemma_text_less_transitive(name, t.children[p].0, t.children[b].0);
                    }
                } else if j == p {
                    assert(r.children[i] == t.children[a]);
                } else {
                    assert(r.children[i] == t.children[a]);
                    assert(r.children[j] == t.children[b]);
                }
            }
            assert forall|i: int| 0 <= i < r.children.len() implies children_ordered(
                (#[trigger] r.children[i]).1,
            ) by {
                if i < p {
                    assert(r.children[i] == t.children[i]);
                } else if i > p {
                    assert(r.children[i] == t.children[i - 1]);
                }
            }
        }
    }
}

/// The tree of any entries has the child namespaces of every namespace in
/// the strict order of their names.
pub proof fn lemma_tree_children_ordered(entries: Seq<EntryView>, n: int)
    ensures
        children_ordered(tree_of(entries, n)),
    decreases n,
{
    if 0 < n <= entries.len() {
        lemma_tree_children_ordered(entries, n - 1);
        lemma_insert_keeps_children_ordered(
            tree_of(entries, n - 1),
            entries[n - 1].namespace_path,
            n - 1,
        );
    }
}

/// Sorting puts the positions in the order of their leaf names and loses
/// none of them.
pub proof fn lemma_sorted_leaves(leaves: Seq<int>, entries: Seq<EntryView>, n: int)
    requires
        0 <= n <= leaves.len(),
    ensures
        leaves_ordered(sorted_leaves(leaves, entries, n), entries),
        sorted_leaves(leaves, entries, n).len() == n,
        forall|m: int| 0 <= m < n ==> sorted_leaves(leaves, entries, n).contains(#[trigger] leaves[m]),
    decreases n,
{
    if n > 0 {
        lemma_sorted_leaves(leaves, entries, n - 1);
        let before = sorted_leaves(leaves, entries, n - 1);
        let x = leaves[n - 1];
        let key = leaf_key(entries, x);
        lemma_sort_slot(before, key, entries, 0);
        let p = sort_slot(before, key, entries, 0);
        let r = before.insert(p, x);
        assert(r == sorted_leaves(leaves, entries, n));
        assert forall|i: int, j: int| 0 <= i < j < r.len() implies !text_less(
            leaf_key(entries, #[trigger] r[j]),
            leaf_key(entries, #[trigger] r[i]),
        ) by {
            let a: int = if i < p {
                i
            } else {
                i - 1
            };
            let b: int = if j < p {
                j
            } else {
                j - 1
            };
            if i == p {
                assert(r[j] == before[b]);
                let kp = leaf_key(entries, before[p]);
                let kb = leaf_key(entries, before[b]);
                if text_less(kb, key) {
                    lemma_text_less_transitive(kb, key, kp);
                    if b > p {
                        assert(!text_less(leaf_key(entries, before[b]), leaf_key(entries, before[p])));
                    } else {
                        lemma_text_less_asymmetric(kb, key);
                    }
                }
            } else if j == p {
                assert(r[i] == before[a]);
            } else {
                assert(r[i] == before[a]);
                assert(r[j] == before[b]);
            }
        }
        assert forall|m: int| 0 <= m < n implies r.contains(#[trigger] leaves[m]) by {
            if m == n - 1 {
                assert(r[p] == x);
            } else {
                let k = choose|k: int| 0 <= k < before.len() && before[k] == leaves[m];
                if k < p {
                    assert(r[k] == leaves[m]);
                } else {
                    assert(r[k + 1] == leaves[m]);
                }
            }
        }
    }
}

/// After sorting, the resources of every namespace stand in the order of
/// their leaf names, and the child namespaces are as before.
pub proof fn lemma_sorted_tree_ordered(t: TreeView, entries: Seq<EntryView>)
    ensures
        all_leaves_ordered(sorted_tree(t, entries), entries),
        children_ordered(t) ==> children_ordered(sorted_tree(t, entries)),
    decreases t,
{
    let r = sorted_tree(t, entries);
    lemma_sorted_leaves(t.leaves, entries, t.leaves.len() as int);
    assert forall|i: int| 0 <= i < r.children.len() implies all_leaves_ordered(
        (#[trigger] r.children[i]).1,
        entries,
    ) by {
        lemma_sorted_tree_ordered(t.children[i].1, entries);
    }
    if children_ordered(t) {
        assert forall|i: int, j: int| 0 <= i < j < r.children.len() implies text_less(
            (#[trigger] r.children[i]).0,
            (#[trigger] r.children[j]).0,
        ) by {
            assert(r.children[i].0 == t.children[i].0);
            assert(r.children[j].0 == t.children[j].0);
        }
        assert forall|i: int| 0 <= i < r.children.len() implies children_ordered(
            (#[trigger] r.children[i]).1,
        ) by {
            lemma_sorted_tree_ordered(t.children[i].1, entries);
            assert(children_ordered(t.children[i].1));
        }
    }
}

/// Sorting leaves every resource in its namespace.
pub proof fn lemma_sorting_keeps(t: TreeView, entries: Seq<EntryView>, q: Seq<Seq<char>>, k: int)
    requires
        has_leaf_at(t, q, k),
    ensures
        has_leaf_at(sorted_tree(t, entries), q, k),
    decreases q.len(),
{
    let r = sorted_tree(t, entries);
    if q.len() == 0 {
        lemma_sorted_leaves(t.leaves, entries, t.leaves.len() as int);
        let m = choose|m: int| 0 <= m < t.leaves.len() && t.leaves[m] == k;
        assert(r.leaves.contains(t.leaves[m]));
    } else {
        let j = choose|j: int|
            0 <= j < t.children.len() && (#[trigger] t.children[j]).0 == q[0] && has_leaf_at(
                t.children[j].1,
                q.skip(1),
                k,
            );
        lemma_sorting_keeps(t.children[j].1, entries, q.skip(1), k);
        assert(r.children[j].0 == q[0]);
    }
}

/// The namespace tree that is emitted for a list of entries is well
/// ordered and complete: child namespaces stand in the strict order of
/// their names, the resources of every namespace in the order of their
/// leaf names, and every entry in the namespace of its path.
pub proof fn lemma_emitted_tree(entries: Seq<EntryView>, i: int)
    requires
        0 <= i < entries.len(),
    ensures
        children_ordered(sorted_tree(tree_of(entries, entries.len() as int), entries)),
        all_leaves_ordered(sorted_tree(tree_of(entries, entries.len() as int), entries), entries),
        has_leaf_at(
            sorted_tree(tree_of(entries, entries.len() as int), entries),
            entries[i].namespace_path,
            i,
        ),
{
    let t = tree_of(entries, entries.len() as int);
    lemma_tree_children_ordered(entries, entries.len() as int);
    lemma_sorted_tree_ordered(t, entries);
    lemma_tree_holds_entries(entries, entries.len() as int, i);
    lemma_sorting_keeps(t, entries, entries[i].namespace_path, i);
}

} // verus!
