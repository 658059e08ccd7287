use vstd::prelude::*;
use crate::toml::keyed::contains_key;
use crate::toml::keyed::distinct;
use crate::toml::keyed::lemma_distinct_position;
use crate::toml::keyed::value_at;

verus! {

/// What a node of a TOML document holds, as far as a manifest is concerned.
pub enum TreeView {
    /// Nothing stands here.
    Absent,
    /// A string.
    Text(Seq<char>),
    /// A boolean.
    Flag(bool),
    /// An array, with its elements in order.
    List(Seq<TreeView>),
    /// A table: whether it stands under a header of its own, rather than
    /// in one line as a value, and its keys in order with what stands
    /// under each.
    Table(bool, Seq<(Seq<char>, TreeView)>),
    /// An array of tables, each under a header of its own.
    Tables,
    /// Any other value: a number, a date.
    Other,
}

/// Whether a node is a table under a header of its own.
pub open spec fn is_headed(tree: TreeView) -> bool {
    tree matches TreeView::Table(headed, _) && headed
}

/// A chain of keys that leads from a table down to a node.
pub type KeyPath = Seq<Seq<char>>;

/// The keys of a table with what stands under them; empty for any other
/// node.
pub open spec fn entries_of(tree: TreeView) -> Seq<(Seq<char>, TreeView)> {
    match tree {
        TreeView::Table(_, entries) => entries,
        _ => Seq::empty(),
    }
}

/// What stands under `key` in the table at `tree`; `Absent` where `tree` is
/// no table or holds no such key.
pub open spec fn child(tree: TreeView, key: Seq<char>) -> TreeView {
    if contains_key(entries_of(tree), key) {
        value_at(entries_of(tree), key)
    } else {
        TreeView::Absent
    }
}

/// The node that `path` leads to from `tree`.
pub open spec fn lookup(tree: TreeView, path: KeyPath) -> TreeView
    decreases path.len(),
{
    if path.len() == 0 {
        tree
    } else {
        lookup(child(tree, path[0]), path.skip(1))
    }
}

/// `after` is `before` with `value` put where `path` leads, and nothing else
/// changed: at each table on the way every other key still holds what it
/// held. Tables that the way needs and that were absent have appeared. The
/// order of the keys is left open.
pub open spec fn written(before: TreeView, path: KeyPath, value: TreeView, after: TreeView) -> bool
    decreases path.len(),
{
    if path.len() == 0 {
        after == value
    } else {
        &&& after is Table
        &&& forall|other: Seq<char>|
            other != path[0] ==> #[trigger] child(after, other) == child(before, other)
        &&& written(child(before, path[0]), path.skip(1), value, child(after, path[0]))
    }
}

/// Under distinct keys, the key at an index leads to what stands at that
/// index.
pub proof fn lemma_child_at(tree: TreeView, i: int)
    requires
        distinct(entries_of(tree)),
        0 <= i < entries_of(tree).len(),
    ensures
        child(tree, entries_of(tree)[i].0) == entries_of(tree)[i].1,
{
    lemma_distinct_position(entries_of(tree), i);
}

/// After a write the node at the path is the value that was written.
pub proof fn lemma_written_lookup(before: TreeView, path: KeyPath, value: TreeView, after: TreeView)
    requires
        written(before, path, value, after),
    ensures
        lookup(after, path) == value,
    decreases path.len(),
{
    if path.len() > 0 {
        lemma_written_lookup(child(before, path[0]), path.skip(1), value, child(after, path[0]));
    }
}

/// Whether `p` leads at least as far as `q` along the same keys.
pub open spec fn extends(p: KeyPath, q: KeyPath) -> bool {
    q.len() <= p.len() && p.take(q.len() as int) == q
}

/// After a write, a path that parts from the written one leads to what it
/// led to before.
pub proof fn lemma_written_elsewhere(
    before: TreeView,
    path: KeyPath,
    value: TreeView,
    after: TreeView,
    other: KeyPath,
)
    requires
        written(before, path, value, after),
        !extends(other, path),
        !extends(path, other),
    ensures
        lookup(after, other) == lookup(before, other),
    decreases path.len(),
{
    if path.len() == 0 {
        assert(other.take(0) =~= path);
    } else if other.len() == 0 {
        assert(path.take(0) =~= other);
    } else if other[0] != path[0] {
    } else {
        let p = path.skip(1);
        let o = other.skip(1);
        assert(!extends(o, p)) by {
            if extends(o, p) {
                assert forall|k: int| 0 <= k < path.len() implies other[k] == path[k] by {
                    if k > 0 {
                        assert(o.take(p.len() as int)[k - 1] == p[k - 1]);
                    }
                }
                assert(other.take(path.len() as int) =~= path);
            }
        }
        assert(!extends(p, o)) by {
            if extends(p, o) {
                assert forall|k: int| 0 <= k < other.len() implies path[k] == other[k] by {
                    if k > 0 {
                        assert(p.take(o.len() as int)[k - 1] == o[k - 1]);
                    }
                }
                assert(path.take(other.len() as int) =~= other);
            }
        }
        lemma_written_elsewhere(child(before, path[0]), p, value, child(after, path[0]), o);
    }
}

} // verus!
