use crate::catalog::{NodeView, SectionView};
use crate::walk::{node_of, nodes_of, tree_of, EntryView, WalkErrorView};
use vstd::prelude::*;

verus! {

/// Whether two lists hold entries that are alike, one for one, in whatever order.
pub open spec fn alike_entries(a: Seq<EntryView>, b: Seq<EntryView>) -> bool
    decreases a, 1nat,
{
    if a.len() == 0 {
        b.len() == 0
    } else {
        exists|j: int|
            0 <= j < b.len() && alike_entry(a.last(), #[trigger] b[j]) && alike_entries(
                a.drop_last(),
                b.remove(j),
            )
    }
}

/// Whether two entries are the same but for the order of what lies below them.
pub open spec fn alike_entry(x: EntryView, y: EntryView) -> bool
    decreases x, 0nat,
{
    match x {
        EntryView::File { .. } => x == y,
        EntryView::Directory { name, path, config, entries } => {
            &&& y is Directory
            &&& y->Directory_name == name
            &&& y->Directory_path == path
            &&& y->Directory_config == config
            &&& alike_entries(entries, y->Directory_entries)
        },
    }
}

/// Whether two lists hold nodes that are alike, one for one, in whatever order.
pub open spec fn alike_nodes(a: Seq<NodeView>, b: Seq<NodeView>) -> bool
    decreases a, 1nat,
{
    if a.len() == 0 {
        b.len() == 0
    } else {
        exists|j: int|
            0 <= j < b.len() && alike_node(a.last(), #[trigger] b[j]) && alike_nodes(
                a.drop_last(),
                b.remove(j),
            )
    }
}

/// Whether two nodes are the same but for the order of what lies below them.
pub open spec fn alike_node(x: NodeView, y: NodeView) -> bool
    decreases x, 0nat,
{
    match x {
        NodeView::Asset(_) => x == y,
        NodeView::Section(s) => y is Section && alike_section(s, y->Section_0),
    }
}

/// Whether two sections are the same but for the order of what lies below them.
pub open spec fn alike_section(s: SectionView, t: SectionView) -> bool
    decreases s,
{
    &&& t.name == s.name
    &&& t.template == s.template
    &&& t.header == s.header
    &&& t.order == s.order
    &&& t.sort_order_reversed == s.sort_order_reversed
    &&& alike_nodes(s.content, t.content)
}

/// The nodes of two lists of entries, one after the other; the first failure decides.
pub open spec fn joined(
    first: Result<Seq<NodeView>, WalkErrorView>,
    second: Result<Seq<NodeView>, WalkErrorView>,
) -> Result<Seq<NodeView>, WalkErrorView> {
    match first {
        Err(e) => Err(e),
        Ok(p) => match second {
            Err(e) => Err(e),
            Ok(q) => Ok(p + q),
        },
    }
}

/// The nodes of one entry, as a list.
pub open spec fn single(entry: EntryView) -> Result<Seq<NodeView>, WalkErrorView> {
    match node_of(entry) {
        Err(e) => Err(e),
        Ok(None) => Ok(Seq::empty()),
        Ok(Some(node)) => Ok(seq![node]),
    }
}

/// The nodes of a list of one entry are the nodes of that entry.
pub proof fn lemma_nodes_of_single(entry: EntryView)
    ensures
        nodes_of(seq![entry]) == single(entry),
{
    let s = seq![entry];
    assert(s.drop_last() == Seq::<EntryView>::empty());
    assert(s.last() == entry);
    assert(nodes_of(s.drop_last()) == Ok::<Seq<NodeView>, WalkErrorView>(Seq::empty()));
    assert(Seq::<NodeView>::empty().push(node_of(entry)->Ok_0->0) == seq![
        node_of(entry)->Ok_0->0,
    ]);
}

/// The nodes of two lists of entries put together are the nodes of the one followed by those of the other.
pub proof fn lemma_nodes_of_concat(x: Seq<EntryView>, y: Seq<EntryView>)
    ensures
        nodes_of(x + y) == joined(nodes_of(x), nodes_of(y)),
    decreases y.len(),
{
    if y.len() == 0 {
        assert(x + y == x);
        if nodes_of(x) is Ok {
            assert(nodes_of(x)->Ok_0 + Seq::<NodeView>::empty() == nodes_of(x)->Ok_0);
        }
    } else {
        assert((x + y).drop_last() == x + y.drop_last());
        assert((x + y).last() == y.last());
        lemma_nodes_of_concat(x, y.drop_last());
        if nodes_of(x) is Ok && nodes_of(y.drop_last()) is Ok && node_of(y.last()) is Ok {
            let p = nodes_of(x)->Ok_0;
            let q = nodes_of(y.drop_last())->Ok_0;
            if node_of(y.last())->Ok_0 is Some {
                let n = node_of(y.last())->Ok_0->0;
                assert((p + q).push(n) == p + q.push(n));
            }
        }
    }
}

/// Lists of entries that are alike but for their order become lists of
/// nodes that are alike but for their order, or fail both.
pub proof fn lemma_alike_entries_alike_nodes(a: Seq<EntryView>, b: Seq<EntryView>)
    requires
        alike_entries(a, b),
    ensures
        match nodes_of(a) {
            Ok(found) => nodes_of(b) is Ok && alike_nodes(found, nodes_of(b)->Ok_0),
            Err(_) => nodes_of(b) is Err,
        },
    decreases a, 1nat,
{
    if a.len() == 0 {
        assert(b == Seq::<EntryView>::empty());
    } else {
        let j = choose|j: int|
            0 <= j < b.len() && alike_entry(a.last(), #[trigger] b[j]) && alike_entries(
                a.drop_last(),
                b.remove(j),
            );
        let b1 = b.take(j);
        let b2 = b.skip(j + 1);
        assert(b == b1 + seq![b[j]] + b2);
        assert(b.remove(j) == b1 + b2);
        lemma_alike_entries_alike_nodes(a.drop_last(), b.remove(j));
        lemma_alike_entry_alike_node(a.last(), b[j]);
        lemma_nodes_of_concat(b1, b2);
        lemma_nodes_of_concat(b1, seq![b[j]]);
        lemma_nodes_of_concat(b1 + seq![b[j]], b2);
        lemma_nodes_of_single(b[j]);
        if nodes_of(a) is Ok {
            let before = nodes_of(a.drop_last())->Ok_0;
            let n1 = nodes_of(b1)->Ok_0;
            let n2 = nodes_of(b2)->Ok_0;
            assert(nodes_of(b.remove(j)) == Ok::<Seq<NodeView>, WalkErrorView>(n1 + n2));
            match node_of(a.last())->Ok_0 {
                None => {
                    assert(n1 + Seq::<NodeView>::empty() + n2 == n1 + n2);
                },
                Some(n) => {
                    let m = node_of(b[j])->Ok_0->0;
                    let found = before.push(n);
                    let other = n1 + seq![m] + n2;
                    let k = n1.len() as int;
                    assert(nodes_of(b) == Ok::<Seq<NodeView>, WalkErrorView>(other));
                    assert(found.last() == n);
                    assert(other[k] == m);
                    assert(found.drop_last() == before);
                    assert(other.remove(k) == n1 + n2);
                    assert(alike_node(found.last(), other[k]) && alike_nodes(
                        found.drop_last(),
                        other.remove(k),
                    ));
                },
            }
        }
    }
}

/// Entries that are alike but for the order below them become nodes that
/// are alike but for the order below them, or fail both, or are both passed over.
pub proof fn lemma_alike_entry_alike_node(x: EntryView, y: EntryView)
    requires
        alike_entry(x, y),
    ensures
        match node_of(x) {
            Ok(None) => node_of(y) == Ok::<Option<NodeView>, WalkErrorView>(None),
            Ok(Some(node)) => node_of(y) is Ok && node_of(y)->Ok_0 is Some && alike_node(
                node,
                node_of(y)->Ok_0->0,
            ),
            Err(_) => node_of(y) is Err,
        },
    decreases x, 0nat,
{
    match x {
        EntryView::File { .. } => {
            if node_of(x) is Ok && node_of(x)->Ok_0 is Some {
                assert(node_of(x)->Ok_0->0 is Asset);
            }
        },
        EntryView::Directory { name, path, config, entries } => {
            lemma_alike_entries_alike_nodes(entries, y->Directory_entries);
        },
    }
}

/// Walking the same entries in another order, at whatever depth, gives the
/// same catalog but for the order of siblings, or fails both times.
pub proof fn lemma_walk_ignores_order(a: Seq<EntryView>, b: Seq<EntryView>)
    requires
        alike_entries(a, b),
    ensures
        match tree_of(a) {
            Ok(root) => tree_of(b) is Ok && alike_section(root, tree_of(b)->Ok_0),
            Err(_) => tree_of(b) is Err,
        },
{
    lemma_alike_entries_alike_nodes(a, b);
}

/// Any list of entries is alike to itself.
pub proof fn lemma_alike_entries_reflexive(a: Seq<EntryView>)
    ensures
        alike_entries(a, a),
    decreases a, 1nat,
{
    if a.len() > 0 {
        let j = a.len() - 1;
        assert(a.remove(j) == a.drop_last());
        lemma_alike_entries_reflexive(a.drop_last());
        lemma_alike_entry_reflexive(a[j]);
    }
}

/// Any entry is alike to itself.
pub proof fn lemma_alike_entry_reflexive(x: EntryView)
    ensures
        alike_entry(x, x),
    decreases x, 0nat,
{
    match x {
        EntryView::File { .. } => {},
        EntryView::Directory { entries, .. } => {
            lemma_alike_entries_reflexive(entries);
        },
    }
}

/// A list of entries is alike to the same list with two neighbours swapped.
pub proof fn lemma_swapped_neighbours_alike(
    front: Seq<EntryView>,
    x: EntryView,
    y: EntryView,
    back: Seq<EntryView>,
)
    ensures
        alike_entries(front + seq![x, y] + back, front + seq![y, x] + back),
    decreases back.len(),
{
    let a = front + seq![x, y] + back;
    let b = front + seq![y, x] + back;
    if back.len() == 0 {
        let j = front.len() as int;
        assert(a.last() == y);
        assert(b[j] == y);
        assert(a.drop_last() == front + seq![x]);
        assert(b.remove(j) == front + seq![x]);
        lemma_alike_entry_reflexive(y);
        lemma_alike_entries_reflexive(front + seq![x]);
    } else {
        let j = b.len() - 1;
        assert(a.last() == back.last());
        assert(b[j] == back.last());
        assert(a.drop_last() == front + seq![x, y] + back.drop_last());
        assert(b.remove(j) == front + seq![y, x] + back.drop_last());
        lemma_alike_entry_reflexive(back.last());
        lemma_swapped_neighbours_alike(front, x, y, back.drop_last());
    }
}

} // verus!
