//! What changes in the database tree, and what does not, when something
//! happens to it.
use vstd::prelude::*;

use crate::db_node;
use crate::db_node::{DbNodeType, NodeView};
use crate::node_store;
use crate::text;
use crate::tree_laws;
use crate::tree_list_laws;
use crate::tree_model;
use crate::tree_model::{ChangeView, ConnectionView, FlatView, Tree};
use crate::tree_row_laws;
use crate::tree_types::{ActionView, EventKind, EventView};

verus! {

// ---------------------------------------------------------------------------
// Nodes
// ---------------------------------------------------------------------------

/// A node that is put into the store is found by its id; all others are found
/// as before.
pub proof fn law_put(nodes: Seq<NodeView>, n: NodeView, other: Seq<char>)
    requires
        other != n.id,
    ensures
        node_store::find(node_store::put(nodes, n), n.id) == Some(n),
        node_store::find(node_store::put(nodes, n), other) == node_store::find(nodes, other),
{
    tree_laws::lemma_put_find(nodes, n, n.id);
    tree_laws::lemma_put_find(nodes, n, other);
}

/// Nodes that are taken out of the store are not found; all others are found as
/// before.
pub proof fn law_without(nodes: Seq<NodeView>, gone: Set<Seq<char>>, id: Seq<char>)
    ensures
        gone.contains(id) ==> node_store::find(node_store::without(nodes, gone), id) is None,
        !gone.contains(id) ==> node_store::find(node_store::without(nodes, gone), id)
            == node_store::find(nodes, id),
{
    tree_laws::lemma_without(nodes, gone, id);
}

/// Everything but the nodes is the same.
pub open spec fn only_nodes_differ(t: Tree, u: Tree) -> bool {
    u == (Tree { nodes: u.nodes, ..t })
}

/// Everything but the nodes, the rows and the selected row is the same.
pub open spec fn only_nodes_and_rows_differ(t: Tree, u: Tree) -> bool {
    u == (Tree { nodes: u.nodes, flat: u.flat, selected_ix: u.selected_ix, ..t })
}

/// Forgetting the state of a node forgets that it is loaded, loading, failed
/// and, where asked for, expanded, and nothing of other nodes.
pub proof fn law_state_forgotten(t: Tree, id: Seq<char>, other: Seq<char>)
    requires
        other != id,
    ensures
        ({
            let u = t.loading_state_cleared(id);
            let w = t.state_cleared(id);
            &&& !u.loaded.contains(id) && !u.loading.contains(id) && !u.errors.contains_key(id)
            &&& u.loaded.contains(other) == t.loaded.contains(other)
            &&& u.loading.contains(other) == t.loading.contains(other)
            &&& u.errors.contains_key(other) == t.errors.contains_key(other)
            &&& u.expanded == t.expanded
            &&& w == (Tree { expanded: w.expanded, ..u })
            &&& !w.expanded.contains(id)
            &&& w.expanded.contains(other) == t.expanded.contains(other)
            &&& u == (Tree { loaded: u.loaded, loading: u.loading, errors: u.errors, ..t })
        }),
{
}

/// A node whose children are forgotten has none and can be asked for them
/// again; it stays what it is otherwise, and so do all other nodes.
pub proof fn law_children_forgotten(t: Tree, id: Seq<char>, other: Seq<char>)
    requires
        other != id,
    ensures
        only_nodes_differ(t, t.children_reset(id)),
        t.children_reset(id).node(other) == t.node(other),
        t.node(id) is None ==> t.children_reset(id).node(id) is None,
        t.node(id) matches Some(n) ==> t.children_reset(id).node(id) == Some(
            NodeView { children: Seq::empty(), children_loaded: false, ..n },
        ),
{
    node_store::lemma_find(t.nodes, id);
    if let Some(n) = t.node(id) {
        let m = NodeView { children: Seq::empty(), children_loaded: false, ..n };
        tree_laws::lemma_put_find(t.nodes, m, id);
        tree_laws::lemma_put_find(t.nodes, m, other);
    }
}

/// Dropping a child from its parent leaves the other children in their order,
/// and all other nodes as they are.
pub proof fn law_child_dropped(
    t: Tree,
    parent: Seq<char>,
    p: NodeView,
    a: Seq<NodeView>,
    c: NodeView,
    b: Seq<NodeView>,
    other: Seq<char>,
)
    requires
        t.node(parent) == Some(p),
        p.children == a.push(c) + b,
        forall|i: int| 0 <= i < a.len() ==> (#[trigger] a[i]).id != c.id,
        forall|i: int| 0 <= i < b.len() ==> (#[trigger] b[i]).id != c.id,
        other != parent,
    ensures
        only_nodes_differ(t, t.child_dropped(parent, c.id)),
        t.child_dropped(parent, c.id).node(other) == t.node(other),
        t.child_dropped(parent, c.id).node(parent) == Some(NodeView { children: a + b, ..p }),
{
    let keep = |n: NodeView| n.id != c.id;
    node_store::lemma_find(t.nodes, parent);
    Seq::filter_distributes_over_add(a.push(c), b, keep);
    a.lemma_filter_push(c, keep);
    lemma_all_kept(a, keep);
    lemma_all_kept(b, keep);
    let q = NodeView { children: p.children.filter(keep), ..p };
    tree_laws::lemma_put_find(t.nodes, q, parent);
    tree_laws::lemma_put_find(t.nodes, q, other);
}

proof fn lemma_all_kept(v: Seq<NodeView>, keep: spec_fn(NodeView) -> bool)
    requires
        forall|i: int| 0 <= i < v.len() ==> keep(#[trigger] v[i]),
    ensures
        v.filter(keep) == v,
    decreases v.len(),
{
    reveal(Seq::filter);
    if v.len() > 0 {
        assert forall|i: int| 0 <= i < v.drop_last().len() implies keep(
            #[trigger] v.drop_last()[i],
        ) by {
            assert(v.drop_last()[i] == v[i]);
        }
        lemma_all_kept(v.drop_last(), keep);
        assert(v =~= v.drop_last().push(v.last()));
    }
}

/// A node that is removed is dropped from its parent first.
pub proof fn law_dropped_from_parent(t: Tree, id: Seq<char>, n: NodeView, parent: Seq<char>)
    requires
        t.node(id) == Some(n),
    ensures
        n.parent_context == Some(parent) ==> t.dropped_from_parent(id) == t.child_dropped(
            parent,
            id,
        ),
        n.parent_context is None ==> t.dropped_from_parent(id) == t,
{
}

/// A node that is added is stored and stands among the children of its parent,
/// which are the old ones and it, in the order of their keys; all other nodes
/// are as before.
pub proof fn law_child_added(t: Tree, parent: Seq<char>, p: NodeView, n: NodeView, other: Seq<char>)
    requires
        t.node(parent) == Some(p),
        n.id != parent,
        other != parent,
        other != n.id,
    ensures
        only_nodes_differ(t, t.child_added(parent, n)),
        t.child_added(parent, n).node(n.id) == Some(n),
        t.child_added(parent, n).node(other) == t.node(other),
        t.child_added(parent, n).node(parent) matches Some(q) && q.children.to_multiset()
            == p.children.push(n).to_multiset() && db_node::in_sibling_order(q.children) && q == (
        NodeView { children: q.children, ..p }),
{
    let stored = node_store::put(t.nodes, n);
    tree_laws::lemma_put_find(t.nodes, n, parent);
    tree_laws::lemma_put_find(t.nodes, n, other);
    tree_laws::lemma_put_find(t.nodes, n, n.id);
    node_store::lemma_find(t.nodes, parent);
    let q = NodeView { children: db_node::sorted(p.children.push(n)), ..p };
    tree_laws::lemma_put_find(stored, q, parent);
    tree_laws::lemma_put_find(stored, q, other);
    tree_laws::lemma_put_find(stored, q, n.id);
    db_node::law_sorted(p.children.push(n));
}

proof fn lemma_inner_differs(parent: Seq<char>, name: Seq<char>)
    ensures
        tree_model::inner_id(parent, name) != parent,
{
    assert(tree_model::inner_id(parent, name).len() > parent.len());
}

/// A database that is added stands below its connection, under its name.
pub proof fn law_database_added(
    t: Tree,
    connection_id: Seq<char>,
    c: NodeView,
    name: Seq<char>,
    sort_key: Seq<char>,
)
    requires
        t.node(connection_id) == Some(c),
    ensures
        ({
            let u = t.database_added(connection_id, name, sort_key);
            let id = connection_id.push(':') + name;
            &&& only_nodes_and_rows_differ(t, u)
            &&& u.node(id) matches Some(n) && n.name == name && n.node_type == DbNodeType::Database
                && n.parent_context == Some(connection_id) && n.database_name == Some(name)
                && n.connection_id == c.connection_id && n.database_type == c.database_type
                && n.sort_key == sort_key && n.children.len() == 0 && !n.children_loaded
            &&& u.node(connection_id) matches Some(d) && tree_row_laws::has_child(d, id)
        }),
{
    let id = tree_model::inner_id(connection_id, name);
    lemma_inner_differs(connection_id, name);
    let n = NodeView {
        parent_context: Some(connection_id),
        database_name: Some(name),
        ..db_node::new_node(
            id,
            name,
            DbNodeType::Database,
            c.connection_id,
            c.database_type,
            sort_key,
        )
    };
    lemma_added_is_child(t, connection_id, c, n);
}

proof fn lemma_added_is_child(t: Tree, parent: Seq<char>, p: NodeView, n: NodeView)
    requires
        t.node(parent) == Some(p),
        n.id != parent,
    ensures
        t.child_added(parent, n).node(n.id) == Some(n),
        t.child_added(parent, n).node(parent) matches Some(q) && tree_row_laws::has_child(q, n.id),
        only_nodes_differ(t, t.child_added(parent, n)),
{
    broadcast use vstd::seq_lib::to_multiset_contains;

    let other = parent + n.id.push('x');
    assert(other.len() > parent.len() && other.len() > n.id.len());
    law_child_added(t, parent, p, n, other);
    let q = t.child_added(parent, n).node(parent)->0;
    let all = p.children.push(n);
    assert(all[all.len() - 1] == n);
    assert(all.contains(n));
    assert(all.to_multiset().count(n) > 0);
    assert(q.children.contains(n));
    let j = choose|j: int| 0 <= j < q.children.len() && q.children[j] == n;
    assert(q.children[j].id == n.id);
}

/// A schema that is added stands below its database, under its name.
pub proof fn law_schema_added(
    t: Tree,
    connection_id: Seq<char>,
    database: Seq<char>,
    d: NodeView,
    name: Seq<char>,
    sort_key: Seq<char>,
)
    requires
        t.node(connection_id.push(':') + database) == Some(d),
    ensures
        ({
            let u = t.schema_added(connection_id, database, name, sort_key);
            let parent = connection_id.push(':') + database;
            let id = parent.push(':') + name;
            &&& only_nodes_and_rows_differ(t, u)
            &&& u.node(id) matches Some(n) && n.name == name && n.node_type == DbNodeType::Schema
                && n.parent_context == Some(parent) && n.schema_name == Some(name)
                && n.connection_id == connection_id && n.database_type == d.database_type
                && n.sort_key == sort_key && n.children.len() == 0 && !n.children_loaded
            &&& u.node(parent) matches Some(e) && tree_row_laws::has_child(e, id)
        }),
{
    let parent = tree_model::inner_id(connection_id, database);
    lemma_inner_differs(parent, name);
    let n = NodeView {
        parent_context: Some(parent),
        schema_name: Some(name),
        ..db_node::new_node(
            tree_model::inner_id(parent, name),
            name,
            DbNodeType::Schema,
            connection_id,
            d.database_type,
            sort_key,
        )
    };
    lemma_added_is_child(t, parent, d, n);
}

/// A database or schema that is removed is gone, with all below it, and so is
/// its state.
pub proof fn law_inner_removed(t: Tree, parent: Seq<char>, id: Seq<char>, other: Seq<char>)
    requires
        parent != id,
        other != parent,
    ensures
        t.inner_removed(parent, id).node(id) is None,
        node_store::descends(t.nodes, id, other) ==> t.inner_removed(parent, id).node(other)
            is None,
        !node_store::descends(t.nodes, id, other) && other != id ==> t.inner_removed(
            parent,
            id,
        ).node(other) == t.node(other),
        !t.inner_removed(parent, id).expanded.contains(id),
        !t.inner_removed(parent, id).loaded.contains(id),
        t.inner_removed(parent, id).node(parent) matches Some(p) ==> !tree_row_laws::has_child(
            p,
            id,
        ),
{
    let a = t.descendants_cleared(id);
    tree_laws::lemma_without(t.nodes, node_store::below(t.nodes, id), other);
    let b = a.node_dropped(id);
    tree_laws::lemma_without(a.nodes, set![id], id);
    tree_laws::lemma_without(a.nodes, set![id], other);
    let keep = |c: NodeView| c.id != id;
    if let Some(p) = b.node(parent) {
        node_store::lemma_find(b.nodes, parent);
        let q = NodeView { children: p.children.filter(keep), ..p };
        tree_laws::lemma_put_find(b.nodes, q, id);
        tree_laws::lemma_put_find(b.nodes, q, other);
        tree_laws::lemma_put_find(b.nodes, q, parent);
        assert forall|j: int| 0 <= j < q.children.len() implies (#[trigger] q.children[j]).id
            != id by {
            p.children.lemma_filter_pred(keep, j);
        }
    }
}

// ---------------------------------------------------------------------------
// Loading
// ---------------------------------------------------------------------------

/// Children are asked for just where the node is stored and neither loaded nor
/// loading; it is loading then, and nothing else changes.
pub proof fn law_load(t: Tree, id: Seq<char>, other: Seq<char>)
    requires
        other != id,
    ensures
        ({
            let can = t.node(id) is Some && !t.loaded.contains(id) && !t.loading.contains(id);
            &&& t.can_start_load(id) == can
            &&& can ==> t.load_request(id) == seq![ActionView::LoadChildren(id)]
            &&& !can ==> t.load_request(id).len() == 0
            &&& t.load_started(id).loading.contains(id) == (can || t.loading.contains(id))
            &&& t.load_started(id).loading.contains(other) == t.loading.contains(other)
            &&& t.load_started(id) == (Tree { loading: t.load_started(id).loading, ..t })
        }),
{
}

/// Of a list of nodes, the children of each that can be loaded are asked for,
/// in the order of the list, and once even where the node stands twice in it.
pub proof fn law_loads(t: Tree, list: Seq<Seq<char>>, id: Seq<char>)
    ensures
        t.loads_started(list) == (Tree { loading: t.loads_started(list).loading, ..t }),
        t.loads_started(list).loading.contains(id) == (t.loading.contains(id) || (list.contains(id)
            && t.can_start_load(id))),
        t.load_requests(list).contains(ActionView::LoadChildren(id)) == (list.contains(id)
            && t.can_start_load(id)),
        t.loads_of(list).contains(id) == (list.contains(id) && t.can_start_load(id)),
        t.loads_of(list).no_duplicates(),
        t.load_requests(list) == t.loads_of(list).map_values(
            |id: Seq<char>| ActionView::LoadChildren(id),
        ),
        list.no_duplicates() && (forall|i: int|
            0 <= i < list.len() ==> t.can_start_load(#[trigger] list[i])) ==> t.loads_of(list)
            == list,
    decreases list.len(),
{
    let ask = |id: Seq<char>| ActionView::LoadChildren(id);
    if list.len() == 0 {
        assert(t.load_requests(list) =~= t.loads_of(list).map_values(ask));
        assert(t.loads_of(list) =~= list);
    } else {
        let rest = list.drop_last();
        let last = list.last();
        law_loads(t, rest, id);
        law_loads(t, rest, last);
        let u = t.loads_started(rest);
        assert(list =~= rest.push(last));
        assert(list.contains(id) == (rest.contains(id) || last == id)) by {
            if rest.contains(id) {
                let i = choose|i: int| 0 <= i < rest.len() && rest[i] == id;
                assert(list[i] == id);
            }
            if last == id {
                assert(list[list.len() - 1] == id);
            }
            if list.contains(id) {
                let i = choose|i: int| 0 <= i < list.len() && list[i] == id;
                assert(i < rest.len() ==> rest[i] == id);
            }
        }
        let old = t.loads_of(rest);
        if u.can_start_load(last) {
            assert(t.load_requests(list) =~= old.push(last).map_values(ask));
            assert(old.push(last)[old.len() as int] == last);
            assert(old.push(last).contains(id) == (old.contains(id) || last == id)) by {
                if old.contains(id) {
                    let i = choose|i: int| 0 <= i < old.len() && old[i] == id;
                    assert(old.push(last)[i] == id);
                }
            }
        } else {
            assert(t.load_requests(list) =~= old.map_values(ask));
        }
        let new = t.loads_of(list);
        let asked = t.load_requests(list);
        assert(asked.contains(ask(id)) == new.contains(id)) by {
            if new.contains(id) {
                let i = choose|i: int| 0 <= i < new.len() && new[i] == id;
                assert(asked[i] == ask(id));
            }
            if asked.contains(ask(id)) {
                let i = choose|i: int| 0 <= i < asked.len() && asked[i] == ask(id);
                assert(new[i] == id);
            }
        }
        if list.no_duplicates() && (forall|i: int|
            0 <= i < list.len() ==> t.can_start_load(#[trigger] list[i])) {
            assert forall|i: int| 0 <= i < rest.len() implies t.can_start_load(
                #[trigger] rest[i],
            ) by {
                assert(rest[i] == list[i]);
            }
            assert(!rest.contains(last));
            assert(t.can_start_load(list[list.len() - 1]));
        }
    }
}

/// The children that came are those of the node from then on, it is loaded, no
/// longer loading, and what failed before is forgotten. Where the children have
/// no children themselves, all differ and none is the node itself, each is
/// stored.
pub proof fn law_children_taken(
    t: Tree,
    id: Seq<char>,
    n: NodeView,
    children: Seq<NodeView>,
    i: int,
    other: Seq<char>,
)
    requires
        t.node(id) == Some(n),
        forall|j: int| 0 <= j < children.len() ==> (#[trigger] children[j]).children.len() == 0
            && children[j].id != id && children[j].id != other,
        forall|j: int, k: int|
            0 <= j < k < children.len() ==> (#[trigger] children[j]).id != (
            #[trigger] children[k]).id,
        0 <= i < children.len(),
        other != id,
    ensures
        ({
            let u = t.children_taken(id, children);
            &&& u.node(id) == Some(NodeView { children, children_loaded: true, ..n })
            &&& u.node(children[i].id) == Some(children[i])
            &&& u.node(other) == t.node(other)
            &&& u.loaded.contains(id) && !u.loading.contains(id) && !u.errors.contains_key(id)
            &&& u.loaded.contains(other) == t.loaded.contains(other)
            &&& u.loading.contains(other) == t.loading.contains(other)
            &&& u.expanded == t.expanded
            &&& u == (Tree {
                nodes: u.nodes,
                loaded: u.loaded,
                loading: u.loading,
                errors: u.errors,
                flat: u.flat,
                selected_ix: u.selected_ix,
                ..t
            })
        }),
{
    let own = NodeView { children, children_loaded: true, ..n };
    node_store::lemma_find(t.nodes, id);
    tree_laws::lemma_put_find(t.nodes, own, id);
    tree_laws::lemma_put_find(t.nodes, own, other);
    let nodes = node_store::put(t.nodes, own);
    lemma_leaves_put(nodes, children, id);
    lemma_leaves_put(nodes, children, other);
    lemma_leaf_put(nodes, children, i);
}

proof fn lemma_leaves_put(nodes: Seq<NodeView>, list: Seq<NodeView>, id: Seq<char>)
    requires
        forall|j: int| 0 <= j < list.len() ==> (#[trigger] list[j]).children.len() == 0
            && list[j].id != id,
    ensures
        node_store::find(tree_model::subtrees_put(nodes, list), id) == node_store::find(nodes, id),
    decreases list.len(),
{
    if list.len() > 0 {
        let rest = list.drop_last();
        assert forall|j: int| 0 <= j < rest.len() implies (#[trigger] rest[j]).children.len() == 0
            && rest[j].id != id by {
            assert(rest[j] == list[j]);
        }
        lemma_leaves_put(nodes, rest, id);
        let last = list[list.len() - 1];
        let before = tree_model::subtrees_put(nodes, rest);
        tree_laws::lemma_put_find(before, last, id);
        law_subtree_stored(before, last, rest);
        law_subtree_stored(nodes, last, rest);
        assert(rest.push(last) =~= list);
    }
}

proof fn lemma_leaf_put(nodes: Seq<NodeView>, list: Seq<NodeView>, i: int)
    requires
        forall|j: int| 0 <= j < list.len() ==> (#[trigger] list[j]).children.len() == 0,
        forall|j: int, k: int|
            0 <= j < k < list.len() ==> (#[trigger] list[j]).id != (#[trigger] list[k]).id,
        0 <= i < list.len(),
    ensures
        node_store::find(tree_model::subtrees_put(nodes, list), list[i].id) == Some(list[i]),
    decreases list.len(),
{
    let rest = list.drop_last();
    let last = list[list.len() - 1];
    let before = tree_model::subtrees_put(nodes, rest);
    assert forall|j: int| 0 <= j < rest.len() implies (#[trigger] rest[j]).children.len() == 0 by {
        assert(rest[j] == list[j]);
    }
    if i < rest.len() {
        assert(rest[i] == list[i]);
        lemma_leaf_put(nodes, rest, i);
    }
    tree_laws::lemma_put_find(before, last, list[i].id);
    law_subtree_stored(before, last, rest);
    law_subtree_stored(nodes, last, rest);
    assert(rest.push(last) =~= list);
}

/// What is nested in a node is stored with it: first the node itself, then the
/// subtrees of its children, one after the other.
pub proof fn law_subtree_stored(nodes: Seq<NodeView>, n: NodeView, list: Seq<NodeView>)
    ensures
        n.children.len() == 0 ==> tree_model::subtree_put(nodes, n) == node_store::put(nodes, n),
        tree_model::subtree_put(nodes, n) == tree_model::subtrees_put(
            node_store::put(nodes, n),
            n.children,
        ),
        tree_model::subtrees_put(nodes, list.push(n)) == tree_model::subtree_put(
            tree_model::subtrees_put(nodes, list),
            n,
        ),
{
    assert(list.push(n).drop_last() =~= list);
}

/// When children came, those of them that are expanded are loaded in turn; a
/// connection counts as in use, and a selected node is selected again.
pub proof fn law_load_finished(
    t: Tree,
    id: Seq<char>,
    connection_id: Seq<char>,
    kind: DbNodeType,
    children: Seq<NodeView>,
    child: Seq<char>,
    number: i64,
)
    ensures
        ({
            let taken = t.children_taken(id, children);
            let done = t.load_finished(id, children);
            let asked = t.load_finished_actions(id, connection_id, kind, children);
            let again = ActionView::Emit(EventView { kind: EventKind::NodeSelected, node_id: id });
            &&& done == (Tree { loading: done.loading, ..taken })
            &&& done.loading.contains(child) == (taken.loading.contains(child) || (
            tree_model::ids_within(children, t.expanded).contains(child) && taken.can_start_load(
                child,
            )))
            &&& asked.contains(ActionView::LoadChildren(child)) == (tree_model::ids_within(
                children,
                t.expanded,
            ).contains(child) && taken.can_start_load(child))
            &&& asked.contains(ActionView::MarkActive(number)) == (kind == DbNodeType::Connection
                && tree_model::connection_number(connection_id) == Some(number as int))
            &&& asked.contains(again) == (t.node(id) is Some && t.selected_node_id == Some(id))
        }),
{
    let taken = t.children_taken(id, children);
    let list = tree_model::ids_within(children, t.expanded);
    law_loads(taken, list, child);
    let asked = t.load_finished_actions(id, connection_id, kind, children);
    let tail = taken.load_requests(list);
    let active = if kind == DbNodeType::Connection && tree_model::connection_number(
        connection_id,
    ) is Some {
        seq![ActionView::MarkActive(tree_model::connection_number(connection_id)->0 as i64)]
    } else {
        Seq::empty()
    };
    let again = if t.node(id) is Some && t.selected_node_id == Some(id) {
        seq![tree_model::node_selected(id)]
    } else {
        Seq::empty()
    };
    assert(asked == active + again + tail);
    lemma_in_three(active, again, tail, ActionView::LoadChildren(child));
    lemma_in_three(active, again, tail, ActionView::MarkActive(number));
    lemma_in_three(active, again, tail, tree_model::node_selected(id));
    assert forall|i: int| 0 <= i < tail.len() implies tail[i] is LoadChildren by {}
    assert(active.contains(ActionView::MarkActive(number)) == (kind == DbNodeType::Connection
        && tree_model::connection_number(connection_id) == Some(number as int))) by {
        if kind == DbNodeType::Connection && tree_model::connection_number(connection_id) is Some {
            lemma_number_fits(connection_id);
            assert(active[0] == ActionView::MarkActive(
                tree_model::connection_number(connection_id)->0 as i64,
            ));
        }
    }
    assert(again.contains(tree_model::node_selected(id)) == (t.node(id) is Some
        && t.selected_node_id == Some(id))) by {
        if again.len() > 0 {
            assert(again[0] == tree_model::node_selected(id));
        }
    }
}

proof fn lemma_number_fits(id: Seq<char>)
    ensures
        tree_model::connection_number(id) matches Some(n) ==> i64::MIN <= n <= i64::MAX,
{
}

proof fn lemma_in_three(
    a: Seq<ActionView>,
    b: Seq<ActionView>,
    c: Seq<ActionView>,
    x: ActionView,
)
    ensures
        (a + b + c).contains(x) == (a.contains(x) || b.contains(x) || c.contains(x)),
{
    let all = a + b + c;
    if a.contains(x) {
        let i = choose|i: int| 0 <= i < a.len() && a[i] == x;
        assert(all[i] == x);
    }
    if b.contains(x) {
        let i = choose|i: int| 0 <= i < b.len() && b[i] == x;
        assert(all[a.len() + i] == x);
    }
    if c.contains(x) {
        let i = choose|i: int| 0 <= i < c.len() && c[i] == x;
        assert(all[a.len() + b.len() + i] == x);
    }
}

/// A load that failed is remembered with its error, for that node alone.
pub proof fn law_load_failed(t: Tree, id: Seq<char>, error: Seq<char>, other: Seq<char>)
    requires
        other != id,
    ensures
        ({
            let u = t.load_failed(id, error);
            &&& u.errors.contains_key(id) && u.errors[id] == error
            &&& !u.loading.contains(id) && !u.expanded.contains(id)
            &&& u.errors.contains_key(other) == t.errors.contains_key(other)
            &&& u.loading.contains(other) == t.loading.contains(other)
            &&& u.expanded.contains(other) == t.expanded.contains(other)
            &&& u.nodes == t.nodes && u.loaded == t.loaded
        }),
{
}

// ---------------------------------------------------------------------------
// Expanding
// ---------------------------------------------------------------------------

/// A node that is folded is unfolded and its children are asked for where they
/// are not known; one that is unfolded is folded. Other nodes stay as they are.
pub proof fn law_expansion_toggled(t: Tree, id: Seq<char>, other: Seq<char>)
    requires
        other != id,
    ensures
        ({
            let u = t.expansion_toggled(id);
            &&& u.expanded.contains(id) == !t.expanded.contains(id)
            &&& u.expanded.contains(other) == t.expanded.contains(other)
            &&& t.expanded.contains(id) ==> u.loading == t.loading && t.expansion_request(id).len()
                == 0
            &&& !t.expanded.contains(id) ==> t.expansion_request(id) == t.load_request(id)
                && u.loading == t.load_started(id).loading
            &&& u.nodes == t.nodes && u.loaded == t.loaded && u.errors == t.errors
            &&& u.selected_databases == t.selected_databases && u.search_query == t.search_query
        }),
{
}

/// A double click on a node whose load failed tries it again; on a table, a view
/// or a named query opens it; on a node that folds toggles it. What is opened or
/// toggled is selected too.
pub proof fn law_double_click(t: Tree, id: Seq<char>)
    ensures
        ({
            let u = t.double_clicked(id);
            let asked = t.double_click_actions(id);
            let selected = ActionView::Emit(
                EventView { kind: EventKind::NodeSelected, node_id: id },
            );
            &&& u.context_menu_node_id is None
            &&& t.errors.contains_key(id) ==> !u.errors.contains_key(id) && asked
                == t.load_request(id) && u.expanded == t.expanded && u.loading == t.load_started(
                id,
            ).loading
            &&& !t.errors.contains_key(id) && t.node(id) is None ==> asked.len() == 0 && u == (
            Tree { context_menu_node_id: None, ..t })
            &&& !t.errors.contains_key(id) && t.node(id) is Some ==> {
                let kind = (t.node(id)->0).node_type;
                &&& asked.len() > 0 && asked.last() == selected
                &&& kind == DbNodeType::Table ==> asked[0] == ActionView::Emit(
                    EventView { kind: EventKind::OpenTableData, node_id: id },
                ) && asked.len() == 2
                &&& kind == DbNodeType::View ==> asked[0] == ActionView::Emit(
                    EventView { kind: EventKind::OpenViewData, node_id: id },
                ) && asked.len() == 2
                &&& kind == DbNodeType::NamedQuery ==> asked[0] == ActionView::Emit(
                    EventView { kind: EventKind::OpenNamedQuery, node_id: id },
                ) && asked.len() == 2
                &&& tree_model::is_foldable(kind) ==> asked == t.expansion_request(id).push(
                    selected,
                ) && u.expanded.contains(id) == !t.expanded.contains(id)
                &&& !tree_model::is_foldable(kind) ==> u.expanded == t.expanded
                &&& !tree_model::is_foldable(kind) && kind != DbNodeType::Table && kind
                    != DbNodeType::View && kind != DbNodeType::NamedQuery ==> asked == seq![
                    selected,
                ]
            }
        }),
{
}

// ---------------------------------------------------------------------------
// The selection of databases
// ---------------------------------------------------------------------------

/// A selection counts for its connection alone: all databases are selected where
/// there is none, and just those in it where there is one.
pub proof fn law_selection(
    t: Tree,
    connection_id: Seq<char>,
    set: Set<Seq<char>>,
    name: Seq<char>,
    other: Seq<char>,
)
    requires
        other != connection_id,
    ensures
        t.with_selection(connection_id, None).is_selected(connection_id, name),
        t.with_selection(connection_id, Some(set)).is_selected(connection_id, name) == set.contains(
            name,
        ),
        t.with_selection(connection_id, Some(set)).is_selected(other, name) == t.is_selected(
            other,
            name,
        ),
        t.with_selection(connection_id, Some(set)) == (Tree {
            selected_databases: t.with_selection(
                connection_id,
                Some(set),
            ).selected_databases,
            ..t
        }),
        t.save_request(connection_id) == ActionView::SaveFilter(
            connection_id,
            t.selection(connection_id),
        ),
        !t.selected_databases.contains_key(connection_id) ==> t.is_selected(connection_id, name),
{
}

/// Toggling a database changes whether it is selected, and that of no other of
/// its connection.
pub proof fn law_toggle_flips(
    t: Tree,
    connection_id: Seq<char>,
    name: Seq<char>,
    other: Seq<char>,
)
    requires
        tree_model::names(t.databases(connection_id)).contains(name),
        tree_model::names(t.databases(connection_id)).contains(other),
        other != name,
        t.selection(connection_id) matches Some(set) ==> set.finite() && set.subset_of(
            tree_model::names(t.databases(connection_id)),
        ),
    ensures
        t.toggled(connection_id, name).is_selected(connection_id, name) == !t.is_selected(
            connection_id,
            name,
        ),
        t.toggled(connection_id, name).is_selected(connection_id, other) == t.is_selected(
            connection_id,
            other,
        ),
        t.toggled(connection_id, name).nodes == t.nodes,
        t.toggled(connection_id, name).expanded == t.expanded,
{
    let all = tree_model::names(t.databases(connection_id));
    tree_laws::lemma_names_finite(t.databases(connection_id));
    if let Some(set) = t.selection(connection_id) {
        let changed = if set.contains(name) {
            set.remove(name)
        } else {
            set.insert(name)
        };
        assert(changed.subset_of(all));
        if changed.len() == all.len() {
            vstd::set_lib::lemma_subset_equality(changed, all);
        }
    }
}

/// A database that is added to a selection is selected from then on, the others
/// stay as they are, and the new selection is saved; where all are selected, and
/// for an empty name, nothing changes.
pub proof fn law_selection_added(
    t: Tree,
    connection_id: Seq<char>,
    name: Seq<char>,
    other: Seq<char>,
)
    requires
        other != name,
    ensures
        ({
            let u = t.selection_added(connection_id, name);
            let asked = t.selection_added_request(connection_id, name);
            &&& name.len() > 0 ==> u.is_selected(connection_id, name)
            &&& u.is_selected(connection_id, other) == t.is_selected(connection_id, other)
            &&& t.selection(connection_id) is None || name.len() == 0 ==> u == t && asked.len() == 0
            &&& t.selection(connection_id) is Some && name.len() > 0 ==> asked == seq![
                ActionView::SaveFilter(connection_id, u.selection(connection_id)),
            ]
            &&& u == (Tree { selected_databases: u.selected_databases, ..t })
        }),
{
}

// ---------------------------------------------------------------------------
// Refreshing and showing
// ---------------------------------------------------------------------------

/// Refreshing a view or a function refreshes what holds it; refreshing anything
/// else refreshes the node itself.
pub proof fn law_refresh_target(t: Tree, id: Seq<char>)
    ensures
        t.node(id) matches Some(n) ==> t.refresh_target(id) == (if (n.node_type == DbNodeType::View
            || n.node_type == DbNodeType::Function) && n.parent_context is Some {
            n.parent_context->0
        } else {
            id
        }),
        t.node(id) is None ==> t.refresh_target(id) == id,
{
}

/// A refresh forgets what lies below the node, and that it was loaded, and
/// nothing of nodes elsewhere.
pub proof fn law_refreshed(t: Tree, id: Seq<char>, other: Seq<char>)
    requires
        other != id,
        !node_store::descends(t.nodes, id, other),
    ensures
        t.refreshed(id).node(other) == t.node(other),
        t.refreshed(id).loaded.contains(other) == t.loaded.contains(other),
        t.refreshed(id).loading.contains(other) == t.loading.contains(other),
        t.refreshed(id).expanded == t.expanded,
        t.refreshed(id).selected_databases == t.selected_databases,
        !t.refreshed(id).loaded.contains(id),
{
    let a = t.descendants_cleared(id);
    tree_laws::lemma_without(t.nodes, node_store::below(t.nodes, id), other);
    law_children_forgotten(a.loading_state_cleared(id), id, other);
}

/// A database is there and selected before it is shown; where there is none of
/// that name, it is added.
pub proof fn law_database_ensured(
    t: Tree,
    connection_id: Seq<char>,
    name: Seq<char>,
    sort_key: Seq<char>,
)
    requires
        t.node(connection_id) is Some,
        name.len() > 0,
    ensures
        ({
            let u = t.database_ensured(connection_id, name, sort_key);
            &&& u.is_selected(connection_id, name)
            &&& u.node(connection_id) is Some
            &&& u.expanded == t.expanded && u.loaded == t.loaded && u.loading == t.loading
            &&& t.database_node(connection_id, name) is Some ==> u.nodes == t.nodes
            &&& t.database_node(connection_id, name) is None ==> (u.node(
                connection_id.push(':') + name,
            ) matches Some(n) && n.name == name && n.node_type == DbNodeType::Database)
            &&& u.database_node(connection_id, name) is Some
        }),
{
    tree_laws::law_database_can_be_shown(t, connection_id, name, sort_key);
    let u = t.selection_added(connection_id, name);
    let c = t.node(connection_id)->0;
    if t.database_node(connection_id, name) is None {
        law_database_added(u, connection_id, c, name, sort_key);
    }
}

/// A database that is shown is unfolded under its connection and selected, and
/// the children of both are asked for where they are not known.
pub proof fn law_database_shown(
    t: Tree,
    connection_id: Seq<char>,
    name: Seq<char>,
    sort_key: Seq<char>,
)
    ensures
        name.len() == 0 || t.node(connection_id) is None ==> t.database_shown(
            connection_id,
            name,
            sort_key,
        ) == t && t.database_shown_id(connection_id, name, sort_key) is None
            && t.database_shown_actions(connection_id, name, sort_key).len() == 0,
        name.len() > 0 && t.node(connection_id) is Some ==> {
            let u = t.database_shown(connection_id, name, sort_key);
            let e = t.database_ensured(connection_id, name, sort_key);
            let id = t.database_shown_id(connection_id, name, sort_key);
            &&& id is Some && e.database_node(connection_id, name) == id
            &&& u.expanded == t.expanded.insert(connection_id).insert(id->0)
            &&& u.selected_node_id == id
            &&& u.is_selected(connection_id, name)
            &&& u.nodes == e.nodes
            &&& u.loading == e.load_started(connection_id).load_started(id->0).loading
            &&& t.database_shown_actions(connection_id, name, sort_key)
                == t.selection_added_request(connection_id, name) + e.load_request(connection_id)
                + e.load_started(connection_id).load_request(id->0)
        },
{
    if name.len() > 0 && t.node(connection_id) is Some {
        law_database_ensured(t, connection_id, name, sort_key);
        law_database_id(t, connection_id, name, sort_key);
    }
}

/// A database that is shown is the child of its connection that bears its name.
pub proof fn law_database_id(
    t: Tree,
    connection_id: Seq<char>,
    name: Seq<char>,
    sort_key: Seq<char>,
)
    requires
        t.node(connection_id) is Some,
        name.len() > 0,
    ensures
        ({
            let e = t.database_ensured(connection_id, name, sort_key);
            &&& e.node(connection_id) matches Some(c) && t.database_shown_id(
                connection_id,
                name,
                sort_key,
            ) matches Some(id) && exists|i: int|
                0 <= i < c.children.len() && (#[trigger] c.children[i]).id == id
                    && c.children[i].name == name && c.children[i].node_type == DbNodeType::Database
        }),
{
    law_database_ensured(t, connection_id, name, sort_key);
    let e = t.database_ensured(connection_id, name, sort_key);
    lemma_named_child((e.node(connection_id)->0).children, name);
}

proof fn lemma_named_child(children: Seq<NodeView>, name: Seq<char>)
    ensures
        tree_model::database_named(children, name) matches Some(id) ==> exists|i: int|
            0 <= i < children.len() && (#[trigger] children[i]).id == id && children[i].name == name
                && children[i].node_type == DbNodeType::Database,
    decreases children.len(),
{
    if children.len() > 0 {
        let rest = children.drop_first();
        lemma_named_child(rest, name);
        if children[0].node_type == DbNodeType::Database && children[0].name == name {
            assert(children[0].id == children[0].id);
        } else if let Some(id) = tree_model::database_named(rest, name) {
            let i = choose|i: int|
                0 <= i < rest.len() && (#[trigger] rest[i]).id == id && rest[i].name == name
                    && rest[i].node_type == DbNodeType::Database;
            assert(children[i + 1] == rest[i]);
        }
    }
}

/// The schema that is shown has the id of a schema of that name in its database,
/// or in its connection where no database is named.
pub proof fn law_schema_id(
    t: Tree,
    connection_id: Seq<char>,
    database: Seq<char>,
    schema: Seq<char>,
    sort_key: Seq<char>,
)
    ensures
        schema.len() == 0 || t.node(connection_id) is None ==> t.schema_shown_id(
            connection_id,
            database,
            schema,
            sort_key,
        ) is None && t.schema_shown(connection_id, database, schema, sort_key) == t
            && t.schema_shown_actions(connection_id, database, schema, sort_key).len() == 0,
        schema.len() > 0 && t.node(connection_id) is Some && database.len() == 0
            ==> t.schema_shown_id(connection_id, database, schema, sort_key) == Some(
            connection_id.push(':') + schema,
        ),
        schema.len() > 0 && t.node(connection_id) is Some && database.len() > 0
            ==> t.database_shown_id(connection_id, database, sort_key) is Some && t.schema_shown_id(
            connection_id,
            database,
            schema,
            sort_key,
        ) == Some(t.database_shown_id(connection_id, database, sort_key)->0.push(':') + schema),
{
    if schema.len() > 0 && t.node(connection_id) is Some && database.len() > 0 {
        tree_laws::law_database_can_be_shown(t, connection_id, database, sort_key);
    }
}

/// A schema that is shown is unfolded with what lies above it, and selected;
/// what is not loaded of these is asked for, and where the schema's node is
/// known, the node is selected last.
pub proof fn law_schema_shown(
    t: Tree,
    connection_id: Seq<char>,
    database: Seq<char>,
    schema: Seq<char>,
    sort_key: Seq<char>,
    id: Seq<char>,
    other: Seq<char>,
)
    requires
        t.schema_shown_id(connection_id, database, schema, sort_key) == Some(id),
    ensures
        ({
            let u = t.schema_shown(connection_id, database, schema, sort_key);
            let above = if database.len() == 0 {
                t
            } else {
                t.database_shown(connection_id, database, sort_key)
            };
            let asked = t.schema_shown_actions(connection_id, database, schema, sort_key);
            &&& u.expanded.contains(connection_id) && u.expanded.contains(id)
            &&& database.len() > 0 ==> u.expanded.contains(connection_id.push(':') + database)
            &&& u.expanded.contains(other) ==> above.expanded.contains(other) || other
                == connection_id || other == id || (database.len() > 0 && other
                == connection_id.push(':') + database)
            &&& above.expanded.contains(other) ==> u.expanded.contains(other)
            &&& u.selected_node_id == Some(id)
            &&& u.nodes == above.nodes
            &&& above.node(id) is Some ==> asked.len() > 0 && asked.last() == ActionView::Emit(
                EventView { kind: EventKind::NodeSelected, node_id: id },
            )
            &&& u.loading.contains(other) == (above.loading.contains(other) || ((other
                == connection_id || (other == id && above.node(id) is Some) || (database.len() > 0
                && other == connection_id.push(':') + database)) && above.can_start_load(other)))
        }),
{
    let above = t.schema_parents_shown(connection_id, database, sort_key);
    let open = above.schema_unfolded(connection_id, database, id);
    let loads = above.schema_loads(connection_id, database, id);
    law_loads(open, loads, other);
    let db = connection_id.push(':') + database;
    assert(loads.contains(other) == (other == connection_id || (other == id && above.node(id)
        is Some) || (database.len() > 0 && other == db))) by {
        assert(loads[0] == connection_id);
        if database.len() > 0 {
            assert(loads[1] == db);
        }
        if above.node(id) is Some {
            assert(loads.last() == id);
            assert(loads[loads.len() - 1] == id);
        }
    }
    assert(open.can_start_load(other) == above.can_start_load(other));
}

// ---------------------------------------------------------------------------
// Connections
// ---------------------------------------------------------------------------

/// A connection's node has its number as id, its name and its kind.
pub proof fn law_connection_node(c: ConnectionView, id: i64)
    requires
        c.config is Some,
        c.id == Some(id),
    ensures
        c.node_id() == text::signed_decimal(id as int),
        c.node().id == text::signed_decimal(id as int),
        c.node().connection_id == text::signed_decimal(id as int),
        c.node().name == (c.config->0).name,
        c.node().node_type == DbNodeType::Connection,
        c.node().database_type == (c.config->0).database_type,
        c.node().sort_key == c.sort_key,
        c.node().parent_context is None,
        c.node().children.len() == 0 && !c.node().children_loaded,
{
}

/// A connection that is added gets a node and its selection and is followed;
/// one that cannot be read, or whose node is there already, changes nothing.
pub proof fn law_connection_added(t: Tree, c: ConnectionView, id: i64, other: Seq<char>)
    requires
        c.id == Some(id),
        other != text::signed_decimal(id as int),
    ensures
        ({
            let u = t.connection_added(c);
            let node_id = text::signed_decimal(id as int);
            &&& t.can_add(c) == (c.config is Some && t.node(node_id) is None)
            &&& !t.can_add(c) ==> u == t
            &&& t.can_add(c) ==> {
                &&& u.node(node_id) == Some(c.node())
                &&& u.node(other) == t.node(other)
                &&& u.followed.contains(id)
                &&& u.selection(node_id) == c.selected_databases
                &&& u.selection(other) == t.selection(other)
                &&& u.expanded == t.expanded && u.loaded == t.loaded && u.loading == t.loading
                &&& forall|n: i64| t.followed.contains(n) ==> #[trigger] u.followed.contains(n)
            }
        }),
{
    let node_id = text::signed_decimal(id as int);
    if t.can_add(c) {
        tree_laws::lemma_put_find(t.nodes, c.node(), node_id);
        tree_laws::lemma_put_find(t.nodes, c.node(), other);
        let u = t.connection_added(c);
        if !t.followed.contains(id) {
            assert(u.followed[t.followed.len() as int] == id);
            assert forall|n: i64| t.followed.contains(n) implies #[trigger] u.followed.contains(
                n,
            ) by {
                let i = choose|i: int| 0 <= i < t.followed.len() && t.followed[i] == n;
                assert(u.followed[i] == n);
            }
        }
    }
}

/// A connection that was changed shows its new name, stands at its new place and
/// has its new selection; its children stay, and so do all other nodes.
pub proof fn law_connection_updated(t: Tree, c: ConnectionView, id: i64, other: Seq<char>)
    requires
        c.id == Some(id),
        other != text::signed_decimal(id as int),
    ensures
        ({
            let u = t.connection_updated(c);
            let node_id = text::signed_decimal(id as int);
            &&& c.config is None ==> u == t
            &&& c.config is Some ==> {
                &&& u.selection(node_id) == c.selected_databases
                &&& u.selection(other) == t.selection(other)
                &&& t.node(node_id) is None ==> u.nodes == t.nodes
                &&& t.node(node_id) matches Some(n) ==> u.node(node_id) == Some(
                    NodeView { name: (c.config->0).name, sort_key: c.sort_key, ..n },
                )
                &&& u.node(other) == t.node(other)
                &&& u.expanded == t.expanded && u.loaded == t.loaded && u.followed == t.followed
            }
        }),
{
    let node_id = text::signed_decimal(id as int);
    if c.config is Some {
        let a = t.with_selection(node_id, c.selected_databases);
        if let Some(n) = a.node(node_id) {
            node_store::lemma_find(a.nodes, node_id);
            let m = NodeView { name: (c.config->0).name, sort_key: c.sort_key, ..n };
            tree_laws::lemma_put_find(a.nodes, m, node_id);
            tree_laws::lemma_put_find(a.nodes, m, other);
        }
    }
}

/// Removing a connection leaves every node that does not lie below it, the
/// selections of the others and what else is followed.
pub proof fn law_connection_removed(t: Tree, id: i64, other: Seq<char>, n: i64)
    requires
        other != text::signed_decimal(id as int),
        n != id,
    ensures
        ({
            let node_id = text::signed_decimal(id as int);
            let u = t.connection_removed(node_id);
            &&& node_store::descends(t.nodes, node_id, other) ==> u.node(other) is None
            &&& !node_store::descends(t.nodes, node_id, other) ==> u.node(other) == t.node(other)
            &&& u.selection(other) == t.selection(other)
            &&& u.expanded.contains(other) == t.expanded.contains(other)
            &&& u.followed.contains(n) == t.followed.contains(n)
            &&& !u.filter_lists.contains_key(node_id)
            &&& u.filter_lists.contains_key(other) == t.filter_lists.contains_key(other)
            &&& t.selected_node_id != Some(node_id) ==> u.selected_node_id == t.selected_node_id
        }),
{
    let node_id = text::signed_decimal(id as int);
    text::law_number_reads_back(id as int);
    let a = t.descendants_cleared(node_id);
    tree_laws::lemma_without(t.nodes, node_store::below(t.nodes, node_id), other);
    tree_laws::lemma_without(a.nodes, set![node_id], other);
    lemma_others_stay(t.followed, id, n);
}

proof fn lemma_others_stay(v: Seq<i64>, number: i64, n: i64)
    requires
        n != number,
    ensures
        tree_model::ids_without(v, number as int).contains(n) == v.contains(n),
    decreases v.len(),
{
    if v.len() > 0 {
        let rest = v.drop_last();
        lemma_others_stay(rest, number, n);
        tree_list_laws::law_ids_without(rest, v.last(), number);
        assert(v =~= rest.push(v.last()));
        let w = tree_model::ids_without(rest, number as int);
        broadcast use vstd::seq_lib::lemma_seq_contains_after_push;

        assert(v.contains(n) == (rest.contains(n) || v.last() == n));
        assert(w.push(v.last()).contains(n) == (w.contains(n) || v.last() == n));
    }
}

/// A change that is heard of is taken over just where it concerns the tree: a
/// deletion and an update of a connection that is followed, a new connection of
/// the same workspace, and a changed schema of a connection that is followed,
/// which refreshes its database, or the connection where that has no node.
pub proof fn law_changes_taken_over(
    t: Tree,
    id: i64,
    c: ConnectionView,
    database: Seq<char>,
)
    requires
        c.id == Some(id),
    ensures
        ({
            let node_id = text::signed_decimal(id as int);
            let schema = ChangeView::Schema(node_id, database);
            &&& t.followed.contains(id) ==> {
                &&& t.data_changed(ChangeView::Deleted(id)) == t.connection_removed(node_id)
                &&& t.data_changed(ChangeView::Updated(c)) == t.connection_updated(c)
                &&& t.database_node(node_id, database) matches Some(d) ==> t.data_changed(schema)
                    == t.refreshed(t.refresh_target(d))
                &&& t.database_node(node_id, database) is None ==> t.data_changed(schema)
                    == t.refreshed(t.refresh_target(node_id))
            }
            &&& !t.followed.contains(id) ==> t.data_changed(schema) == t
            &&& c.workspace_id is Some && c.workspace_id == t.workspace_id ==> t.data_changed(
                ChangeView::Created(c),
            ) == t.connection_added(c)
            &&& c.workspace_id is None || c.workspace_id != t.workspace_id ==> t.data_changed(
                ChangeView::Created(c),
            ) == t
        }),
{
    text::law_number_reads_back(id as int);
}

// ---------------------------------------------------------------------------
// The first tree
// ---------------------------------------------------------------------------

/// Each connection that is taken over is followed, and has a node and its
/// selection where it can be read; the last one gives the workspace.
pub proof fn law_connections_taken(
    list: Seq<ConnectionView>,
    c: ConnectionView,
    id: i64,
    other: Seq<char>,
)
    requires
        c.id == Some(id),
        other != text::signed_decimal(id as int),
    ensures
        ({
            let t = tree_model::connections_taken(list);
            let u = tree_model::connections_taken(list.push(c));
            let node_id = text::signed_decimal(id as int);
            &&& u.followed == t.followed.push(id)
            &&& u.workspace_id == c.workspace_id
            &&& u.node(other) == t.node(other)
            &&& u.selection(other) == t.selection(other)
            &&& c.config is Some ==> u.node(node_id) == Some(c.node()) && u.selection(node_id)
                == c.selected_databases
            &&& c.config is None ==> u.nodes == t.nodes
        }),
        tree_model::connections_taken(Seq::empty()).nodes.len() == 0,
        tree_model::connections_taken(Seq::empty()).followed.len() == 0,
{
    assert(list.push(c).drop_last() =~= list);
    let t = tree_model::connections_taken(list);
    if c.config is Some {
        tree_laws::lemma_put_find(t.nodes, c.node(), c.node_id());
        tree_laws::lemma_put_find(t.nodes, c.node(), other);
    }
}

proof fn lemma_nothing_known(list: Seq<ConnectionView>)
    ensures
        ({
            let t = tree_model::connections_taken(list);
            &&& t.loaded == Set::<Seq<char>>::empty()
            &&& t.loading == Set::<Seq<char>>::empty()
            &&& t.expanded == Set::<Seq<char>>::empty()
            &&& t.errors == Map::<Seq<char>, Seq<char>>::empty()
            &&& t.search_query.len() == 0
            &&& t.selected_ix is None && t.selected_node_id is None && t.context_menu_node_id
                is None
        }),
    decreases list.len(),
{
    if list.len() > 0 {
        lemma_nothing_known(list.drop_last());
    }
}

/// At first nothing is loaded, expanded, searched for or selected, and every
/// root has a row, in order; without connections the tree has one node, with
/// the label that says so.
pub proof fn law_first_tree(list: Seq<ConnectionView>, label: Seq<char>, i: int)
    ensures
        ({
            let t = tree_model::initial(list, label);
            let roots = node_store::roots(t.nodes);
            &&& t.loaded == Set::<Seq<char>>::empty() && t.loading == Set::<Seq<char>>::empty()
            &&& t.expanded == Set::<Seq<char>>::empty()
            &&& t.errors == Map::<Seq<char>, Seq<char>>::empty()
            &&& t.search_query.len() == 0
            &&& t.selected_ix is None && t.selected_node_id is None && t.context_menu_node_id
                is None
            &&& t.flat.len() == roots.len()
            &&& 0 <= i < roots.len() ==> t.flat[i] == (FlatView { node_id: roots[i].id, depth: 0 })
            &&& list.len() > 0 ==> t.nodes == tree_model::connections_taken(list).nodes
                && t.followed == tree_model::connections_taken(list).followed
                && t.selected_databases == tree_model::connections_taken(list).selected_databases
            &&& list.len() == 0 ==> t.followed.len() == 0 && t.nodes.len() == 1 && t.nodes[0].id
                == "root"@ && t.nodes[0].name == label && t.nodes[0].node_type
                == DbNodeType::Connection
        }),
{
    lemma_nothing_known(list);
}

// ---------------------------------------------------------------------------
// What stays
// ---------------------------------------------------------------------------

/// The databases of a connection are those among its node's children, and are
/// found there by their names.
pub proof fn law_databases_of_connection(t: Tree, id: Seq<char>, name: Seq<char>, n: NodeView)
    ensures
        t.node(id) == Some(n) ==> t.databases(id) == tree_model::databases_of(n.children)
            && t.database_node(id, name) == tree_model::database_named(n.children, name),
        t.node(id) is None ==> t.databases(id).len() == 0 && t.database_node(id, name) is None,
{
}

/// A selection that comes to hold as many names as there are databases counts as
/// the selection of all.
pub proof fn law_full_selection_is_all(t: Tree, id: Seq<char>, name: Seq<char>, set: Set<Seq<char>>)
    requires
        t.selection(id) == Some(set),
        !set.contains(name),
        set.insert(name) == tree_model::names(t.databases(id)),
    ensures
        t.toggled(id, name).selection(id) is None,
{
}

/// Selecting one database less than all selects all the others.
pub proof fn law_first_deselection(t: Tree, id: Seq<char>, name: Seq<char>)
    requires
        t.selection(id) is None,
    ensures
        t.toggled(id, name).selection(id) == Some(
            tree_model::names(t.databases(id)).remove(name),
        ),
{
}

/// Clearing what lies below a node leaves the errors of all other nodes, and
/// everything that is not about nodes.
pub proof fn law_clearing_elsewhere(t: Tree, id: Seq<char>, other: Seq<char>)
    requires
        !node_store::descends(t.nodes, id, other),
    ensures
        ({
            let u = t.descendants_cleared(id);
            &&& u.errors.contains_key(other) == t.errors.contains_key(other)
            &&& t.errors.contains_key(other) ==> u.errors[other] == t.errors[other]
            &&& u == (Tree {
                nodes: u.nodes,
                loaded: u.loaded,
                loading: u.loading,
                errors: u.errors,
                ..t
            })
        }),
{
}

/// Closing a node leaves every node elsewhere as it is: what it holds, and
/// whether it is expanded and loaded.
pub proof fn law_closed_elsewhere(t: Tree, id: Seq<char>, other: Seq<char>)
    requires
        other != id,
        !node_store::descends(t.nodes, id, other),
    ensures
        t.closed(id).node(other) == t.node(other),
        t.closed(id).expanded.contains(other) == t.expanded.contains(other),
        t.closed(id).loaded.contains(other) == t.loaded.contains(other),
        t.closed(id).loading.contains(other) == t.loading.contains(other),
        t.closed(id).selected_databases == t.selected_databases,
        t.closed(id).search_query == t.search_query,
        t.closed(id).selected_node_id == t.selected_node_id,
        t.closed(id).followed == t.followed,
{
    let a = t.expansion_cleared(id).descendants_cleared(id);
    tree_laws::lemma_without(t.nodes, node_store::below(t.nodes, id), other);
    law_children_forgotten(a, id, other);
}

/// Removing a node leaves every node elsewhere but its parent as it is, and the
/// parent without it.
pub proof fn law_removed_elsewhere(t: Tree, id: Seq<char>, n: NodeView, other: Seq<char>)
    requires
        t.node(id) == Some(n),
        other != id,
        !node_store::descends(t.nodes, id, id),
        !node_store::descends(t.nodes, id, other),
    ensures
        n.parent_context != Some(other) ==> t.node_removed(id).node(other) == t.node(other),
        n.parent_context == Some(other) ==> (t.node_removed(id).node(other) is Some <==> t.node(
            other,
        ) is Some),
        n.parent_context == Some(other) && t.node(other) is Some ==> !tree_row_laws::has_child(
            t.node_removed(id).node(other)->0,
            id,
        ),
        t.node_removed(id).expanded.contains(other) == t.expanded.contains(other),
        t.node_removed(id).loaded.contains(other) == t.loaded.contains(other),
        t.node_removed(id).selected_databases == t.selected_databases,
{
    let below = node_store::below(t.nodes, id);
    let a = t.descendants_cleared(id);
    tree_laws::lemma_without(t.nodes, below, other);
    tree_laws::lemma_without(t.nodes, below, id);
    let b = a.dropped_from_parent(id);
    tree_laws::lemma_without(b.nodes, set![id], other);
    if let Some(parent) = n.parent_context {
        if let Some(p) = a.node(parent) {
            node_store::lemma_find(a.nodes, parent);
            let keep = |c: NodeView| c.id != id;
            let q = NodeView { children: p.children.filter(keep), ..p };
            tree_laws::lemma_put_find(a.nodes, q, other);
            assert forall|j: int| 0 <= j < q.children.len() implies (#[trigger] q.children[j]).id
                != id by {
                p.children.lemma_filter_pred(keep, j);
            }
        }
    }
}

/// A connection without a number is followed just where the number that stands
/// for none is.
pub proof fn law_follows(t: Tree, id: Seq<char>, number: i64)
    ensures
        tree_model::connection_number(id) == Some(number as int) ==> t.follows(id)
            == t.followed.contains(number),
        tree_model::connection_number(id) is None ==> t.follows(id) == t.followed.contains(-1i64),
{
}

/// Showing a schema asks for what showing its database asks for, then for the
/// children of what is not loaded above it and of it, in this order.
pub proof fn law_schema_shown_actions(
    t: Tree,
    connection_id: Seq<char>,
    database: Seq<char>,
    schema: Seq<char>,
    sort_key: Seq<char>,
    id: Seq<char>,
)
    requires
        t.schema_shown_id(connection_id, database, schema, sort_key) == Some(id),
    ensures
        ({
            let above = if database.len() == 0 {
                t
            } else {
                t.database_shown(connection_id, database, sort_key)
            };
            let first = if database.len() == 0 {
                Seq::empty()
            } else {
                t.database_shown_actions(connection_id, database, sort_key)
            };
            let open = Tree {
                expanded: t.schema_shown(connection_id, database, schema, sort_key).expanded,
                selected_node_id: Some(id),
                ..above
            };
            let places = seq![connection_id] + (if database.len() == 0 {
                Seq::empty()
            } else {
                seq![connection_id.push(':') + database]
            }) + (if above.node(id) is Some {
                seq![id]
            } else {
                Seq::empty()
            });
            let selected = if above.node(id) is Some {
                seq![
                    ActionView::Emit(EventView { kind: EventKind::NodeSelected, node_id: id }),
                ]
            } else {
                Seq::empty()
            };
            t.schema_shown_actions(connection_id, database, schema, sort_key) == first
                + open.load_requests(places) + selected
        }),
{
    let above = t.schema_parents_shown(connection_id, database, sort_key);
    let open = above.schema_unfolded(connection_id, database, id);
    let loads = above.schema_loads(connection_id, database, id);
    law_loads(open, loads, id);
    let places = seq![connection_id] + (if database.len() == 0 {
        Seq::empty()
    } else {
        seq![connection_id.push(':') + database]
    }) + (if above.node(id) is Some {
        seq![id]
    } else {
        Seq::empty()
    });
    assert(loads =~= places);
    assert(open.loads_started(loads).expanded == open.expanded);
}

/// What happens to the tree changes nothing of it that it is not about: loading
/// and expanding leave the nodes and the selection of databases alone, and
/// selecting databases everything but that.
pub proof fn law_rest_stays(
    t: Tree,
    id: Seq<char>,
    error: Seq<char>,
    name: Seq<char>,
    selection: Option<Set<Seq<char>>>,
)
    ensures
        ({
            let u = t.load_failed(id, error);
            u == (Tree {
                loading: u.loading,
                expanded: u.expanded,
                errors: u.errors,
                flat: u.flat,
                selected_ix: u.selected_ix,
                ..t
            })
        }),
        ({
            let u = t.expansion_toggled(id);
            u == (Tree {
                loading: u.loading,
                expanded: u.expanded,
                flat: u.flat,
                selected_ix: u.selected_ix,
                ..t
            })
        }),
        ({
            let u = t.double_clicked(id);
            u == (Tree {
                loading: u.loading,
                expanded: u.expanded,
                errors: u.errors,
                flat: u.flat,
                selected_ix: u.selected_ix,
                context_menu_node_id: None,
                ..t
            })
        }),
        ({
            let u = t.toggled(id, name);
            u == (Tree {
                selected_databases: u.selected_databases,
                flat: u.flat,
                selected_ix: u.selected_ix,
                ..t
            })
        }),
        ({
            let u = t.with_selection(id, selection);
            u == (Tree { selected_databases: u.selected_databases, ..t })
        }),
{
}

/// A connection that comes, changes or goes changes nothing but nodes,
/// selections, what is followed and, where it goes, what was known of it.
pub proof fn law_connections_are_apart(t: Tree, c: ConnectionView, id: Seq<char>)
    ensures
        ({
            let u = t.connection_added(c);
            u == (Tree {
                nodes: u.nodes,
                followed: u.followed,
                selected_databases: u.selected_databases,
                flat: u.flat,
                selected_ix: u.selected_ix,
                ..t
            })
        }),
        ({
            let u = t.connection_updated(c);
            u == (Tree {
                nodes: u.nodes,
                selected_databases: u.selected_databases,
                flat: u.flat,
                selected_ix: u.selected_ix,
                ..t
            })
        }),
        ({
            let u = t.connection_removed(id);
            u == (Tree {
                nodes: u.nodes,
                loaded: u.loaded,
                loading: u.loading,
                errors: u.errors,
                expanded: u.expanded,
                followed: u.followed,
                selected_databases: u.selected_databases,
                filter_lists: u.filter_lists,
                flat: u.flat,
                selected_ix: u.selected_ix,
                selected_node_id: u.selected_node_id,
                ..t
            })
        }),
{
}

} // verus!
