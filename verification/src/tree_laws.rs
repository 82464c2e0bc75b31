//! What holds of the database tree as a whole.
use vstd::prelude::*;

use crate::db_node;
use crate::node_store;
use crate::text;
use crate::tree_model;
use crate::tree_model::Tree;
use crate::tree_types;

verus! {

// ---------------------------------------------------------------------------
// Depth
// ---------------------------------------------------------------------------

/// The stored nodes below a node.
spec fn stored_below(nodes: Seq<db_node::NodeView>, id: Seq<char>) -> Set<Seq<char>> {
    node_store::below(nodes, id).intersect(node_store::node_map(nodes).dom())
}

pub proof fn lemma_dom_finite(nodes: Seq<db_node::NodeView>)
    ensures
        node_store::node_map(nodes).dom().finite(),
        node_store::node_map(nodes).dom().len() <= nodes.len(),
    decreases nodes.len(),
{
    if nodes.len() > 0 {
        lemma_dom_finite(nodes.drop_last());
        let m = node_store::node_map(nodes.drop_last());
        assert(node_store::node_map(nodes).dom() =~= m.dom().insert(nodes.last().id));
    }
}

proof fn lemma_stored_below_finite(nodes: Seq<db_node::NodeView>, id: Seq<char>)
    ensures
        stored_below(nodes, id).finite(),
{
    lemma_dom_finite(nodes);
    let dom = node_store::node_map(nodes).dom();
    assert(stored_below(nodes, id).subset_of(dom));
    vstd::set_lib::lemma_len_subset(stored_below(nodes, id), dom);
}

/// In a tree, fewer nodes lie below a child than below its parent.
proof fn lemma_child_has_less_below(nodes: Seq<db_node::NodeView>, a: Seq<char>, c: Seq<char>)
    requires
        node_store::acyclic(nodes),
        node_store::child_of(nodes, a, c),
        node_store::find(nodes, c) is Some,
    ensures
        stored_below(nodes, c).len() < stored_below(nodes, a).len(),
{
    node_store::lemma_child_below(nodes, a, c);
    lemma_stored_below_finite(nodes, a);
    let sa = stored_below(nodes, a);
    let sc = stored_below(nodes, c);
    assert(sa.contains(c));
    assert(!sc.contains(c));
    assert(sc.subset_of(sa.remove(c)));
    vstd::set_lib::lemma_len_subset(sc, sa.remove(c));
}

/// In a tree, fewer nodes lie below a node than the tree has.
proof fn lemma_below_smaller_than_tree(nodes: Seq<db_node::NodeView>, id: Seq<char>)
    requires
        node_store::acyclic(nodes),
        node_store::find(nodes, id) is Some,
    ensures
        stored_below(nodes, id).len() < nodes.len(),
{
    lemma_dom_finite(nodes);
    let dom = node_store::node_map(nodes).dom();
    assert(!stored_below(nodes, id).contains(id));
    assert(stored_below(nodes, id).subset_of(dom.remove(id)));
    vstd::set_lib::lemma_len_subset(stored_below(nodes, id), dom.remove(id));
}

pub proof fn lemma_child_at(t: Tree, id: Seq<char>, n: db_node::NodeView, i: int)
    requires
        t.node(id) == Some(n),
        0 <= i < n.children.len(),
    ensures
        node_store::child_of(t.nodes, id, n.children[i].id),
{
    assert(db_node::ids(n.children)[i] == n.children[i].id);
    assert(db_node::ids(n.children).contains(n.children[i].id));
}

proof fn lemma_matches_levels(
    t: Tree,
    id: Seq<char>,
    query: Seq<char>,
    above: Option<Seq<char>>,
    a: nat,
    b: nat,
)
    requires
        node_store::acyclic(t.nodes),
        t.node(id) is Some ==> a > stored_below(t.nodes, id).len() && b > stored_below(
            t.nodes,
            id,
        ).len(),
    ensures
        t.matches_query(id, query, above, a) == t.matches_query(id, query, above, b),
        t.node(id) matches Some(n) ==> t.child_matches(n, query, above, a) == t.child_matches(
            n,
            query,
            above,
            b,
        ),
    decreases stored_below(t.nodes, id).len(),
{
    if let Some(n) = t.node(id) {
        let conn = tree_model::connection_of(n, above);
        assert forall|i: int| 0 <= i < n.children.len() implies t.matches_query(
            (#[trigger] n.children[i]).id,
            query,
            conn,
            (a - 1) as nat,
        ) == t.matches_query(n.children[i].id, query, conn, (b - 1) as nat) by {
            let c = n.children[i].id;
            lemma_child_at(t, id, n, i);
            if t.node(c) is Some {
                lemma_child_has_less_below(t.nodes, id, c);
                lemma_matches_levels(t, c, query, conn, (a - 1) as nat, (b - 1) as nat);
            }
        }
    }
}

proof fn lemma_rows_levels(
    t: Tree,
    id: Seq<char>,
    depth: nat,
    query: Seq<char>,
    above: Option<Seq<char>>,
    a: nat,
    b: nat,
)
    requires
        node_store::acyclic(t.nodes),
        t.node(id) is Some ==> a > stored_below(t.nodes, id).len() && b > stored_below(
            t.nodes,
            id,
        ).len(),
    ensures
        t.rows(id, depth, query, above, a) == t.rows(id, depth, query, above, b),
    decreases stored_below(t.nodes, id).len(), 1nat, 0int,
{
    if let Some(n) = t.node(id) {
        lemma_matches_levels(t, id, query, above, a, b);
        lemma_child_rows_levels(
            t,
            id,
            n,
            n.children.len() as int,
            depth + 1,
            query,
            tree_model::connection_of(n, above),
            (a - 1) as nat,
            (b - 1) as nat,
        );
        assert(n.children.take(n.children.len() as int) =~= n.children);
    }
}

proof fn lemma_child_rows_levels(
    t: Tree,
    id: Seq<char>,
    n: db_node::NodeView,
    k: int,
    depth: nat,
    query: Seq<char>,
    above: Option<Seq<char>>,
    a: nat,
    b: nat,
)
    requires
        node_store::acyclic(t.nodes),
        t.node(id) == Some(n),
        0 <= k <= n.children.len(),
        a >= stored_below(t.nodes, id).len(),
        b >= stored_below(t.nodes, id).len(),
    ensures
        t.rows_of(n.children.take(k), depth, query, above, a) == t.rows_of(
            n.children.take(k),
            depth,
            query,
            above,
            b,
        ),
    decreases stored_below(t.nodes, id).len(), 0nat, k,
{
    if k > 0 {
        let list = n.children.take(k);
        assert(list.drop_last() =~= n.children.take(k - 1));
        assert(list.last() == n.children[k - 1]);
        lemma_child_rows_levels(t, id, n, k - 1, depth, query, above, a, b);
        let c = n.children[k - 1].id;
        lemma_child_at(t, id, n, k - 1);
        if t.node(c) is Some {
            lemma_child_has_less_below(t.nodes, id, c);
            lemma_rows_levels(t, c, depth, query, above, a, b);
        }
    }
}

/// In a tree, looking as many levels deep as there are nodes sees everything:
/// more levels change neither what matches a search nor what rows are shown.
pub proof fn law_levels_suffice(
    t: Tree,
    id: Seq<char>,
    depth: nat,
    query: Seq<char>,
    above: Option<Seq<char>>,
    levels: nat,
)
    requires
        node_store::acyclic(t.nodes),
        levels >= t.nodes.len(),
    ensures
        t.matches_query(id, query, above, levels) == t.matches_query(
            id,
            query,
            above,
            t.nodes.len(),
        ),
        t.rows(id, depth, query, above, levels) == t.rows(id, depth, query, above, t.nodes.len()),
{
    if t.node(id) is Some {
        lemma_below_smaller_than_tree(t.nodes, id);
    }
    lemma_matches_levels(t, id, query, above, levels, t.nodes.len());
    lemma_rows_levels(t, id, depth, query, above, levels, t.nodes.len());
}

/// The connections stand in order, whatever was renamed, added or removed, and
/// none is lost.
pub proof fn law_roots_in_order(t: Tree)
    ensures
        db_node::in_sibling_order(node_store::roots(t.nodes)),
        node_store::roots(t.nodes).to_multiset() == t.nodes.filter(
            |n: db_node::NodeView| n.parent_context is None,
        ).to_multiset(),
{
    db_node::law_sorted(t.nodes.filter(|n: db_node::NodeView| n.parent_context is None));
}

/// Every row stands for a stored node.
pub proof fn law_rows_are_stored(
    t: Tree,
    list: Seq<db_node::NodeView>,
    depth: nat,
    query: Seq<char>,
    above: Option<Seq<char>>,
    levels: nat,
)
    ensures
        forall|i: int|
            0 <= i < t.rows_of(list, depth, query, above, levels).len() ==> t.node(
                (#[trigger] t.rows_of(list, depth, query, above, levels)[i]).node_id,
            ) is Some && t.rows_of(list, depth, query, above, levels)[i].depth >= depth,
    decreases levels, list.len(),
{
    if list.len() > 0 {
        let first = t.rows_of(list.drop_last(), depth, query, above, levels);
        let id = list.last().id;
        let second = t.rows(id, depth, query, above, levels);
        law_rows_are_stored(t, list.drop_last(), depth, query, above, levels);
        if let Some(n) = t.node(id) {
            if levels > 0 {
                law_rows_are_stored(
                    t,
                    n.children,
                    depth + 1,
                    query,
                    tree_model::connection_of(n, above),
                    (levels - 1) as nat,
                );
            }
            assert forall|i: int| 0 <= i < second.len() implies t.node(
                (#[trigger] second[i]).node_id,
            ) is Some && second[i].depth >= depth by {
                if i > 0 {
                    let rest = t.rows_of(
                        n.children,
                        depth + 1,
                        query,
                        tree_model::connection_of(n, above),
                        (levels - 1) as nat,
                    );
                    assert(second[i] == rest[i - 1]);
                }
            }
        }
        let all = t.rows_of(list, depth, query, above, levels);
        assert forall|i: int| 0 <= i < all.len() implies t.node((#[trigger] all[i]).node_id) is Some
            && all[i].depth >= depth by {
            if i < first.len() {
                assert(all[i] == first[i]);
            } else {
                assert(all[i] == second[i - first.len()]);
            }
        }
    }
}

// ---------------------------------------------------------------------------
// Selection of databases
// ---------------------------------------------------------------------------

/// A selection of as many databases as there are is that of all of them.
pub open spec fn counts_right(set: Set<Seq<char>>, all: Set<Seq<char>>) -> bool {
    set.finite() && (set.len() == all.len() ==> set == all)
}

/// Switching one database of a connection twice leaves every database selected
/// or not as it was, whether all databases or a part of them were selected.
/// The stored selection is the same too, but that one which names every
/// database is stored as that of all.
///
/// It takes that neither the stored selection nor the one between the two
/// names as many databases as there are without naming them all, which a
/// selection with names of other databases may do.
pub proof fn law_toggle_twice(t: Tree, connection_id: Seq<char>, name: Seq<char>)
    requires
        tree_model::names(t.databases(connection_id)).contains(name),
        t.selection(connection_id) matches Some(set) ==> {
            let all = tree_model::names(t.databases(connection_id));
            counts_right(set, all) && counts_right(
                if set.contains(name) {
                    set.remove(name)
                } else {
                    set.insert(name)
                },
                all,
            )
        },
    ensures
        ({
            let all = tree_model::names(t.databases(connection_id));
            let twice = t.toggled(connection_id, name).toggled(connection_id, name);
            &&& forall|n: Seq<char>|
                all.contains(n) ==> #[trigger] twice.is_selected(connection_id, n) == t.is_selected(
                    connection_id,
                    n,
                )
            &&& twice.selection(connection_id) == (if t.selection(connection_id) == Some(all) {
                None
            } else {
                t.selection(connection_id)
            })
        }),
{
    let all = tree_model::names(t.databases(connection_id));
    lemma_names_finite(t.databases(connection_id));
    let u = t.toggled(connection_id, name);
    assert(u.databases(connection_id) == t.databases(connection_id));
    match t.selection(connection_id) {
        None => {
            assert(all.remove(name).insert(name) =~= all);
        },
        Some(set) => {
            if set.contains(name) {
                assert(set.remove(name).insert(name) =~= set);
            } else if set.insert(name) == all {
                assert(all.remove(name) =~= set);
                assert(set.len() + 1 == all.len());
            } else {
                assert(set.insert(name).remove(name) =~= set);
            }
        },
    }
}

pub proof fn lemma_names_finite(v: Seq<(Seq<char>, Seq<char>)>)
    ensures
        tree_model::names(v).finite(),
    decreases v.len(),
{
    if v.len() == 0 {
        assert(tree_model::names(v) =~= Set::empty());
    } else {
        let t = v.drop_last();
        lemma_names_finite(t);
        assert(tree_model::names(v) =~= tree_model::names(t).insert(v.last().1)) by {
            assert forall|n: Seq<char>| tree_model::names(v).contains(n) implies tree_model::names(
                t,
            ).insert(v.last().1).contains(n) by {
                let i = choose|i: int| 0 <= i < v.len() && (#[trigger] v[i]).1 == n;
                if i < t.len() {
                    assert(t[i].1 == n);
                }
            }
            assert forall|n: Seq<char>| tree_model::names(t).insert(
                v.last().1,
            ).contains(n) implies tree_model::names(v).contains(n) by {
                if tree_model::names(t).contains(n) {
                    let i = choose|i: int| 0 <= i < t.len() && (#[trigger] t[i]).1 == n;
                    assert(v[i].1 == n);
                } else {
                    assert(v[v.len() - 1].1 == n);
                }
            }
        }
    }
}

/// With all databases selected every one is, with none selected none is.
pub proof fn law_select_all_and_none(t: Tree, connection_id: Seq<char>, name: Seq<char>)
    ensures
        t.with_selection(connection_id, None).rebuilt().is_selected(connection_id, name),
        !t.with_selection(connection_id, Some(Set::empty())).rebuilt().is_selected(
            connection_id,
            name,
        ),
{
}

/// Selecting databases of one connection leaves the selections of the others
/// alone.
pub proof fn law_toggle_is_local(
    t: Tree,
    connection_id: Seq<char>,
    name: Seq<char>,
    other: Seq<char>,
)
    requires
        other != connection_id,
    ensures
        t.toggled(connection_id, name).selection(other) == t.selection(other),
{
}

// ---------------------------------------------------------------------------
// Clearing
// ---------------------------------------------------------------------------

pub proof fn lemma_without(nodes: Seq<db_node::NodeView>, gone: Set<Seq<char>>, id: Seq<char>)
    ensures
        node_store::find(node_store::without(nodes, gone), id) == (if gone.contains(id) {
            None
        } else {
            node_store::find(nodes, id)
        }),
    decreases nodes.len(),
{
    reveal(Seq::filter);
    let keep = |n: db_node::NodeView| !gone.contains(n.id);
    if nodes.len() > 0 {
        let t = nodes.drop_last();
        let x = nodes.last();
        assert(nodes =~= t.push(x));
        t.lemma_filter_push(x, keep);
        lemma_without(t, gone, id);
        if keep(x) {
            assert(node_store::without(nodes, gone) =~= node_store::without(t, gone).push(x));
            assert(node_store::without(t, gone).push(x).drop_last() =~= node_store::without(
                t,
                gone,
            ));
        }
    }
}

pub proof fn lemma_put_find(nodes: Seq<db_node::NodeView>, n: db_node::NodeView, id: Seq<char>)
    ensures
        node_store::find(node_store::put(nodes, n), id) == (if id == n.id {
            Some(n)
        } else {
            node_store::find(nodes, id)
        }),
    decreases nodes.len(),
{
    let p = node_store::put(nodes, n);
    if node_store::find(nodes, n.id) is None {
        assert(p.drop_last() =~= nodes);
    } else {
        lemma_replaced_find(nodes, n, id);
    }
}

/// The nodes with every node that has the id of `n` replaced by it.
spec fn replaced(nodes: Seq<db_node::NodeView>, n: db_node::NodeView) -> Seq<db_node::NodeView> {
    Seq::new(
        nodes.len(),
        |i: int|
            if nodes[i].id == n.id {
                n
            } else {
                nodes[i]
            },
    )
}

proof fn lemma_replaced_find(nodes: Seq<db_node::NodeView>, n: db_node::NodeView, id: Seq<char>)
    ensures
        node_store::find(replaced(nodes, n), id) == (if id == n.id && node_store::find(
            nodes,
            id,
        ) is Some {
            Some(n)
        } else {
            node_store::find(nodes, id)
        }),
        node_store::find(nodes, n.id) is Some ==> node_store::put(nodes, n) == replaced(nodes, n),
    decreases nodes.len(),
{
    if node_store::find(nodes, n.id) is Some {
        assert(node_store::put(nodes, n) =~= replaced(nodes, n));
    }
    if nodes.len() > 0 {
        let t = nodes.drop_last();
        lemma_replaced_find(t, n, id);
        assert(replaced(nodes, n).drop_last() =~= replaced(t, n));
    }
}

/// Clearing what lies below a node leaves nothing of it behind, except that it
/// stays expanded; all other nodes stay.
pub proof fn law_clearing_descendants(t: Tree, id: Seq<char>, other: Seq<char>)
    ensures
        ({
            let u = t.descendants_cleared(id);
            &&& u.expanded == t.expanded
            &&& node_store::descends(t.nodes, id, other) ==> u.node(other) is None
                && !u.loaded.contains(other) && !u.loading.contains(other)
                && !u.errors.contains_key(other)
            &&& !node_store::descends(t.nodes, id, other) ==> u.node(other) == t.node(other)
                && u.loaded.contains(other) == t.loaded.contains(other) && u.loading.contains(
                other,
            ) == t.loading.contains(other)
        }),
{
    lemma_without(t.nodes, node_store::below(t.nodes, id), other);
}

/// A refresh keeps what is expanded, and the node is empty and can be loaded
/// again after it: asking for its children is then granted.
pub proof fn law_refresh_keeps_expansion(t: Tree, id: Seq<char>)
    requires
        node_store::acyclic(t.nodes),
        t.node(id) is Some,
    ensures
        t.refreshed(id).expanded == t.expanded,
        t.refreshed(id).can_start_load(id),
        t.refreshed(id).load_request(id) == seq![tree_types::ActionView::LoadChildren(id)],
        t.refreshed(id).node(id) matches Some(n) && n.children.len() == 0 && !n.children_loaded,
{
    let a = t.descendants_cleared(id);
    lemma_without(t.nodes, node_store::below(t.nodes, id), id);
    assert(!node_store::descends(t.nodes, id, id));
    node_store::lemma_find(t.nodes, id);
    let b = a.loading_state_cleared(id);
    let n = b.node(id)->0;
    lemma_put_find(
        b.nodes,
        db_node::NodeView { children: Seq::empty(), children_loaded: false, ..n },
        id,
    );
}

/// A closed node can be loaded again, and neither it nor anything that was
/// below it is expanded.
pub proof fn law_closed(t: Tree, id: Seq<char>, other: Seq<char>)
    requires
        node_store::acyclic(t.nodes),
        t.node(id) is Some,
    ensures
        t.closed(id).can_start_load(id),
        !t.closed(id).expanded.contains(id),
        node_store::descends(t.nodes, id, other) ==> !t.closed(id).expanded.contains(other)
            && t.closed(id).node(other) is None,
{
    let a = t.expansion_cleared(id).descendants_cleared(id);
    lemma_without(t.nodes, node_store::below(t.nodes, id), id);
    lemma_without(t.nodes, node_store::below(t.nodes, id), other);
    assert(!node_store::descends(t.nodes, id, id));
    node_store::lemma_find(t.nodes, id);
    let n = a.node(id)->0;
    let m = db_node::NodeView { children: Seq::empty(), children_loaded: false, ..n };
    lemma_put_find(a.nodes, m, id);
    lemma_put_find(a.nodes, m, other);
}

/// A removed node is gone with all below it, and is expanded no more.
pub proof fn law_node_removed(t: Tree, id: Seq<char>, other: Seq<char>)
    ensures
        t.node_removed(id).node(id) is None,
        !t.node_removed(id).expanded.contains(id),
        !t.node_removed(id).loaded.contains(id),
        !t.node_removed(id).errors.contains_key(id),
        node_store::descends(t.nodes, id, other) ==> t.node_removed(id).node(other) is None
            || t.node(id) is Some && (t.node(id)->0).parent_context == Some(other),
{
    let a = t.descendants_cleared(id);
    lemma_without(t.nodes, node_store::below(t.nodes, id), other);
    let b = a.dropped_from_parent(id);
    lemma_without(b.nodes, set![id], id);
    lemma_without(b.nodes, set![id], other);
    if let Some(n) = a.node(id) {
        lemma_without(t.nodes, node_store::below(t.nodes, id), id);
        if let Some(parent) = n.parent_context {
            if let Some(p) = a.node(parent) {
                node_store::lemma_find(a.nodes, parent);
                let q = db_node::NodeView {
                    children: p.children.filter(|c: db_node::NodeView| c.id != id),
                    ..p
                };
                lemma_put_find(a.nodes, q, other);
            }
        }
    }
}

proof fn lemma_without_child_of(
    nodes: Seq<db_node::NodeView>,
    gone: Set<Seq<char>>,
    a: Seq<char>,
    b: Seq<char>,
)
    requires
        node_store::child_of(node_store::without(nodes, gone), a, b),
    ensures
        node_store::child_of(nodes, a, b),
{
    lemma_without(nodes, gone, a);
}

/// Taking nodes out of a tree leaves a tree.
pub proof fn law_clearing_keeps_tree(t: Tree, id: Seq<char>)
    requires
        node_store::acyclic(t.nodes),
    ensures
        node_store::acyclic(t.descendants_cleared(id).nodes),
        node_store::acyclic(t.node_dropped(id).nodes),
{
    lemma_without_acyclic(t.nodes, node_store::below(t.nodes, id));
    lemma_without_acyclic(t.nodes, set![id]);
}

proof fn lemma_without_acyclic(nodes: Seq<db_node::NodeView>, gone: Set<Seq<char>>)
    requires
        node_store::acyclic(nodes),
    ensures
        node_store::acyclic(node_store::without(nodes, gone)),
{
    let less = node_store::without(nodes, gone);
    assert forall|a: Seq<char>| !node_store::descends(less, a, a) by {
        if node_store::descends(less, a, a) {
            let path = choose|path: Seq<Seq<char>>|
                #![trigger node_store::is_path(less, path)]
                path.len() >= 2 && path[0] == a && path.last() == a && node_store::is_path(
                    less,
                    path,
                );
            assert(node_store::is_path(nodes, path)) by {
                assert forall|i: int| 0 <= i < path.len() - 1 implies node_store::child_of(
                    nodes,
                    #[trigger] path[i],
                    path[i + 1],
                ) by {
                    lemma_without_child_of(nodes, gone, path[i], path[i + 1]);
                }
            }
            assert(node_store::descends(nodes, a, a));
        }
    }
}

// ---------------------------------------------------------------------------
// Loading
// ---------------------------------------------------------------------------

/// A node is loaded at most once: while it loads, and after it was loaded, no
/// further load starts.
pub proof fn law_load_once(t: Tree, id: Seq<char>, children: Seq<db_node::NodeView>)
    ensures
        !t.load_started(id).can_start_load(id) || t.node(id) is None,
        t.load_started(id).load_started(id) == t.load_started(id),
        !t.children_taken(id, children).can_start_load(id),
{
}

/// A failed load is remembered and can be tried again.
pub proof fn law_failed_load(t: Tree, id: Seq<char>, error: Seq<char>)
    ensures
        t.load_failed(id, error).errors.contains_key(id),
        t.load_failed(id, error).errors[id] == error,
        !t.load_failed(id, error).expanded.contains(id),
        t.node(id) is Some && !t.loaded.contains(id) ==> t.load_failed(id, error).can_start_load(
            id,
        ),
{
}

proof fn lemma_database_named(children: Seq<db_node::NodeView>, name: Seq<char>, i: int)
    requires
        0 <= i < children.len(),
        children[i].node_type == db_node::DbNodeType::Database,
        children[i].name == name,
    ensures
        tree_model::database_named(children, name) is Some,
    decreases children.len(),
{
    if i > 0 {
        assert(children.drop_first()[i - 1] == children[i]);
        lemma_database_named(children.drop_first(), name, i - 1);
    }
}

/// A database of a known connection can always be shown, unless its name is
/// empty.
pub proof fn law_database_can_be_shown(
    t: Tree,
    connection_id: Seq<char>,
    name: Seq<char>,
    sort_key: Seq<char>,
)
    requires
        t.node(connection_id) is Some,
        name.len() > 0,
    ensures
        t.database_shown_id(connection_id, name, sort_key) is Some,
{
    broadcast use vstd::seq_lib::group_to_multiset_ensures;

    let u = t.selection_added(connection_id, name);
    if t.database_node(connection_id, name) is None {
        let c = u.node(connection_id)->0;
        let n = db_node::NodeView {
            parent_context: Some(connection_id),
            database_name: Some(name),
            ..db_node::new_node(
                tree_model::inner_id(connection_id, name),
                name,
                db_node::DbNodeType::Database,
                c.connection_id,
                c.database_type,
                sort_key,
            )
        };
        assert(n.id.len() > connection_id.len());
        lemma_put_find(u.nodes, n, connection_id);
        let stored = node_store::put(u.nodes, n);
        let p = node_store::find(stored, connection_id)->0;
        let grown = db_node::NodeView { children: db_node::sorted(p.children.push(n)), ..p };
        node_store::lemma_find(stored, connection_id);
        lemma_put_find(stored, grown, connection_id);
        db_node::law_sorted(p.children.push(n));
        let list = p.children.push(n);
        let s = db_node::sorted(list);
        assert(list[list.len() - 1] == n);
        assert(list.contains(n));
        assert(list.to_multiset().contains(n));
        assert(s.to_multiset().contains(n));
        assert(s.contains(n));
        let i = choose|i: int| 0 <= i < s.len() && s[i] == n;
        lemma_database_named(s, name, i);
    }
}

// ---------------------------------------------------------------------------
// Connections
// ---------------------------------------------------------------------------

proof fn lemma_ids_without(v: Seq<i64>, number: int)
    ensures
        forall|x: i64| tree_model::ids_without(v, number).contains(x) ==> x != number,
    decreases v.len(),
{
    if v.len() > 0 {
        let rest = tree_model::ids_without(v.drop_last(), number);
        lemma_ids_without(v.drop_last(), number);
        if v.last() != number {
            assert forall|x: i64| rest.push(v.last()).contains(x) implies x != number by {
                broadcast use vstd::seq_lib::lemma_seq_contains_after_push;

                assert(rest.contains(x) || x == v.last());
            }
        }
    }
}

/// After a connection was deleted its node is gone, it is followed no longer
/// and nothing of its selection is left.
pub proof fn law_deleted_connection_is_gone(t: Tree, id: i64)
    requires
        t.followed.contains(id),
    ensures
        ({
            let u = t.data_changed(tree_model::ChangeView::Deleted(id));
            let node_id = text::signed_decimal(id as int);
            &&& u.node(node_id) is None
            &&& !u.followed.contains(id)
            &&& u.selection(node_id) is None
            &&& !u.expanded.contains(node_id)
            &&& u.selected_node_id != Some(node_id)
        }),
{
    let node_id = text::signed_decimal(id as int);
    text::law_number_reads_back(id as int);
    lemma_ids_without(t.followed, id as int);
    let a = t.descendants_cleared(node_id);
    lemma_without(a.nodes, set![node_id], node_id);
}

/// A change in another workspace, or of a connection that is not followed,
/// leaves the tree alone.
pub proof fn law_foreign_changes_are_ignored(t: Tree, id: i64, c: tree_model::ConnectionView)
    requires
        !t.followed.contains(id),
        c.id == Some(id),
        c.workspace_id != t.workspace_id,
    ensures
        t.data_changed(tree_model::ChangeView::Deleted(id)) == t,
        t.data_changed(tree_model::ChangeView::Updated(c)) == t,
        t.data_changed(tree_model::ChangeView::Created(c)) == t,
        t.data_changed(tree_model::ChangeView::Workspace) == t,
{
}

} // verus!
