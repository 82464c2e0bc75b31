//! Which nodes of the database tree have rows, with and without a search.
use vstd::prelude::*;

use crate::db_node;
use crate::db_node::DbNodeType;
use crate::node_store;
use crate::text;
use crate::text_laws;
use crate::tree_laws;
use crate::tree_model;
use crate::tree_model::{FlatView, Tree};

verus! {

// ---------------------------------------------------------------------------
// Paths
// ---------------------------------------------------------------------------

/// `part` stands somewhere in `s`.
pub open spec fn has_part(s: Seq<char>, part: Seq<char>) -> bool {
    exists|a: Seq<char>, b: Seq<char>| s == #[trigger] (a + part + b)
}

/// The id of the last connection among the first nodes of the path, up to
/// place `i`.
pub open spec fn connection_on(t: Tree, path: Seq<Seq<char>>, i: int) -> Option<Seq<char>>
    decreases i + 1,
{
    if i < 0 {
        None
    } else if t.node(path[i]) is Some && (t.node(path[i])->0).node_type == DbNodeType::Connection {
        Some((t.node(path[i])->0).id)
    } else {
        connection_on(t, path, i - 1)
    }
}

/// The node is a database, or a schema that stands directly below the
/// connection, and only other ones are selected there.
pub open spec fn is_left_out(t: Tree, n: db_node::NodeView, connection: Option<Seq<char>>) -> bool {
    &&& connection is Some
    &&& n.node_type == DbNodeType::Database || (n.node_type == DbNodeType::Schema
        && n.parent_context == connection)
    &&& t.selected_databases.contains_key(connection->0)
    &&& t.selected_databases[connection->0] is Some
    &&& !(t.selected_databases[connection->0]->0).contains(n.name)
}

/// One node has the other as a child.
pub open spec fn has_child(n: db_node::NodeView, id: Seq<char>) -> bool {
    exists|j: int| 0 <= j < n.children.len() && (#[trigger] n.children[j]).id == id
}

/// The nodes of the path are stored, each is a child of the one before it, and
/// none of them is left out by the selection of databases.
pub open spec fn is_way(t: Tree, path: Seq<Seq<char>>) -> bool {
    &&& path.len() > 0
    &&& forall|i: int|
        0 <= i < path.len() ==> t.node(#[trigger] path[i]) is Some && !is_left_out(
            t,
            t.node(path[i])->0,
            connection_on(t, path, i),
        )
    &&& forall|i: int|
        0 <= i < path.len() - 1 ==> has_child(t.node(#[trigger] path[i])->0, path[i + 1])
}

/// The path starts at a node without parent.
pub open spec fn starts_at_root(t: Tree, path: Seq<Seq<char>>) -> bool {
    &&& path.len() > 0
    &&& t.node(path[0]) is Some
    &&& (t.node(path[0])->0).parent_context is None
}

/// The children of all nodes but the last are loaded.
pub open spec fn is_loaded(t: Tree, path: Seq<Seq<char>>) -> bool {
    forall|i: int|
        0 <= i < path.len() - 1 ==> (t.node(#[trigger] path[i])->0).children_loaded
}

/// All nodes but the last are expanded.
pub open spec fn is_unfolded(t: Tree, path: Seq<Seq<char>>) -> bool {
    forall|i: int| 0 <= i < path.len() - 1 ==> t.expanded.contains(#[trigger] path[i])
}

/// The row of the node at place `i` of a path.
pub open spec fn row_at(path: Seq<Seq<char>>, i: int) -> FlatView {
    FlatView { node_id: path[i], depth: i as nat }
}

// ---------------------------------------------------------------------------
// What is found
// ---------------------------------------------------------------------------

/// A stored node is found by its id where no other node has it.
pub proof fn law_node_is_found(t: Tree, i: int)
    requires
        0 <= i < t.nodes.len(),
        forall|j: int| 0 <= j < t.nodes.len() && j != i ==> (#[trigger] t.nodes[j]).id
            != t.nodes[i].id,
    ensures
        t.node(t.nodes[i].id) == Some(t.nodes[i]),
{
    node_store::lemma_find_at(t.nodes, i);
}

/// What is found is stored and has the id.
pub proof fn law_found_is_stored(t: Tree, id: Seq<char>)
    ensures
        t.node(id) matches Some(n) ==> n.id == id && t.nodes.contains(n),
        t.node(id) is None ==> forall|i: int| 0 <= i < t.nodes.len() ==> (#[trigger] t.nodes[i]).id
            != id,
{
    node_store::lemma_find(t.nodes, id);
}

/// A name matches every text that is a part of it in lower case, and every name
/// matches the empty text.
pub proof fn law_name_matches_parts(
    n: db_node::NodeView,
    a: Seq<char>,
    q: Seq<char>,
    b: Seq<char>,
)
    requires
        text::lowercase(n.name) == a + q + b || q.len() == 0,
    ensures
        tree_model::name_matches(n, q),
{
    if q.len() > 0 {
        text_laws::law_occurs(a + q + b, a, q, b);
    }
}

/// A name that matches has the query as a part.
pub proof fn law_match_is_part(n: db_node::NodeView, q: Seq<char>)
    requires
        tree_model::name_matches(n, q),
        q.len() > 0,
    ensures
        has_part(text::lowercase(n.name), q),
{
    text_laws::law_occurs(text::lowercase(n.name), Seq::empty(), q, Seq::empty());
}

// ---------------------------------------------------------------------------
// What has a row
// ---------------------------------------------------------------------------

proof fn lemma_hidden(t: Tree, path: Seq<Seq<char>>, i: int)
    requires
        0 <= i < path.len(),
        t.node(path[i]) is Some,
    ensures
        t.is_hidden(t.node(path[i])->0, connection_on(t, path, i - 1)) == is_left_out(
            t,
            t.node(path[i])->0,
            connection_on(t, path, i),
        ),
        tree_model::connection_of(t.node(path[i])->0, connection_on(t, path, i - 1))
            == connection_on(t, path, i),
{
}

proof fn lemma_row_of_one(
    t: Tree,
    list: Seq<db_node::NodeView>,
    j: int,
    depth: nat,
    query: Seq<char>,
    above: Option<Seq<char>>,
    levels: nat,
    row: FlatView,
)
    requires
        0 <= j < list.len(),
        t.rows(list[j].id, depth, query, above, levels).contains(row),
    ensures
        t.rows_of(list, depth, query, above, levels).contains(row),
    decreases list.len(),
{
    let before = t.rows_of(list.drop_last(), depth, query, above, levels);
    let last = t.rows(list.last().id, depth, query, above, levels);
    if j < list.len() - 1 {
        lemma_row_of_one(t, list.drop_last(), j, depth, query, above, levels, row);
        let k = choose|k: int| 0 <= k < before.len() && before[k] == row;
        assert((before + last)[k] == row);
    } else {
        let k = choose|k: int| 0 <= k < last.len() && last[k] == row;
        assert((before + last)[before.len() + k] == row);
    }
}

proof fn lemma_one_of_row(
    t: Tree,
    list: Seq<db_node::NodeView>,
    depth: nat,
    query: Seq<char>,
    above: Option<Seq<char>>,
    levels: nat,
    row: FlatView,
) -> (j: int)
    requires
        t.rows_of(list, depth, query, above, levels).contains(row),
    ensures
        0 <= j < list.len(),
        t.rows(list[j].id, depth, query, above, levels).contains(row),
    decreases list.len(),
{
    let all = t.rows_of(list, depth, query, above, levels);
    let before = t.rows_of(list.drop_last(), depth, query, above, levels);
    let last = t.rows(list.last().id, depth, query, above, levels);
    let k = choose|k: int| 0 <= k < all.len() && all[k] == row;
    if k < before.len() {
        assert(before[k] == row);
        let j = lemma_one_of_row(t, list.drop_last(), depth, query, above, levels, row);
        assert(list.drop_last()[j] == list[j]);
        j
    } else {
        assert(last[k - before.len()] == row);
        list.len() - 1
    }
}

proof fn lemma_root(t: Tree, id: Seq<char>) -> (j: int)
    requires
        t.node(id) is Some,
        (t.node(id)->0).parent_context is None,
    ensures
        0 <= j < node_store::roots(t.nodes).len(),
        node_store::roots(t.nodes)[j].id == id,
{
    broadcast use vstd::seq_lib::to_multiset_contains;

    let n = t.node(id)->0;
    node_store::lemma_find(t.nodes, id);
    let is_root = |n: db_node::NodeView| n.parent_context is None;
    let k = choose|k: int| 0 <= k < t.nodes.len() && t.nodes[k] == n;
    t.nodes.lemma_filter_contains(is_root, k);
    let some = t.nodes.filter(is_root);
    db_node::law_sorted(some);
    let roots = node_store::roots(t.nodes);
    assert(some.to_multiset().count(n) > 0);
    assert(roots.contains(n));
    choose|j: int| 0 <= j < roots.len() && roots[j] == n
}

proof fn lemma_path_is_short(t: Tree, path: Seq<Seq<char>>)
    requires
        is_way(t, path),
        path.no_duplicates(),
    ensures
        path.len() <= t.nodes.len(),
{
    tree_laws::lemma_dom_finite(t.nodes);
    let dom = node_store::node_map(t.nodes).dom();
    path.unique_seq_to_set();
    assert forall|id: Seq<char>| path.to_set().contains(id) implies dom.contains(id) by {
        let i = choose|i: int| 0 <= i < path.len() && path[i] == id;
        assert(t.node(path[i]) is Some);
    }
    vstd::set_lib::lemma_len_subset(path.to_set(), dom);
}

proof fn lemma_search_down(t: Tree, path: Seq<Seq<char>>, i: int, q: Seq<char>, levels: nat)
    requires
        is_way(t, path),
        is_loaded(t, path),
        0 <= i < path.len(),
        levels >= path.len() - i,
        q.len() > 0,
        has_part(text::lowercase((t.node(path.last())->0).name), q),
    ensures
        t.matches_query(path[i], q, connection_on(t, path, i - 1), levels),
        forall|k: int|
            i <= k < path.len() ==> #[trigger] t.rows(
                path[i],
                i as nat,
                q,
                connection_on(t, path, i - 1),
                levels,
            ).contains(row_at(path, k)),
    decreases path.len() - i,
{
    let n = t.node(path[i])->0;
    let above = connection_on(t, path, i - 1);
    let here = connection_on(t, path, i);
    lemma_hidden(t, path, i);
    let less = (levels - 1) as nat;
    let rows = t.rows(path[i], i as nat, q, above, levels);
    if i < path.len() - 1 {
        lemma_search_down(t, path, i + 1, q, less);
        assert(has_child(n, path[i + 1]));
        let j = choose|j: int| 0 <= j < n.children.len() && (#[trigger] n.children[j]).id == path[i
            + 1];
        assert(t.matches_query(n.children[j].id, q, here, less));
        assert(t.child_matches(n, q, above, levels));
        let inner = t.rows_of(n.children, (i + 1) as nat, q, here, less);
        assert(rows == seq![row_at(path, i)] + inner);
        assert forall|k: int| i <= k < path.len() implies #[trigger] rows.contains(
            row_at(path, k),
        ) by {
            if k == i {
                assert(rows[0] == row_at(path, i));
            } else {
                assert(t.rows(path[i + 1], (i + 1) as nat, q, here, less).contains(row_at(path, k)));
                lemma_row_of_one(
                    t,
                    n.children,
                    j,
                    (i + 1) as nat,
                    q,
                    here,
                    less,
                    row_at(path, k),
                );
                let m = choose|m: int| 0 <= m < inner.len() && inner[m] == row_at(path, k);
                assert(rows[m + 1] == row_at(path, k));
            }
        }
    } else {
        let (a, b) = choose|a: Seq<char>, b: Seq<char>|
            text::lowercase(n.name) == #[trigger] (a + q + b);
        law_name_matches_parts(n, a, q, b);
        assert(rows[0] == row_at(path, i));
    }
}

/// While a text is searched for, every node whose name has it as a part, case
/// ignored, has a row, and so has every node above it: whatever stands around
/// the text in the name, wherever the node stands and whatever is expanded. It
/// takes that the node can be reached through loaded children and is not left
/// out by the selection of databases.
pub proof fn law_search_shows_matches(
    t: Tree,
    path: Seq<Seq<char>>,
    a: Seq<char>,
    q: Seq<char>,
    b: Seq<char>,
    k: int,
)
    requires
        starts_at_root(t, path),
        is_way(t, path),
        is_loaded(t, path),
        path.no_duplicates(),
        q.len() > 0,
        text::lowercase(t.search_query) == q,
        text::lowercase((t.node(path.last())->0).name) == a + q + b,
        0 <= k < path.len(),
    ensures
        t.rebuilt().flat.contains(FlatView { node_id: path[k], depth: k as nat }),
        t.rebuilt().flat.contains(
            FlatView { node_id: path.last(), depth: (path.len() - 1) as nat },
        ),
{
    lemma_path_is_short(t, path);
    lemma_search_down(t, path, 0, q, t.nodes.len());
    let j = lemma_root(t, path[0]);
    let roots = node_store::roots(t.nodes);
    let last = path.len() - 1;
    assert(t.rows(path[0], 0, q, None, t.nodes.len()).contains(row_at(path, k)));
    assert(t.rows(path[0], 0, q, None, t.nodes.len()).contains(row_at(path, last)));
    lemma_row_of_one(t, roots, j, 0, q, None, t.nodes.len(), row_at(path, k));
    lemma_row_of_one(t, roots, j, 0, q, None, t.nodes.len(), row_at(path, last));
}

proof fn lemma_unfolded_down(t: Tree, path: Seq<Seq<char>>, i: int, levels: nat)
    requires
        is_way(t, path),
        is_unfolded(t, path),
        0 <= i < path.len(),
        levels >= path.len() - i,
    ensures
        t.rows(path[i], i as nat, Seq::empty(), connection_on(t, path, i - 1), levels).contains(
            row_at(path, path.len() - 1),
        ),
    decreases path.len() - i,
{
    let n = t.node(path[i])->0;
    let above = connection_on(t, path, i - 1);
    let here = connection_on(t, path, i);
    let q = Seq::<char>::empty();
    lemma_hidden(t, path, i);
    let less = (levels - 1) as nat;
    let rows = t.rows(path[i], i as nat, q, above, levels);
    let row = row_at(path, path.len() - 1);
    if i < path.len() - 1 {
        lemma_unfolded_down(t, path, i + 1, less);
        assert(has_child(n, path[i + 1]));
        let j = choose|j: int| 0 <= j < n.children.len() && (#[trigger] n.children[j]).id == path[i
            + 1];
        let inner = t.rows_of(n.children, (i + 1) as nat, q, here, less);
        assert(t.expanded.contains(path[i]));
        assert(rows == seq![row_at(path, i)] + inner);
        lemma_row_of_one(t, n.children, j, (i + 1) as nat, q, here, less, row);
        let m = choose|m: int| 0 <= m < inner.len() && inner[m] == row;
        assert(rows[m + 1] == row);
    } else {
        assert(rows[0] == row);
    }
}

/// While nothing is searched for, every node below expanded nodes has a row,
/// unless the selection of databases leaves it out.
pub proof fn law_expanded_shows_children(t: Tree, path: Seq<Seq<char>>)
    requires
        starts_at_root(t, path),
        is_way(t, path),
        is_unfolded(t, path),
        path.no_duplicates(),
        text::lowercase(t.search_query).len() == 0,
    ensures
        t.rebuilt().flat.contains(
            FlatView { node_id: path.last(), depth: (path.len() - 1) as nat },
        ),
{
    assert(text::lowercase(t.search_query) =~= Seq::empty());
    lemma_path_is_short(t, path);
    lemma_unfolded_down(t, path, 0, t.nodes.len());
    let j = lemma_root(t, path[0]);
    lemma_row_of_one(
        t,
        node_store::roots(t.nodes),
        j,
        0,
        Seq::empty(),
        None,
        t.nodes.len(),
        row_at(path, path.len() - 1),
    );
}

// ---------------------------------------------------------------------------
// What has no row
// ---------------------------------------------------------------------------

proof fn lemma_connection_on(t: Tree, path: Seq<Seq<char>>, id: Seq<char>, i: int)
    requires
        i < path.len(),
    ensures
        connection_on(t, path.push(id), i) == connection_on(t, path, i),
    decreases i + 1,
{
    if i >= 0 {
        assert(path.push(id)[i] == path[i]);
        lemma_connection_on(t, path, id, i - 1);
    }
}

/// The path leads from a root to a place where node `id` stands next.
spec fn leads_to(t: Tree, path: Seq<Seq<char>>, id: Seq<char>) -> bool {
    if path.len() == 0 {
        t.node(id) is Some ==> (t.node(id)->0).parent_context is None
    } else {
        starts_at_root(t, path) && is_way(t, path) && has_child(t.node(path.last())->0, id)
    }
}

proof fn lemma_one_further(t: Tree, path: Seq<Seq<char>>, id: Seq<char>)
    requires
        leads_to(t, path, id),
        t.node(id) is Some,
        !t.is_hidden(t.node(id)->0, connection_on(t, path, path.len() - 1)),
    ensures
        starts_at_root(t, path.push(id)),
        is_way(t, path.push(id)),
        tree_model::connection_of(t.node(id)->0, connection_on(t, path, path.len() - 1))
            == connection_on(t, path.push(id), path.len() as int),
{
    let p = path.push(id);
    lemma_connection_on(t, path, id, path.len() - 1);
    lemma_hidden(t, p, path.len() as int);
    assert forall|i: int| 0 <= i < p.len() implies t.node(#[trigger] p[i]) is Some && !is_left_out(
        t,
        t.node(p[i])->0,
        connection_on(t, p, i),
    ) by {
        if i < path.len() {
            assert(p[i] == path[i]);
            lemma_connection_on(t, path, id, i);
        }
    }
    assert forall|i: int| 0 <= i < p.len() - 1 implies has_child(
        t.node(#[trigger] p[i])->0,
        p[i + 1],
    ) by {
        assert(p[i] == path[i]);
        if i < path.len() - 1 {
            assert(p[i + 1] == path[i + 1]);
        }
    }
}

/// The path leads from a root through loaded children to a node whose name has
/// the query as a part.
pub open spec fn finds(t: Tree, path: Seq<Seq<char>>, q: Seq<char>) -> bool {
    &&& starts_at_root(t, path)
    &&& is_way(t, path)
    &&& is_loaded(t, path)
    &&& has_part(text::lowercase((t.node(path.last())->0).name), q)
}

proof fn lemma_match_below(
    t: Tree,
    path: Seq<Seq<char>>,
    id: Seq<char>,
    q: Seq<char>,
    levels: nat,
) -> (found: Seq<Seq<char>>)
    requires
        leads_to(t, path, id),
        path.len() > 0 ==> is_loaded(t, path) && (t.node(path.last())->0).children_loaded,
        q.len() > 0,
        t.matches_query(id, q, connection_on(t, path, path.len() - 1), levels),
    ensures
        finds(t, found, q),
        found.len() > path.len(),
        found.take(path.len() as int) == path,
        found[path.len() as int] == id,
    decreases levels,
{
    let above = connection_on(t, path, path.len() - 1);
    let n = t.node(id)->0;
    let p = path.push(id);
    lemma_one_further(t, path, id);
    lemma_loaded_further(t, path, id);
    if tree_model::name_matches(n, q) {
        law_match_is_part(n, q);
        assert(p.take(path.len() as int) =~= path);
        p
    } else {
        let j = choose|j: int|
            0 <= j < n.children.len() && t.matches_query(
                (#[trigger] n.children[j]).id,
                q,
                tree_model::connection_of(n, above),
                (levels - 1) as nat,
            );
        assert(has_child(n, n.children[j].id));
        let found = lemma_match_below(t, p, n.children[j].id, q, (levels - 1) as nat);
        assert(found.take(path.len() as int) =~= found.take(p.len() as int).take(path.len() as int));
        assert(p.take(path.len() as int) =~= path);
        assert(found[path.len() as int] == found.take(p.len() as int)[path.len() as int]);
        found
    }
}

proof fn lemma_loaded_further(t: Tree, path: Seq<Seq<char>>, id: Seq<char>)
    requires
        path.len() > 0 ==> is_loaded(t, path) && (t.node(path.last())->0).children_loaded,
    ensures
        is_loaded(t, path.push(id)),
{
    let p = path.push(id);
    assert forall|i: int| 0 <= i < p.len() - 1 implies (t.node(
        #[trigger] p[i],
    )->0).children_loaded by {
        assert(p[i] == path[i]);
    }
}

proof fn lemma_searched_row(
    t: Tree,
    path: Seq<Seq<char>>,
    id: Seq<char>,
    q: Seq<char>,
    levels: nat,
    row: FlatView,
) -> (found: Seq<Seq<char>>)
    requires
        leads_to(t, path, id),
        path.len() > 0 ==> is_loaded(t, path) && (t.node(path.last())->0).children_loaded,
        q.len() > 0,
        t.rows(id, path.len(), q, connection_on(t, path, path.len() - 1), levels).contains(row),
    ensures
        finds(t, found, q),
        row.depth < found.len(),
        found[row.depth as int] == row.node_id,
    decreases levels,
{
    let above = connection_on(t, path, path.len() - 1);
    let n = t.node(id)->0;
    let p = path.push(id);
    let rows = t.rows(id, path.len(), q, above, levels);
    let k = choose|k: int| 0 <= k < rows.len() && rows[k] == row;
    lemma_one_further(t, path, id);
    lemma_loaded_further(t, path, id);
    if k == 0 {
        assert(t.matches_query(id, q, above, levels));
        lemma_match_below(t, path, id, q, levels)
    } else {
        let less = (levels - 1) as nat;
        let here = tree_model::connection_of(n, above);
        let inner = t.rows_of(n.children, path.len() + 1, q, here, less);
        assert(inner[k - 1] == row);
        let j = lemma_one_of_row(t, n.children, path.len() + 1, q, here, less, row);
        assert(has_child(n, n.children[j].id));
        assert(p.last() == id);
        lemma_searched_row(t, p, n.children[j].id, q, less, row)
    }
}

proof fn lemma_root_stored(t: Tree, j: int)
    requires
        forall|i: int, j: int|
            0 <= i < j < t.nodes.len() ==> (#[trigger] t.nodes[i]).id != (#[trigger] t.nodes[j]).id,
        0 <= j < node_store::roots(t.nodes).len(),
    ensures
        t.node(node_store::roots(t.nodes)[j].id) == Some(node_store::roots(t.nodes)[j]),
        node_store::roots(t.nodes)[j].parent_context is None,
{
    broadcast use vstd::seq_lib::to_multiset_contains;

    let is_root = |n: db_node::NodeView| n.parent_context is None;
    let some = t.nodes.filter(is_root);
    db_node::law_sorted(some);
    let roots = node_store::roots(t.nodes);
    let n = roots[j];
    assert(roots.contains(n));
    assert(roots.to_multiset().count(n) > 0);
    assert(some.contains(n));
    let k = choose|k: int| 0 <= k < some.len() && some[k] == n;
    t.nodes.lemma_filter_pred(is_root, k);
    t.nodes.lemma_filter_contains_rev(is_root, n);
    let i = choose|i: int| 0 <= i < t.nodes.len() && t.nodes[i] == n;
    node_store::lemma_find_at(t.nodes, i);
}

/// While a text is searched for, only nodes whose name has it as a part, case
/// ignored, and nodes above such nodes have rows, each as deep as it stands in
/// the tree, and none that the selection of databases leaves out.
pub proof fn law_search_shows_nothing_else(t: Tree, i: int)
    requires
        forall|i: int, j: int|
            0 <= i < j < t.nodes.len() ==> (#[trigger] t.nodes[i]).id != (#[trigger] t.nodes[j]).id,
        text::lowercase(t.search_query).len() > 0,
        0 <= i < t.rebuilt().flat.len(),
    ensures
        ({
            let row = t.rebuilt().flat[i];
            exists|path: Seq<Seq<char>>| #[trigger]
                finds(t, path, text::lowercase(t.search_query)) && row.depth < path.len()
                    && path[row.depth as int] == row.node_id
        }),
{
    let row = t.rebuilt().flat[i];
    let q = text::lowercase(t.search_query);
    let roots = node_store::roots(t.nodes);
    let j = lemma_one_of_row(t, roots, 0, q, None, t.nodes.len(), row);
    lemma_root_stored(t, j);
    let path = lemma_searched_row(t, Seq::empty(), roots[j].id, q, t.nodes.len(), row);
    assert(finds(t, path, q));
}

proof fn lemma_plain_row(
    t: Tree,
    path: Seq<Seq<char>>,
    id: Seq<char>,
    levels: nat,
    row: FlatView,
) -> (found: Seq<Seq<char>>)
    requires
        leads_to(t, path, id),
        forall|i: int| 0 <= i < path.len() ==> t.expanded.contains(#[trigger] path[i]),
        t.rows(
            id,
            path.len(),
            Seq::empty(),
            connection_on(t, path, path.len() - 1),
            levels,
        ).contains(row),
    ensures
        starts_at_root(t, found),
        is_way(t, found),
        is_unfolded(t, found),
        row.depth == found.len() - 1,
        found.last() == row.node_id,
    decreases levels,
{
    let above = connection_on(t, path, path.len() - 1);
    let n = t.node(id)->0;
    let p = path.push(id);
    let q = Seq::<char>::empty();
    let rows = t.rows(id, path.len(), q, above, levels);
    let k = choose|k: int| 0 <= k < rows.len() && rows[k] == row;
    lemma_one_further(t, path, id);
    if k == 0 {
        assert forall|i: int| 0 <= i < p.len() - 1 implies t.expanded.contains(
            #[trigger] p[i],
        ) by {
            assert(p[i] == path[i]);
        }
        p
    } else {
        let less = (levels - 1) as nat;
        let here = tree_model::connection_of(n, above);
        let inner = t.rows_of(n.children, path.len() + 1, q, here, less);
        assert(inner[k - 1] == row);
        let j = lemma_one_of_row(t, n.children, path.len() + 1, q, here, less, row);
        assert(has_child(n, n.children[j].id));
        assert(p.last() == id);
        assert forall|i: int| 0 <= i < p.len() implies t.expanded.contains(#[trigger] p[i]) by {
            if i < path.len() {
                assert(p[i] == path[i]);
            }
        }
        lemma_plain_row(t, p, n.children[j].id, less, row)
    }
}

/// The path leads from a root through expanded nodes.
pub open spec fn unfolds(t: Tree, path: Seq<Seq<char>>) -> bool {
    starts_at_root(t, path) && is_way(t, path) && is_unfolded(t, path)
}

/// While nothing is searched for, only roots and children of expanded nodes
/// have rows, each as deep as it stands in the tree, and none that the selection
/// of databases leaves out.
pub proof fn law_only_expanded_shows_children(t: Tree, i: int)
    requires
        forall|i: int, j: int|
            0 <= i < j < t.nodes.len() ==> (#[trigger] t.nodes[i]).id != (#[trigger] t.nodes[j]).id,
        text::lowercase(t.search_query).len() == 0,
        0 <= i < t.rebuilt().flat.len(),
    ensures
        ({
            let row = t.rebuilt().flat[i];
            exists|path: Seq<Seq<char>>| #[trigger]
                unfolds(t, path) && row.depth == path.len() - 1 && path.last() == row.node_id
        }),
{
    let row = t.rebuilt().flat[i];
    assert(text::lowercase(t.search_query) =~= Seq::empty());
    let roots = node_store::roots(t.nodes);
    let j = lemma_one_of_row(t, roots, 0, Seq::empty(), None, t.nodes.len(), row);
    lemma_root_stored(t, j);
    let path = lemma_plain_row(t, Seq::empty(), roots[j].id, t.nodes.len(), row);
    assert(unfolds(t, path));
}

// ---------------------------------------------------------------------------
// The order of the rows
// ---------------------------------------------------------------------------

/// Siblings have their rows in their order.
pub proof fn law_rows_in_list_order(
    t: Tree,
    a: Seq<db_node::NodeView>,
    b: Seq<db_node::NodeView>,
    depth: nat,
    query: Seq<char>,
    above: Option<Seq<char>>,
    levels: nat,
)
    ensures
        t.rows_of(a + b, depth, query, above, levels) == t.rows_of(a, depth, query, above, levels)
            + t.rows_of(b, depth, query, above, levels),
    decreases b.len(),
{
    if b.len() == 0 {
        assert(a + b =~= a);
    } else {
        assert((a + b).drop_last() =~= a + b.drop_last());
        law_rows_in_list_order(t, a, b.drop_last(), depth, query, above, levels);
    }
}

/// The row of a node stands before the rows of what lies below it, which
/// follow it at once.
pub proof fn law_parent_before_children(
    t: Tree,
    id: Seq<char>,
    depth: nat,
    query: Seq<char>,
    above: Option<Seq<char>>,
    levels: nat,
    i: int,
)
    requires
        0 <= i < t.rows(id, depth, query, above, levels).len(),
    ensures
        t.rows(id, depth, query, above, levels)[0] == (FlatView { node_id: id, depth }),
        i > 0 ==> t.rows(id, depth, query, above, levels)[i].depth > depth,
{
    if i > 0 {
        let n = t.node(id)->0;
        let here = tree_model::connection_of(n, above);
        let less = (levels - 1) as nat;
        tree_laws::law_rows_are_stored(t, n.children, depth + 1, query, here, less);
        assert(t.rows(id, depth, query, above, levels)[i] == t.rows_of(
            n.children,
            depth + 1,
            query,
            here,
            less,
        )[i - 1]);
    }
}

/// Making the rows anew changes nothing but the rows, and no row is selected
/// then.
pub proof fn law_rows_made_anew(t: Tree)
    ensures
        t.rebuilt() == (Tree {
            flat: t.rebuilt().flat,
            selected_ix: t.rebuilt().selected_ix,
            ..t
        }),
        t.rebuilt().selected_ix is None,
{
}

} // verus!
