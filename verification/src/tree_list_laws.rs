//! What holds of the lists that the database tree keeps: databases, ids and
//! kinds of nodes.
use vstd::prelude::*;

use crate::db_node;
use crate::db_node::{DbNodeType, NodeView};
use crate::text;
use crate::text_laws;
use crate::tree_model;
use crate::tree_row_laws;
use crate::tree_types;
use crate::tree_types::EventKind;

verus! {

// ---------------------------------------------------------------------------
// Databases
// ---------------------------------------------------------------------------

/// A child counts among the databases of a connection just where it is a
/// database or a schema; the databases stand in the order of the children.
pub proof fn law_databases(a: Seq<NodeView>, b: Seq<NodeView>, c: NodeView)
    ensures
        tree_model::databases_of(Seq::empty()) == Seq::<(Seq<char>, Seq<char>)>::empty(),
        tree_model::databases_of(a + b) == tree_model::databases_of(a) + tree_model::databases_of(
            b,
        ),
        c.node_type == DbNodeType::Database || c.node_type == DbNodeType::Schema
            ==> tree_model::databases_of(seq![c]) == seq![(c.id, c.name)],
        c.node_type != DbNodeType::Database && c.node_type != DbNodeType::Schema
            ==> tree_model::databases_of(seq![c]).len() == 0,
    decreases b.len(),
{
    reveal_with_fuel(tree_model::databases_of, 2);
    assert(seq![c].drop_last() =~= Seq::empty());
    if b.len() == 0 {
        assert(a + b =~= a);
        assert(tree_model::databases_of(a) + tree_model::databases_of(b)
            =~= tree_model::databases_of(a));
    } else {
        assert((a + b).drop_last() =~= a + b.drop_last());
        law_databases(a, b.drop_last(), c);
        assert(tree_model::databases_of(a + b) =~= tree_model::databases_of(a)
            + tree_model::databases_of(b));
    }
}

/// The filter list keeps, in their order, just the databases whose name in
/// lower case has the text as a part.
pub proof fn law_filtered_databases(
    v: Seq<(Seq<char>, Seq<char>)>,
    w: Seq<(Seq<char>, Seq<char>)>,
    p: (Seq<char>, Seq<char>),
    q: Seq<char>,
)
    ensures
        tree_model::with_name_like(v + w, q) == tree_model::with_name_like(v, q)
            + tree_model::with_name_like(w, q),
        tree_row_laws::has_part(text::lowercase(p.1), q) ==> tree_model::with_name_like(
            seq![p],
            q,
        ) == seq![p],
        !tree_row_laws::has_part(text::lowercase(p.1), q) ==> tree_model::with_name_like(
            seq![p],
            q,
        ).len() == 0,
{
    let like = |p: (Seq<char>, Seq<char>)| text::occurs(text::lowercase(p.1), q);
    Seq::filter_distributes_over_add(v, w, like);
    let none = Seq::<(Seq<char>, Seq<char>)>::empty();
    assert(none.push(p) =~= seq![p]);
    none.lemma_filter_push(p, like);
    assert(none.filter(like) =~= none) by {
        reveal(Seq::filter);
    }
    let s = text::lowercase(p.1);
    text_laws::law_occurs(s, Seq::empty(), q, Seq::empty());
    if tree_row_laws::has_part(s, q) {
        let (a, b) = choose|a: Seq<char>, b: Seq<char>| s == #[trigger] (a + q + b);
        text_laws::law_occurs(s, a, q, b);
    }
}

/// The selected databases are counted one by one.
pub proof fn law_selected_are_counted(
    v: Seq<(Seq<char>, Seq<char>)>,
    p: (Seq<char>, Seq<char>),
    set: Set<Seq<char>>,
)
    ensures
        tree_model::count_named(Seq::empty(), set) == 0,
        tree_model::count_named(v.push(p), set) == tree_model::count_named(v, set) + (
        if set.contains(p.1) {
            1int
        } else {
            0int
        }),
{
    assert(v.push(p).drop_last() =~= v);
}

/// A name stands among the names just where a pair has it.
pub proof fn law_names(v: Seq<(Seq<char>, Seq<char>)>, i: int, name: Seq<char>)
    ensures
        0 <= i < v.len() ==> tree_model::names(v).contains(v[i].1),
        (forall|j: int| 0 <= j < v.len() ==> (#[trigger] v[j]).1 != name) ==> !tree_model::names(
            v,
        ).contains(name),
{
}

/// A database is found by its name: the first child that is a database and
/// bears it.
pub proof fn law_database_by_name(children: Seq<NodeView>, name: Seq<char>, i: int)
    requires
        0 <= i <= children.len(),
        forall|j: int|
            0 <= j < i ==> !((#[trigger] children[j]).node_type == DbNodeType::Database
                && children[j].name == name),
        i < children.len() ==> children[i].node_type == DbNodeType::Database && children[i].name
            == name,
    ensures
        i < children.len() ==> tree_model::database_named(children, name) == Some(children[i].id),
        i == children.len() ==> tree_model::database_named(children, name) is None,
    decreases children.len(),
{
    if i > 0 {
        let rest = children.drop_first();
        assert forall|j: int| 0 <= j < i - 1 implies !((#[trigger] rest[j]).node_type
            == DbNodeType::Database && rest[j].name == name) by {
            assert(rest[j] == children[j + 1]);
        }
        assert(!(children[0].node_type == DbNodeType::Database && children[0].name == name));
        if i < children.len() {
            assert(rest[i - 1] == children[i]);
        }
        law_database_by_name(rest, name, i - 1);
    }
}

// ---------------------------------------------------------------------------
// Ids
// ---------------------------------------------------------------------------

/// What stands in a node has the node's id, a colon and its own name as its id.
pub proof fn law_inner_id(parent: Seq<char>, name: Seq<char>)
    ensures
        tree_model::inner_id(parent, name) == parent + seq![':'] + name,
{
}

/// The id of a connection node is the connection's number, and reads back.
pub proof fn law_connection_number(n: i64)
    ensures
        tree_model::connection_number(text::signed_decimal(n as int)) == Some(n as int),
{
    text::law_number_reads_back(n as int);
}

/// A number taken out of a list is gone from it; the others stay in their
/// order.
pub proof fn law_ids_without(v: Seq<i64>, x: i64, number: i64)
    ensures
        tree_model::ids_without(Seq::empty(), number as int) == Seq::<i64>::empty(),
        x == number ==> tree_model::ids_without(v.push(x), number as int)
            == tree_model::ids_without(v, number as int),
        x != number ==> tree_model::ids_without(v.push(x), number as int)
            == tree_model::ids_without(v, number as int).push(x),
{
    assert(v.push(x).drop_last() =~= v);
}

/// Of a list of nodes, the ids that are in the set are picked, in their order.
pub proof fn law_ids_within(
    a: Seq<NodeView>,
    b: Seq<NodeView>,
    c: NodeView,
    set: Set<Seq<char>>,
)
    ensures
        tree_model::ids_within(a + b, set) == tree_model::ids_within(a, set)
            + tree_model::ids_within(b, set),
        set.contains(c.id) ==> tree_model::ids_within(seq![c], set) == seq![c.id],
        !set.contains(c.id) ==> tree_model::ids_within(seq![c], set).len() == 0,
{
    let keep = |c: NodeView| set.contains(c.id);
    Seq::filter_distributes_over_add(a, b, keep);
    assert(tree_model::ids_within(a + b, set) =~= tree_model::ids_within(a, set)
        + tree_model::ids_within(b, set));
    let none = Seq::<NodeView>::empty();
    assert(none.push(c) =~= seq![c]);
    none.lemma_filter_push(c, keep);
    assert(none.filter(keep) =~= none) by {
        reveal(Seq::filter);
    }
    assert(set.contains(c.id) ==> tree_model::ids_within(seq![c], set) =~= seq![c.id]);
}

/// A value is looked up by its key: that of the first pair with the key.
pub proof fn law_lookup(v: Seq<(Seq<char>, Seq<char>)>, key: Seq<char>, i: int)
    requires
        0 <= i <= v.len(),
        forall|j: int| 0 <= j < i ==> (#[trigger] v[j]).0 != key,
        i < v.len() ==> v[i].0 == key,
    ensures
        i < v.len() ==> db_node::lookup(v, key) == Some(v[i].1),
        i == v.len() ==> db_node::lookup(v, key) is None,
{
    db_node::lemma_lookup_at(v, key, i);
}

/// Of two texts that agree up to a place, the one that ends there or has the
/// smaller character there stands first.
pub proof fn law_text_order(common: Seq<char>, x: char, a: Seq<char>, y: char, b: Seq<char>)
    ensures
        x < y ==> db_node::precedes(common.push(x) + a, common.push(y) + b),
        db_node::precedes(common, common.push(y) + b),
        !db_node::precedes(common, common),
        x > y ==> !db_node::precedes(common.push(x) + a, common.push(y) + b),
        !db_node::precedes(common.push(x) + a, common),
{
    let n = common.len() as int;
    db_node::lemma_precedes_at(common.push(x) + a, common.push(y) + b, n);
    db_node::lemma_precedes_at(common, common.push(y) + b, n);
    db_node::lemma_precedes_at(common, common, n);
    db_node::lemma_precedes_at(common.push(x) + a, common, n);
}

/// Sorting a list of siblings keeps its nodes, puts none behind one with a
/// greater key, and leaves those with one key in their order.
pub proof fn law_siblings_sorted(v: Seq<NodeView>, i: int, j: int, key: Seq<char>)
    requires
        0 <= i < j < v.len(),
    ensures
        db_node::sorted(v).len() == v.len(),
        db_node::sorted(v).to_multiset() == v.to_multiset(),
        !db_node::precedes(db_node::sorted(v)[j].sort_key, db_node::sorted(v)[i].sort_key),
        db_node::sorted(v).filter(|n: NodeView| n.sort_key == key) == v.filter(
            |n: NodeView| n.sort_key == key,
        ),
{
    db_node::law_sorted(v);
    assert(db_node::with_key(db_node::sorted(v), key) == db_node::with_key(v, key));
}

/// A new node is what it was made of and has no children, no place and no
/// metadata yet.
pub proof fn law_new_node(
    id: Seq<char>,
    name: Seq<char>,
    kind: DbNodeType,
    connection_id: Seq<char>,
    database_type: db_node::DatabaseType,
    sort_key: Seq<char>,
)
    ensures
        ({
            let n = db_node::new_node(id, name, kind, connection_id, database_type, sort_key);
            &&& n.id == id
            &&& n.name == name
            &&& n.node_type == kind
            &&& n.connection_id == connection_id
            &&& n.database_type == database_type
            &&& n.sort_key == sort_key
            &&& n.children.len() == 0 && !n.children_loaded
            &&& n.parent_context is None && n.database_name is None && n.schema_name is None
                && n.table_name is None
            &&& n.metadata.len() == 0
        }),
{
}

/// The view of a node has the node's own texts, and as children the views of
/// its children.
pub proof fn law_node_view(n: db_node::DbNode, i: int)
    requires
        0 <= i < n.children@.len(),
    ensures
        n.view().id == n.id@,
        n.view().name == n.name@,
        n.view().node_type == n.node_type,
        n.view().connection_id == n.connection_id@,
        n.view().database_type == n.database_type,
        n.view().children_loaded == n.children_loaded,
        n.view().sort_key == n.sort_key@,
        n.view().children.len() == n.children@.len(),
        n.view().children[i] == n.children@[i].view(),
        n.parent_context matches Some(s) ==> n.view().parent_context == Some(s@),
        n.parent_context is None ==> n.view().parent_context is None,
        n.database_name matches Some(s) ==> n.view().database_name == Some(s@),
        n.database_name is None ==> n.view().database_name is None,
        n.schema_name matches Some(s) ==> n.view().schema_name == Some(s@),
        n.schema_name is None ==> n.view().schema_name is None,
        n.table_name matches Some(s) ==> n.view().table_name == Some(s@),
        n.table_name is None ==> n.view().table_name is None,
        n.view().metadata.len() == n.metadata@.len(),
        forall|j: int|
            0 <= j < n.metadata@.len() ==> n.view().metadata[j] == ((#[trigger] n.metadata@[j]).0@,
            n.metadata@[j].1@),
{
}

// ---------------------------------------------------------------------------
// Kinds
// ---------------------------------------------------------------------------

/// A double click opens tables, views and named queries, and nothing else.
pub proof fn law_opening_event(t: DbNodeType)
    ensures
        tree_model::opening_event(t) == (if t == DbNodeType::Table {
            Some(EventKind::OpenTableData)
        } else if t == DbNodeType::View {
            Some(EventKind::OpenViewData)
        } else if t == DbNodeType::NamedQuery {
            Some(EventKind::OpenNamedQuery)
        } else {
            None
        }),
        tree_model::opening_event(t) is Some ==> !tree_model::is_foldable(t),
{
}

/// A double click folds connections, databases, schemas and the folders of
/// tables, views, queries, functions, procedures, triggers, columns and
/// indexes.
pub proof fn law_foldable(t: DbNodeType)
    ensures
        tree_model::is_foldable(t) == (match t {
            DbNodeType::Connection | DbNodeType::Database | DbNodeType::Schema => true,
            DbNodeType::TablesFolder | DbNodeType::ViewsFolder | DbNodeType::QueriesFolder => true,
            DbNodeType::FunctionsFolder
            | DbNodeType::ProceduresFolder
            | DbNodeType::TriggersFolder => true,
            DbNodeType::ColumnsFolder | DbNodeType::IndexesFolder => true,
            _ => false,
        }),
{
}

/// A node has an arrow where it has children, and where it is a table or a
/// folder whose children are not known yet.
pub proof fn law_arrow(n: NodeView)
    ensures
        n.children.len() > 0 ==> tree_model::has_arrow(n),
        n.children.len() == 0 && n.children_loaded ==> !tree_model::has_arrow(n),
        n.children.len() == 0 && !n.children_loaded ==> tree_model::has_arrow(n) == (
        match n.node_type {
            DbNodeType::Table | DbNodeType::TablesFolder | DbNodeType::ViewsFolder => true,
            DbNodeType::ColumnsFolder | DbNodeType::IndexesFolder => true,
            DbNodeType::FunctionsFolder
            | DbNodeType::ProceduresFolder
            | DbNodeType::TriggersFolder => true,
            DbNodeType::SequencesFolder | DbNodeType::QueriesFolder => true,
            DbNodeType::ForeignKeysFolder | DbNodeType::ChecksFolder => true,
            _ => false,
        }),
{
}

/// The names of folders are keys of texts; other names stand for themselves.
pub proof fn law_folder_names(t: DbNodeType)
    ensures
        tree_model::name_is_key(t) == (match t {
            DbNodeType::TablesFolder
            | DbNodeType::ViewsFolder
            | DbNodeType::FunctionsFolder
            | DbNodeType::ProceduresFolder
            | DbNodeType::SequencesFolder
            | DbNodeType::QueriesFolder
            | DbNodeType::ColumnsFolder
            | DbNodeType::IndexesFolder
            | DbNodeType::ForeignKeysFolder
            | DbNodeType::TriggersFolder
            | DbNodeType::ChecksFolder => true,
            _ => false,
        }),
        tree_model::is_drawn_as_folder(t) ==> tree_model::name_is_key(t)
            && tree_model::is_foldable(t),
        tree_model::name_is_key(t) && tree_model::is_foldable(t)
            ==> tree_model::is_drawn_as_folder(t),
{
}

/// Refreshing a connection makes all its metadata stale, refreshing something
/// in a database that of the database, and refreshing anything else none.
pub proof fn law_refresh_scope(scope: tree_types::RefreshMetadataScope, n: NodeView)
    requires
        tree_model::is_scope_of(scope, n),
    ensures
        scope is Connection <==> n.node_type == DbNodeType::Connection,
        scope matches tree_types::RefreshMetadataScope::Database(d) ==> n.database_name == Some(d@),
        n.node_type != DbNodeType::Connection && n.database_name is Some ==> scope is Database,
        scope is Nothing <==> n.node_type != DbNodeType::Connection && n.database_name is None,
{
}

} // verus!
