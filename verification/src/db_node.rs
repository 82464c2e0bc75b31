//! The nodes of the database tree and the store that holds them by id.
use vstd::prelude::*;

use crate::text;

verus! {

/// The kind of thing a node stands for.
#[derive(Debug, Clone, Copy, PartialEq, Eq, Structural)]
pub enum DbNodeType {
    Connection,
    Database,
    Schema,
    TablesFolder,
    Table,
    ViewsFolder,
    View,
    FunctionsFolder,
    Function,
    ProceduresFolder,
    Procedure,
    ColumnsFolder,
    Column,
    IndexesFolder,
    Index,
    ForeignKeysFolder,
    ForeignKey,
    TriggersFolder,
    Trigger,
    ChecksFolder,
    Check,
    SequencesFolder,
    Sequence,
    QueriesFolder,
    NamedQuery,
}

/// The database product behind a connection. `Other` carries the number by
/// which the front end tells further products apart.
#[derive(Debug, Clone, Copy, PartialEq, Eq, Structural)]
pub enum DatabaseType {
    MySQL,
    PostgreSQL,
    SQLite,
    DuckDB,
    Oracle,
    Other(u32),
}

/// One node of the tree, with the children that were loaded for it.
///
/// `database_name`, `schema_name` and `table_name` are what the node's driver
/// reports for it; `sort_key` places it among its siblings, in text order.
#[derive(Debug)]
pub struct DbNode {
    pub id: String,
    pub name: String,
    pub node_type: DbNodeType,
    pub connection_id: String,
    pub database_type: DatabaseType,
    pub parent_context: Option<String>,
    pub children: Vec<DbNode>,
    pub children_loaded: bool,
    pub sort_key: String,
    pub database_name: Option<String>,
    pub schema_name: Option<String>,
    pub table_name: Option<String>,
    pub metadata: Vec<(String, String)>,
}

/// The mathematical value of a [`DbNode`].
#[verifier::ext_equal]
pub ghost struct NodeView {
    pub id: Seq<char>,
    pub name: Seq<char>,
    pub node_type: DbNodeType,
    pub connection_id: Seq<char>,
    pub database_type: DatabaseType,
    pub parent_context: Option<Seq<char>>,
    pub children: Seq<NodeView>,
    pub children_loaded: bool,
    pub sort_key: Seq<char>,
    pub database_name: Option<Seq<char>>,
    pub schema_name: Option<Seq<char>>,
    pub table_name: Option<Seq<char>>,
    pub metadata: Seq<(Seq<char>, Seq<char>)>,
}

/// The pairs of a list of text pairs.
pub open spec fn pair_views(v: Seq<(String, String)>) -> Seq<(Seq<char>, Seq<char>)> {
    Seq::new(v.len(), |i: int| (v[i].0@, v[i].1@))
}

/// The value that the first pair with the given key holds.
pub open spec fn lookup(v: Seq<(Seq<char>, Seq<char>)>, key: Seq<char>) -> Option<Seq<char>>
    decreases v.len(),
{
    if v.len() == 0 {
        None
    } else if v[0].0 == key {
        Some(v[0].1)
    } else {
        lookup(v.drop_first(), key)
    }
}

pub proof fn lemma_lookup_at(v: Seq<(Seq<char>, Seq<char>)>, key: Seq<char>, i: int)
    requires
        0 <= i <= v.len(),
        forall|j: int| 0 <= j < i ==> v[j].0 != key,
        i < v.len() ==> v[i].0 == key,
    ensures
        lookup(v, key) == (if i < v.len() {
            Some(v[i].1)
        } else {
            None
        }),
    decreases v.len(),
{
    if i > 0 {
        let t = v.drop_first();
        assert forall|j: int| 0 <= j < i - 1 implies t[j].0 != key by {
            assert(t[j] == v[j + 1]);
        }
        lemma_lookup_at(t, key, i - 1);
    }
}

impl DbNode {
    /// The mathematical value of the node.
    pub open spec fn view(&self) -> NodeView
        decreases self,
    {
        NodeView {
            id: self.id@,
            name: self.name@,
            node_type: self.node_type,
            connection_id: self.connection_id@,
            database_type: self.database_type,
            parent_context: text::opt_view(self.parent_context),
            children: Seq::new(
                self.children@.len(),
                |i: int|
                    if 0 <= i < self.children@.len() {
                        self.children@[i].view()
                    } else {
                        arbitrary()
                    },
            ),
            children_loaded: self.children_loaded,
            sort_key: self.sort_key@,
            database_name: text::opt_view(self.database_name),
            schema_name: text::opt_view(self.schema_name),
            table_name: text::opt_view(self.table_name),
            metadata: pair_views(self.metadata@),
        }
    }

    /// A node without parent, children or reported names.
    pub fn new(
        id: String,
        name: String,
        node_type: DbNodeType,
        connection_id: String,
        database_type: DatabaseType,
        sort_key: String,
    ) -> (r: DbNode)
        ensures
            r.view() == new_node(
                id@,
                name@,
                node_type,
                connection_id@,
                database_type,
                sort_key@,
            ),
    {
        let r = DbNode {
            id,
            name,
            node_type,
            connection_id,
            database_type,
            parent_context: None,
            children: Vec::new(),
            children_loaded: false,
            sort_key,
            database_name: None,
            schema_name: None,
            table_name: None,
            metadata: Vec::new(),
        };
        assert(r.view().children =~= Seq::empty());
        assert(r.view().metadata =~= Seq::empty());
        r
    }

    /// A deep copy.
    pub fn copy(&self) -> (r: DbNode)
        ensures
            r.view() == self.view(),
        decreases self,
    {
        let mut children: Vec<DbNode> = Vec::new();
        let mut i: usize = 0;
        while i < self.children.len()
            invariant
                i <= self.children@.len(),
                children@.len() == i,
                forall|j: int|
                    0 <= j < i ==> (#[trigger] children@[j]).view() == self.children@[j].view(),
            decreases self.children@.len() - i,
        {
            let c = self.children[i].copy();
            children.push(c);
            i = i + 1;
        }
        let mut metadata: Vec<(String, String)> = Vec::new();
        let mut i: usize = 0;
        while i < self.metadata.len()
            invariant
                i <= self.metadata@.len(),
                pair_views(metadata@) == pair_views(self.metadata@).take(i as int),
            decreases self.metadata@.len() - i,
        {
            let ghost before = metadata@;
            metadata.push((self.metadata[i].0.clone(), self.metadata[i].1.clone()));
            assert(pair_views(metadata@) =~= pair_views(before).push(
                pair_views(self.metadata@)[i as int],
            ));
            assert(pair_views(self.metadata@).take(i as int + 1) =~= pair_views(
                self.metadata@,
            ).take(i as int).push(pair_views(self.metadata@)[i as int]));
            i = i + 1;
        }
        assert(pair_views(self.metadata@).take(self.metadata@.len() as int) =~= pair_views(
            self.metadata@,
        ));
        let r = DbNode {
            id: self.id.clone(),
            name: self.name.clone(),
            node_type: self.node_type,
            connection_id: self.connection_id.clone(),
            database_type: self.database_type,
            parent_context: text::copy_opt(&self.parent_context),
            children,
            children_loaded: self.children_loaded,
            sort_key: self.sort_key.clone(),
            database_name: text::copy_opt(&self.database_name),
            schema_name: text::copy_opt(&self.schema_name),
            table_name: text::copy_opt(&self.table_name),
            metadata,
        };
        assert(r.view().children =~= self.view().children);
        r
    }

    /// What the metadata holds under `key`.
    pub fn meta(&self, key: &str) -> (r: Option<String>)
        ensures
            text::opt_view(r) == lookup(self.view().metadata, key@),
    {
        let ghost m = self.view().metadata;
        let mut i: usize = 0;
        while i < self.metadata.len()
            invariant
                i <= self.metadata@.len(),
                m == pair_views(self.metadata@),
                forall|j: int| 0 <= j < i ==> m[j].0 != key@,
            decreases self.metadata@.len() - i,
        {
            assert(m[i as int] == (self.metadata@[i as int].0@, self.metadata@[i as int].1@));
            if text::same(self.metadata[i].0.as_str(), key) {
                proof {
                    lemma_lookup_at(m, key@, i as int);
                }
                return Some(self.metadata[i].1.clone());
            }
            i = i + 1;
        }
        proof {
            lemma_lookup_at(m, key@, i as int);
        }
        None
    }
}

/// The value of a node without parent, children or reported names.
pub open spec fn new_node(
    id: Seq<char>,
    name: Seq<char>,
    node_type: DbNodeType,
    connection_id: Seq<char>,
    database_type: DatabaseType,
    sort_key: Seq<char>,
) -> NodeView {
    NodeView {
        id,
        name,
        node_type,
        connection_id,
        database_type,
        parent_context: None,
        children: Seq::empty(),
        children_loaded: false,
        sort_key,
        database_name: None,
        schema_name: None,
        table_name: None,
        metadata: Seq::empty(),
    }
}

/// The values of a list of nodes.
pub open spec fn node_views(v: Seq<DbNode>) -> Seq<NodeView> {
    Seq::new(v.len(), |i: int| v[i].view())
}

/// The ids of a list of nodes.
pub open spec fn ids(v: Seq<NodeView>) -> Seq<Seq<char>> {
    Seq::new(v.len(), |i: int| v[i].id)
}

/// A deep copy of a list of nodes.
pub fn copy_nodes(v: &Vec<DbNode>) -> (r: Vec<DbNode>)
    ensures
        node_views(r@) == node_views(v@),
{
    let mut out: Vec<DbNode> = Vec::new();
    let mut i: usize = 0;
    while i < v.len()
        invariant
            i <= v@.len(),
            node_views(out@) == node_views(v@).take(i as int),
        decreases v@.len() - i,
    {
        let ghost before = out@;
        out.push(v[i].copy());
        assert(node_views(out@) =~= node_views(before).push(node_views(v@)[i as int]));
        assert(node_views(v@).take(i as int + 1) =~= node_views(v@).take(i as int).push(
            node_views(v@)[i as int],
        ));
        i = i + 1;
    }
    assert(node_views(v@).take(v@.len() as int) =~= node_views(v@));
    out
}

// ---------------------------------------------------------------------------
// Sibling order
// ---------------------------------------------------------------------------

/// `a` stands before `b` in text order.
pub open spec fn precedes(a: Seq<char>, b: Seq<char>) -> bool
    decreases a.len(),
{
    if b.len() == 0 {
        false
    } else if a.len() == 0 {
        true
    } else if a[0] != b[0] {
        a[0] < b[0]
    } else {
        precedes(a.drop_first(), b.drop_first())
    }
}

/// No text stands before itself.
pub proof fn lemma_precedes_irreflexive(a: Seq<char>)
    ensures
        !precedes(a, a),
    decreases a.len(),
{
    if a.len() > 0 {
        lemma_precedes_irreflexive(a.drop_first());
    }
}

/// Of two texts one stands before the other.
pub proof fn lemma_precedes_total(a: Seq<char>, b: Seq<char>)
    requires
        a != b,
    ensures
        precedes(a, b) || precedes(b, a),
    decreases a.len(),
{
    if a.len() > 0 && b.len() > 0 && a[0] == b[0] {
        let x = a.drop_first();
        let y = b.drop_first();
        if x == y {
            assert(a =~= seq![a[0]] + x);
            assert(b =~= seq![b[0]] + y);
        }
        lemma_precedes_total(x, y);
    } else if a.len() == 0 && b.len() == 0 {
        assert(a =~= b);
    }
}

/// What stands before something stands before all behind it.
pub proof fn lemma_precedes_transitive(a: Seq<char>, b: Seq<char>, c: Seq<char>)
    requires
        precedes(a, b),
        precedes(b, c),
    ensures
        precedes(a, c),
    decreases a.len(),
{
    if a.len() > 0 && b.len() > 0 && c.len() > 0 && a[0] == b[0] && b[0] == c[0] {
        lemma_precedes_transitive(a.drop_first(), b.drop_first(), c.drop_first());
    }
}

pub proof fn lemma_precedes_at(a: Seq<char>, b: Seq<char>, i: int)
    requires
        0 <= i <= a.len(),
        i <= b.len(),
        forall|j: int| 0 <= j < i ==> a[j] == b[j],
    ensures
        i == b.len() ==> !precedes(a, b),
        i < b.len() && i == a.len() ==> precedes(a, b),
        i < b.len() && i < a.len() && a[i] != b[i] ==> precedes(a, b) == (a[i] < b[i]),
    decreases i,
{
    if i > 0 {
        let x = a.drop_first();
        let y = b.drop_first();
        assert forall|j: int| 0 <= j < i - 1 implies x[j] == y[j] by {
            assert(x[j] == a[j + 1] && y[j] == b[j + 1]);
        }
        lemma_precedes_at(x, y, i - 1);
    }
}

/// Whether `a` stands before `b` in text order.
pub fn text_precedes(a: &str, b: &str) -> (r: bool)
    ensures
        r == precedes(a@, b@),
{
    let x = text::to_chars(a);
    let y = text::to_chars(b);
    let mut i: usize = 0;
    loop
        invariant
            i <= x@.len(),
            i <= y@.len(),
            x@ == a@,
            y@ == b@,
            forall|j: int| 0 <= j < i ==> x@[j] == y@[j],
        decreases x@.len() - i,
    {
        proof {
            lemma_precedes_at(a@, b@, i as int);
        }
        if i == y.len() {
            return false;
        }
        if i == x.len() {
            return true;
        }
        if x[i] != y[i] {
            return x[i] < y[i];
        }
        i = i + 1;
    }
}

/// `n` put into the sorted list `v`, behind everything it does not precede.
pub open spec fn insert_sorted(v: Seq<NodeView>, n: NodeView) -> Seq<NodeView>
    decreases v.len(),
{
    if v.len() == 0 {
        seq![n]
    } else if precedes(n.sort_key, v.last().sort_key) {
        insert_sorted(v.drop_last(), n).push(v.last())
    } else {
        v.push(n)
    }
}

/// The nodes of `v` in sibling order; nodes with equal keys keep their order.
pub open spec fn sorted(v: Seq<NodeView>) -> Seq<NodeView>
    decreases v.len(),
{
    if v.len() == 0 {
        Seq::empty()
    } else {
        insert_sorted(sorted(v.drop_last()), v.last())
    }
}

proof fn lemma_insert_sorted_at(v: Seq<NodeView>, n: NodeView, at: int)
    requires
        0 <= at <= v.len(),
        forall|j: int| at <= j < v.len() ==> precedes(n.sort_key, (#[trigger] v[j]).sort_key),
        at > 0 ==> !precedes(n.sort_key, v[at - 1].sort_key),
    ensures
        insert_sorted(v, n) == v.insert(at, n),
    decreases v.len(),
{
    if at < v.len() {
        let t = v.drop_last();
        assert(at > 0 ==> t[at - 1] == v[at - 1]);
        lemma_insert_sorted_at(t, n, at);
        assert(t.insert(at, n).push(v.last()) =~= v.insert(at, n));
    } else {
        assert(v.insert(at, n) =~= v.push(n));
        if v.len() == 0 {
            assert(seq![n] =~= v.push(n));
        }
    }
}

/// Puts `n` into `v`, behind everything it does not precede.
fn place(v: &mut Vec<DbNode>, n: DbNode)
    ensures
        node_views(final(v)@) == insert_sorted(node_views(old(v)@), n.view()),
{
    let ghost vs = node_views(v@);
    let mut at: usize = v.len();
    while at > 0 && text_precedes(n.sort_key.as_str(), v[at - 1].sort_key.as_str())
        invariant
            at <= v@.len(),
            v@ == old(v)@,
            vs == node_views(v@),
            forall|j: int|
                at <= j < v@.len() ==> precedes(n.view().sort_key, (#[trigger] vs[j]).sort_key),
        ensures
            at > 0 ==> !precedes(n.view().sort_key, vs[at - 1].sort_key),
        decreases at,
    {
        at = at - 1;
    }
    proof {
        lemma_insert_sorted_at(vs, n.view(), at as int);
    }
    v.insert(at, n);
    assert(node_views(v@) =~= vs.insert(at as int, n.view()));
}

/// The nodes of `v` in sibling order.
pub fn sort_nodes(v: Vec<DbNode>) -> (r: Vec<DbNode>)
    ensures
        node_views(r@) == sorted(node_views(v@)),
{
    let ghost vs = node_views(v@);
    let mut out: Vec<DbNode> = Vec::new();
    let mut i: usize = 0;
    assert(vs.take(0) =~= Seq::empty());
    assert(node_views(out@) =~= Seq::empty());
    while i < v.len()
        invariant
            i <= v@.len(),
            vs == node_views(v@),
            node_views(out@) == sorted(vs.take(i as int)),
        decreases v@.len() - i,
    {
        let n = v[i].copy();
        place(&mut out, n);
        assert(vs.take(i as int + 1).drop_last() =~= vs.take(i as int));
        i = i + 1;
    }
    assert(vs.take(vs.len() as int) =~= vs);
    out
}

/// The nodes stand in sibling order: none stands behind one that it precedes.
pub open spec fn in_sibling_order(v: Seq<NodeView>) -> bool {
    forall|i: int, j: int|
        0 <= i < j < v.len() ==> !precedes(
            (#[trigger] v[j]).sort_key,
            (#[trigger] v[i]).sort_key,
        )
}

/// The nodes with the given key, in their order.
pub open spec fn with_key(v: Seq<NodeView>, key: Seq<char>) -> Seq<NodeView> {
    v.filter(|n: NodeView| n.sort_key == key)
}

/// Sorting keeps the nodes and puts them in order; those with equal keys keep
/// their order.
pub proof fn law_sorted(v: Seq<NodeView>)
    ensures
        sorted(v).to_multiset() == v.to_multiset(),
        sorted(v).len() == v.len(),
        in_sibling_order(sorted(v)),
        forall|key: Seq<char>| #[trigger] with_key(sorted(v), key) == with_key(v, key),
    decreases v.len(),
{
    broadcast use vstd::seq_lib::group_to_multiset_ensures;

    if v.len() > 0 {
        let t = v.drop_last();
        let n = v.last();
        law_sorted(t);
        lemma_insert_sorted_multiset(sorted(t), n);
        lemma_insert_sorted_in_order(sorted(t), n);
        assert(v =~= t.push(n));
        assert forall|key: Seq<char>| #[trigger] with_key(sorted(v), key) == with_key(v, key) by {
            lemma_insert_sorted_with_key(sorted(t), n, key);
            let keep = |n: NodeView| n.sort_key == key;
            t.lemma_filter_push(n, keep);
            sorted(t).lemma_filter_push(n, keep);
            assert(with_key(sorted(t), key) == with_key(t, key));
        }
    }
}

proof fn lemma_insert_sorted_in_order(v: Seq<NodeView>, n: NodeView)
    requires
        in_sibling_order(v),
    ensures
        in_sibling_order(insert_sorted(v, n)),
        forall|x: NodeView| #[trigger]
            insert_sorted(v, n).contains(x) ==> x == n || v.contains(x),
    decreases v.len(),
{
    let w = insert_sorted(v, n);
    if v.len() > 0 {
        let last = v.last();
        let t = v.drop_last();
        if precedes(n.sort_key, last.sort_key) {
            assert(in_sibling_order(t)) by {
                assert forall|i: int, j: int| 0 <= i < j < t.len() implies !precedes(
                    (#[trigger] t[j]).sort_key,
                    (#[trigger] t[i]).sort_key,
                ) by {
                    assert(t[i] == v[i] && t[j] == v[j]);
                }
            }
            lemma_insert_sorted_in_order(t, n);
            let front = insert_sorted(t, n);
            assert forall|x: NodeView| front.contains(x) implies x == n || v.contains(x) by {
                if x != n {
                    assert(t.contains(x));
                    let i = choose|i: int| 0 <= i < t.len() && t[i] == x;
                    assert(v[i] == x);
                }
            }
            assert forall|i: int, j: int| 0 <= i < j < w.len() implies !precedes(
                (#[trigger] w[j]).sort_key,
                (#[trigger] w[i]).sort_key,
            ) by {
                assert(w[i] == front[i]);
                if j < front.len() {
                    assert(w[j] == front[j]);
                } else {
                    assert(front.contains(front[i]));
                    if front[i] == n {
                        lemma_precedes_asymmetric(n.sort_key, last.sort_key);
                    } else {
                        assert(t.contains(front[i]));
                        let k = choose|k: int| 0 <= k < t.len() && t[k] == front[i];
                        assert(v[k] == front[i] && v[v.len() - 1] == last);
                    }
                }
            }
            assert forall|x: NodeView| w.contains(x) implies x == n || v.contains(x) by {
                let i = choose|i: int| 0 <= i < w.len() && w[i] == x;
                if i < front.len() {
                    assert(front[i] == x);
                    assert(front.contains(x));
                } else {
                    assert(v[v.len() - 1] == x);
                }
            }
        } else {
            assert forall|i: int, j: int| 0 <= i < j < w.len() implies !precedes(
                (#[trigger] w[j]).sort_key,
                (#[trigger] w[i]).sort_key,
            ) by {
                assert(w[i] == v[i]);
                if j < v.len() {
                    assert(w[j] == v[j]);
                } else if i < v.len() - 1 {
                    assert(!precedes(v[v.len() - 1].sort_key, v[i].sort_key));
                    if precedes(n.sort_key, v[i].sort_key) {
                        if v[i].sort_key != last.sort_key {
                            lemma_precedes_total(v[i].sort_key, last.sort_key);
                            lemma_precedes_transitive(n.sort_key, v[i].sort_key, last.sort_key);
                        }
                    }
                }
            }
            assert forall|x: NodeView| w.contains(x) implies x == n || v.contains(x) by {
                let i = choose|i: int| 0 <= i < w.len() && w[i] == x;
                if i < v.len() {
                    assert(v[i] == x);
                }
            }
        }
    }
}

proof fn lemma_precedes_asymmetric(a: Seq<char>, b: Seq<char>)
    requires
        precedes(a, b),
    ensures
        !precedes(b, a),
{
    if precedes(b, a) {
        lemma_precedes_transitive(a, b, a);
        lemma_precedes_irreflexive(a);
    }
}

proof fn lemma_insert_sorted_with_key(v: Seq<NodeView>, n: NodeView, key: Seq<char>)
    ensures
        with_key(insert_sorted(v, n), key) == with_key(v.push(n), key),
    decreases v.len(),
{
    let keep = |n: NodeView| n.sort_key == key;
    v.lemma_filter_push(n, keep);
    if v.len() == 0 {
        assert(seq![n] =~= v.push(n));
    } else if precedes(n.sort_key, v.last().sort_key) {
        let t = v.drop_last();
        let last = v.last();
        assert(v =~= t.push(last));
        lemma_insert_sorted_with_key(t, n, key);
        lemma_precedes_irreflexive(n.sort_key);
        t.lemma_filter_push(n, keep);
        t.lemma_filter_push(last, keep);
        insert_sorted(t, n).lemma_filter_push(last, keep);
    }
}

proof fn lemma_insert_sorted_multiset(v: Seq<NodeView>, n: NodeView)
    ensures
        insert_sorted(v, n).to_multiset() == v.to_multiset().insert(n),
        insert_sorted(v, n).len() == v.len() + 1,
    decreases v.len(),
{
    broadcast use vstd::seq_lib::group_to_multiset_ensures;

    if v.len() == 0 {
        assert(seq![n] =~= v.push(n));
    } else if precedes(n.sort_key, v.last().sort_key) {
        lemma_insert_sorted_multiset(v.drop_last(), n);
        assert(v =~= v.drop_last().push(v.last()));
    }
}

} // verus!
