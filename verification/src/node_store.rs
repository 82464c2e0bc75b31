//! The store of tree nodes by id, and what lies below a node in it.
use vstd::prelude::*;

use crate::db_node;
use crate::db_node::DbNode;
use crate::str_map::StrSet;
use crate::text;

verus! {

/// The nodes by id; where two share an id, the later one counts.
pub open spec fn node_map(nodes: Seq<db_node::NodeView>) -> Map<Seq<char>, db_node::NodeView>
    decreases nodes.len(),
{
    if nodes.len() == 0 {
        Map::empty()
    } else {
        node_map(nodes.drop_last()).insert(nodes.last().id, nodes.last())
    }
}

/// The node with the given id.
pub open spec fn find(nodes: Seq<db_node::NodeView>, id: Seq<char>) -> Option<db_node::NodeView> {
    if node_map(nodes).contains_key(id) {
        Some(node_map(nodes)[id])
    } else {
        None
    }
}

/// No two nodes share an id.
pub open spec fn distinct_ids(nodes: Seq<db_node::NodeView>) -> bool {
    db_node::ids(nodes).no_duplicates()
}

/// The nodes with `n` in the place of the node that has its id, or at the end.
pub open spec fn put(nodes: Seq<db_node::NodeView>, n: db_node::NodeView) -> Seq<
    db_node::NodeView,
> {
    if find(nodes, n.id) is Some {
        Seq::new(
            nodes.len(),
            |i: int|
                if nodes[i].id == n.id {
                    n
                } else {
                    nodes[i]
                },
        )
    } else {
        nodes.push(n)
    }
}

/// The nodes whose ids are not in `gone`.
pub open spec fn without(nodes: Seq<db_node::NodeView>, gone: Set<Seq<char>>) -> Seq<
    db_node::NodeView,
> {
    nodes.filter(|n: db_node::NodeView| !gone.contains(n.id))
}

/// `b` is the id of a child of the stored node `a`.
pub open spec fn child_of(nodes: Seq<db_node::NodeView>, a: Seq<char>, b: Seq<char>) -> bool {
    match find(nodes, a) {
        Some(n) => db_node::ids(n.children).contains(b),
        None => false,
    }
}

/// `path` leads from parent to child at every step.
pub open spec fn is_path(nodes: Seq<db_node::NodeView>, path: Seq<Seq<char>>) -> bool {
    forall|i: int| 0 <= i < path.len() - 1 ==> child_of(nodes, #[trigger] path[i], path[i + 1])
}

/// `b` is reached from `a` by one or more steps from parent to child.
pub open spec fn descends(nodes: Seq<db_node::NodeView>, a: Seq<char>, b: Seq<char>) -> bool {
    exists|path: Seq<Seq<char>>|
        #![trigger is_path(nodes, path)]
        path.len() >= 2 && path[0] == a && path.last() == b && is_path(nodes, path)
}

/// All ids that are reached from `id`.
pub open spec fn below(nodes: Seq<db_node::NodeView>, id: Seq<char>) -> Set<Seq<char>> {
    Set::new(|b: Seq<char>| descends(nodes, id, b))
}

/// No node lies below itself.
pub open spec fn acyclic(nodes: Seq<db_node::NodeView>) -> bool {
    forall|a: Seq<char>| !descends(nodes, a, a)
}

/// All ids that some stored node names as a child.
pub open spec fn all_children(nodes: Seq<db_node::NodeView>) -> Set<Seq<char>>
    decreases nodes.len(),
{
    if nodes.len() == 0 {
        Set::empty()
    } else {
        all_children(nodes.drop_last()).union(db_node::ids(nodes.last().children).to_set())
    }
}

/// A node found under an id has that id and stands in the list.
pub proof fn lemma_find(nodes: Seq<db_node::NodeView>, id: Seq<char>)
    ensures
        find(nodes, id) matches Some(n) ==> n.id == id && nodes.contains(n),
        find(nodes, id) is None ==> forall|i: int| 0 <= i < nodes.len() ==> nodes[i].id != id,
    decreases nodes.len(),
{
    if nodes.len() > 0 {
        let t = nodes.drop_last();
        lemma_find(t, id);
        if nodes.last().id == id {
            assert(nodes[nodes.len() - 1] == nodes.last());
        } else {
            assert(find(nodes, id) == find(t, id));
            if let Some(n) = find(t, id) {
                let i = choose|i: int| 0 <= i < t.len() && t[i] == n;
                assert(nodes[i] == n);
            }
            assert forall|i: int| 0 <= i < nodes.len() && find(nodes, id) is None implies nodes[i].id
                != id by {
                if i < t.len() {
                    assert(t[i] == nodes[i]);
                }
            }
        }
    }
}

/// The last node with an id is the one found under it.
pub proof fn lemma_find_at(nodes: Seq<db_node::NodeView>, i: int)
    requires
        0 <= i < nodes.len(),
        forall|j: int| i < j < nodes.len() ==> nodes[j].id != nodes[i].id,
    ensures
        find(nodes, nodes[i].id) == Some(nodes[i]),
    decreases nodes.len(),
{
    if i < nodes.len() - 1 {
        let t = nodes.drop_last();
        assert(t[i] == nodes[i]);
        lemma_find_at(t, i);
    }
}

proof fn lemma_all_children(nodes: Seq<db_node::NodeView>)
    ensures
        all_children(nodes).finite(),
        forall|i: int, c: Seq<char>|
            0 <= i < nodes.len() && #[trigger] db_node::ids(nodes[i].children).contains(c)
                ==> all_children(nodes).contains(c),
    decreases nodes.len(),
{
    if nodes.len() > 0 {
        let t = nodes.drop_last();
        lemma_all_children(t);
        vstd::seq_lib::seq_to_set_is_finite(db_node::ids(nodes.last().children));
        assert forall|i: int, c: Seq<char>|
            0 <= i < nodes.len() && #[trigger] db_node::ids(
                nodes[i].children,
            ).contains(c) implies all_children(nodes).contains(c) by {
            if i < t.len() {
                assert(t[i] == nodes[i]);
                assert(db_node::ids(t[i].children).contains(c));
            }
        }
    }
}

/// Only ids that some stored node names as a child lie below a node.
pub proof fn lemma_below_named(nodes: Seq<db_node::NodeView>, id: Seq<char>)
    ensures
        below(nodes, id).subset_of(all_children(nodes)),
        below(nodes, id).finite(),
{
    lemma_all_children(nodes);
    assert forall|b: Seq<char>| below(nodes, id).contains(b) implies all_children(nodes).contains(
        b,
    ) by {
        let path = choose|path: Seq<Seq<char>>|
            #![trigger is_path(nodes, path)]
            path.len() >= 2 && path[0] == id && path.last() == b && is_path(nodes, path);
        let i = path.len() - 2;
        assert(child_of(nodes, path[i], path[i + 1]));
        lemma_child_named(nodes, path[i], b);
    }
    vstd::set_lib::lemma_len_subset(below(nodes, id), all_children(nodes));
}

proof fn lemma_child_named(nodes: Seq<db_node::NodeView>, a: Seq<char>, c: Seq<char>)
    requires
        child_of(nodes, a, c),
    ensures
        all_children(nodes).contains(c),
{
    lemma_find(nodes, a);
    lemma_all_children(nodes);
    let n = find(nodes, a)->0;
    let i = choose|i: int| 0 <= i < nodes.len() && nodes[i] == n;
    assert(db_node::ids(nodes[i].children).contains(c));
}

/// A child lies below its parent, and what lies below the child does too.
pub proof fn lemma_child_below(nodes: Seq<db_node::NodeView>, a: Seq<char>, c: Seq<char>)
    requires
        child_of(nodes, a, c),
    ensures
        descends(nodes, a, c),
        below(nodes, c).subset_of(below(nodes, a)),
{
    let p = seq![a, c];
    assert(is_path(nodes, p)) by {
        assert(p[0] == a && p[1] == c);
    }
    assert(p.last() == c);
    assert forall|b: Seq<char>| below(nodes, c).contains(b) implies below(nodes, a).contains(b) by {
        let q = choose|q: Seq<Seq<char>>|
            #![trigger is_path(nodes, q)]
            q.len() >= 2 && q[0] == c && q.last() == b && is_path(nodes, q);
        let r = seq![a] + q;
        assert(is_path(nodes, r)) by {
            assert forall|i: int| 0 <= i < r.len() - 1 implies child_of(
                nodes,
                #[trigger] r[i],
                r[i + 1],
            ) by {
                if i > 0 {
                    assert(r[i] == q[i - 1] && r[i + 1] == q[i]);
                    assert(child_of(nodes, q[i - 1], q[i - 1 + 1]));
                } else {
                    assert(r[1] == q[0]);
                }
            }
        }
        assert(r[0] == a && r.last() == b && r.len() >= 2);
    }
}

/// A set that holds the children of `id` and of its own members holds all
/// that lies below `id`.
proof fn lemma_closed_holds_below(
    nodes: Seq<db_node::NodeView>,
    id: Seq<char>,
    set: Set<Seq<char>>,
    path: Seq<Seq<char>>,
)
    requires
        forall|x: Seq<char>, c: Seq<char>|
            #![trigger child_of(nodes, x, c)]
            (x == id || set.contains(x)) && child_of(nodes, x, c) ==> set.contains(c),
        path.len() >= 2,
        path[0] == id,
        is_path(nodes, path),
    ensures
        set.contains(path.last()),
    decreases path.len(),
{
    let n = path.len();
    assert(child_of(nodes, path[n - 2], path[n - 2 + 1]));
    if n > 2 {
        let q = path.drop_last();
        assert(is_path(nodes, q)) by {
            assert forall|i: int| 0 <= i < q.len() - 1 implies child_of(
                nodes,
                #[trigger] q[i],
                q[i + 1],
            ) by {
                assert(q[i] == path[i] && q[i + 1] == path[i + 1]);
            }
        }
        lemma_closed_holds_below(nodes, id, set, q);
        assert(q.last() == path[n - 2]);
    }
}

/// The nodes of the tree by id.
#[derive(Debug)]
pub struct NodeStore {
    nodes: Vec<DbNode>,
}

impl View for NodeStore {
    type V = Seq<db_node::NodeView>;

    closed spec fn view(&self) -> Seq<db_node::NodeView> {
        db_node::node_views(self.nodes@)
    }
}

impl NodeStore {
    #[verifier::type_invariant]
    spec fn distinct(self) -> bool {
        distinct_ids(db_node::node_views(self.nodes@))
    }

    /// The empty store.
    pub fn new() -> (r: NodeStore)
        ensures
            r@ == Seq::<db_node::NodeView>::empty(),
    {
        let r = NodeStore { nodes: Vec::new() };
        assert(r@ =~= Seq::<db_node::NodeView>::empty());
        r
    }

    /// The number of nodes.
    pub fn len(&self) -> (r: usize)
        ensures
            r == self@.len(),
    {
        self.nodes.len()
    }

    /// The node with the given id.
    pub fn get(&self, id: &str) -> (r: Option<&DbNode>)
        ensures
            match r {
                Some(n) => find(self@, id@) == Some(n.view()),
                None => find(self@, id@) is None,
            },
    {
        proof {
            use_type_invariant(self);
        }
        let mut i: usize = 0;
        while i < self.nodes.len()
            invariant
                i <= self.nodes@.len(),
                distinct_ids(self@),
                forall|j: int| 0 <= j < i ==> self@[j].id != id@,
            decreases self.nodes@.len() - i,
        {
            if text::same(self.nodes[i].id.as_str(), id) {
                proof {
                    assert forall|j: int| i < j < self@.len() implies self@[j].id
                        != self@[i as int].id by {
                        assert(db_node::ids(self@)[j] != db_node::ids(self@)[i as int]);
                    }
                    lemma_find_at(self@, i as int);
                }
                return Some(&self.nodes[i]);
            }
            i = i + 1;
        }
        proof {
            lemma_find(self@, id@);
            if let Some(n) = find(self@, id@) {
                let j = choose|j: int| 0 <= j < self@.len() && self@[j] == n;
                assert(self@[j].id == id@);
            }
        }
        None
    }

    /// Whether there is a node with the given id.
    pub fn contains_key(&self, id: &str) -> (r: bool)
        ensures
            r == (find(self@, id@) is Some),
    {
        self.get(id).is_some()
    }

    /// Puts `n` into the store under its id.
    pub fn insert(&mut self, n: DbNode)
        ensures
            final(self)@ == put(old(self)@, n.view()),
    {
        proof {
            use_type_invariant(&*self);
        }
        let mut nodes = db_node::copy_nodes(&self.nodes);
        let ghost all = self@;
        let ghost nv = n.view();
        let mut i: usize = 0;
        while i < nodes.len()
            invariant
                i <= nodes@.len(),
                all == db_node::node_views(nodes@),
                forall|j: int| 0 <= j < i ==> all[j].id != nv.id,
                nv == n.view(),
            ensures
                i < nodes@.len() ==> all[i as int].id == nv.id,
            decreases nodes@.len() - i,
        {
            if text::same(nodes[i].id.as_str(), n.id.as_str()) {
                break ;
            }
            i = i + 1;
        }
        proof {
            assert forall|j: int| i < j < all.len() implies all[j].id != nv.id by {
                assert(db_node::ids(all)[j] != db_node::ids(all)[i as int]);
            }
            lemma_find(all, nv.id);
            if let Some(m) = find(all, nv.id) {
                let j = choose|j: int| 0 <= j < all.len() && all[j] == m;
                assert(all[j].id == nv.id);
            }
        }
        if i < nodes.len() {
            nodes.set(i, n);
            assert(db_node::node_views(nodes@) =~= all.update(i as int, nv));
            assert(put(all, nv) =~= all.update(i as int, nv));
            assert(db_node::ids(all.update(i as int, nv)) =~= db_node::ids(all));
        } else {
            nodes.push(n);
            assert(db_node::node_views(nodes@) =~= all.push(nv));
            assert(db_node::ids(all.push(nv)) =~= db_node::ids(all).push(nv.id));
        }
        self.nodes = nodes;
    }

    /// Takes the nodes whose ids are in `gone` out of the store.
    pub fn remove_all(&mut self, gone: &StrSet)
        ensures
            final(self)@ == without(old(self)@, gone@),
    {
        proof {
            use_type_invariant(&*self);
        }
        let ghost all = self@;
        let ghost keep = |n: db_node::NodeView| !gone@.contains(n.id);
        let mut kept: Vec<DbNode> = Vec::new();
        let mut i: usize = 0;
        assert(all.take(0) =~= Seq::empty());
        assert(db_node::node_views(kept@) =~= Seq::empty());
        proof {
            reveal(Seq::filter);
        }
        while i < self.nodes.len()
            invariant
                i <= self.nodes@.len(),
                all == db_node::node_views(self.nodes@),
                keep == (|n: db_node::NodeView| !gone@.contains(n.id)),
                db_node::node_views(kept@) == all.take(i as int).filter(keep),
            decreases self.nodes@.len() - i,
        {
            let ghost before = kept@;
            let ghost x = all[i as int];
            assert(all.take(i as int + 1) =~= all.take(i as int).push(x));
            proof {
                all.take(i as int).lemma_filter_push(x, keep);
            }
            if !gone.contains(self.nodes[i].id.as_str()) {
                kept.push(self.nodes[i].copy());
                assert(db_node::node_views(kept@) =~= db_node::node_views(before).push(x));
            }
            i = i + 1;
        }
        assert(all.take(all.len() as int) =~= all);
        proof {
            lemma_filter_distinct(all, keep);
        }
        self.nodes = kept;
    }

    /// Takes the node with the given id out of the store.
    pub fn remove(&mut self, id: &str)
        ensures
            final(self)@ == without(old(self)@, set![id@]),
    {
        let mut gone = StrSet::new();
        gone.insert(id.to_owned());
        self.remove_all(&gone);
    }

    /// The stored nodes without parent, in sibling order.
    pub fn roots(&self) -> (r: Vec<DbNode>)
        ensures
            db_node::node_views(r@) == roots(self@),
    {
        let ghost all = self@;
        let ghost top = |n: db_node::NodeView| n.parent_context is None;
        let mut kept: Vec<DbNode> = Vec::new();
        let mut i: usize = 0;
        assert(all.take(0) =~= Seq::empty());
        assert(db_node::node_views(kept@) =~= Seq::empty());
        proof {
            reveal(Seq::filter);
        }
        while i < self.nodes.len()
            invariant
                i <= self.nodes@.len(),
                all == db_node::node_views(self.nodes@),
                top == (|n: db_node::NodeView| n.parent_context is None),
                db_node::node_views(kept@) == all.take(i as int).filter(top),
            decreases self.nodes@.len() - i,
        {
            let ghost before = kept@;
            let ghost x = all[i as int];
            assert(all.take(i as int + 1) =~= all.take(i as int).push(x));
            proof {
                all.take(i as int).lemma_filter_push(x, top);
            }
            if self.nodes[i].parent_context.is_none() {
                kept.push(self.nodes[i].copy());
                assert(db_node::node_views(kept@) =~= db_node::node_views(before).push(x));
            }
            i = i + 1;
        }
        assert(all.take(all.len() as int) =~= all);
        db_node::sort_nodes(kept)
    }

    /// All ids that lie below `id`.
    pub fn below(&self, id: &str) -> (r: StrSet)
        ensures
            r@ == below(self@, id@),
    {
        let ghost nodes = self@;
        let mut found = StrSet::new();
        let mut todo: Vec<String> = Vec::new();
        todo.push(id.to_owned());
        assert(text::views(todo@) =~= seq![id@]);
        assert(text::views(todo@)[0] == id@);
        while todo.len() > 0
            invariant
                nodes == self@,
                found@.subset_of(below(nodes, id@)),
                forall|x: Seq<char>|
                    text::views(todo@).contains(x) ==> x == id@ || found@.contains(x),
                forall|x: Seq<char>, c: Seq<char>|
                    #![trigger child_of(nodes, x, c)]
                    (x == id@ || found@.contains(x)) && child_of(nodes, x, c) && !found@.contains(c)
                        ==> text::views(todo@).contains(x),
            decreases all_children(nodes).len() - found@.len(), todo@.len(),
        {
            let ghost before = text::views(todo@);
            let ghost found_before = found@;
            proof {
                lemma_below_named(nodes, id@);
                lemma_all_children(nodes);
                vstd::set_lib::lemma_len_subset(found@, all_children(nodes));
            }
            let x = todo.pop().unwrap();
            assert(text::views(todo@) =~= before.drop_last());
            assert(before.last() == x@);
            assert(before.contains(x@));
            assert forall|y: Seq<char>| before.contains(y) implies y == x@ || text::views(
                todo@,
            ).contains(y) by {
                let j = choose|j: int| 0 <= j < before.len() && before[j] == y;
                if j < before.len() - 1 {
                    assert(text::views(todo@)[j] == y);
                }
            }
            assert forall|y: Seq<char>| text::views(todo@).contains(y) implies before.contains(
                y,
            ) by {
                let j = choose|j: int| 0 <= j < text::views(todo@).len() && text::views(todo@)[j] == y;
                assert(before[j] == y);
            }
            if let Some(node) = self.get(x.as_str()) {
                let ghost kids = db_node::ids(node.view().children);
                let mut j: usize = 0;
                let ghost rest = text::views(todo@);
                while j < node.children.len()
                    invariant
                        j <= node.children@.len(),
                        find(nodes, x@) == Some(node.view()),
                        kids == db_node::ids(node.view().children),
                        x@ == id@ || found_before.contains(x@),
                        nodes == self@,
                        found_before.subset_of(found@),
                        found@.subset_of(below(nodes, id@)),
                        found_before.finite(),
                        found@.len() > found_before.len() || (found@ == found_before
                            && todo@.len() == rest.len()),
                        found@.len() >= found_before.len(),
                        forall|k: int| 0 <= k < j ==> found@.contains(#[trigger] kids[k]),
                        forall|y: Seq<char>|
                            text::views(todo@).contains(y) ==> y == id@ || found@.contains(y),
                        forall|y: Seq<char>|
                            rest.contains(y) ==> text::views(todo@).contains(y),
                        forall|y: Seq<char>, c: Seq<char>|
                            #![trigger child_of(nodes, y, c)]
                            (y == id@ || found@.contains(y)) && child_of(nodes, y, c)
                                && !found@.contains(c) ==> y == x@ || text::views(todo@).contains(
                                y,
                            ),
                    decreases node.children@.len() - j,
                {
                    let ghost c = kids[j as int];
                    assert(c == node.view().children[j as int].id);
                    assert(node.view().children[j as int] == node.children@[j as int].view());
                    assert(child_of(nodes, x@, c)) by {
                        assert(kids.contains(c));
                    }
                    if !found.contains(node.children[j].id.as_str()) {
                        let ghost prior = text::views(todo@);
                        let ghost had = found@;
                        found.insert(node.children[j].id.clone());
                        todo.push(node.children[j].id.clone());
                        assert(text::views(todo@) =~= prior.push(c));
                        proof {
                            broadcast use vstd::seq_lib::lemma_seq_contains_after_push;

                            lemma_child_below(nodes, x@, c);
                            assert(below(nodes, id@).contains(c)) by {
                                if x@ != id@ {
                                    lemma_below_trans(nodes, id@, x@, c);
                                }
                            }
                            lemma_below_named(nodes, id@);
                            vstd::set_lib::lemma_len_subset(had, below(nodes, id@));
                            assert(prior.push(c).contains(c));
                        }
                    }
                    j = j + 1;
                }
                assert forall|y: Seq<char>, c: Seq<char>|
                    #![trigger child_of(nodes, y, c)]
                    (y == id@ || found@.contains(y)) && child_of(nodes, y, c) && !found@.contains(
                        c,
                    ) implies text::views(todo@).contains(y) by {
                    if y == x@ {
                        let k = choose|k: int| 0 <= k < kids.len() && kids[k] == c;
                        assert(found@.contains(kids[k]));
                    }
                }
                proof {
                    lemma_below_named(nodes, id@);
                    vstd::set_lib::lemma_len_subset(found@, below(nodes, id@));
                    vstd::set_lib::lemma_len_subset(below(nodes, id@), all_children(nodes));
                }
            }
        }
        proof {
            assert forall|b: Seq<char>| below(nodes, id@).contains(b) implies found@.contains(
                b,
            ) by {
                let path = choose|path: Seq<Seq<char>>|
                    #![trigger is_path(nodes, path)]
                    path.len() >= 2 && path[0] == id@ && path.last() == b && is_path(nodes, path);
                lemma_closed_holds_below(nodes, id@, found@, path);
            }
            assert(found@ =~= below(nodes, id@));
        }
        found
    }
}

/// The nodes without parent, in sibling order.
pub open spec fn roots(nodes: Seq<db_node::NodeView>) -> Seq<db_node::NodeView> {
    db_node::sorted(nodes.filter(|n: db_node::NodeView| n.parent_context is None))
}

/// What lies below something below `a` lies below `a`.
pub proof fn lemma_below_trans(
    nodes: Seq<db_node::NodeView>,
    a: Seq<char>,
    b: Seq<char>,
    c: Seq<char>,
)
    requires
        descends(nodes, a, b),
        descends(nodes, b, c),
    ensures
        descends(nodes, a, c),
{
    let p = choose|p: Seq<Seq<char>>|
        #![trigger is_path(nodes, p)]
        p.len() >= 2 && p[0] == a && p.last() == b && is_path(nodes, p);
    let q = choose|q: Seq<Seq<char>>|
        #![trigger is_path(nodes, q)]
        q.len() >= 2 && q[0] == b && q.last() == c && is_path(nodes, q);
    let r = p.drop_last() + q;
    assert(is_path(nodes, r)) by {
        assert forall|i: int| 0 <= i < r.len() - 1 implies child_of(
            nodes,
            #[trigger] r[i],
            r[i + 1],
        ) by {
            if i < p.len() - 1 {
                assert(r[i] == p[i]);
                assert(r[i + 1] == p[i + 1]);
                assert(child_of(nodes, p[i], p[i + 1]));
            } else {
                let k = i - (p.len() - 1);
                assert(r[i] == q[k] && r[i + 1] == q[k + 1]);
                assert(child_of(nodes, q[k], q[k + 1]));
            }
        }
    }
    assert(r.len() >= 2 && r[0] == a && r.last() == c);
}

proof fn lemma_filter_distinct(
    nodes: Seq<db_node::NodeView>,
    keep: spec_fn(db_node::NodeView) -> bool,
)
    requires
        distinct_ids(nodes),
    ensures
        distinct_ids(nodes.filter(keep)),
        forall|x: db_node::NodeView| nodes.filter(keep).contains(x) ==> nodes.contains(x),
    decreases nodes.len(),
{
    reveal(Seq::filter);
    if nodes.len() > 0 {
        let t = nodes.drop_last();
        let x = nodes.last();
        assert(nodes =~= t.push(x));
        t.lemma_filter_push(x, keep);
        assert(distinct_ids(t)) by {
            assert forall|i: int, j: int|
                0 <= i < t.len() && 0 <= j < t.len() && i != j implies db_node::ids(t)[i]
                != db_node::ids(t)[j] by {
                assert(db_node::ids(nodes)[i] == db_node::ids(t)[i]);
                assert(db_node::ids(nodes)[j] == db_node::ids(t)[j]);
            }
        }
        lemma_filter_distinct(t, keep);
        let f = t.filter(keep);
        assert forall|y: db_node::NodeView| nodes.filter(keep).contains(y) implies nodes.contains(
            y,
        ) by {
            if f.contains(y) {
                assert(t.contains(y));
                let j = choose|j: int| 0 <= j < t.len() && t[j] == y;
                assert(nodes[j] == y);
            } else {
                assert(y == x);
                assert(nodes[nodes.len() - 1] == x);
            }
        }
        if keep(x) {
            assert forall|i: int, j: int|
                0 <= i < f.push(x).len() && 0 <= j < f.push(x).len() && i != j implies db_node::ids(
                f.push(x),
            )[i] != db_node::ids(f.push(x))[j] by {
                if i < f.len() && j < f.len() {
                    assert(db_node::ids(f)[i] != db_node::ids(f)[j]);
                } else {
                    let k = if i < f.len() {
                        i
                    } else {
                        j
                    };
                    assert(f.contains(f[k]));
                    assert(t.contains(f[k]));
                    let m = choose|m: int| 0 <= m < t.len() && t[m] == f[k];
                    assert(db_node::ids(nodes)[m] == f[k].id);
                    assert(db_node::ids(nodes)[nodes.len() - 1] == x.id);
                }
            }
        }
    }
}

} // verus!
