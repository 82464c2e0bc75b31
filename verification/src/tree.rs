//! The database tree: its nodes, what is loaded, shown, selected and filtered.
use vstd::prelude::*;

use crate::db_node;
use crate::db_node::{DatabaseType, DbNode, DbNodeType};
use crate::node_store::NodeStore;
use crate::str_map::{StrMap, StrSet};
use crate::text;
use crate::tree_model;
use crate::tree_types;
use crate::tree_types::{
    ConnectionDataEvent, DatabaseListDelegate, DatabaseListItem, DatabaseSelection, DbTreeViewEvent,
    RefreshMetadataScope, StoredConnection, TreeAction,
};

verus! {

/// One row of the flattened tree.
#[derive(Debug)]
pub struct FlatDbEntry {
    pub node_id: String,
    pub depth: usize,
}

/// The values of a list of rows.
pub open spec fn flat_views(v: Seq<FlatDbEntry>) -> Seq<tree_model::FlatView> {
    Seq::new(
        v.len(),
        |i: int| tree_model::FlatView { node_id: v[i].node_id@, depth: v[i].depth as nat },
    )
}

/// The view of an optional text slice.
pub open spec fn slice_view(s: Option<&str>) -> Option<Seq<char>> {
    match s {
        Some(x) => Some(x@),
        None => None,
    }
}

/// The id of something named `name` inside the node `parent`.
pub fn inner_id(parent: &str, name: &str) -> (r: String)
    ensures
        r@ == tree_model::inner_id(parent@, name@),
{
    let mut id = parent.to_owned();
    id.push(':');
    id.append(name);
    id
}

/// The database tree.
#[derive(Debug)]
pub struct DbTreeView {
    flat_entries: Vec<FlatDbEntry>,
    selected_ix: Option<usize>,
    selected_node_id: Option<String>,
    context_menu_node_id: Option<String>,
    db_nodes: NodeStore,
    loaded_children: StrSet,
    loading_nodes: StrSet,
    error_nodes: StrMap<String>,
    expanded_nodes: StrSet,
    connection_name: Option<String>,
    workspace_id: Option<i64>,
    search_query: String,
    search_seq: u64,
    selected_databases: StrMap<DatabaseSelection>,
    db_filter_search: StrMap<String>,
    db_filter_lists: StrMap<DatabaseListDelegate>,
    tracked_connection_ids: Vec<i64>,
}

impl DbTreeView {
    /// The state of the tree.
    pub closed spec fn view(&self) -> tree_model::Tree {
        tree_model::Tree {
            nodes: self.db_nodes@,
            loaded: self.loaded_children@,
            loading: self.loading_nodes@,
            errors: self.error_nodes@,
            expanded: self.expanded_nodes@,
            flat: flat_views(self.flat_entries@),
            selected_ix: self.selected_ix,
            selected_node_id: text::opt_view(self.selected_node_id),
            context_menu_node_id: text::opt_view(self.context_menu_node_id),
            connection_name: text::opt_view(self.connection_name),
            workspace_id: self.workspace_id,
            search_query: self.search_query@,
            search_seq: self.search_seq,
            selected_databases: self.selected_databases@,
            db_filter_search: self.db_filter_search@,
            filter_lists: self.db_filter_lists@,
            followed: self.tracked_connection_ids@,
        }
    }

    // -----------------------------------------------------------------------
    // Rows
    // -----------------------------------------------------------------------

    /// Whether the database filter applies to the node.
    fn should_filter_by_database_selection(&self, node: &DbNode, connection_id: &str) -> (r: bool)
        ensures
            r == tree_model::is_filtered_kind(node.view(), connection_id@),
    {
        if node.node_type == DbNodeType::Database {
            return true;
        }
        if node.node_type == DbNodeType::Schema {
            if let Some(parent_context) = &node.parent_context {
                return text::same(parent_context.as_str(), connection_id);
            }
        }
        false
    }

    /// Whether the database is selected.
    pub fn is_database_selected(&self, connection_id: &str, database_name: &str) -> (r: bool)
        ensures
            r == self@.is_selected(connection_id@, database_name@),
    {
        match self.selected_databases.get(connection_id) {
            None => true,
            Some(DatabaseSelection::All) => true,
            Some(DatabaseSelection::Only(set)) => set.contains(database_name),
        }
    }

    /// Whether the database filter hides the node.
    fn is_hidden(&self, node: &DbNode, above: Option<&str>) -> (r: bool)
        ensures
            r == self@.is_hidden(node.view(), slice_view(above)),
    {
        if node.node_type == DbNodeType::Connection {
            return self.should_filter_by_database_selection(node, node.id.as_str())
                && !self.is_database_selected(node.id.as_str(), node.name.as_str());
        }
        match above {
            Some(cid) => self.should_filter_by_database_selection(node, cid)
                && !self.is_database_selected(cid, node.name.as_str()),
            None => false,
        }
    }

    /// Whether a loaded child of the node matches the query.
    fn any_child_matches(
        &self,
        node: &DbNode,
        query: &str,
        above: Option<&str>,
        levels: usize,
    ) -> (r: bool)
        ensures
            r == self@.child_matches(node.view(), query@, slice_view(above), levels as nat),
        decreases levels, 0nat,
    {
        if levels == 0 || !node.children_loaded {
            return false;
        }
        let conn_id = if node.node_type == DbNodeType::Connection {
            Some(node.id.as_str())
        } else {
            above
        };
        let ghost nv = node.view();
        assert(slice_view(conn_id) == tree_model::connection_of(nv, slice_view(above)));
        let mut i: usize = 0;
        while i < node.children.len()
            invariant
                levels > 0,
                node.children_loaded,
                nv == node.view(),
                i <= node.children@.len(),
                slice_view(conn_id) == tree_model::connection_of(nv, slice_view(above)),
                forall|j: int|
                    0 <= j < i ==> !self@.matches_query(
                        (#[trigger] nv.children[j]).id,
                        query@,
                        tree_model::connection_of(nv, slice_view(above)),
                        (levels - 1) as nat,
                    ),
            decreases node.children@.len() - i,
        {
            assert(nv.children[i as int] == node.children@[i as int].view());
            if self.check_node_matches(node.children[i].id.as_str(), query, conn_id, levels - 1) {
                return true;
            }
            i = i + 1;
        }
        false
    }

    /// Whether the node, or something loaded below it, matches the query and
    /// is not hidden.
    fn check_node_matches(
        &self,
        node_id: &str,
        query: &str,
        current_connection_id: Option<&str>,
        levels: usize,
    ) -> (r: bool)
        ensures
            r == self@.matches_query(
                node_id@,
                query@,
                slice_view(current_connection_id),
                levels as nat,
            ),
        decreases levels, 1nat,
    {
        let node = match self.db_nodes.get(node_id) {
            Some(n) => n,
            None => {
                return false;
            },
        };
        if levels == 0 || self.is_hidden(node, current_connection_id) {
            return false;
        }
        if self.name_matches(node, query) {
            return true;
        }
        self.any_child_matches(node, query, current_connection_id, levels)
    }

    /// Whether the node's name contains the query, case ignored.
    fn name_matches(&self, node: &DbNode, query: &str) -> (r: bool)
        ensures
            r == tree_model::name_matches(node.view(), query@),
    {
        if query.is_empty() {
            return true;
        }
        let lowered = text::to_lowercase(node.name.as_str());
        text::contains(lowered.as_str(), query)
    }

    /// Adds the rows for the node and what is shown below it; whether there
    /// were any.
    fn add_flat_entry_recursive(
        &self,
        out: &mut Vec<FlatDbEntry>,
        node_id: &str,
        depth: usize,
        query: &str,
        current_connection_id: Option<&str>,
        levels: usize,
    ) -> (r: bool)
        requires
            depth + levels <= usize::MAX,
        ensures
            flat_views(final(out)@) == flat_views(old(out)@) + self@.rows(
                node_id@,
                depth as nat,
                query@,
                slice_view(current_connection_id),
                levels as nat,
            ),
            r == (self@.rows(
                node_id@,
                depth as nat,
                query@,
                slice_view(current_connection_id),
                levels as nat,
            ).len() > 0),
        decreases levels,
    {
        let ghost start = flat_views(out@);
        let ghost above = slice_view(current_connection_id);
        let node = match self.db_nodes.get(node_id) {
            Some(n) => n,
            None => {
                assert(start + Seq::<tree_model::FlatView>::empty() =~= start);
                return false;
            },
        };
        let ghost nv = node.view();
        if levels == 0 || self.is_hidden(node, current_connection_id) {
            assert(start + Seq::<tree_model::FlatView>::empty() =~= start);
            return false;
        }
        let self_matches = self.name_matches(node, query);
        let has_matching_children = self.any_child_matches(
            node,
            query,
            current_connection_id,
            levels,
        );
        if !self_matches && !has_matching_children {
            assert(start + Seq::<tree_model::FlatView>::empty() =~= start);
            return false;
        }
        let ghost before = out@;
        out.push(FlatDbEntry { node_id: node_id.to_owned(), depth });
        let ghost own = tree_model::FlatView { node_id: node_id@, depth: depth as nat };
        assert(flat_views(out@) =~= start + seq![own]);
        let should_show_children = if !query.is_empty() {
            has_matching_children
        } else {
            self.expanded_nodes.contains(node_id)
        };
        if should_show_children {
            let conn_id = if node.node_type == DbNodeType::Connection {
                Some(node.id.as_str())
            } else {
                current_connection_id
            };
            let ghost base = flat_views(out@);
            let mut i: usize = 0;
            assert(nv.children.take(0) =~= Seq::empty());
            assert(base + Seq::<tree_model::FlatView>::empty() =~= base);
            while i < node.children.len()
                invariant
                    levels > 0,
                    depth + levels <= usize::MAX,
                    nv == node.view(),
                    i <= node.children@.len(),
                    slice_view(conn_id) == tree_model::connection_of(nv, above),
                    flat_views(out@) == base + self@.rows_of(
                        nv.children.take(i as int),
                        depth as nat + 1,
                        query@,
                        tree_model::connection_of(nv, above),
                        (levels - 1) as nat,
                    ),
                decreases node.children@.len() - i,
            {
                assert(nv.children[i as int] == node.children@[i as int].view());
                let _shown = self.add_flat_entry_recursive(
                    out,
                    node.children[i].id.as_str(),
                    depth + 1,
                    query,
                    conn_id,
                    levels - 1,
                );
                assert(nv.children.take(i as int + 1).drop_last() =~= nv.children.take(i as int));
                assert(nv.children.take(i as int + 1).last() == nv.children[i as int]);
                proof {
                    let a = self@.rows_of(
                        nv.children.take(i as int),
                        depth as nat + 1,
                        query@,
                        tree_model::connection_of(nv, above),
                        (levels - 1) as nat,
                    );
                    let b = self@.rows(
                        nv.children[i as int].id,
                        depth as nat + 1,
                        query@,
                        tree_model::connection_of(nv, above),
                        (levels - 1) as nat,
                    );
                    assert((base + a) + b =~= base + (a + b));
                }
                i = i + 1;
            }
            assert(nv.children.take(nv.children.len() as int) =~= nv.children);
            proof {
                let a = self@.rows_of(
                    nv.children,
                    depth as nat + 1,
                    query@,
                    tree_model::connection_of(nv, above),
                    (levels - 1) as nat,
                );
                assert((start + seq![own]) + a =~= start + (seq![own] + a));
            }
        } else {
            assert(seq![own] + Seq::<tree_model::FlatView>::empty() =~= seq![own]);
        }
        true
    }

    /// Makes the rows anew; no row is selected then.
    pub fn rebuild_flat_entries(&mut self)
        ensures
            final(self)@ == old(self)@.rebuilt(),
    {
        let roots = self.db_nodes.roots();
        let query = text::to_lowercase(self.search_query.as_str());
        let levels: usize = self.db_nodes.len();
        let ghost rs = db_node::node_views(roots@);
        let mut out: Vec<FlatDbEntry> = Vec::new();
        let mut i: usize = 0;
        assert(rs.take(0) =~= Seq::empty());
        assert(flat_views(out@) =~= Seq::empty());
        while i < roots.len()
            invariant
                *self == *old(self),
                i <= roots@.len(),
                rs == db_node::node_views(roots@),
                flat_views(out@) == self@.rows_of(rs.take(i as int), 0, query@, None, levels as nat),
            decreases roots@.len() - i,
        {
            let _shown = self.add_flat_entry_recursive(
                &mut out,
                roots[i].id.as_str(),
                0,
                query.as_str(),
                None,
                levels,
            );
            assert(rs.take(i as int + 1).drop_last() =~= rs.take(i as int));
            assert(rs.take(i as int + 1).last() == roots@[i as int].view());
            i = i + 1;
        }
        assert(rs.take(rs.len() as int) =~= rs);
        self.flat_entries = out;
        self.selected_ix = None;
    }

    /// Makes the rows anew.
    pub fn rebuild_tree(&mut self)
        ensures
            final(self)@ == old(self)@.rebuilt(),
    {
        self.rebuild_flat_entries();
    }

    // -----------------------------------------------------------------------
    // Clearing
    // -----------------------------------------------------------------------

    /// Forgets the loading and error state of one node.
    fn clear_node_loading_state(&mut self, node_id: &str)
        ensures
            final(self)@ == old(self)@.loading_state_cleared(node_id@),
    {
        self.loaded_children.remove(node_id);
        self.loading_nodes.remove(node_id);
        self.error_nodes.remove(node_id);
    }

    /// Forgets all state of one node, that it is expanded too.
    fn clear_node_all_state(&mut self, node_id: &str)
        ensures
            final(self)@ == old(self)@.state_cleared(node_id@),
    {
        self.clear_node_loading_state(node_id);
        self.expanded_nodes.remove(node_id);
    }

    /// Makes the node one without children, as if never loaded.
    fn reset_node_children(&mut self, node_id: &str)
        ensures
            final(self)@ == old(self)@.children_reset(node_id@),
    {
        let found = match self.db_nodes.get(node_id) {
            Some(n) => Some(n.copy()),
            None => None,
        };
        if let Some(mut node) = found {
            let ghost nv = node.view();
            node.children = Vec::new();
            node.children_loaded = false;
            assert(node.view().children =~= Seq::empty());
            self.db_nodes.insert(node);
        }
    }

    /// Takes the child `id` out of the children of `parent`.
    fn drop_child(&mut self, parent: &str, id: &str)
        ensures
            final(self)@ == old(self)@.child_dropped(parent@, id@),
    {
        let found = match self.db_nodes.get(parent) {
            Some(n) => Some(n.copy()),
            None => None,
        };
        if let Some(mut node) = found {
            let ghost nv = node.view();
            let ghost keep = |c: db_node::NodeView| c.id != id@;
            let mut kept: Vec<DbNode> = Vec::new();
            let mut i: usize = 0;
            proof {
                reveal(Seq::filter);
            }
            assert(nv.children.take(0) =~= Seq::empty());
            assert(db_node::node_views(kept@) =~= Seq::empty());
            while i < node.children.len()
                invariant
                    i <= node.children@.len(),
                    nv == node.view(),
                    keep == (|c: db_node::NodeView| c.id != id@),
                    db_node::node_views(kept@) == nv.children.take(i as int).filter(keep),
                decreases node.children@.len() - i,
            {
                let ghost before = kept@;
                let ghost x = nv.children[i as int];
                assert(x == node.children@[i as int].view());
                assert(nv.children.take(i as int + 1) =~= nv.children.take(i as int).push(x));
                proof {
                    nv.children.take(i as int).lemma_filter_push(x, keep);
                }
                if !text::same(node.children[i].id.as_str(), id) {
                    kept.push(node.children[i].copy());
                    assert(db_node::node_views(kept@) =~= db_node::node_views(before).push(x));
                }
                i = i + 1;
            }
            assert(nv.children.take(nv.children.len() as int) =~= nv.children);
            node.children = kept;
            assert(node.view().children =~= nv.children.filter(keep)) by {
                assert(node.view().children =~= db_node::node_views(kept@));
            }
            self.db_nodes.insert(node);
        }
    }

    /// Takes the node out of its parent's children.
    fn remove_from_parent(&mut self, node_id: &str)
        ensures
            final(self)@ == old(self)@.dropped_from_parent(node_id@),
    {
        let parent = match self.db_nodes.get(node_id) {
            Some(n) => text::copy_opt(&n.parent_context),
            None => None,
        };
        if let Some(parent) = parent {
            self.drop_child(parent.as_str(), node_id);
        }
    }

    /// Takes everything below the node out, with its loading and error state.
    /// What is expanded stays so: should the nodes be loaded again, they unfold
    /// as before.
    fn clear_node_descendants(&mut self, node_id: &str)
        ensures
            final(self)@ == old(self)@.descendants_cleared(node_id@),
    {
        let gone = self.db_nodes.below(node_id);
        self.db_nodes.remove_all(&gone);
        self.loaded_children.remove_all(&gone);
        self.loading_nodes.remove_all(&gone);
        self.error_nodes.remove_all(&gone);
    }

    /// Folds everything below the node.
    fn clear_expanded_descendants(&mut self, node_id: &str)
        ensures
            final(self)@ == old(self)@.expansion_cleared(node_id@),
    {
        let below = self.db_nodes.below(node_id);
        self.expanded_nodes.remove_all(&below);
    }

    /// Removes the node with what lies below it, its place at its parent and
    /// all its state.
    fn remove_node_complete(&mut self, node_id: &str)
        ensures
            final(self)@ == old(self)@.node_removed(node_id@),
    {
        self.clear_node_descendants(node_id);
        self.remove_from_parent(node_id);
        self.db_nodes.remove(node_id);
        self.clear_node_all_state(node_id);
    }
}

/// What a refresh of the tree has to do next.
#[derive(Debug)]
pub struct RefreshPlan {
    /// The node that is refreshed.
    pub node_id: String,
    /// Its connection.
    pub connection_id: String,
    /// The cached metadata that is stale.
    pub scope: RefreshMetadataScope,
    /// Whether its children are loaded again.
    pub reload_children: bool,
}

impl DbTreeView {
    // -----------------------------------------------------------------------
    // Making a tree
    // -----------------------------------------------------------------------

    /// A tree without nodes.
    fn empty() -> (r: DbTreeView)
        ensures
            r@ == tree_model::empty_tree(),
    {
        let r = DbTreeView {
            flat_entries: Vec::new(),
            selected_ix: None,
            selected_node_id: None,
            context_menu_node_id: None,
            db_nodes: NodeStore::new(),
            loaded_children: StrSet::new(),
            loading_nodes: StrSet::new(),
            error_nodes: StrMap::new(),
            expanded_nodes: StrSet::new(),
            connection_name: None,
            workspace_id: None,
            search_query: String::new(),
            search_seq: 0,
            selected_databases: StrMap::new(),
            db_filter_search: StrMap::new(),
            db_filter_lists: StrMap::new(),
            tracked_connection_ids: Vec::new(),
        };
        assert(r@.flat =~= Seq::<tree_model::FlatView>::empty());
        assert(r@.search_query =~= Seq::<char>::empty());
        r
    }

    /// The tree of the given connections, all folded. Without connections it
    /// shows one node that says so.
    pub fn new(connections: &Vec<StoredConnection>, no_connection_label: String) -> (r: DbTreeView)
        ensures
            r@ == tree_model::initial(
                tree_types::connection_views(connections@),
                no_connection_label@,
            ),
    {
        let mut view = DbTreeView::empty();
        let ghost cs = tree_types::connection_views(connections@);
        if connections.len() == 0 {
            let node = DbNode::new(
                "root".to_owned(),
                no_connection_label,
                DbNodeType::Connection,
                String::new(),
                DatabaseType::MySQL,
                String::new(),
            );
            view.db_nodes.insert(node);
        } else {
            let mut i: usize = 0;
            assert(cs.take(0) =~= Seq::empty());
            while i < connections.len()
                invariant
                    i <= connections@.len(),
                    cs == tree_types::connection_views(connections@),
                    view@ == tree_model::connections_taken(cs.take(i as int)),
                decreases connections@.len() - i,
            {
                let conn = &connections[i];
                assert(cs.take(i as int + 1).drop_last() =~= cs.take(i as int));
                assert(cs.take(i as int + 1).last() == conn.view());
                view.workspace_id = conn.workspace_id;
                if let Some(conn_id) = conn.id {
                    view.tracked_connection_ids.push(conn_id);
                }
                if let Some(config) = &conn.config {
                    tree_types::sync_selected_databases_for_connection(
                        &mut view.selected_databases,
                        conn,
                    );
                    let node = DbNode::new(
                        conn.node_id(),
                        config.name.clone(),
                        DbNodeType::Connection,
                        conn.node_id(),
                        config.database_type,
                        conn.sort_key.clone(),
                    );
                    view.db_nodes.insert(node);
                }
                i = i + 1;
            }
            assert(cs.take(cs.len() as int) =~= cs);
        }
        view.flat_entries = DbTreeView::build_initial_flat_entries(&view.db_nodes);
        view
    }

    /// The rows of a tree in which everything is folded.
    fn build_initial_flat_entries(db_nodes: &NodeStore) -> (r: Vec<FlatDbEntry>)
        ensures
            flat_views(r@) == tree_model::root_rows(db_nodes@),
    {
        let roots = db_nodes.roots();
        let ghost rs = db_node::node_views(roots@);
        let mut out: Vec<FlatDbEntry> = Vec::new();
        let mut i: usize = 0;
        while i < roots.len()
            invariant
                i <= roots@.len(),
                out@.len() == i,
                rs == db_node::node_views(roots@),
                forall|j: int|
                    0 <= j < i ==> (#[trigger] out@[j]).node_id@ == rs[j].id && out@[j].depth == 0,
            decreases roots@.len() - i,
        {
            out.push(FlatDbEntry { node_id: roots[i].id.clone(), depth: 0 });
            i = i + 1;
        }
        assert(flat_views(out@) =~= tree_model::root_rows(db_nodes@));
        out
    }

    // -----------------------------------------------------------------------
    // Loading
    // -----------------------------------------------------------------------

    /// Starts loading the children of the node, unless they are loaded or
    /// loading, or the node is unknown.
    fn lazy_load_children(&mut self, node_id: &str) -> (r: Vec<TreeAction>)
        ensures
            final(self)@ == old(self)@.load_started(node_id@),
            tree_types::actions(r@) == old(self)@.load_request(node_id@),
    {
        let mut out = tree_types::no_actions();
        if self.loaded_children.contains(node_id) || self.loading_nodes.contains(node_id)
            || !self.db_nodes.contains_key(node_id) {
            return out;
        }
        self.loading_nodes.insert(node_id.to_owned());
        let action = TreeAction::LoadChildren(node_id.to_owned());
        tree_types::push_action(&mut out, action);
        assert(tree_types::actions(out@) =~= old(self)@.load_request(node_id@));
        out
    }

    /// Puts a node and everything nested in it into the store.
    fn insert_nodes_recursive(db_nodes: &mut NodeStore, node: &DbNode)
        ensures
            final(db_nodes)@ == tree_model::subtree_put(old(db_nodes)@, node.view()),
        decreases node,
    {
        let ghost nv = node.view();
        db_nodes.insert(node.copy());
        let ghost own = db_nodes@;
        let mut i: usize = 0;
        assert(nv.children.take(0) =~= Seq::empty());
        while i < node.children.len()
            invariant
                i <= node.children@.len(),
                nv == node.view(),
                db_nodes@ == tree_model::subtrees_put(own, nv.children.take(i as int)),
            decreases node.children@.len() - i,
        {
            assert(nv.children[i as int] == node.children@[i as int].view());
            assert(nv.children.take(i as int + 1).drop_last() =~= nv.children.take(i as int));
            DbTreeView::insert_nodes_recursive(db_nodes, &node.children[i]);
            i = i + 1;
        }
        assert(nv.children.take(nv.children.len() as int) =~= nv.children);
    }

    /// Takes over the children that were loaded for a node.
    pub fn finish_load(
        &mut self,
        node_id: &str,
        connection_id: &str,
        node_type: DbNodeType,
        children: Vec<DbNode>,
    ) -> (r: Vec<TreeAction>)
        ensures
            final(self)@ == old(self)@.load_finished(node_id@, db_node::node_views(children@)),
            tree_types::actions(r@) == old(self)@.load_finished_actions(
                node_id@,
                connection_id@,
                node_type,
                db_node::node_views(children@),
            ),
    {
        let ghost start = self@;
        let ghost cs = db_node::node_views(children@);
        let mut out = tree_types::no_actions();
        self.loading_nodes.remove(node_id);
        self.loaded_children.insert(node_id.to_owned());
        self.error_nodes.remove(node_id);
        if node_type == DbNodeType::Connection {
            if let Some(number) = text::parse_i64(connection_id) {
                tree_types::push_action(&mut out, TreeAction::MarkActive(number));
            }
        }
        let ghost active = tree_types::actions(out@);
        let found = match self.db_nodes.get(node_id) {
            Some(n) => Some(n.copy()),
            None => None,
        };
        if let Some(mut parent) = found {
            let ghost pv = parent.view();
            parent.children = db_node::copy_nodes(&children);
            parent.children_loaded = true;
            assert(parent.view().children =~= cs) by {
                assert(parent.view().children =~= db_node::node_views(parent.children@));
            }
            self.db_nodes.insert(parent);
            if let Some(selected) = &self.selected_node_id {
                if text::same(selected.as_str(), node_id) {
                    let event = DbTreeViewEvent::NodeSelected { node_id: node_id.to_owned() };
                    tree_types::push_action(&mut out, TreeAction::Emit(event));
                }
            }
        }
        let ghost first = tree_types::actions(out@);
        assert(first =~= active + if start.node(node_id@) is Some && start.selected_node_id == Some(
            node_id@,
        ) {
            seq![tree_model::node_selected(node_id@)]
        } else {
            Seq::empty()
        });
        let ghost own = self.db_nodes@;
        let mut i: usize = 0;
        assert(cs.take(0) =~= Seq::empty());
        let ghost mid = self@;
        while i < children.len()
            invariant
                i <= children@.len(),
                cs == db_node::node_views(children@),
                self.db_nodes@ == tree_model::subtrees_put(own, cs.take(i as int)),
                self@ == (tree_model::Tree { nodes: self.db_nodes@, ..mid }),
            decreases children@.len() - i,
        {
            assert(cs.take(i as int + 1).drop_last() =~= cs.take(i as int));
            DbTreeView::insert_nodes_recursive(&mut self.db_nodes, &children[i]);
            i = i + 1;
        }
        assert(cs.take(cs.len() as int) =~= cs);
        let to_expand = self.expanded_among(&children);
        self.rebuild_tree();
        assert(self@ == start.children_taken(node_id@, cs));
        let loads = self.start_loads(&to_expand);
        tree_types::push_actions(&mut out, loads);
        out
    }

    /// The ids of the expanded ones among the nodes.
    fn expanded_among(&self, list: &Vec<DbNode>) -> (r: Vec<String>)
        ensures
            text::views(r@) == tree_model::ids_within(db_node::node_views(list@), self@.expanded),
    {
        let ghost vs = db_node::node_views(list@);
        let ghost within = |c: db_node::NodeView| self@.expanded.contains(c.id);
        let mut out: Vec<String> = Vec::new();
        let mut i: usize = 0;
        proof {
            reveal(Seq::filter);
        }
        assert(vs.take(0) =~= Seq::empty());
        assert(text::views(out@) =~= db_node::ids(vs.take(0).filter(within)));
        while i < list.len()
            invariant
                i <= list@.len(),
                vs == db_node::node_views(list@),
                within == (|c: db_node::NodeView| self@.expanded.contains(c.id)),
                text::views(out@) == db_node::ids(vs.take(i as int).filter(within)),
            decreases list@.len() - i,
        {
            let ghost before = out@;
            let ghost x = vs[i as int];
            let ghost f = vs.take(i as int).filter(within);
            assert(vs.take(i as int + 1) =~= vs.take(i as int).push(x));
            proof {
                vs.take(i as int).lemma_filter_push(x, within);
            }
            if self.expanded_nodes.contains(list[i].id.as_str()) {
                out.push(list[i].id.clone());
                assert(text::views(out@) =~= text::views(before).push(x.id));
                assert(db_node::ids(f.push(x)) =~= db_node::ids(f).push(x.id));
            }
            i = i + 1;
        }
        assert(vs.take(vs.len() as int) =~= vs);
        out
    }

    /// Starts loading the children of each of the nodes.
    fn start_loads(&mut self, list: &Vec<String>) -> (r: Vec<TreeAction>)
        ensures
            final(self)@ == old(self)@.loads_started(text::views(list@)),
            tree_types::actions(r@) == old(self)@.load_requests(text::views(list@)),
    {
        let ghost vs = text::views(list@);
        let ghost start = self@;
        let mut out = tree_types::no_actions();
        let mut i: usize = 0;
        assert(vs.take(0) =~= Seq::empty());
        while i < list.len()
            invariant
                i <= list@.len(),
                vs == text::views(list@),
                self@ == start.loads_started(vs.take(i as int)),
                tree_types::actions(out@) == start.load_requests(vs.take(i as int)),
            decreases list@.len() - i,
        {
            assert(vs.take(i as int + 1).drop_last() =~= vs.take(i as int));
            assert(vs.take(i as int + 1).last() == list@[i as int]@);
            let more = self.lazy_load_children(list[i].as_str());
            tree_types::push_actions(&mut out, more);
            i = i + 1;
        }
        assert(vs.take(vs.len() as int) =~= vs);
        out
    }

    /// Gives a load up: folds the node and keeps the error for it.
    pub fn fail_load(&mut self, node_id: &str, error: String)
        ensures
            final(self)@ == old(self)@.load_failed(node_id@, error@),
    {
        self.loading_nodes.remove(node_id);
        self.expanded_nodes.remove(node_id);
        self.error_nodes.insert(node_id.to_owned(), error);
        self.rebuild_tree();
    }

    /// Empties a node so that it is loaded again. Where the node is known, the
    /// plan says what is to follow; [`DbTreeView::finish_refresh`] takes it
    /// back once the stale metadata is gone.
    pub fn refresh_tree(&mut self, node_id: &str) -> (r: Option<RefreshPlan>)
        ensures
            final(self)@ == old(self)@.refreshed(old(self)@.refresh_target(node_id@)),
            ({
                let target = old(self)@.refresh_target(node_id@);
                match old(self)@.node(target) {
                    Some(n) => r matches Some(plan) && plan.node_id@ == target
                        && plan.connection_id@ == n.connection_id && plan.reload_children
                        == old(self)@.expanded.contains(target) && tree_model::is_scope_of(
                        plan.scope,
                        n,
                    ),
                    None => r is None,
                }
            }),
    {
        let target = match self.db_nodes.get(node_id) {
            Some(n) => match &n.parent_context {
                Some(parent) if n.node_type == DbNodeType::View || n.node_type
                    == DbNodeType::Function => parent.clone(),
                _ => node_id.to_owned(),
            },
            None => node_id.to_owned(),
        };
        let reload_children = self.expanded_nodes.contains(target.as_str());
        let plan = match self.db_nodes.get(target.as_str()) {
            Some(n) => Some(
                RefreshPlan {
                    node_id: target.clone(),
                    connection_id: n.connection_id.clone(),
                    scope: tree_types::resolve_refresh_metadata_scope(n),
                    reload_children,
                },
            ),
            None => None,
        };
        self.clear_node_descendants(target.as_str());
        self.clear_node_loading_state(target.as_str());
        self.reset_node_children(target.as_str());
        self.rebuild_tree();
        plan
    }

    /// Goes on with a refresh once the stale metadata is gone.
    pub fn finish_refresh(&mut self, plan: &RefreshPlan) -> (r: Vec<TreeAction>)
        ensures
            plan.reload_children ==> final(self)@ == old(self)@.load_started(plan.node_id@)
                && tree_types::actions(r@) == old(self)@.load_request(plan.node_id@),
            !plan.reload_children ==> final(self)@ == old(self)@.rebuilt() && tree_types::actions(
                r@,
            ) == Seq::<tree_types::ActionView>::empty(),
    {
        if plan.reload_children {
            self.lazy_load_children(plan.node_id.as_str())
        } else {
            self.rebuild_tree();
            tree_types::no_actions()
        }
    }

    // -----------------------------------------------------------------------
    // Connections
    // -----------------------------------------------------------------------

    /// Removes a connection.
    pub fn remove_connection(&mut self, connection_id: &str) -> (r: Vec<TreeAction>)
        ensures
            final(self)@ == old(self)@.connection_removed(connection_id@),
            tree_types::actions(r@) == seq![
                tree_types::ActionView::UnregisterConnection(connection_id@),
            ],
    {
        self.clear_node_descendants(connection_id);
        self.db_nodes.remove(connection_id);
        self.clear_node_all_state(connection_id);
        self.selected_databases.remove(connection_id);
        self.db_filter_lists.remove(connection_id);
        if let Some(number) = text::parse_i64(connection_id) {
            self.tracked_connection_ids = ids_without(&self.tracked_connection_ids, number);
        }
        let was_selected = match &self.selected_node_id {
            Some(id) => text::same(id.as_str(), connection_id),
            None => false,
        };
        if was_selected {
            self.selected_node_id = None;
            self.selected_ix = None;
        }
        self.rebuild_tree();
        let mut out = tree_types::no_actions();
        tree_types::push_action(
            &mut out,
            TreeAction::UnregisterConnection(connection_id.to_owned()),
        );
        assert(tree_types::actions(out@) =~= seq![
            tree_types::ActionView::UnregisterConnection(connection_id@),
        ]);
        out
    }

    /// Takes over a changed connection.
    pub fn update_connection_info(&mut self, connection: &StoredConnection) -> (r: Vec<TreeAction>)
        ensures
            final(self)@ == old(self)@.connection_updated(connection.view()),
            tree_types::actions(r@) == (if connection.config is Some && old(self)@.node(
                connection.view().node_id(),
            ) is Some {
                seq![tree_types::ActionView::UpdateConnection(connection.view().node_id())]
            } else {
                Seq::empty()
            }),
    {
        let mut out = tree_types::no_actions();
        if let Some(config) = &connection.config {
            let id = connection.node_id();
            tree_types::sync_selected_databases_for_connection(
                &mut self.selected_databases,
                connection,
            );
            let found = match self.db_nodes.get(id.as_str()) {
                Some(n) => Some(n.copy()),
                None => None,
            };
            if let Some(mut node) = found {
                node.name = config.name.clone();
                node.sort_key = connection.sort_key.clone();
                self.db_nodes.insert(node);
                tree_types::push_action(&mut out, TreeAction::UpdateConnection(id.clone()));
                assert(tree_types::actions(out@) =~= seq![
                    tree_types::ActionView::UpdateConnection(id@),
                ]);
            }
            self.rebuild_tree();
        }
        out
    }

    /// Adds a connection, unless a node with its id is there already.
    pub fn add_connection(&mut self, connection: &StoredConnection) -> (r: Vec<TreeAction>)
        ensures
            final(self)@ == old(self)@.connection_added(connection.view()),
            tree_types::actions(r@) == (if old(self)@.can_add(connection.view()) {
                seq![tree_types::ActionView::RegisterConnection(connection.view().node_id())]
            } else {
                Seq::empty()
            }),
    {
        let mut out = tree_types::no_actions();
        if let Some(config) = &connection.config {
            let id = connection.node_id();
            if self.db_nodes.contains_key(id.as_str()) {
                return out;
            }
            if let Some(conn_id) = connection.id {
                if !ids_contain(&self.tracked_connection_ids, conn_id) {
                    self.tracked_connection_ids.push(conn_id);
                }
            }
            tree_types::sync_selected_databases_for_connection(
                &mut self.selected_databases,
                connection,
            );
            let node = DbNode::new(
                id.clone(),
                config.name.clone(),
                DbNodeType::Connection,
                id.clone(),
                config.database_type,
                connection.sort_key.clone(),
            );
            self.db_nodes.insert(node);
            self.rebuild_tree();
            tree_types::push_action(&mut out, TreeAction::RegisterConnection(id.clone()));
            assert(tree_types::actions(out@) =~= seq![
                tree_types::ActionView::RegisterConnection(id@),
            ]);
        }
        out
    }
}

/// What follows a change among the stored connections.
#[derive(Debug)]
pub enum ChangeOutcome {
    /// Things to be done outside of the tree.
    Actions(Vec<TreeAction>),
    /// A refresh to be gone on with.
    Refresh(Option<RefreshPlan>),
}

/// One row of the tree as it is shown.
#[derive(Debug)]
pub struct TreeRow {
    pub node_id: String,
    pub depth: usize,
    /// The distance of the row's contents from the left edge, in pixels.
    pub indent: u128,
    /// The node's name; a key to be looked up where `label_is_key` says so.
    pub label: String,
    pub label_is_key: bool,
    /// What went wrong for the node; shown in place of the label on hovering.
    pub error: Option<String>,
    pub is_selected: bool,
    pub is_expanded: bool,
    pub is_loading: bool,
    pub has_arrow: bool,
    pub is_folder: bool,
    /// How many databases of a connection are selected, out of how many.
    pub filter_count: Option<(usize, usize)>,
    /// The part of the label to be highlighted.
    pub highlight: String,
}

impl DbTreeView {
    // -----------------------------------------------------------------------
    // The database filter
    // -----------------------------------------------------------------------

    /// The databases of a connection (its schemas, where it has no databases)
    /// as (id, name) pairs.
    pub fn get_databases_for_connection(&self, connection_id: &str) -> (r: Vec<(String, String)>)
        ensures
            db_node::pair_views(r@) == self@.databases(connection_id@),
    {
        let mut out: Vec<(String, String)> = Vec::new();
        assert(db_node::pair_views(out@) =~= Seq::empty());
        if let Some(node) = self.db_nodes.get(connection_id) {
            let ghost nv = node.view();
            let mut i: usize = 0;
            assert(nv.children.take(0) =~= Seq::empty());
            while i < node.children.len()
                invariant
                    i <= node.children@.len(),
                    nv == node.view(),
                    db_node::pair_views(out@) == tree_model::databases_of(
                        nv.children.take(i as int),
                    ),
                decreases node.children@.len() - i,
            {
                let child = &node.children[i];
                let ghost before = out@;
                assert(nv.children[i as int] == child.view());
                assert(nv.children.take(i as int + 1).drop_last() =~= nv.children.take(i as int));
                if child.node_type == DbNodeType::Database || child.node_type
                    == DbNodeType::Schema {
                    out.push((child.id.clone(), child.name.clone()));
                    assert(db_node::pair_views(out@) =~= db_node::pair_views(before).push(
                        (child.id@, child.name@),
                    ));
                }
                i = i + 1;
            }
            assert(nv.children.take(nv.children.len() as int) =~= nv.children);
        }
        out
    }

    /// The names of the databases of a connection.
    fn database_names(&self, connection_id: &str) -> (r: StrSet)
        ensures
            r@ == tree_model::names(self@.databases(connection_id@)),
    {
        let databases = self.get_databases_for_connection(connection_id);
        let ghost ds = db_node::pair_views(databases@);
        let mut out = StrSet::new();
        let mut i: usize = 0;
        while i < databases.len()
            invariant
                i <= databases@.len(),
                ds == db_node::pair_views(databases@),
                forall|n: Seq<char>|
                    out@.contains(n) <==> exists|j: int| 0 <= j < i && (#[trigger] ds[j]).1 == n,
            decreases databases@.len() - i,
        {
            out.insert(databases[i].1.clone());
            assert(ds[i as int].1 == databases@[i as int].1@);
            i = i + 1;
        }
        assert(out@ =~= tree_model::names(ds));
        out
    }

    /// How many databases of the connection are selected, out of how many.
    pub fn get_selected_database_count(&self, connection_id: &str) -> (r: (usize, usize))
        ensures
            r.1 == self@.databases(connection_id@).len(),
            r.0 == match self@.selection(connection_id@) {
                None => self@.databases(connection_id@).len(),
                Some(set) => tree_model::count_named(self@.databases(connection_id@), set),
            },
    {
        let databases = self.get_databases_for_connection(connection_id);
        let total: usize = databases.len();
        match self.selected_databases.get(connection_id) {
            None => (total, total),
            Some(DatabaseSelection::All) => (total, total),
            Some(DatabaseSelection::Only(set)) => {
                let ghost ds = db_node::pair_views(databases@);
                let mut count: usize = 0;
                let mut i: usize = 0;
                assert(ds.take(0) =~= Seq::empty());
                while i < databases.len()
                    invariant
                        i <= databases@.len(),
                        ds == db_node::pair_views(databases@),
                        count <= i,
                        count == tree_model::count_named(ds.take(i as int), set@),
                    decreases databases@.len() - i,
                {
                    assert(ds.take(i as int + 1).drop_last() =~= ds.take(i as int));
                    assert(ds.take(i as int + 1).last() == ds[i as int]);
                    if set.contains(databases[i].1.as_str()) {
                        count = count + 1;
                    }
                    i = i + 1;
                }
                assert(ds.take(ds.len() as int) =~= ds);
                (count, total)
            },
        }
    }

    /// The request to store which databases of the connection are selected.
    fn save_database_filter(&self, connection_id: &str) -> (r: TreeAction)
        ensures
            r.view() == self@.save_request(connection_id@),
    {
        let selected = match self.selected_databases.get(connection_id) {
            None => None,
            Some(DatabaseSelection::All) => None,
            Some(DatabaseSelection::Only(set)) => Some(set.to_vec()),
        };
        TreeAction::SaveFilter(connection_id.to_owned(), selected)
    }

    /// Selects a database that is not selected, and the other way round.
    pub fn toggle_database_selection(
        &mut self,
        connection_id: &str,
        database_name: &str,
    ) -> (r: TreeAction)
        ensures
            final(self)@ == old(self)@.toggled(connection_id@, database_name@),
            r.view() == old(self)@.toggled(connection_id@, database_name@).save_request(
                connection_id@,
            ),
    {
        let mut all = self.database_names(connection_id);
        let selection = match self.selected_databases.get(connection_id) {
            Some(DatabaseSelection::Only(set)) => {
                let mut changed = set.copy();
                if changed.contains(database_name) {
                    changed.remove(database_name);
                } else {
                    changed.insert(database_name.to_owned());
                }
                if changed.len() == all.len() {
                    DatabaseSelection::All
                } else {
                    DatabaseSelection::Only(changed)
                }
            },
            _ => {
                all.remove(database_name);
                DatabaseSelection::Only(all)
            },
        };
        self.selected_databases.insert(connection_id.to_owned(), selection);
        self.rebuild_tree();
        self.save_database_filter(connection_id)
    }

    /// Selects all databases of the connection.
    pub fn select_all_databases(&mut self, connection_id: &str) -> (r: TreeAction)
        ensures
            final(self)@ == old(self)@.with_selection(connection_id@, None).rebuilt(),
            r.view() == tree_types::ActionView::SaveFilter(connection_id@, None),
    {
        self.selected_databases.insert(connection_id.to_owned(), DatabaseSelection::All);
        self.rebuild_tree();
        self.save_database_filter(connection_id)
    }

    /// Selects no database of the connection.
    pub fn deselect_all_databases(&mut self, connection_id: &str) -> (r: TreeAction)
        ensures
            final(self)@ == old(self)@.with_selection(connection_id@, Some(Set::empty())).rebuilt(),
            r.view() == tree_types::ActionView::SaveFilter(connection_id@, Some(Set::empty())),
    {
        self.selected_databases.insert(
            connection_id.to_owned(),
            DatabaseSelection::Only(StrSet::new()),
        );
        self.rebuild_tree();
        self.save_database_filter(connection_id)
    }

    /// Adds a database to a selection that is not all databases.
    pub fn add_database_to_selection(
        &mut self,
        connection_id: &str,
        database_name: &str,
    ) -> (r: Vec<TreeAction>)
        ensures
            final(self)@ == old(self)@.selection_added(connection_id@, database_name@),
            tree_types::actions(r@) == old(self)@.selection_added_request(
                connection_id@,
                database_name@,
            ),
    {
        let mut out = tree_types::no_actions();
        if database_name.is_empty() {
            return out;
        }
        let grown = match self.selected_databases.get(connection_id) {
            Some(DatabaseSelection::Only(set)) => {
                let mut set = set.copy();
                set.insert(database_name.to_owned());
                Some(set)
            },
            _ => None,
        };
        if let Some(set) = grown {
            self.selected_databases.insert(
                connection_id.to_owned(),
                DatabaseSelection::Only(set),
            );
            tree_types::push_action(&mut out, self.save_database_filter(connection_id));
            assert(tree_types::actions(out@) =~= old(self)@.selection_added_request(
                connection_id@,
                database_name@,
            ));
        }
        out
    }

    /// Whether all databases of the connection are selected.
    pub fn is_all_selected(&self, connection_id: &str) -> (r: bool)
        ensures
            r == match self@.selection(connection_id@) {
                None => true,
                Some(set) => set == tree_model::names(self@.databases(connection_id@)),
            },
    {
        match self.selected_databases.get(connection_id) {
            Some(DatabaseSelection::Only(set)) => set.same(&self.database_names(connection_id)),
            _ => true,
        }
    }

    /// The checkbox over the database filter: selects no database where all
    /// are selected, else all.
    pub fn toggle_all_databases(&mut self, connection_id: &str) -> (r: TreeAction)
        ensures
            ({
                let all = match old(self)@.selection(connection_id@) {
                    None => true,
                    Some(set) => set == tree_model::names(old(self)@.databases(connection_id@)),
                };
                let selection = if all {
                    Some(Set::empty())
                } else {
                    None
                };
                &&& final(self)@ == old(self)@.with_selection(connection_id@, selection).rebuilt()
                &&& r.view() == tree_types::ActionView::SaveFilter(connection_id@, selection)
            }),
    {
        if self.is_all_selected(connection_id) {
            self.deselect_all_databases(connection_id)
        } else {
            self.select_all_databases(connection_id)
        }
    }

    /// Sets what the database filter of the connection is searched for.
    pub fn set_db_filter_search(&mut self, connection_id: &str, query: String)
        ensures
            final(self)@ == (tree_model::Tree {
                db_filter_search: old(self)@.db_filter_search.insert(connection_id@, query@),
                ..old(self)@
            }),
    {
        self.db_filter_search.insert(connection_id.to_owned(), query);
    }

    /// What the database filter of the connection is searched for.
    pub fn get_db_filter_search(&self, connection_id: &str) -> (r: String)
        ensures
            r@ == (if self@.db_filter_search.contains_key(connection_id@) {
                self@.db_filter_search[connection_id@]
            } else {
                Seq::empty()
            }),
    {
        match self.db_filter_search.get(connection_id) {
            Some(query) => query.clone(),
            None => {
                let r = String::new();
                assert(r@ =~= Seq::empty());
                r
            },
        }
    }

    /// The databases of the connection that the search of its filter finds.
    pub fn get_filtered_databases(&self, connection_id: &str) -> (r: Vec<(String, String)>)
        ensures
            ({
                let search = if self@.db_filter_search.contains_key(connection_id@) {
                    self@.db_filter_search[connection_id@]
                } else {
                    Seq::empty()
                };
                let query = text::lowercase(search);
                let all = self@.databases(connection_id@);
                db_node::pair_views(r@) == if query.len() == 0 {
                    all
                } else {
                    tree_model::with_name_like(all, query)
                }
            }),
    {
        let databases = self.get_databases_for_connection(connection_id);
        let search = self.get_db_filter_search(connection_id);
        let query = text::to_lowercase(search.as_str());
        if query.as_str().is_empty() {
            databases
        } else {
            tree_types::filter_by_name(&databases, query.as_str())
        }
    }

    /// Opens the database filter of a connection: its list shows all databases
    /// the connection has now.
    pub fn open_database_filter(&mut self, connection_id: &str)
        ensures
            ({
                let all = old(self)@.databases(connection_id@);
                let list = if old(self)@.filter_lists.contains_key(connection_id@) {
                    tree_model::ListView {
                        databases: all,
                        filtered: all,
                        ..old(self)@.filter_lists[connection_id@]
                    }
                } else {
                    tree_model::ListView {
                        connection_id: connection_id@,
                        databases: all,
                        filtered: all,
                        selected_index: None,
                    }
                };
                final(self)@ == (tree_model::Tree {
                    filter_lists: old(self)@.filter_lists.insert(connection_id@, list),
                    ..old(self)@
                })
            }),
    {
        let databases = self.get_databases_for_connection(connection_id);
        let list = match self.db_filter_lists.get(connection_id) {
            Some(old_list) => {
                let filtered_databases = tree_types::copy_pairs(&databases);
                DatabaseListDelegate {
                    connection_id: old_list.connection_id.clone(),
                    databases,
                    filtered_databases,
                    selected_index: old_list.selected_index,
                }
            },
            None => DatabaseListDelegate::new(connection_id.to_owned(), databases),
        };
        self.db_filter_lists.insert(connection_id.to_owned(), list);
    }

    /// The line of a database filter at a position.
    pub fn filter_line(&self, list: &DatabaseListDelegate, row: usize) -> (r: Option<
        DatabaseListItem,
    >)
        ensures
            r is Some <==> row < list@.filtered.len(),
            r matches Some(item) ==> {
                &&& item.db_id@ == list@.filtered[row as int].0
                &&& item.db_name@ == list@.filtered[row as int].1
                &&& item.is_selected == self@.is_selected(
                    list@.connection_id,
                    list@.filtered[row as int].1,
                )
                &&& item.selected == (list@.selected_index == Some(row))
                &&& item.connection_id@ == list@.connection_id
            },
    {
        if row >= list.filtered_databases.len() {
            return None;
        }
        let db_id = list.filtered_databases[row].0.clone();
        let db_name = list.filtered_databases[row].1.clone();
        let is_selected = self.is_database_selected(
            list.connection_id.as_str(),
            db_name.as_str(),
        );
        let selected = match list.selected_index {
            Some(ix) => ix == row,
            None => false,
        };
        Some(
            DatabaseListItem::new(
                db_id,
                db_name,
                is_selected,
                selected,
                list.connection_id.clone(),
            ),
        )
    }

    // -----------------------------------------------------------------------
    // Nodes
    // -----------------------------------------------------------------------

    /// The node with the given id.
    pub fn get_node(&self, node_id: &str) -> (r: Option<&DbNode>)
        ensures
            match r {
                Some(n) => self@.node(node_id@) == Some(n.view()),
                None => self@.node(node_id@) is None,
            },
    {
        self.db_nodes.get(node_id)
    }

    /// The id of a database node of the connection.
    pub fn find_database_node(&self, connection_id: &str, database_name: &str) -> (r: Option<
        String,
    >)
        ensures
            text::opt_view(r) == self@.database_node(connection_id@, database_name@),
    {
        if let Some(node) = self.db_nodes.get(connection_id) {
            let ghost nv = node.view();
            let mut i: usize = 0;
            assert(nv.children.skip(0) =~= nv.children);
            while i < node.children.len()
                invariant
                    i <= node.children@.len(),
                    nv == node.view(),
                    self@.node(connection_id@) == Some(nv),
                    tree_model::database_named(nv.children, database_name@)
                        == tree_model::database_named(nv.children.skip(i as int), database_name@),
                decreases node.children@.len() - i,
            {
                let child = &node.children[i];
                assert(nv.children[i as int] == child.view());
                assert(nv.children.skip(i as int)[0] == child.view());
                assert(nv.children.skip(i as int).drop_first() =~= nv.children.skip(i as int + 1));
                if child.node_type == DbNodeType::Database && text::same(
                    child.name.as_str(),
                    database_name,
                ) {
                    return Some(child.id.clone());
                }
                i = i + 1;
            }
        }
        None
    }

    /// Puts a node into the store and among the children of `parent`.
    fn add_child(&mut self, parent: &str, node: DbNode)
        ensures
            final(self)@ == old(self)@.child_added(parent@, node.view()),
    {
        let again = node.copy();
        self.db_nodes.insert(again);
        let found = match self.db_nodes.get(parent) {
            Some(n) => Some(n.copy()),
            None => None,
        };
        if let Some(mut p) = found {
            let ghost pv = p.view();
            let mut children = db_node::copy_nodes(&p.children);
            let ghost before = children@;
            let ghost nv = node.view();
            children.push(node);
            assert(db_node::node_views(before) =~= pv.children) by {
                assert(db_node::node_views(p.children@) =~= pv.children);
            }
            assert(db_node::node_views(children@) =~= pv.children.push(nv));
            p.children = db_node::sort_nodes(children);
            assert(p.view().children =~= db_node::node_views(p.children@));
            self.db_nodes.insert(p);
        }
    }

    /// Adds a database node below its connection.
    pub fn add_database_node(&mut self, connection_id: &str, database_name: &str, sort_key: &str)
        ensures
            final(self)@ == old(self)@.database_added(
                connection_id@,
                database_name@,
                sort_key@,
            ),
    {
        let (database_type, owner) = match self.db_nodes.get(connection_id) {
            Some(n) => (n.database_type, n.connection_id.clone()),
            None => {
                return ;
            },
        };
        let mut node = DbNode::new(
            inner_id(connection_id, database_name),
            database_name.to_owned(),
            DbNodeType::Database,
            owner,
            database_type,
            sort_key.to_owned(),
        );
        let ghost fresh = node.view();
        node.parent_context = Some(connection_id.to_owned());
        node.database_name = Some(database_name.to_owned());
        assert(node.view().children =~= fresh.children);
        self.add_child(connection_id, node);
        self.rebuild_tree();
    }

    /// Removes a database node.
    pub fn remove_database_node(&mut self, connection_id: &str, database_name: &str)
        ensures
            final(self)@ == old(self)@.inner_removed(
                connection_id@,
                tree_model::inner_id(connection_id@, database_name@),
            ),
    {
        let id = inner_id(connection_id, database_name);
        self.clear_node_descendants(id.as_str());
        self.db_nodes.remove(id.as_str());
        self.clear_node_all_state(id.as_str());
        self.drop_child(connection_id, id.as_str());
        self.rebuild_tree();
    }

    /// Adds a schema node below its database.
    pub fn add_schema_node(
        &mut self,
        connection_id: &str,
        database_name: &str,
        schema_name: &str,
        sort_key: &str,
    )
        ensures
            final(self)@ == old(self)@.schema_added(
                connection_id@,
                database_name@,
                schema_name@,
                sort_key@,
            ),
    {
        let parent = inner_id(connection_id, database_name);
        let database_type = match self.db_nodes.get(parent.as_str()) {
            Some(n) => n.database_type,
            None => {
                return ;
            },
        };
        let mut node = DbNode::new(
            inner_id(parent.as_str(), schema_name),
            schema_name.to_owned(),
            DbNodeType::Schema,
            connection_id.to_owned(),
            database_type,
            sort_key.to_owned(),
        );
        let ghost fresh = node.view();
        node.parent_context = Some(parent.clone());
        node.schema_name = Some(schema_name.to_owned());
        assert(node.view().children =~= fresh.children);
        self.add_child(parent.as_str(), node);
        self.rebuild_tree();
    }

    /// Removes a schema node.
    pub fn remove_schema_node(
        &mut self,
        connection_id: &str,
        database_name: &str,
        schema_name: &str,
    )
        ensures
            final(self)@ == old(self)@.inner_removed(
                tree_model::inner_id(connection_id@, database_name@),
                tree_model::inner_id(
                    tree_model::inner_id(connection_id@, database_name@),
                    schema_name@,
                ),
            ),
    {
        let parent = inner_id(connection_id, database_name);
        let id = inner_id(parent.as_str(), schema_name);
        self.clear_node_descendants(id.as_str());
        self.db_nodes.remove(id.as_str());
        self.clear_node_all_state(id.as_str());
        self.drop_child(parent.as_str(), id.as_str());
        self.rebuild_tree();
    }

    /// Removes a table node.
    pub fn remove_table_node(&mut self, node_id: &str)
        ensures
            final(self)@ == old(self)@.node_removed(node_id@).rebuilt(),
    {
        self.remove_node_complete(node_id);
        self.rebuild_tree();
    }

    /// Removes a view node.
    pub fn remove_view_node(&mut self, node_id: &str)
        ensures
            final(self)@ == old(self)@.node_removed(node_id@).rebuilt(),
    {
        self.remove_node_complete(node_id);
        self.rebuild_tree();
    }

    /// Closes a connection: nothing below it is left or expanded.
    pub fn close_connection(&mut self, connection_id: &str) -> (r: Vec<TreeAction>)
        ensures
            final(self)@ == old(self)@.closed(connection_id@),
            tree_types::actions(r@) == seq![
                tree_types::ActionView::ClearConnectionCache(connection_id@),
            ] + match tree_model::connection_number(connection_id@) {
                Some(number) => seq![tree_types::ActionView::MarkInactive(number as i64)],
                None => Seq::empty(),
            },
    {
        let mut out = tree_types::no_actions();
        tree_types::push_action(
            &mut out,
            TreeAction::ClearConnectionCache(connection_id.to_owned()),
        );
        if let Some(number) = text::parse_i64(connection_id) {
            tree_types::push_action(&mut out, TreeAction::MarkInactive(number));
        }
        assert(tree_types::actions(out@) =~= seq![
            tree_types::ActionView::ClearConnectionCache(connection_id@),
        ] + match tree_model::connection_number(connection_id@) {
            Some(number) => seq![tree_types::ActionView::MarkInactive(number as i64)],
            None => Seq::empty(),
        });
        self.close_database(connection_id);
        out
    }

    /// Closes a database: nothing below it is left or expanded.
    pub fn close_database(&mut self, database_node_id: &str)
        ensures
            final(self)@ == old(self)@.closed(database_node_id@),
    {
        self.clear_expanded_descendants(database_node_id);
        self.clear_node_descendants(database_node_id);
        self.reset_node_children(database_node_id);
        self.clear_node_all_state(database_node_id);
        self.rebuild_tree();
    }

    // -----------------------------------------------------------------------
    // Showing nodes
    // -----------------------------------------------------------------------

    /// Unfolds a connection and selects it.
    pub fn active_connection(&mut self, active_conn_id: &str) -> (r: Vec<TreeAction>)
        ensures
            final(self)@ == (tree_model::Tree {
                selected_node_id: Some(active_conn_id@),
                expanded: old(self)@.expanded.insert(active_conn_id@),
                ..old(self)@
            }).load_started(active_conn_id@).rebuilt(),
            tree_types::actions(r@) == old(self)@.load_request(active_conn_id@),
    {
        self.selected_node_id = Some(active_conn_id.to_owned());
        self.expanded_nodes.insert(active_conn_id.to_owned());
        let out = self.lazy_load_children(active_conn_id);
        self.rebuild_tree();
        out
    }

    /// Unfolds a database node, adding it first where it is missing; its id.
    pub fn ensure_database_node_expanded(
        &mut self,
        connection_id: &str,
        database_name: &str,
        sort_key: &str,
    ) -> (r: (Option<String>, Vec<TreeAction>))
        ensures
            final(self)@ == old(self)@.database_shown(connection_id@, database_name@, sort_key@),
            text::opt_view(r.0) == old(self)@.database_shown_id(
                connection_id@,
                database_name@,
                sort_key@,
            ),
            tree_types::actions(r.1@) == old(self)@.database_shown_actions(
                connection_id@,
                database_name@,
                sort_key@,
            ),
    {
        if database_name.is_empty() || !self.db_nodes.contains_key(connection_id) {
            return (None, tree_types::no_actions());
        }
        let known = self.find_database_node(connection_id, database_name);
        let mut out = self.add_database_to_selection(connection_id, database_name);
        if known.is_none() {
            self.add_database_node(connection_id, database_name, sort_key);
        }
        let node_id = match self.find_database_node(connection_id, database_name) {
            Some(id) => id,
            None => {
                return (None, out);
            },
        };
        let ghost t = self@;
        self.expanded_nodes.insert(connection_id.to_owned());
        self.expanded_nodes.insert(node_id.clone());
        self.selected_node_id = Some(node_id.clone());
        let first = self.lazy_load_children(connection_id);
        tree_types::push_actions(&mut out, first);
        let second = self.lazy_load_children(node_id.as_str());
        tree_types::push_actions(&mut out, second);
        self.rebuild_tree();
        (Some(node_id), out)
    }

    /// Unfolds a schema node with the nodes above it; its id.
    pub fn ensure_schema_node_expanded(
        &mut self,
        connection_id: &str,
        database_name: &str,
        schema_name: &str,
        sort_key: &str,
    ) -> (r: (Option<String>, Vec<TreeAction>))
        ensures
            final(self)@ == old(self)@.schema_shown(
                connection_id@,
                database_name@,
                schema_name@,
                sort_key@,
            ),
            text::opt_view(r.0) == old(self)@.schema_shown_id(
                connection_id@,
                database_name@,
                schema_name@,
                sort_key@,
            ),
            tree_types::actions(r.1@) == old(self)@.schema_shown_actions(
                connection_id@,
                database_name@,
                schema_name@,
                sort_key@,
            ),
    {
        if schema_name.is_empty() || !self.db_nodes.contains_key(connection_id) {
            return (None, tree_types::no_actions());
        }
        let mut out = tree_types::no_actions();
        let id = if database_name.is_empty() {
            inner_id(connection_id, schema_name)
        } else {
            let (db_id, first) = self.ensure_database_node_expanded(
                connection_id,
                database_name,
                sort_key,
            );
            out = first;
            match db_id {
                Some(db_id) => inner_id(db_id.as_str(), schema_name),
                None => {
                    return (None, out);
                },
            }
        };
        let ghost t = self@;
        let ghost first = tree_types::actions(out@);
        let mut loads: Vec<String> = Vec::new();
        loads.push(connection_id.to_owned());
        self.expanded_nodes.insert(connection_id.to_owned());
        if !database_name.is_empty() {
            self.expanded_nodes.insert(inner_id(connection_id, database_name));
            loads.push(inner_id(connection_id, database_name));
        }
        self.expanded_nodes.insert(id.clone());
        self.selected_node_id = Some(id.clone());
        let known = self.db_nodes.contains_key(id.as_str());
        if known {
            loads.push(id.clone());
        }
        assert(text::views(loads@) =~= t.schema_loads(connection_id@, database_name@, id@));
        assert(self@ == t.schema_unfolded(connection_id@, database_name@, id@));
        let more = self.start_loads(&loads);
        tree_types::push_actions(&mut out, more);
        if known {
            let event = DbTreeViewEvent::NodeSelected { node_id: id.clone() };
            tree_types::push_action(&mut out, TreeAction::Emit(event));
        }
        self.rebuild_tree();
        (Some(id), out)
    }

    /// Folds everything.
    pub fn collapse_all(&mut self)
        ensures
            final(self)@ == (tree_model::Tree {
                expanded: Set::empty(),
                ..old(self)@
            }).rebuilt(),
    {
        self.expanded_nodes = StrSet::new();
        self.rebuild_flat_entries();
    }

    /// Unfolds a folded node, and the other way round.
    pub fn toggle_expanded(&mut self, node_id: &str) -> (r: Vec<TreeAction>)
        ensures
            final(self)@ == old(self)@.expansion_toggled(node_id@),
            tree_types::actions(r@) == old(self)@.expansion_request(node_id@),
    {
        let is_expanded = self.expanded_nodes.contains(node_id);
        let out = if is_expanded {
            self.expanded_nodes.remove(node_id);
            tree_types::no_actions()
        } else {
            self.expanded_nodes.insert(node_id.to_owned());
            self.lazy_load_children(node_id)
        };
        self.rebuild_tree();
        out
    }

    /// A double click: tries a failed load again, opens a table, a view or a
    /// query, and folds or unfolds anything that has children.
    pub fn handle_item_double_click(&mut self, node_id: &str) -> (r: Vec<TreeAction>)
        ensures
            final(self)@ == old(self)@.double_clicked(node_id@),
            tree_types::actions(r@) == old(self)@.double_click_actions(node_id@),
    {
        self.context_menu_node_id = None;
        if self.error_nodes.contains_key(node_id) {
            self.error_nodes.remove(node_id);
            return self.lazy_load_children(node_id);
        }
        let node_type = match self.db_nodes.get(node_id) {
            Some(n) => n.node_type,
            None => {
                return tree_types::no_actions();
            },
        };
        let mut out = tree_types::no_actions();
        match node_type {
            DbNodeType::Table => {
                let event = DbTreeViewEvent::OpenTableData { node_id: node_id.to_owned() };
                tree_types::push_action(&mut out, TreeAction::Emit(event));
            },
            DbNodeType::View => {
                let event = DbTreeViewEvent::OpenViewData { node_id: node_id.to_owned() };
                tree_types::push_action(&mut out, TreeAction::Emit(event));
            },
            DbNodeType::NamedQuery => {
                let event = DbTreeViewEvent::OpenNamedQuery { node_id: node_id.to_owned() };
                tree_types::push_action(&mut out, TreeAction::Emit(event));
            },
            DbNodeType::Connection
            | DbNodeType::Database
            | DbNodeType::Schema
            | DbNodeType::ColumnsFolder
            | DbNodeType::IndexesFolder
            | DbNodeType::FunctionsFolder
            | DbNodeType::ProceduresFolder
            | DbNodeType::TriggersFolder
            | DbNodeType::QueriesFolder
            | DbNodeType::TablesFolder
            | DbNodeType::ViewsFolder => {
                out = self.toggle_expanded(node_id);
            },
            _ => {},
        }
        let event = DbTreeViewEvent::NodeSelected { node_id: node_id.to_owned() };
        tree_types::push_action(&mut out, TreeAction::Emit(event));
        assert(tree_types::actions(out@) =~= old(self)@.double_click_actions(node_id@));
        out
    }

    /// Selects a row.
    fn set_selected_node(&mut self, node_id: &str, ix: usize)
        ensures
            final(self)@ == (tree_model::Tree {
                selected_node_id: Some(node_id@),
                selected_ix: Some(ix),
                context_menu_node_id: None,
                ..old(self)@
            }),
    {
        tree_types::apply_db_selection_state(
            &mut self.selected_node_id,
            &mut self.selected_ix,
            &mut self.context_menu_node_id,
            node_id,
            ix,
        );
    }

    /// A single click: selects the row.
    pub fn handle_item_click(&mut self, node_id: &str, ix: usize) -> (r: TreeAction)
        ensures
            final(self)@ == (tree_model::Tree {
                selected_node_id: Some(node_id@),
                selected_ix: Some(ix),
                context_menu_node_id: None,
                ..old(self)@
            }),
            r.view() == tree_model::node_selected(node_id@),
    {
        self.set_selected_node(node_id, ix);
        TreeAction::Emit(DbTreeViewEvent::NodeSelected { node_id: node_id.to_owned() })
    }

    /// Selects a row and opens the context menu for its node.
    pub fn set_context_menu_target(&mut self, node_id: &str, ix: usize)
        ensures
            final(self)@ == (tree_model::Tree {
                selected_node_id: Some(node_id@),
                selected_ix: Some(ix),
                context_menu_node_id: Some(node_id@),
                ..old(self)@
            }),
    {
        tree_types::apply_db_context_menu_target(
            &mut self.selected_node_id,
            &mut self.selected_ix,
            &mut self.context_menu_node_id,
            node_id,
            ix,
        );
    }

    /// The node that the context menu is open for.
    pub fn context_menu_node(&self) -> (r: Option<&DbNode>)
        ensures
            match self@.context_menu_node_id {
                Some(id) => match r {
                    Some(n) => self@.node(id) == Some(n.view()),
                    None => self@.node(id) is None,
                },
                None => r is None,
            },
    {
        match &self.context_menu_node_id {
            Some(id) => self.db_nodes.get(id.as_str()),
            None => None,
        }
    }

    /// The database that the selected node belongs to.
    pub fn get_selected_database(&self) -> (r: Option<String>)
        ensures
            text::opt_view(r) == match self@.selected_node_id {
                Some(id) => match self@.node(id) {
                    Some(n) => n.database_name,
                    None => None,
                },
                None => None,
            },
    {
        match &self.selected_node_id {
            Some(id) => match self.db_nodes.get(id.as_str()) {
                Some(n) => text::copy_opt(&n.database_name),
                None => None,
            },
            None => None,
        }
    }

    /// Names the connection or workspace that the tree shows.
    pub fn set_connection_name(&mut self, name: String)
        ensures
            final(self)@ == (tree_model::Tree { connection_name: Some(name@), ..old(self)@ }),
    {
        self.connection_name = Some(name);
    }

    // -----------------------------------------------------------------------
    // Searching
    // -----------------------------------------------------------------------

    /// The search text was edited; the number under which the edit is applied
    /// once no later one follows.
    pub fn search_edited(&mut self) -> (r: u64)
        requires
            old(self)@.search_seq < u64::MAX,
        ensures
            final(self)@ == (tree_model::Tree {
                search_seq: (old(self)@.search_seq + 1) as u64,
                ..old(self)@
            }),
            r == final(self)@.search_seq,
    {
        self.search_seq = self.search_seq + 1;
        self.search_seq
    }

    /// Applies an edit of the search text, unless a later one followed.
    pub fn apply_search(&mut self, seq: u64, query: String)
        ensures
            final(self)@ == (if old(self)@.search_seq == seq {
                (tree_model::Tree { search_query: query@, ..old(self)@ }).rebuilt()
            } else {
                old(self)@
            }),
    {
        if self.search_seq == seq {
            self.search_query = query;
            self.rebuild_flat_entries();
        }
    }

    // -----------------------------------------------------------------------
    // Changes from outside
    // -----------------------------------------------------------------------

    /// Takes over a change among the stored connections.
    pub fn handle_connection_data_event(&mut self, event: &ConnectionDataEvent) -> (r:
        ChangeOutcome)
        ensures
            final(self)@ == old(self)@.data_changed(event.view()),
            r is Refresh <==> event is SchemaChanged && old(self)@.follows(
                event->SchemaChanged_connection_id@,
            ),
            r matches ChangeOutcome::Refresh(plan) ==> {
                let target = old(self)@.refresh_target(
                    old(self)@.schema_change_target(
                        event->SchemaChanged_connection_id@,
                        event->database@,
                    ),
                );
                match old(self)@.node(target) {
                    Some(n) => plan matches Some(p) && p.node_id@ == target && p.connection_id@
                        == n.connection_id && p.reload_children == old(self)@.expanded.contains(
                        target,
                    ) && tree_model::is_scope_of(p.scope, n),
                    None => plan is None,
                }
            },
            r matches ChangeOutcome::Actions(list) ==> tree_types::actions(list@) == (match event {
                ConnectionDataEvent::ConnectionDeleted { connection_id } => if old(self)@.followed.contains(*connection_id) {
                    seq![
                        tree_types::ActionView::UnregisterConnection(
                            text::signed_decimal(*connection_id as int),
                        ),
                    ]
                } else {
                    Seq::empty()
                },
                ConnectionDataEvent::ConnectionUpdated { connection } => match connection.id {
                    Some(id) if old(self)@.followed.contains(id) && connection.config is Some
                        && old(self)@.node(connection.view().node_id()) is Some => seq![
                        tree_types::ActionView::UpdateConnection(connection.view().node_id()),
                    ],
                    _ => Seq::empty(),
                },
                ConnectionDataEvent::ConnectionCreated { connection } => if connection.workspace_id
                    == old(self)@.workspace_id && old(self)@.workspace_id is Some && old(self)@.can_add(connection.view()) {
                    seq![
                        tree_types::ActionView::RegisterConnection(connection.view().node_id()),
                    ]
                } else {
                    Seq::empty()
                },
                _ => Seq::empty(),
            }),
    {
        match event {
            ConnectionDataEvent::ConnectionDeleted { connection_id } => {
                if ids_contain(&self.tracked_connection_ids, *connection_id) {
                    let id = text::signed_number(*connection_id);
                    return ChangeOutcome::Actions(self.remove_connection(id.as_str()));
                }
            },
            ConnectionDataEvent::ConnectionUpdated { connection } => {
                if let Some(conn_id) = connection.id {
                    if ids_contain(&self.tracked_connection_ids, conn_id) {
                        return ChangeOutcome::Actions(self.update_connection_info(connection));
                    }
                }
            },
            ConnectionDataEvent::ConnectionCreated { connection } => {
                let same_workspace = match (connection.workspace_id, self.workspace_id) {
                    (Some(a), Some(b)) => a == b,
                    _ => false,
                };
                if same_workspace {
                    return ChangeOutcome::Actions(self.add_connection(connection));
                }
            },
            ConnectionDataEvent::SchemaChanged { connection_id, database, .. } => {
                let number: i64 = match text::parse_i64(connection_id.as_str()) {
                    Some(number) => number,
                    None => -1,
                };
                if ids_contain(&self.tracked_connection_ids, number) {
                    let target = match self.find_database_node(
                        connection_id.as_str(),
                        database.as_str(),
                    ) {
                        Some(id) => id,
                        None => connection_id.clone(),
                    };
                    return ChangeOutcome::Refresh(self.refresh_tree(target.as_str()));
                }
            },
            _ => {},
        }
        ChangeOutcome::Actions(tree_types::no_actions())
    }

    // -----------------------------------------------------------------------
    // What is shown
    // -----------------------------------------------------------------------

    /// Whether the node is shown with an arrow.
    pub fn node_has_children(&self, node_id: &str) -> (r: bool)
        ensures
            r == match self@.node(node_id@) {
                Some(n) => tree_model::has_arrow(n),
                None => false,
            },
    {
        if let Some(node) = self.db_nodes.get(node_id) {
            if node.children.len() > 0 {
                return true;
            }
            if !node.children_loaded {
                return matches!(
                    node.node_type,
                    DbNodeType::Table
                        | DbNodeType::TablesFolder
                        | DbNodeType::ViewsFolder
                        | DbNodeType::ColumnsFolder
                        | DbNodeType::IndexesFolder
                        | DbNodeType::FunctionsFolder
                        | DbNodeType::ProceduresFolder
                        | DbNodeType::TriggersFolder
                        | DbNodeType::SequencesFolder
                        | DbNodeType::QueriesFolder
                        | DbNodeType::ForeignKeysFolder
                        | DbNodeType::ChecksFolder
                );
            }
        }
        false
    }

    /// How many rows there are.
    pub fn row_count(&self) -> (r: usize)
        ensures
            r == self@.flat.len(),
    {
        self.flat_entries.len()
    }

    /// Whether the tree shows that a search found nothing.
    pub fn shows_nothing_found(&self) -> (r: bool)
        ensures
            r == (self@.flat.len() == 0 && self@.search_query.len() > 0),
    {
        self.flat_entries.len() == 0 && !self.search_query.as_str().is_empty()
    }

    /// The row at a position as it is shown.
    pub fn tree_row(&self, ix: usize) -> (r: Option<TreeRow>)
        ensures
            r is Some <==> ix < self@.flat.len(),
            r matches Some(row) ==> tree_model_row(self@, ix, row),
    {
        if ix >= self.flat_entries.len() {
            return None;
        }
        let entry = &self.flat_entries[ix];
        assert(self@.flat[ix as int] == (tree_model::FlatView {
            node_id: entry.node_id@,
            depth: entry.depth as nat,
        }));
        let node_id = entry.node_id.clone();
        let node = self.db_nodes.get(node_id.as_str());
        let label = match node {
            Some(n) => n.name.clone(),
            None => String::new(),
        };
        let label_is_key = match node {
            Some(n) => matches!(
                n.node_type,
                DbNodeType::TablesFolder
                    | DbNodeType::ViewsFolder
                    | DbNodeType::FunctionsFolder
                    | DbNodeType::ProceduresFolder
                    | DbNodeType::SequencesFolder
                    | DbNodeType::QueriesFolder
                    | DbNodeType::ColumnsFolder
                    | DbNodeType::IndexesFolder
                    | DbNodeType::ForeignKeysFolder
                    | DbNodeType::TriggersFolder
                    | DbNodeType::ChecksFolder
            ),
            None => false,
        };
        let is_folder = match node {
            Some(n) => matches!(
                n.node_type,
                DbNodeType::TablesFolder
                    | DbNodeType::ViewsFolder
                    | DbNodeType::FunctionsFolder
                    | DbNodeType::ProceduresFolder
                    | DbNodeType::TriggersFolder
                    | DbNodeType::QueriesFolder
                    | DbNodeType::ColumnsFolder
                    | DbNodeType::IndexesFolder
            ),
            None => false,
        };
        let counts = match node {
            Some(n) => n.node_type == DbNodeType::Connection && n.database_type
                != DatabaseType::SQLite && n.database_type != DatabaseType::DuckDB,
            None => false,
        };
        let filter_count = if counts {
            let (selected, total) = self.get_selected_database_count(node_id.as_str());
            if total > 0 {
                Some((selected, total))
            } else {
                None
            }
        } else {
            None
        };
        let error = match self.error_nodes.get(node_id.as_str()) {
            Some(e) => Some(e.clone()),
            None => None,
        };
        let is_selected = match self.selected_ix {
            Some(at) => at == ix,
            None => false,
        };
        let is_expanded = self.expanded_nodes.contains(node_id.as_str());
        let is_loading = self.loading_nodes.contains(node_id.as_str());
        let has_arrow = self.node_has_children(node_id.as_str());
        Some(
            TreeRow {
                node_id,
                depth: entry.depth,
                indent: 8 + 16 * (entry.depth as u128),
                label,
                label_is_key,
                error,
                is_selected,
                is_expanded,
                is_loading,
                has_arrow,
                is_folder,
                filter_count,
                highlight: self.search_query.clone(),
            },
        )
    }
}

/// The row at position `ix` of the tree is `row`.
pub open spec fn tree_model_row(t: tree_model::Tree, ix: usize, row: TreeRow) -> bool {
    let id = t.flat[ix as int].node_id;
    let node = t.node(id);
    &&& row.node_id@ == id
    &&& row.depth == t.flat[ix as int].depth
    &&& row.indent == 8 + 16 * row.depth
    &&& row.label@ == match node {
        Some(n) => n.name,
        None => Seq::empty(),
    }
    &&& row.label_is_key == (node matches Some(n) && tree_model::name_is_key(n.node_type))
    &&& text::opt_view(row.error) == if t.errors.contains_key(id) {
        Some(t.errors[id])
    } else {
        None
    }
    &&& row.is_selected == (t.selected_ix == Some(ix))
    &&& row.is_expanded == t.expanded.contains(id)
    &&& row.is_loading == t.loading.contains(id)
    &&& row.has_arrow == (node matches Some(n) && tree_model::has_arrow(n))
    &&& row.is_folder == (node matches Some(n) && tree_model::is_drawn_as_folder(n.node_type))
    &&& (row.filter_count is Some <==> shows_filter_count(t, id))
    &&& (row.filter_count matches Some(c) ==> c.1 == t.databases(id).len() && c.0
        == match t.selection(id) {
        None => t.databases(id).len(),
        Some(set) => tree_model::count_named(t.databases(id), set),
    })
    &&& row.highlight@ == t.search_query
}

/// The row of the node says how many of its databases are selected: it is a
/// connection with databases, to a product that has several.
pub open spec fn shows_filter_count(t: tree_model::Tree, id: Seq<char>) -> bool {
    &&& t.node(id) matches Some(n)
    &&& n.node_type == DbNodeType::Connection
    &&& n.database_type != DatabaseType::SQLite
    &&& n.database_type != DatabaseType::DuckDB
    &&& t.databases(id).len() > 0
}

/// Whether `id` is in the list.
fn ids_contain(v: &Vec<i64>, id: i64) -> (r: bool)
    ensures
        r == v@.contains(id),
{
    let mut i: usize = 0;
    while i < v.len()
        invariant
            i <= v@.len(),
            forall|j: int| 0 <= j < i ==> v@[j] != id,
        decreases v@.len() - i,
    {
        if v[i] == id {
            return true;
        }
        i = i + 1;
    }
    false
}

/// The list without `id`.
fn ids_without(v: &Vec<i64>, id: i64) -> (r: Vec<i64>)
    ensures
        r@ == tree_model::ids_without(v@, id as int),
{
    let mut out: Vec<i64> = Vec::new();
    let mut i: usize = 0;
    assert(v@.take(0) =~= Seq::empty());
    while i < v.len()
        invariant
            i <= v@.len(),
            out@ == tree_model::ids_without(v@.take(i as int), id as int),
        decreases v@.len() - i,
    {
        assert(v@.take(i as int + 1).drop_last() =~= v@.take(i as int));
        if v[i] != id {
            out.push(v[i]);
        }
        i = i + 1;
    }
    assert(v@.take(v@.len() as int) =~= v@);
    out
}

} // verus!
