//! What the database tree is, as a mathematical value, and what each operation
//! makes of it.
use vstd::prelude::*;

use crate::db_node;
use crate::node_store;
use crate::text;
use crate::tree_types;

verus! {

/// One row of the flattened tree.
pub ghost struct FlatView {
    pub node_id: Seq<char>,
    pub depth: nat,
}

/// The list that the database filter of one connection shows.
#[verifier::ext_equal]
pub ghost struct ListView {
    pub connection_id: Seq<char>,
    pub databases: Seq<(Seq<char>, Seq<char>)>,
    pub filtered: Seq<(Seq<char>, Seq<char>)>,
    pub selected_index: Option<usize>,
}

/// The state of the tree.
#[verifier::ext_equal]
pub ghost struct Tree {
    pub nodes: Seq<db_node::NodeView>,
    pub loaded: Set<Seq<char>>,
    pub loading: Set<Seq<char>>,
    pub errors: Map<Seq<char>, Seq<char>>,
    pub expanded: Set<Seq<char>>,
    pub flat: Seq<FlatView>,
    pub selected_ix: Option<usize>,
    pub selected_node_id: Option<Seq<char>>,
    pub context_menu_node_id: Option<Seq<char>>,
    pub connection_name: Option<Seq<char>>,
    pub workspace_id: Option<i64>,
    pub search_query: Seq<char>,
    pub search_seq: u64,
    /// For a connection: the selected databases; `None` stands for all.
    pub selected_databases: Map<Seq<char>, Option<Set<Seq<char>>>>,
    pub db_filter_search: Map<Seq<char>, Seq<char>>,
    pub filter_lists: Map<Seq<char>, ListView>,
    pub followed: Seq<i64>,
}

/// The stored connection that a tree node is made from. `config` is absent
/// where the stored parameters could not be read.
pub ghost struct ConnectionView {
    pub id: Option<i64>,
    pub workspace_id: Option<i64>,
    pub config: Option<ConfigView>,
    pub selected_databases: Option<Set<Seq<char>>>,
    pub sort_key: Seq<char>,
}

/// What is read from the stored parameters of a connection.
pub ghost struct ConfigView {
    pub name: Seq<char>,
    pub database_type: db_node::DatabaseType,
}

impl ConnectionView {
    /// The node id of the connection.
    pub open spec fn node_id(self) -> Seq<char> {
        text::signed_decimal(
            match self.id {
                Some(id) => id as int,
                None => 0,
            },
        )
    }

    /// The node that stands for the connection.
    pub open spec fn node(self) -> db_node::NodeView {
        db_node::new_node(
            self.node_id(),
            self.config->0.name,
            db_node::DbNodeType::Connection,
            self.node_id(),
            self.config->0.database_type,
            self.sort_key,
        )
    }
}

// ---------------------------------------------------------------------------
// Selection of databases
// ---------------------------------------------------------------------------

/// The databases (and schemas) directly below a node, as (id, name) pairs.
pub open spec fn databases_of(children: Seq<db_node::NodeView>) -> Seq<(Seq<char>, Seq<char>)>
    decreases children.len(),
{
    if children.len() == 0 {
        Seq::empty()
    } else {
        let c = children.last();
        let rest = databases_of(children.drop_last());
        if c.node_type == db_node::DbNodeType::Database || c.node_type
            == db_node::DbNodeType::Schema {
            rest.push((c.id, c.name))
        } else {
            rest
        }
    }
}

/// The names in a list of (id, name) pairs.
pub open spec fn names(v: Seq<(Seq<char>, Seq<char>)>) -> Set<Seq<char>> {
    Set::new(|n: Seq<char>| exists|i: int| 0 <= i < v.len() && (#[trigger] v[i]).1 == n)
}

/// The pairs whose names contain `query` when case is ignored.
pub open spec fn with_name_like(v: Seq<(Seq<char>, Seq<char>)>, query: Seq<char>) -> Seq<
    (Seq<char>, Seq<char>),
> {
    v.filter(|p: (Seq<char>, Seq<char>)| text::occurs(text::lowercase(p.1), query))
}

/// How many of the pairs have a name in `set`.
pub open spec fn count_named(v: Seq<(Seq<char>, Seq<char>)>, set: Set<Seq<char>>) -> nat
    decreases v.len(),
{
    if v.len() == 0 {
        0
    } else {
        count_named(v.drop_last(), set) + (if set.contains(v.last().1) {
            1nat
        } else {
            0nat
        })
    }
}

/// The first child that is a database with the given name.
pub open spec fn database_named(children: Seq<db_node::NodeView>, name: Seq<char>) -> Option<
    Seq<char>,
>
    decreases children.len(),
{
    if children.len() == 0 {
        None
    } else if children[0].node_type == db_node::DbNodeType::Database && children[0].name == name {
        Some(children[0].id)
    } else {
        database_named(children.drop_first(), name)
    }
}

/// The connection that a node belongs to: itself, or the one above it.
pub open spec fn connection_of(node: db_node::NodeView, above: Option<Seq<char>>) -> Option<
    Seq<char>,
> {
    if node.node_type == db_node::DbNodeType::Connection {
        Some(node.id)
    } else {
        above
    }
}

/// The database filter applies to the node: it is a database, or a schema
/// directly below the connection.
pub open spec fn is_filtered_kind(node: db_node::NodeView, connection_id: Seq<char>) -> bool {
    ||| node.node_type == db_node::DbNodeType::Database
    ||| node.node_type == db_node::DbNodeType::Schema && node.parent_context == Some(connection_id)
}

/// The node's name contains the query, case ignored.
pub open spec fn name_matches(node: db_node::NodeView, query: Seq<char>) -> bool {
    query.len() == 0 || text::occurs(text::lowercase(node.name), query)
}

impl Tree {
    /// The node with the given id.
    pub open spec fn node(self, id: Seq<char>) -> Option<db_node::NodeView> {
        node_store::find(self.nodes, id)
    }

    /// The databases of a connection as (id, name) pairs.
    pub open spec fn databases(self, connection_id: Seq<char>) -> Seq<(Seq<char>, Seq<char>)> {
        match self.node(connection_id) {
            Some(n) => databases_of(n.children),
            None => Seq::empty(),
        }
    }

    /// The selection of a connection; `None` stands for all databases.
    pub open spec fn selection(self, connection_id: Seq<char>) -> Option<Set<Seq<char>>> {
        if self.selected_databases.contains_key(connection_id) {
            self.selected_databases[connection_id]
        } else {
            None
        }
    }

    /// The database is selected.
    pub open spec fn is_selected(self, connection_id: Seq<char>, name: Seq<char>) -> bool {
        match self.selection(connection_id) {
            None => true,
            Some(set) => set.contains(name),
        }
    }

    /// The id of a database node of the connection.
    pub open spec fn database_node(self, connection_id: Seq<char>, name: Seq<char>) -> Option<
        Seq<char>,
    > {
        match self.node(connection_id) {
            Some(n) => database_named(n.children, name),
            None => None,
        }
    }

    // -----------------------------------------------------------------------
    // Rows
    // -----------------------------------------------------------------------

    /// The database filter hides the node.
    pub open spec fn is_hidden(self, node: db_node::NodeView, above: Option<Seq<char>>) -> bool {
        match connection_of(node, above) {
            Some(cid) => is_filtered_kind(node, cid) && !self.is_selected(cid, node.name),
            None => false,
        }
    }

    /// The node, or something loaded below it, matches the query and is not
    /// hidden. Looks `levels` levels deep.
    pub open spec fn matches_query(
        self,
        id: Seq<char>,
        query: Seq<char>,
        above: Option<Seq<char>>,
        levels: nat,
    ) -> bool
        decreases levels, 1nat,
    {
        match self.node(id) {
            Some(node) => {
                &&& levels > 0
                &&& !self.is_hidden(node, above)
                &&& (name_matches(node, query) || self.child_matches(node, query, above, levels))
            },
            None => false,
        }
    }

    /// A loaded child of the node matches the query.
    pub open spec fn child_matches(
        self,
        node: db_node::NodeView,
        query: Seq<char>,
        above: Option<Seq<char>>,
        levels: nat,
    ) -> bool
        decreases levels, 0nat,
    {
        levels > 0 && node.children_loaded && exists|i: int|
            0 <= i < node.children.len() && self.matches_query(
                (#[trigger] node.children[i]).id,
                query,
                connection_of(node, above),
                (levels - 1) as nat,
            )
    }

    /// The rows for one node and what is shown below it.
    pub open spec fn rows(
        self,
        id: Seq<char>,
        depth: nat,
        query: Seq<char>,
        above: Option<Seq<char>>,
        levels: nat,
    ) -> Seq<FlatView>
        decreases levels, 0nat,
    {
        match self.node(id) {
            Some(node) => if levels == 0 || self.is_hidden(node, above) || !(name_matches(
                node,
                query,
            ) || self.child_matches(node, query, above, levels)) {
                Seq::empty()
            } else {
                seq![FlatView { node_id: id, depth }] + if self.shows_children(
                    node,
                    id,
                    query,
                    above,
                    levels,
                ) {
                    self.rows_of(
                        node.children,
                        depth + 1,
                        query,
                        connection_of(node, above),
                        (levels - 1) as nat,
                    )
                } else {
                    Seq::empty()
                }
            },
            None => Seq::empty(),
        }
    }

    /// Whether the rows of a node's children are shown: while searching, where
    /// one of them matches; otherwise, where the node is expanded.
    pub open spec fn shows_children(
        self,
        node: db_node::NodeView,
        id: Seq<char>,
        query: Seq<char>,
        above: Option<Seq<char>>,
        levels: nat,
    ) -> bool {
        if query.len() > 0 {
            self.child_matches(node, query, above, levels)
        } else {
            self.expanded.contains(id)
        }
    }

    /// The rows for a list of nodes, one after the other.
    pub open spec fn rows_of(
        self,
        list: Seq<db_node::NodeView>,
        depth: nat,
        query: Seq<char>,
        above: Option<Seq<char>>,
        levels: nat,
    ) -> Seq<FlatView>
        decreases levels, list.len() + 1,
    {
        if list.len() == 0 {
            Seq::empty()
        } else {
            self.rows_of(list.drop_last(), depth, query, above, levels) + self.rows(
                list.last().id,
                depth,
                query,
                above,
                levels,
            )
        }
    }

    /// The rows of the whole tree. No path in a tree is longer than the number
    /// of its nodes, so that many levels reach everything.
    pub open spec fn all_rows(self) -> Seq<FlatView> {
        self.rows_of(
            node_store::roots(self.nodes),
            0,
            text::lowercase(self.search_query),
            None,
            self.nodes.len(),
        )
    }

    /// The state with its rows made anew; no row is selected then.
    pub open spec fn rebuilt(self) -> Tree {
        Tree { flat: self.all_rows(), selected_ix: None, ..self }
    }

    // -----------------------------------------------------------------------
    // Clearing
    // -----------------------------------------------------------------------

    /// The loading and error state of one node forgotten.
    pub open spec fn loading_state_cleared(self, id: Seq<char>) -> Tree {
        Tree {
            loaded: self.loaded.remove(id),
            loading: self.loading.remove(id),
            errors: self.errors.remove(id),
            ..self
        }
    }

    /// All state of one node forgotten, that it is expanded too.
    pub open spec fn state_cleared(self, id: Seq<char>) -> Tree {
        Tree { expanded: self.expanded.remove(id), ..self.loading_state_cleared(id) }
    }

    /// The node without children, as if never loaded.
    pub open spec fn children_reset(self, id: Seq<char>) -> Tree {
        match self.node(id) {
            Some(n) => Tree {
                nodes: node_store::put(
                    self.nodes,
                    db_node::NodeView { children: Seq::empty(), children_loaded: false, ..n },
                ),
                ..self
            },
            None => self,
        }
    }

    /// Everything below the node taken out, with its loading and error state.
    /// What is expanded stays so.
    pub open spec fn descendants_cleared(self, id: Seq<char>) -> Tree {
        let gone = node_store::below(self.nodes, id);
        Tree {
            nodes: node_store::without(self.nodes, gone),
            loaded: self.loaded.difference(gone),
            loading: self.loading.difference(gone),
            errors: self.errors.remove_keys(gone),
            ..self
        }
    }

    /// Nothing below the node expanded.
    pub open spec fn expansion_cleared(self, id: Seq<char>) -> Tree {
        Tree { expanded: self.expanded.difference(node_store::below(self.nodes, id)), ..self }
    }

    /// The children of node `parent` without the child `id`.
    pub open spec fn child_dropped(self, parent: Seq<char>, id: Seq<char>) -> Tree {
        match self.node(parent) {
            Some(p) => Tree {
                nodes: node_store::put(
                    self.nodes,
                    db_node::NodeView {
                        children: p.children.filter(|c: db_node::NodeView| c.id != id),
                        ..p
                    },
                ),
                ..self
            },
            None => self,
        }
    }

    /// The node taken out of its parent's children.
    pub open spec fn dropped_from_parent(self, id: Seq<char>) -> Tree {
        match self.node(id) {
            Some(n) => match n.parent_context {
                Some(parent) => self.child_dropped(parent, id),
                None => self,
            },
            None => self,
        }
    }

    /// The node taken out of the store.
    pub open spec fn node_dropped(self, id: Seq<char>) -> Tree {
        Tree { nodes: node_store::without(self.nodes, set![id]), ..self }
    }

    /// The node gone: with what lies below it, its place at its parent and all
    /// its state.
    pub open spec fn node_removed(self, id: Seq<char>) -> Tree {
        self.descendants_cleared(id).dropped_from_parent(id).node_dropped(id).state_cleared(id)
    }

    /// The node closed: nothing below it is left or expanded, and it can be
    /// loaded again.
    pub open spec fn closed(self, id: Seq<char>) -> Tree {
        self.expansion_cleared(id).descendants_cleared(id).children_reset(id).state_cleared(
            id,
        ).rebuilt()
    }

    // -----------------------------------------------------------------------
    // Adding
    // -----------------------------------------------------------------------

    /// The node put into the store and among the children of `parent`.
    pub open spec fn child_added(self, parent: Seq<char>, n: db_node::NodeView) -> Tree {
        let stored = node_store::put(self.nodes, n);
        match node_store::find(stored, parent) {
            Some(p) => Tree {
                nodes: node_store::put(
                    stored,
                    db_node::NodeView { children: db_node::sorted(p.children.push(n)), ..p },
                ),
                ..self
            },
            None => Tree { nodes: stored, ..self },
        }
    }

    /// The node loading, where it is neither loaded nor loading yet.
    pub open spec fn load_started(self, id: Seq<char>) -> Tree {
        if self.can_start_load(id) {
            Tree { loading: self.loading.insert(id), ..self }
        } else {
            self
        }
    }

    /// The node's children can be asked for.
    pub open spec fn can_start_load(self, id: Seq<char>) -> bool {
        !self.loaded.contains(id) && !self.loading.contains(id) && self.node(id) is Some
    }

    /// Loads started for each of a list of nodes, one after the other.
    pub open spec fn loads_started(self, list: Seq<Seq<char>>) -> Tree
        decreases list.len(),
    {
        if list.len() == 0 {
            self
        } else {
            self.loads_started(list.drop_last()).load_started(list.last())
        }
    }

    /// Which loads of the list are started.
    pub open spec fn loads_of(self, list: Seq<Seq<char>>) -> Seq<Seq<char>>
        decreases list.len(),
    {
        if list.len() == 0 {
            Seq::empty()
        } else if self.loads_started(list.drop_last()).can_start_load(list.last()) {
            self.loads_of(list.drop_last()).push(list.last())
        } else {
            self.loads_of(list.drop_last())
        }
    }
}

// ---------------------------------------------------------------------------
// Operations
// ---------------------------------------------------------------------------

/// The id of something named `name` inside the node `parent`.
pub open spec fn inner_id(parent: Seq<char>, name: Seq<char>) -> Seq<char> {
    parent.push(':') + name
}

/// The connection number that an id stands for.
pub open spec fn connection_number(id: Seq<char>) -> Option<int> {
    text::int_within(id, i64::MIN as int, i64::MAX as int)
}

/// The list without `number`.
pub open spec fn ids_without(v: Seq<i64>, number: int) -> Seq<i64>
    decreases v.len(),
{
    if v.len() == 0 {
        Seq::empty()
    } else if v.last() == number {
        ids_without(v.drop_last(), number)
    } else {
        ids_without(v.drop_last(), number).push(v.last())
    }
}

/// The event that selects a node.
pub open spec fn node_selected(id: Seq<char>) -> tree_types::ActionView {
    tree_types::ActionView::Emit(
        tree_types::EventView { kind: tree_types::EventKind::NodeSelected, node_id: id },
    )
}

/// Nodes of this kind fold and unfold on a double click.
pub open spec fn is_foldable(t: db_node::DbNodeType) -> bool {
    ||| t == db_node::DbNodeType::Connection
    ||| t == db_node::DbNodeType::Database
    ||| t == db_node::DbNodeType::Schema
    ||| t == db_node::DbNodeType::ColumnsFolder
    ||| t == db_node::DbNodeType::IndexesFolder
    ||| t == db_node::DbNodeType::FunctionsFolder
    ||| t == db_node::DbNodeType::ProceduresFolder
    ||| t == db_node::DbNodeType::TriggersFolder
    ||| t == db_node::DbNodeType::QueriesFolder
    ||| t == db_node::DbNodeType::TablesFolder
    ||| t == db_node::DbNodeType::ViewsFolder
}

/// The event that a double click on a node of this kind sends, if any.
pub open spec fn opening_event(t: db_node::DbNodeType) -> Option<tree_types::EventKind> {
    match t {
        db_node::DbNodeType::Table => Some(tree_types::EventKind::OpenTableData),
        db_node::DbNodeType::View => Some(tree_types::EventKind::OpenViewData),
        db_node::DbNodeType::NamedQuery => Some(tree_types::EventKind::OpenNamedQuery),
        _ => None,
    }
}

impl Tree {
    /// The request to load the node's children, where it can be made.
    pub open spec fn load_request(self, id: Seq<char>) -> Seq<tree_types::ActionView> {
        if self.can_start_load(id) {
            seq![tree_types::ActionView::LoadChildren(id)]
        } else {
            Seq::empty()
        }
    }

    /// The requests to load the children of a list of nodes.
    pub open spec fn load_requests(self, list: Seq<Seq<char>>) -> Seq<tree_types::ActionView>
        decreases list.len(),
    {
        if list.len() == 0 {
            Seq::empty()
        } else {
            self.load_requests(list.drop_last()) + self.loads_started(
                list.drop_last(),
            ).load_request(list.last())
        }
    }

    /// The request to store which databases of the connection are selected.
    pub open spec fn save_request(self, connection_id: Seq<char>) -> tree_types::ActionView {
        tree_types::ActionView::SaveFilter(connection_id, self.selection(connection_id))
    }

    /// The connection with the given selection.
    pub open spec fn with_selection(
        self,
        connection_id: Seq<char>,
        selection: Option<Set<Seq<char>>>,
    ) -> Tree {
        Tree {
            selected_databases: self.selected_databases.insert(connection_id, selection),
            ..self
        }
    }

    /// One database selected if it was not, and the other way round. A
    /// selection as large as the set of all names counts as all.
    pub open spec fn toggled(self, connection_id: Seq<char>, name: Seq<char>) -> Tree {
        let all = names(self.databases(connection_id));
        let selection = match self.selection(connection_id) {
            None => Some(all.remove(name)),
            Some(set) => {
                let changed = if set.contains(name) {
                    set.remove(name)
                } else {
                    set.insert(name)
                };
                if changed.len() == all.len() {
                    None
                } else {
                    Some(changed)
                }
            },
        };
        self.with_selection(connection_id, selection).rebuilt()
    }

    /// A database added to a selection that is not all databases.
    pub open spec fn selection_added(self, connection_id: Seq<char>, name: Seq<char>) -> Tree {
        match self.selection(connection_id) {
            Some(set) if name.len() > 0 => self.with_selection(
                connection_id,
                Some(set.insert(name)),
            ),
            _ => self,
        }
    }

    /// The request that comes with [`Tree::selection_added`].
    pub open spec fn selection_added_request(
        self,
        connection_id: Seq<char>,
        name: Seq<char>,
    ) -> Seq<tree_types::ActionView> {
        if name.len() > 0 && self.selection(connection_id) is Some {
            seq![self.selection_added(connection_id, name).save_request(connection_id)]
        } else {
            Seq::empty()
        }
    }

    /// A database node added below its connection.
    pub open spec fn database_added(
        self,
        connection_id: Seq<char>,
        name: Seq<char>,
        sort_key: Seq<char>,
    ) -> Tree {
        match self.node(connection_id) {
            Some(c) => self.child_added(
                connection_id,
                db_node::NodeView {
                    parent_context: Some(connection_id),
                    database_name: Some(name),
                    ..db_node::new_node(
                        inner_id(connection_id, name),
                        name,
                        db_node::DbNodeType::Database,
                        c.connection_id,
                        c.database_type,
                        sort_key,
                    )
                },
            ).rebuilt(),
            None => self,
        }
    }

    /// A schema node added below its database.
    pub open spec fn schema_added(
        self,
        connection_id: Seq<char>,
        database: Seq<char>,
        name: Seq<char>,
        sort_key: Seq<char>,
    ) -> Tree {
        let parent = inner_id(connection_id, database);
        match self.node(parent) {
            Some(d) => self.child_added(
                parent,
                db_node::NodeView {
                    parent_context: Some(parent),
                    schema_name: Some(name),
                    ..db_node::new_node(
                        inner_id(parent, name),
                        name,
                        db_node::DbNodeType::Schema,
                        connection_id,
                        d.database_type,
                        sort_key,
                    )
                },
            ).rebuilt(),
            None => self,
        }
    }

    /// The node `id` gone from the children of `parent` and from the store,
    /// with all below it.
    pub open spec fn inner_removed(self, parent: Seq<char>, id: Seq<char>) -> Tree {
        self.descendants_cleared(id).node_dropped(id).state_cleared(id).child_dropped(
            parent,
            id,
        ).rebuilt()
    }

    /// The connection gone.
    pub open spec fn connection_removed(self, connection_id: Seq<char>) -> Tree {
        let t = self.descendants_cleared(connection_id).node_dropped(connection_id).state_cleared(
            connection_id,
        );
        let unselected = t.selected_node_id == Some(connection_id);
        Tree {
            selected_databases: t.selected_databases.remove(connection_id),
            filter_lists: t.filter_lists.remove(connection_id),
            followed: match connection_number(connection_id) {
                Some(number) => ids_without(t.followed, number),
                None => t.followed,
            },
            selected_node_id: if unselected {
                None
            } else {
                t.selected_node_id
            },
            selected_ix: if unselected {
                None
            } else {
                t.selected_ix
            },
            ..t
        }.rebuilt()
    }

    /// The connection's name, its place among the connections and its selection
    /// taken over.
    pub open spec fn connection_updated(self, c: ConnectionView) -> Tree {
        if c.config is None {
            self
        } else {
            let t = self.with_selection(c.node_id(), c.selected_databases);
            match t.node(c.node_id()) {
                Some(n) => Tree {
                    nodes: node_store::put(
                        t.nodes,
                        db_node::NodeView { name: c.config->0.name, sort_key: c.sort_key, ..n },
                    ),
                    ..t
                }.rebuilt(),
                None => t.rebuilt(),
            }
        }
    }

    /// The connection added, unless a node with its id is there already.
    pub open spec fn connection_added(self, c: ConnectionView) -> Tree {
        if !self.can_add(c) {
            self
        } else {
            Tree {
                followed: match c.id {
                    Some(id) if !self.followed.contains(id) => self.followed.push(id),
                    _ => self.followed,
                },
                nodes: node_store::put(self.nodes, c.node()),
                ..self.with_selection(c.node_id(), c.selected_databases)
            }.rebuilt()
        }
    }

    /// The connection can be read and no node has its id.
    pub open spec fn can_add(self, c: ConnectionView) -> bool {
        c.config is Some && self.node(c.node_id()) is None
    }

    /// The node unfolded if it was folded, and the other way round; unfolding
    /// starts a load.
    pub open spec fn expansion_toggled(self, id: Seq<char>) -> Tree {
        if self.expanded.contains(id) {
            Tree { expanded: self.expanded.remove(id), ..self }.rebuilt()
        } else {
            Tree { expanded: self.expanded.insert(id), ..self }.load_started(id).rebuilt()
        }
    }

    /// The request that comes with [`Tree::expansion_toggled`].
    pub open spec fn expansion_request(self, id: Seq<char>) -> Seq<tree_types::ActionView> {
        if self.expanded.contains(id) {
            Seq::empty()
        } else {
            self.load_request(id)
        }
    }

    /// The state after a double click on the node.
    pub open spec fn double_clicked(self, id: Seq<char>) -> Tree {
        let t = Tree { context_menu_node_id: None, ..self };
        if t.errors.contains_key(id) {
            Tree { errors: t.errors.remove(id), ..t }.load_started(id)
        } else {
            match t.node(id) {
                Some(n) if is_foldable(n.node_type) => t.expansion_toggled(id),
                _ => t,
            }
        }
    }

    /// What a double click on the node asks for.
    pub open spec fn double_click_actions(self, id: Seq<char>) -> Seq<tree_types::ActionView> {
        if self.errors.contains_key(id) {
            self.load_request(id)
        } else {
            match self.node(id) {
                Some(n) => match opening_event(n.node_type) {
                    Some(kind) => seq![
                        tree_types::ActionView::Emit(tree_types::EventView { kind, node_id: id }),
                        node_selected(id),
                    ],
                    None => if is_foldable(n.node_type) {
                        self.expansion_request(id).push(node_selected(id))
                    } else {
                        seq![node_selected(id)]
                    },
                },
                None => Seq::empty(),
            }
        }
    }

    /// The children of the node taken over: stored with all that is nested in
    /// them, the rows made anew, and loads started for those that are expanded.
    pub open spec fn load_finished(self, id: Seq<char>, children: Seq<db_node::NodeView>) -> Tree {
        self.children_taken(id, children).loads_started(ids_within(children, self.expanded))
    }

    /// [`Tree::load_finished`] before the loads that it starts.
    pub open spec fn children_taken(self, id: Seq<char>, children: Seq<db_node::NodeView>) -> Tree {
        let own = match self.node(id) {
            Some(n) => node_store::put(
                self.nodes,
                db_node::NodeView { children, children_loaded: true, ..n },
            ),
            None => self.nodes,
        };
        Tree {
            nodes: subtrees_put(own, children),
            loading: self.loading.remove(id),
            loaded: self.loaded.insert(id),
            errors: self.errors.remove(id),
            ..self
        }.rebuilt()
    }

    /// What finishing a load asks for: the connection counts as in use, a
    /// selected node is selected again, and expanded children are loaded.
    pub open spec fn load_finished_actions(
        self,
        id: Seq<char>,
        connection_id: Seq<char>,
        node_type: db_node::DbNodeType,
        children: Seq<db_node::NodeView>,
    ) -> Seq<tree_types::ActionView> {
        let active = if node_type == db_node::DbNodeType::Connection && connection_number(
            connection_id,
        ) is Some {
            seq![tree_types::ActionView::MarkActive(connection_number(connection_id)->0 as i64)]
        } else {
            Seq::empty()
        };
        let again = if self.node(id) is Some && self.selected_node_id == Some(id) {
            seq![node_selected(id)]
        } else {
            Seq::empty()
        };
        active + again + self.children_taken(id, children).load_requests(
            ids_within(children, self.expanded),
        )
    }

    /// The load given up: the node folded, with the error kept for it.
    pub open spec fn load_failed(self, id: Seq<char>, error: Seq<char>) -> Tree {
        Tree {
            loading: self.loading.remove(id),
            expanded: self.expanded.remove(id),
            errors: self.errors.insert(id, error),
            ..self
        }.rebuilt()
    }

    /// The node that a refresh of `id` is about: the folder of a view or a
    /// function, else the node itself.
    pub open spec fn refresh_target(self, id: Seq<char>) -> Seq<char> {
        match self.node(id) {
            Some(n) => match n.parent_context {
                Some(parent) if n.node_type == db_node::DbNodeType::View || n.node_type
                    == db_node::DbNodeType::Function => parent,
                _ => id,
            },
            None => id,
        }
    }

    /// The node emptied, to be loaded again; what is expanded stays so.
    pub open spec fn refreshed(self, target: Seq<char>) -> Tree {
        self.descendants_cleared(target).loading_state_cleared(target).children_reset(
            target,
        ).rebuilt()
    }

    /// A database node unfolded, added first where it is missing.
    pub open spec fn database_shown(
        self,
        connection_id: Seq<char>,
        name: Seq<char>,
        sort_key: Seq<char>,
    ) -> Tree {
        if name.len() == 0 || self.node(connection_id) is None {
            self
        } else {
            let t = self.database_ensured(connection_id, name, sort_key);
            match t.database_node(connection_id, name) {
                Some(id) => Tree {
                    expanded: t.expanded.insert(connection_id).insert(id),
                    selected_node_id: Some(id),
                    ..t
                }.load_started(connection_id).load_started(id).rebuilt(),
                None => t,
            }
        }
    }

    /// The database selected and its node there.
    pub open spec fn database_ensured(
        self,
        connection_id: Seq<char>,
        name: Seq<char>,
        sort_key: Seq<char>,
    ) -> Tree {
        if self.database_node(connection_id, name) is None {
            self.selection_added(connection_id, name).database_added(connection_id, name, sort_key)
        } else {
            self.selection_added(connection_id, name)
        }
    }

    /// The id that [`Tree::database_shown`] unfolds.
    pub open spec fn database_shown_id(
        self,
        connection_id: Seq<char>,
        name: Seq<char>,
        sort_key: Seq<char>,
    ) -> Option<Seq<char>> {
        if name.len() == 0 || self.node(connection_id) is None {
            None
        } else {
            self.database_ensured(connection_id, name, sort_key).database_node(connection_id, name)
        }
    }

    /// What [`Tree::database_shown`] asks for.
    pub open spec fn database_shown_actions(
        self,
        connection_id: Seq<char>,
        name: Seq<char>,
        sort_key: Seq<char>,
    ) -> Seq<tree_types::ActionView> {
        if name.len() == 0 || self.node(connection_id) is None {
            Seq::empty()
        } else {
            let t = self.database_ensured(connection_id, name, sort_key);
            let saved = self.selection_added_request(connection_id, name);
            match t.database_node(connection_id, name) {
                Some(id) => saved + t.load_request(connection_id) + t.load_started(
                    connection_id,
                ).load_request(id),
                None => saved,
            }
        }
    }
}

impl Tree {
    /// The id that [`Tree::schema_shown`] unfolds.
    pub open spec fn schema_shown_id(
        self,
        connection_id: Seq<char>,
        database: Seq<char>,
        schema: Seq<char>,
        sort_key: Seq<char>,
    ) -> Option<Seq<char>> {
        if schema.len() == 0 || self.node(connection_id) is None {
            None
        } else if database.len() == 0 {
            Some(inner_id(connection_id, schema))
        } else {
            match self.database_shown_id(connection_id, database, sort_key) {
                Some(db_id) => Some(inner_id(db_id, schema)),
                None => None,
            }
        }
    }

    /// The state in which the nodes above the schema are there.
    pub open spec fn schema_parents_shown(
        self,
        connection_id: Seq<char>,
        database: Seq<char>,
        sort_key: Seq<char>,
    ) -> Tree {
        if database.len() == 0 {
            self
        } else {
            self.database_shown(connection_id, database, sort_key)
        }
    }

    /// A schema node unfolded, with the nodes above it.
    pub open spec fn schema_shown(
        self,
        connection_id: Seq<char>,
        database: Seq<char>,
        schema: Seq<char>,
        sort_key: Seq<char>,
    ) -> Tree {
        if schema.len() == 0 || self.node(connection_id) is None {
            self
        } else {
            let t = self.schema_parents_shown(connection_id, database, sort_key);
            match self.schema_shown_id(connection_id, database, schema, sort_key) {
                None => t,
                Some(id) => t.schema_unfolded(connection_id, database, id).loads_started(
                    t.schema_loads(connection_id, database, id),
                ).rebuilt(),
            }
        }
    }

    /// The schema node and those above it unfolded, and the schema selected.
    pub open spec fn schema_unfolded(
        self,
        connection_id: Seq<char>,
        database: Seq<char>,
        id: Seq<char>,
    ) -> Tree {
        let above = if database.len() == 0 {
            self.expanded.insert(connection_id)
        } else {
            self.expanded.insert(connection_id).insert(inner_id(connection_id, database))
        };
        Tree { expanded: above.insert(id), selected_node_id: Some(id), ..self }
    }

    /// The nodes whose loads unfolding a schema starts.
    pub open spec fn schema_loads(
        self,
        connection_id: Seq<char>,
        database: Seq<char>,
        id: Seq<char>,
    ) -> Seq<Seq<char>> {
        let above = if database.len() == 0 {
            seq![connection_id]
        } else {
            seq![connection_id, inner_id(connection_id, database)]
        };
        if self.node(id) is Some {
            above.push(id)
        } else {
            above
        }
    }

    /// What [`Tree::schema_shown`] asks for.
    pub open spec fn schema_shown_actions(
        self,
        connection_id: Seq<char>,
        database: Seq<char>,
        schema: Seq<char>,
        sort_key: Seq<char>,
    ) -> Seq<tree_types::ActionView> {
        if schema.len() == 0 || self.node(connection_id) is None {
            Seq::empty()
        } else {
            let t = self.schema_parents_shown(connection_id, database, sort_key);
            let first = if database.len() == 0 {
                Seq::empty()
            } else {
                self.database_shown_actions(connection_id, database, sort_key)
            };
            match self.schema_shown_id(connection_id, database, schema, sort_key) {
                None => first,
                Some(id) => {
                    let loads = t.schema_unfolded(connection_id, database, id).load_requests(
                        t.schema_loads(connection_id, database, id),
                    );
                    if t.node(id) is Some {
                        (first + loads).push(node_selected(id))
                    } else {
                        first + loads
                    }
                },
            }
        }
    }

    /// The state after a change among the stored connections.
    pub open spec fn data_changed(self, e: ChangeView) -> Tree {
        match e {
            ChangeView::Deleted(id) => if self.followed.contains(id) {
                self.connection_removed(text::signed_decimal(id as int))
            } else {
                self
            },
            ChangeView::Updated(c) => match c.id {
                Some(id) if self.followed.contains(id) => self.connection_updated(c),
                _ => self,
            },
            ChangeView::Created(c) => if c.workspace_id == self.workspace_id
                && self.workspace_id is Some {
                self.connection_added(c)
            } else {
                self
            },
            ChangeView::Workspace => self,
            ChangeView::Schema(connection_id, database) => if self.follows(connection_id) {
                self.refreshed(self.refresh_target(self.schema_change_target(connection_id, database)))
            } else {
                self
            },
        }
    }

    /// The connection with this id is followed; an id that is no number counts
    /// as -1.
    pub open spec fn follows(self, connection_id: Seq<char>) -> bool {
        self.followed.contains(
            match connection_number(connection_id) {
                Some(number) => number as i64,
                None => -1i64,
            },
        )
    }

    /// The node that a change of a schema refreshes: the database, or the
    /// connection where the database has no node.
    pub open spec fn schema_change_target(
        self,
        connection_id: Seq<char>,
        database: Seq<char>,
    ) -> Seq<char> {
        match self.database_node(connection_id, database) {
            Some(id) => id,
            None => connection_id,
        }
    }
}

/// The mathematical value of a change among the stored connections.
pub ghost enum ChangeView {
    Deleted(i64),
    Updated(ConnectionView),
    Created(ConnectionView),
    Workspace,
    Schema(Seq<char>, Seq<char>),
}

/// Nodes of this kind may have children that are not loaded yet.
pub open spec fn may_have_children(t: db_node::DbNodeType) -> bool {
    ||| t == db_node::DbNodeType::Table
    ||| t == db_node::DbNodeType::TablesFolder
    ||| t == db_node::DbNodeType::ViewsFolder
    ||| t == db_node::DbNodeType::ColumnsFolder
    ||| t == db_node::DbNodeType::IndexesFolder
    ||| t == db_node::DbNodeType::FunctionsFolder
    ||| t == db_node::DbNodeType::ProceduresFolder
    ||| t == db_node::DbNodeType::TriggersFolder
    ||| t == db_node::DbNodeType::SequencesFolder
    ||| t == db_node::DbNodeType::QueriesFolder
    ||| t == db_node::DbNodeType::ForeignKeysFolder
    ||| t == db_node::DbNodeType::ChecksFolder
}

/// The node is shown with an arrow: it has children, or is a folder or table
/// whose children are not loaded yet.
pub open spec fn has_arrow(n: db_node::NodeView) -> bool {
    n.children.len() > 0 || (!n.children_loaded && may_have_children(n.node_type))
}

/// The name of a node of this kind is a key for the front end to look up.
pub open spec fn name_is_key(t: db_node::DbNodeType) -> bool {
    ||| t == db_node::DbNodeType::TablesFolder
    ||| t == db_node::DbNodeType::ViewsFolder
    ||| t == db_node::DbNodeType::FunctionsFolder
    ||| t == db_node::DbNodeType::ProceduresFolder
    ||| t == db_node::DbNodeType::SequencesFolder
    ||| t == db_node::DbNodeType::QueriesFolder
    ||| t == db_node::DbNodeType::ColumnsFolder
    ||| t == db_node::DbNodeType::IndexesFolder
    ||| t == db_node::DbNodeType::ForeignKeysFolder
    ||| t == db_node::DbNodeType::TriggersFolder
    ||| t == db_node::DbNodeType::ChecksFolder
}

/// The row of a node of this kind is drawn in the colour of folders.
pub open spec fn is_drawn_as_folder(t: db_node::DbNodeType) -> bool {
    ||| t == db_node::DbNodeType::TablesFolder
    ||| t == db_node::DbNodeType::ViewsFolder
    ||| t == db_node::DbNodeType::FunctionsFolder
    ||| t == db_node::DbNodeType::ProceduresFolder
    ||| t == db_node::DbNodeType::TriggersFolder
    ||| t == db_node::DbNodeType::QueriesFolder
    ||| t == db_node::DbNodeType::ColumnsFolder
    ||| t == db_node::DbNodeType::IndexesFolder
}

// ---------------------------------------------------------------------------
// Making a tree
// ---------------------------------------------------------------------------

/// The tree without nodes.
pub open spec fn empty_tree() -> Tree {
    Tree {
        nodes: Seq::empty(),
        loaded: Set::empty(),
        loading: Set::empty(),
        errors: Map::empty(),
        expanded: Set::empty(),
        flat: Seq::empty(),
        selected_ix: None,
        selected_node_id: None,
        context_menu_node_id: None,
        connection_name: None,
        workspace_id: None,
        search_query: Seq::empty(),
        search_seq: 0,
        selected_databases: Map::empty(),
        db_filter_search: Map::empty(),
        filter_lists: Map::empty(),
        followed: Seq::empty(),
    }
}

/// The tree that has taken over a list of connections, one after the other.
/// All are followed; those that can be read get a node.
pub open spec fn connections_taken(list: Seq<ConnectionView>) -> Tree
    decreases list.len(),
{
    if list.len() == 0 {
        empty_tree()
    } else {
        let c = list.last();
        let t = connections_taken(list.drop_last());
        let t = Tree {
            workspace_id: c.workspace_id,
            followed: match c.id {
                Some(id) => t.followed.push(id),
                None => t.followed,
            },
            ..t
        };
        if c.config is Some {
            Tree {
                nodes: node_store::put(t.nodes, c.node()),
                ..t.with_selection(c.node_id(), c.selected_databases)
            }
        } else {
            t
        }
    }
}

/// The rows of a tree in which everything is folded.
pub open spec fn root_rows(nodes: Seq<db_node::NodeView>) -> Seq<FlatView> {
    let roots = node_store::roots(nodes);
    Seq::new(roots.len(), |i: int| FlatView { node_id: roots[i].id, depth: 0 })
}

/// The tree as it is made from a list of connections.
pub open spec fn initial(list: Seq<ConnectionView>, no_connection_label: Seq<char>) -> Tree {
    let t = if list.len() == 0 {
        Tree {
            nodes: node_store::put(
                Seq::empty(),
                db_node::new_node(
                    "root"@,
                    no_connection_label,
                    db_node::DbNodeType::Connection,
                    Seq::empty(),
                    db_node::DatabaseType::MySQL,
                    Seq::empty(),
                ),
            ),
            ..empty_tree()
        }
    } else {
        connections_taken(list)
    };
    Tree { flat: root_rows(t.nodes), ..t }
}

/// `scope` is what a refresh of the node makes stale.
pub open spec fn is_scope_of(
    scope: tree_types::RefreshMetadataScope,
    n: db_node::NodeView,
) -> bool {
    if n.node_type == db_node::DbNodeType::Connection {
        scope is Connection
    } else {
        match n.database_name {
            Some(db) => scope matches tree_types::RefreshMetadataScope::Database(d) && d@ == db,
            None => scope is Nothing,
        }
    }
}

/// The store with a node and everything nested in it.
pub open spec fn subtree_put(nodes: Seq<db_node::NodeView>, n: db_node::NodeView) -> Seq<
    db_node::NodeView,
>
    decreases n, 0nat,
{
    subtrees_put(node_store::put(nodes, n), n.children)
}

/// The store with the nodes of a list and everything nested in them.
pub open spec fn subtrees_put(nodes: Seq<db_node::NodeView>, list: Seq<db_node::NodeView>) -> Seq<
    db_node::NodeView,
>
    decreases list, list.len(),
{
    if list.len() == 0 {
        nodes
    } else {
        subtree_put(subtrees_put(nodes, list.drop_last()), list.last())
    }
}

/// The ids of those nodes of a list that are in `set`.
pub open spec fn ids_within(list: Seq<db_node::NodeView>, set: Set<Seq<char>>) -> Seq<Seq<char>> {
    db_node::ids(list.filter(|c: db_node::NodeView| set.contains(c.id)))
}

} // verus!
