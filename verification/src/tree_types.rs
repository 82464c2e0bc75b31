//! The events, requests and records that the database tree exchanges with the
//! program around it.
use vstd::prelude::*;

use crate::db_node;
use crate::db_node::{DatabaseType, DbNode, DbNodeType};
use crate::str_map::{StrMap, StrSet};
use crate::text;
use crate::tree_model;

verus! {

/// What a SQL dump holds.
#[derive(Debug, Clone, Copy, PartialEq, Eq, Structural)]
pub enum SqlDumpMode {
    /// The structure alone.
    StructureOnly,
    /// The data alone.
    DataOnly,
    /// Both.
    StructureAndData,
}

/// What the tree asks the program around it to do about a node.
#[derive(Debug, Clone)]
pub enum DbTreeViewEvent {
    OpenTableData { node_id: String },
    OpenViewData { node_id: String },
    DesignTable { node_id: String },
    CreateNewQuery { node_id: String },
    OpenErDiagram { node_id: String },
    OpenNamedQuery { node_id: String },
    RenameQuery { node_id: String },
    DeleteQuery { node_id: String },
    NodeSelected { node_id: String },
    ImportData { node_id: String },
    ExportData { node_id: String },
    CloseConnection { node_id: String },
    DeleteConnection { node_id: String },
    CreateDatabase { node_id: String },
    EditDatabase { node_id: String },
    CloseDatabase { node_id: String },
    DeleteDatabase { node_id: String },
    CreateSchema { node_id: String },
    DeleteSchema { node_id: String },
    DeleteTable { node_id: String },
    RenameTable { node_id: String },
    CopyTable { node_id: String },
    TruncateTable { node_id: String },
    DeleteView { node_id: String },
    RunSqlFile { node_id: String },
    DumpSqlFile { node_id: String, mode: SqlDumpMode },
}

/// The kind of a [`DbTreeViewEvent`].
#[derive(Debug, Clone, Copy, PartialEq, Eq, Structural)]
pub enum EventKind {
    OpenTableData,
    OpenViewData,
    DesignTable,
    CreateNewQuery,
    OpenErDiagram,
    OpenNamedQuery,
    RenameQuery,
    DeleteQuery,
    NodeSelected,
    ImportData,
    ExportData,
    CloseConnection,
    DeleteConnection,
    CreateDatabase,
    EditDatabase,
    CloseDatabase,
    DeleteDatabase,
    CreateSchema,
    DeleteSchema,
    DeleteTable,
    RenameTable,
    CopyTable,
    TruncateTable,
    DeleteView,
    RunSqlFile,
    DumpSqlFile(SqlDumpMode),
}

/// The mathematical value of an event: its kind and the node it is about.
pub ghost struct EventView {
    pub kind: EventKind,
    pub node_id: Seq<char>,
}

impl DbTreeViewEvent {
    /// The mathematical value of the event.
    pub open spec fn view(&self) -> EventView {
        match self {
            DbTreeViewEvent::OpenTableData { node_id } => EventView {
                kind: EventKind::OpenTableData,
                node_id: node_id@,
            },
            DbTreeViewEvent::OpenViewData { node_id } => EventView {
                kind: EventKind::OpenViewData,
                node_id: node_id@,
            },
            DbTreeViewEvent::DesignTable { node_id } => EventView {
                kind: EventKind::DesignTable,
                node_id: node_id@,
            },
            DbTreeViewEvent::CreateNewQuery { node_id } => EventView {
                kind: EventKind::CreateNewQuery,
                node_id: node_id@,
            },
            DbTreeViewEvent::OpenErDiagram { node_id } => EventView {
                kind: EventKind::OpenErDiagram,
                node_id: node_id@,
            },
            DbTreeViewEvent::OpenNamedQuery { node_id } => EventView {
                kind: EventKind::OpenNamedQuery,
                node_id: node_id@,
            },
            DbTreeViewEvent::RenameQuery { node_id } => EventView {
                kind: EventKind::RenameQuery,
                node_id: node_id@,
            },
            DbTreeViewEvent::DeleteQuery { node_id } => EventView {
                kind: EventKind::DeleteQuery,
                node_id: node_id@,
            },
            DbTreeViewEvent::NodeSelected { node_id } => EventView {
                kind: EventKind::NodeSelected,
                node_id: node_id@,
            },
            DbTreeViewEvent::ImportData { node_id } => EventView {
                kind: EventKind::ImportData,
                node_id: node_id@,
            },
            DbTreeViewEvent::ExportData { node_id } => EventView {
                kind: EventKind::ExportData,
                node_id: node_id@,
            },
            DbTreeViewEvent::CloseConnection { node_id } => EventView {
                kind: EventKind::CloseConnection,
                node_id: node_id@,
            },
            DbTreeViewEvent::DeleteConnection { node_id } => EventView {
                kind: EventKind::DeleteConnection,
                node_id: node_id@,
            },
            DbTreeViewEvent::CreateDatabase { node_id } => EventView {
                kind: EventKind::CreateDatabase,
                node_id: node_id@,
            },
            DbTreeViewEvent::EditDatabase { node_id } => EventView {
                kind: EventKind::EditDatabase,
                node_id: node_id@,
            },
            DbTreeViewEvent::CloseDatabase { node_id } => EventView {
                kind: EventKind::CloseDatabase,
                node_id: node_id@,
            },
            DbTreeViewEvent::DeleteDatabase { node_id } => EventView {
                kind: EventKind::DeleteDatabase,
                node_id: node_id@,
            },
            DbTreeViewEvent::CreateSchema { node_id } => EventView {
                kind: EventKind::CreateSchema,
                node_id: node_id@,
            },
            DbTreeViewEvent::DeleteSchema { node_id } => EventView {
                kind: EventKind::DeleteSchema,
                node_id: node_id@,
            },
            DbTreeViewEvent::DeleteTable { node_id } => EventView {
                kind: EventKind::DeleteTable,
                node_id: node_id@,
            },
            DbTreeViewEvent::RenameTable { node_id } => EventView {
                kind: EventKind::RenameTable,
                node_id: node_id@,
            },
            DbTreeViewEvent::CopyTable { node_id } => EventView {
                kind: EventKind::CopyTable,
                node_id: node_id@,
            },
            DbTreeViewEvent::TruncateTable { node_id } => EventView {
                kind: EventKind::TruncateTable,
                node_id: node_id@,
            },
            DbTreeViewEvent::DeleteView { node_id } => EventView {
                kind: EventKind::DeleteView,
                node_id: node_id@,
            },
            DbTreeViewEvent::RunSqlFile { node_id } => EventView {
                kind: EventKind::RunSqlFile,
                node_id: node_id@,
            },
            DbTreeViewEvent::DumpSqlFile { node_id, mode } => EventView {
                kind: EventKind::DumpSqlFile(*mode),
                node_id: node_id@,
            },
        }
    }

    /// The kind of the event and the node it is about.
    pub fn parts(&self) -> (r: (EventKind, String))
        ensures
            r.0 == self.view().kind,
            r.1@ == self.view().node_id,
    {
        match self {
            DbTreeViewEvent::OpenTableData { node_id } => (
                EventKind::OpenTableData,
                node_id.clone(),
            ),
            DbTreeViewEvent::OpenViewData { node_id } => (EventKind::OpenViewData, node_id.clone()),
            DbTreeViewEvent::DesignTable { node_id } => (EventKind::DesignTable, node_id.clone()),
            DbTreeViewEvent::CreateNewQuery { node_id } => (
                EventKind::CreateNewQuery,
                node_id.clone(),
            ),
            DbTreeViewEvent::OpenErDiagram { node_id } => (
                EventKind::OpenErDiagram,
                node_id.clone(),
            ),
            DbTreeViewEvent::OpenNamedQuery { node_id } => (
                EventKind::OpenNamedQuery,
                node_id.clone(),
            ),
            DbTreeViewEvent::RenameQuery { node_id } => (EventKind::RenameQuery, node_id.clone()),
            DbTreeViewEvent::DeleteQuery { node_id } => (EventKind::DeleteQuery, node_id.clone()),
            DbTreeViewEvent::NodeSelected { node_id } => (EventKind::NodeSelected, node_id.clone()),
            DbTreeViewEvent::ImportData { node_id } => (EventKind::ImportData, node_id.clone()),
            DbTreeViewEvent::ExportData { node_id } => (EventKind::ExportData, node_id.clone()),
            DbTreeViewEvent::CloseConnection { node_id } => (
                EventKind::CloseConnection,
                node_id.clone(),
            ),
            DbTreeViewEvent::DeleteConnection { node_id } => (
                EventKind::DeleteConnection,
                node_id.clone(),
            ),
            DbTreeViewEvent::CreateDatabase { node_id } => (
                EventKind::CreateDatabase,
                node_id.clone(),
            ),
            DbTreeViewEvent::EditDatabase { node_id } => (EventKind::EditDatabase, node_id.clone()),
            DbTreeViewEvent::CloseDatabase { node_id } => (
                EventKind::CloseDatabase,
                node_id.clone(),
            ),
            DbTreeViewEvent::DeleteDatabase { node_id } => (
                EventKind::DeleteDatabase,
                node_id.clone(),
            ),
            DbTreeViewEvent::CreateSchema { node_id } => (EventKind::CreateSchema, node_id.clone()),
            DbTreeViewEvent::DeleteSchema { node_id } => (EventKind::DeleteSchema, node_id.clone()),
            DbTreeViewEvent::DeleteTable { node_id } => (EventKind::DeleteTable, node_id.clone()),
            DbTreeViewEvent::RenameTable { node_id } => (EventKind::RenameTable, node_id.clone()),
            DbTreeViewEvent::CopyTable { node_id } => (EventKind::CopyTable, node_id.clone()),
            DbTreeViewEvent::TruncateTable { node_id } => (
                EventKind::TruncateTable,
                node_id.clone(),
            ),
            DbTreeViewEvent::DeleteView { node_id } => (EventKind::DeleteView, node_id.clone()),
            DbTreeViewEvent::RunSqlFile { node_id } => (EventKind::RunSqlFile, node_id.clone()),
            DbTreeViewEvent::DumpSqlFile { node_id, mode } => (
                EventKind::DumpSqlFile(*mode),
                node_id.clone(),
            ),
        }
    }
}

/// What the tree needs done outside of it.
#[derive(Debug, Clone)]
pub enum TreeAction {
    /// Hand the event to whoever listens to the tree.
    Emit(DbTreeViewEvent),
    /// Ask the driver for the children of the node and hand them back.
    LoadChildren(String),
    /// Store the selected databases of the connection; `None` stands for all.
    SaveFilter(String, Option<Vec<String>>),
    /// Make the connection known to the drivers.
    RegisterConnection(String),
    /// Hand changed parameters of the connection to the drivers.
    UpdateConnection(String),
    /// Make the drivers forget the connection.
    UnregisterConnection(String),
    /// Count the connection as in use.
    MarkActive(i64),
    /// Count the connection as no longer in use.
    MarkInactive(i64),
    /// Drop what was cached for the connection.
    ClearConnectionCache(String),
}

/// The mathematical value of a [`TreeAction`].
pub ghost enum ActionView {
    Emit(EventView),
    LoadChildren(Seq<char>),
    SaveFilter(Seq<char>, Option<Set<Seq<char>>>),
    RegisterConnection(Seq<char>),
    UpdateConnection(Seq<char>),
    UnregisterConnection(Seq<char>),
    MarkActive(i64),
    MarkInactive(i64),
    ClearConnectionCache(Seq<char>),
}

impl TreeAction {
    /// The mathematical value of the action.
    pub open spec fn view(&self) -> ActionView {
        match self {
            TreeAction::Emit(e) => ActionView::Emit(e.view()),
            TreeAction::LoadChildren(id) => ActionView::LoadChildren(id@),
            TreeAction::SaveFilter(id, list) => ActionView::SaveFilter(
                id@,
                match list {
                    Some(v) => Some(text::views(v@).to_set()),
                    None => None,
                },
            ),
            TreeAction::RegisterConnection(id) => ActionView::RegisterConnection(id@),
            TreeAction::UpdateConnection(id) => ActionView::UpdateConnection(id@),
            TreeAction::UnregisterConnection(id) => ActionView::UnregisterConnection(id@),
            TreeAction::MarkActive(id) => ActionView::MarkActive(*id),
            TreeAction::MarkInactive(id) => ActionView::MarkInactive(*id),
            TreeAction::ClearConnectionCache(id) => ActionView::ClearConnectionCache(id@),
        }
    }
}

/// The values of a list of actions.
pub open spec fn actions(v: Seq<TreeAction>) -> Seq<ActionView> {
    Seq::new(v.len(), |i: int| v[i].view())
}

/// Puts an action at the end of a list.
pub fn push_action(v: &mut Vec<TreeAction>, a: TreeAction)
    ensures
        actions(final(v)@) == actions(old(v)@).push(a.view()),
{
    let ghost before = actions(v@);
    v.push(a);
    assert(actions(v@) =~= before.push(a.view()));
}

/// Puts a list of actions at the end of a list.
pub fn push_actions(v: &mut Vec<TreeAction>, more: Vec<TreeAction>)
    ensures
        actions(final(v)@) == actions(old(v)@) + actions(more@),
{
    let mut more = more;
    let ghost a = v@;
    let ghost b = more@;
    v.append(&mut more);
    assert(actions(v@) =~= actions(a) + actions(b));
}

/// A list of no actions.
pub fn no_actions() -> (r: Vec<TreeAction>)
    ensures
        actions(r@) == Seq::<ActionView>::empty(),
{
    let r: Vec<TreeAction> = Vec::new();
    assert(actions(r@) =~= Seq::<ActionView>::empty());
    r
}

/// What cached metadata a refresh makes stale.
#[derive(Debug, PartialEq, Eq)]
pub enum RefreshMetadataScope {
    Nothing,
    Connection,
    Database(String),
}

/// Which databases of a connection are shown.
#[derive(Debug)]
pub enum DatabaseSelection {
    All,
    Only(StrSet),
}

impl View for DatabaseSelection {
    type V = Option<Set<Seq<char>>>;

    open spec fn view(&self) -> Option<Set<Seq<char>>> {
        match self {
            DatabaseSelection::All => None,
            DatabaseSelection::Only(set) => Some(set@),
        }
    }
}

/// What is read from the stored parameters of a connection.
#[derive(Debug)]
pub struct ConnectionConfig {
    pub name: String,
    pub database_type: DatabaseType,
}

/// A stored connection. `config` is absent where the stored parameters could
/// not be read.
#[derive(Debug)]
pub struct StoredConnection {
    pub id: Option<i64>,
    pub workspace_id: Option<i64>,
    pub config: Option<ConnectionConfig>,
    pub selected_databases: Option<Vec<String>>,
    pub sort_key: String,
}

impl StoredConnection {
    /// The mathematical value of the connection.
    pub open spec fn view(&self) -> tree_model::ConnectionView {
        tree_model::ConnectionView {
            id: self.id,
            workspace_id: self.workspace_id,
            config: match self.config {
                Some(c) => Some(
                    tree_model::ConfigView { name: c.name@, database_type: c.database_type },
                ),
                None => None,
            },
            selected_databases: match self.selected_databases {
                Some(v) => Some(text::views(v@).to_set()),
                None => None,
            },
            sort_key: self.sort_key@,
        }
    }

    /// The node id of the connection.
    pub fn node_id(&self) -> (r: String)
        ensures
            r@ == self.view().node_id(),
    {
        text::signed_number(
            match self.id {
                Some(id) => id,
                None => 0,
            },
        )
    }
}

/// The values of a list of connections.
pub open spec fn connection_views(v: Seq<StoredConnection>) -> Seq<tree_model::ConnectionView> {
    Seq::new(v.len(), |i: int| v[i].view())
}

/// What changed among the stored connections.
#[derive(Debug)]
#[allow(inconsistent_fields)]
pub enum ConnectionDataEvent {
    ConnectionDeleted { connection_id: i64 },
    ConnectionUpdated { connection: StoredConnection },
    ConnectionCreated { connection: StoredConnection },
    WorkspaceDeleted { workspace_id: i64 },
    WorkspaceUpdated { workspace_id: i64 },
    WorkspaceCreated { workspace_id: i64 },
    SchemaChanged { connection_id: String, database: String, schema: Option<String> },
}

impl ConnectionDataEvent {
    /// The mathematical value of the change.
    pub open spec fn view(&self) -> tree_model::ChangeView {
        match self {
            ConnectionDataEvent::ConnectionDeleted { connection_id } => {
                tree_model::ChangeView::Deleted(*connection_id)
            },
            ConnectionDataEvent::ConnectionUpdated { connection } => {
                tree_model::ChangeView::Updated(connection.view())
            },
            ConnectionDataEvent::ConnectionCreated { connection } => {
                tree_model::ChangeView::Created(connection.view())
            },
            ConnectionDataEvent::WorkspaceDeleted { workspace_id } => {
                tree_model::ChangeView::Workspace
            },
            ConnectionDataEvent::WorkspaceUpdated { workspace_id } => {
                tree_model::ChangeView::Workspace
            },
            ConnectionDataEvent::WorkspaceCreated { workspace_id } => {
                tree_model::ChangeView::Workspace
            },
            ConnectionDataEvent::SchemaChanged { connection_id, database, schema } => {
                tree_model::ChangeView::Schema(connection_id@, database@)
            },
        }
    }
}

/// What cached metadata a refresh of the node makes stale: all of the
/// connection for a connection node, else that of the node's database.
pub fn resolve_refresh_metadata_scope(node: &DbNode) -> (r: RefreshMetadataScope)
    ensures
        tree_model::is_scope_of(r, node.view()),
{
    match node.node_type {
        DbNodeType::Connection => RefreshMetadataScope::Connection,
        _ => match &node.database_name {
            Some(db) => RefreshMetadataScope::Database(db.clone()),
            None => RefreshMetadataScope::Nothing,
        },
    }
}

/// Takes over which databases of the connection are selected.
pub fn sync_selected_databases_for_connection(
    selected_databases: &mut StrMap<DatabaseSelection>,
    connection: &StoredConnection,
)
    ensures
        final(selected_databases)@ == old(selected_databases)@.insert(
            connection.view().node_id(),
            connection.view().selected_databases,
        ),
{
    let selected = match &connection.selected_databases {
        Some(v) => DatabaseSelection::Only(StrSet::from_vec(v)),
        None => DatabaseSelection::All,
    };
    selected_databases.insert(connection.node_id(), selected);
}

/// Selects a row; no context menu is open then.
pub fn apply_db_selection_state(
    selected_node_id: &mut Option<String>,
    selected_ix: &mut Option<usize>,
    context_menu_node_id: &mut Option<String>,
    node_id: &str,
    ix: usize,
)
    ensures
        text::opt_view(*final(selected_node_id)) == Some(node_id@),
        *final(selected_ix) == Some(ix),
        *final(context_menu_node_id) == None::<String>,
{
    *selected_node_id = Some(node_id.to_owned());
    *selected_ix = Some(ix);
    *context_menu_node_id = None;
}

/// Selects a row and opens the context menu for its node.
pub fn apply_db_context_menu_target(
    selected_node_id: &mut Option<String>,
    selected_ix: &mut Option<usize>,
    context_menu_node_id: &mut Option<String>,
    node_id: &str,
    ix: usize,
)
    ensures
        text::opt_view(*final(selected_node_id)) == Some(node_id@),
        *final(selected_ix) == Some(ix),
        text::opt_view(*final(context_menu_node_id)) == Some(node_id@),
{
    *selected_node_id = Some(node_id.to_owned());
    *selected_ix = Some(ix);
    *context_menu_node_id = Some(node_id.to_owned());
}

// ---------------------------------------------------------------------------
// The list behind the database filter
// ---------------------------------------------------------------------------

/// One line of the database filter.
#[derive(Debug, Clone)]
pub struct DatabaseListItem {
    pub db_id: String,
    pub db_name: String,
    pub is_selected: bool,
    pub selected: bool,
    pub connection_id: String,
}

impl DatabaseListItem {
    /// A line with the given contents.
    pub fn new(
        db_id: String,
        db_name: String,
        is_selected: bool,
        selected: bool,
        connection_id: String,
    ) -> (r: DatabaseListItem)
        ensures
            r == (DatabaseListItem { db_id, db_name, is_selected, selected, connection_id }),
    {
        DatabaseListItem { db_id, db_name, is_selected, selected, connection_id }
    }

    /// The line, highlighted or not.
    pub fn selected(self, selected: bool) -> (r: DatabaseListItem)
        ensures
            r == (DatabaseListItem { selected, ..self }),
    {
        let mut item = self;
        item.selected = selected;
        item
    }

    /// Whether the line is highlighted.
    pub fn is_selected(&self) -> (r: bool)
        ensures
            r == self.selected,
    {
        self.selected
    }
}

/// A copy of a list of (id, name) pairs.
pub fn copy_pairs(v: &Vec<(String, String)>) -> (r: Vec<(String, String)>)
    ensures
        db_node::pair_views(r@) == db_node::pair_views(v@),
{
    let ghost vs = db_node::pair_views(v@);
    let mut out: Vec<(String, String)> = Vec::new();
    let mut i: usize = 0;
    assert(db_node::pair_views(out@) =~= vs.take(0));
    while i < v.len()
        invariant
            i <= v@.len(),
            vs == db_node::pair_views(v@),
            db_node::pair_views(out@) == vs.take(i as int),
        decreases v@.len() - i,
    {
        let ghost before = out@;
        out.push((v[i].0.clone(), v[i].1.clone()));
        assert(db_node::pair_views(out@) =~= db_node::pair_views(before).push(vs[i as int]));
        assert(vs.take(i as int + 1) =~= vs.take(i as int).push(vs[i as int]));
        i = i + 1;
    }
    assert(vs.take(vs.len() as int) =~= vs);
    out
}

/// The pairs whose names contain `query` when case is ignored; `query` is in
/// lower case already.
pub fn filter_by_name(v: &Vec<(String, String)>, query: &str) -> (r: Vec<(String, String)>)
    ensures
        db_node::pair_views(r@) == tree_model::with_name_like(db_node::pair_views(v@), query@),
{
    let ghost vs = db_node::pair_views(v@);
    let ghost like = |p: (Seq<char>, Seq<char>)| text::occurs(text::lowercase(p.1), query@);
    let mut out: Vec<(String, String)> = Vec::new();
    let mut i: usize = 0;
    proof {
        reveal(Seq::filter);
    }
    assert(vs.take(0) =~= Seq::empty());
    assert(db_node::pair_views(out@) =~= Seq::empty());
    while i < v.len()
        invariant
            i <= v@.len(),
            vs == db_node::pair_views(v@),
            like == (|p: (Seq<char>, Seq<char>)| text::occurs(text::lowercase(p.1), query@)),
            db_node::pair_views(out@) == vs.take(i as int).filter(like),
        decreases v@.len() - i,
    {
        let ghost before = out@;
        assert(vs.take(i as int + 1) =~= vs.take(i as int).push(vs[i as int]));
        proof {
            vs.take(i as int).lemma_filter_push(vs[i as int], like);
        }
        let lowered = text::to_lowercase(v[i].1.as_str());
        if text::contains(lowered.as_str(), query) {
            out.push((v[i].0.clone(), v[i].1.clone()));
            assert(db_node::pair_views(out@) =~= db_node::pair_views(before).push(vs[i as int]));
        }
        i = i + 1;
    }
    assert(vs.take(vs.len() as int) =~= vs);
    out
}

/// The list behind the database filter of one connection.
#[derive(Debug)]
pub struct DatabaseListDelegate {
    pub connection_id: String,
    pub databases: Vec<(String, String)>,
    pub filtered_databases: Vec<(String, String)>,
    pub selected_index: Option<usize>,
}

impl View for DatabaseListDelegate {
    type V = tree_model::ListView;

    open spec fn view(&self) -> tree_model::ListView {
        tree_model::ListView {
            connection_id: self.connection_id@,
            databases: db_node::pair_views(self.databases@),
            filtered: db_node::pair_views(self.filtered_databases@),
            selected_index: self.selected_index,
        }
    }
}

impl DatabaseListDelegate {
    /// A list that shows all databases.
    pub fn new(connection_id: String, databases: Vec<(String, String)>) -> (r: DatabaseListDelegate)
        ensures
            r@ == (tree_model::ListView {
                connection_id: connection_id@,
                databases: db_node::pair_views(databases@),
                filtered: db_node::pair_views(databases@),
                selected_index: None,
            }),
    {
        let filtered_databases = copy_pairs(&databases);
        DatabaseListDelegate { connection_id, databases, filtered_databases, selected_index: None }
    }

    /// Shows the databases whose names contain `query`, case ignored; all of
    /// them for an empty query.
    pub fn perform_search(&mut self, query: &str)
        ensures
            final(self)@ == (tree_model::ListView {
                filtered: if query@.len() == 0 {
                    old(self)@.databases
                } else {
                    tree_model::with_name_like(old(self)@.databases, text::lowercase(query@))
                },
                ..old(self)@
            }),
    {
        if query.is_empty() {
            self.filtered_databases = copy_pairs(&self.databases);
        } else {
            let query_lower = text::to_lowercase(query);
            self.filtered_databases = filter_by_name(&self.databases, query_lower.as_str());
        }
    }

    /// How many databases are shown.
    pub fn items_count(&self) -> (r: usize)
        ensures
            r == self@.filtered.len(),
    {
        self.filtered_databases.len()
    }

    /// Highlights a line.
    pub fn set_selected_index(&mut self, ix: Option<usize>)
        ensures
            final(self)@ == (tree_model::ListView { selected_index: ix, ..old(self)@ }),
    {
        self.selected_index = ix;
    }
}

} // verus!
