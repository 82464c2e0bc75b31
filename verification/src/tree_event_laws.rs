//! What holds of the events of the database tree: what they ask for, and how
//! the tree and the list of objects follow.
use vstd::prelude::*;

use crate::db_node;
use crate::db_node::{DatabaseType, DbNodeType, NodeView};
use crate::dump_target;
use crate::text;
use crate::text_laws;
use crate::tree;
use crate::tree_events;
use crate::tree_events::{
    BatchStep, BatchView, DatabaseObjectsBatchAction, DatabaseObjectsEvent, EventOrigin, NodeTask,
    ObjectsRequest, ResultView, SqlResult, TreeUpdate, UpdateView,
};
use crate::tree_menu;
use crate::tree_menu::{ContextMenuEvent, ContextMenuItem, EntryView, NodeIcon};
use crate::tree_model;
use crate::tree_model::{ChangeView, Tree};
use crate::tree_types::{
    ActionView, ConnectionDataEvent, DbTreeViewEvent, EventKind, EventView, StoredConnection,
    TreeAction,
};

verus! {

// ---------------------------------------------------------------------------
// Tasks
// ---------------------------------------------------------------------------

/// The text, or the empty one.
pub open spec fn text_or_none(s: Option<Seq<char>>) -> Seq<char> {
    if s is Some {
        s->0
    } else {
        Seq::empty()
    }
}

/// A task that opens something is that of the event that opens it, and is about
/// the node: its connection, its database, its schema and its name.
pub proof fn law_opening_task(kind: EventKind, n: NodeView, unique: Seq<char>, task: NodeTask)
    requires
        tree_events::is_task(kind, n, unique, task),
    ensures
        match task {
            NodeTask::ShowObjects { connection_id } => kind == EventKind::NodeSelected
                && connection_id@ == n.connection_id,
            NodeTask::QueryTab { tab_id, title, connection_id, database, schema } => {
                &&& kind == EventKind::CreateNewQuery
                &&& connection_id@ == n.connection_id
                &&& text::opt_view(database) == n.database_name
                &&& text::opt_view(schema) == n.schema_name
                &&& n.database_name matches Some(d) ==> tab_id@ == "query-"@ + d + "-"@ + unique
                    && title@ == d + " - Query"@
                &&& n.database_name is None ==> tab_id@ == "query-"@ + "new"@ + "-"@ + unique
                    && title@ == "New Query"@ + " - Query"@
            },
            NodeTask::DiagramTab { connection_id, database, schema } => {
                &&& kind == EventKind::OpenErDiagram
                &&& connection_id@ == n.connection_id
                &&& n.database_name == Some(database@)
                &&& text::opt_view(schema) == n.schema_name
            },
            NodeTask::DataTab { tab_id, connection_id, database, schema, name, editable } => {
                &&& kind == EventKind::OpenTableData || kind == EventKind::OpenViewData
                &&& editable <==> kind == EventKind::OpenTableData
                &&& connection_id@ == n.connection_id
                &&& n.database_name == Some(database@)
                &&& text::opt_view(schema) == n.schema_name
                &&& name@ == n.name
                &&& tab_id@ == (if kind == EventKind::OpenTableData {
                    "table-data-"@
                } else {
                    "view-data-"@
                }) + database@ + "."@ + text_or_none(n.schema_name) + "."@ + n.name
            },
            NodeTask::DesignerTab { tab_id, connection_id, database, schema, table } => {
                &&& kind == EventKind::DesignTable
                &&& connection_id@ == n.connection_id
                &&& database@ == text_or_none(n.database_name)
                &&& text::opt_view(schema) == n.schema_name
                &&& table is Some <==> n.node_type == DbNodeType::Table
                &&& table matches Some(t) ==> t@ == n.name && tab_id@ == "table-designer-"@
                    + text_or_none(n.database_name) + ("-"@ + n.name)
                &&& table is None ==> tab_id@ == "table-designer-"@ + text_or_none(n.database_name)
                    + ("-new-"@ + unique)
            },
            NodeTask::StoredQueryTab { tab_id, path, name, connection_id, database, schema } => {
                &&& kind == EventKind::OpenNamedQuery
                &&& db_node::lookup(n.metadata, "file_path"@) == Some(path@)
                &&& tab_id@ == "query-"@ + n.name
                &&& name@ == n.name
                &&& connection_id@ == n.connection_id
                &&& text::opt_view(database) == n.database_name
                &&& text::opt_view(schema) == n.schema_name
            },
            NodeTask::ImportWindow { connection_id, database, schema, table } => {
                &&& kind == EventKind::ImportData
                &&& connection_id@ == n.connection_id
                &&& database@ == text_or_none(n.database_name)
                &&& text::opt_view(schema) == n.schema_name
                &&& table@ == n.name
            },
            NodeTask::ExportWindow { connection_id, database, schema, table } => {
                &&& kind == EventKind::ExportData
                &&& connection_id@ == n.connection_id
                &&& database@ == text_or_none(n.database_name)
                &&& text::opt_view(schema) == n.schema_name
                &&& table@ == n.name
            },
            NodeTask::RunFileWindow { connection_id, database, schema } => {
                &&& kind == EventKind::RunSqlFile
                &&& connection_id@ == n.connection_id
                &&& database is Some <==> n.node_type == DbNodeType::Database
                &&& schema is Some <==> n.node_type == DbNodeType::Schema
                &&& database matches Some(d) ==> d@ == n.name
                &&& schema matches Some(s) ==> s@ == n.name
            },
            NodeTask::DumpWindow { connection_id, database, schema, table, mode } => {
                &&& kind == EventKind::DumpSqlFile(mode)
                &&& connection_id@ == n.connection_id
                &&& dump_target::target_of(n) == Some(
                    dump_target::TargetView {
                        database: database@,
                        schema: text::opt_view(schema),
                        table: text::opt_view(table),
                    },
                )
            },
            _ => true,
        },
{
}

/// A task that changes something is that of the event that changes it, and is
/// about the node and about nothing else.
pub proof fn law_changing_task(kind: EventKind, n: NodeView, unique: Seq<char>, task: NodeTask)
    requires
        tree_events::is_task(kind, n, unique, task),
    ensures
        match task {
            NodeTask::CloseConnection { connection_id, name } => kind == EventKind::CloseConnection
                && connection_id@ == n.connection_id && name@ == n.name,
            NodeTask::DeleteConnection { connection_id, name, number } => {
                &&& kind == EventKind::DeleteConnection
                &&& connection_id@ == n.connection_id
                &&& name@ == n.name
                &&& forall|v: i64|
                    n.connection_id == #[trigger] text::signed_decimal(v as int) ==> number == Some(
                        v,
                    )
            },
            NodeTask::CreateDatabase { connection_id } => kind == EventKind::CreateDatabase
                && connection_id@ == n.connection_id,
            NodeTask::EditDatabase { connection_id, database } => kind == EventKind::EditDatabase
                && connection_id@ == n.connection_id && database@ == n.name,
            NodeTask::CloseDatabase { node_id, database } => kind == EventKind::CloseDatabase
                && node_id@ == n.connection_id.push(':') + n.name && database@ == n.name,
            NodeTask::DropDatabase { connection_id, database } => kind == EventKind::DeleteDatabase
                && connection_id@ == n.connection_id && database@ == n.name,
            NodeTask::CreateSchema { connection_id, database } => kind == EventKind::CreateSchema
                && connection_id@ == n.connection_id && database@ == n.name,
            NodeTask::DropSchema { connection_id, database, schema, plain_sql } => kind
                == EventKind::DeleteSchema && connection_id@ == n.connection_id && database@
                == text_or_none(db_node::lookup(n.metadata, "database"@)) && schema@ == n.name
                && plain_sql@ == tree_events::drop_schema_text(n.name),
            NodeTask::DropTable { connection_id, database, schema, table } => {
                &&& kind == EventKind::DeleteTable
                &&& connection_id@ == n.connection_id
                &&& text::opt_view(table) == n.table_name
                &&& n.database_name matches Some(d) ==> database@ == d && text::opt_view(schema)
                    == n.schema_name
                &&& n.database_name is None && n.schema_name is Some ==> database@
                    == n.schema_name->0 && schema is None
                &&& n.database_name is None && n.schema_name is None ==> database@.len() == 0
                    && schema is None
            },
            NodeTask::RenameTable { connection_id, database, table } => kind
                == EventKind::RenameTable && connection_id@ == n.connection_id && database@
                == text_or_none(db_node::lookup(n.metadata, "database"@)) && table@ == n.name,
            NodeTask::CopyTable { connection_id, database, schema, table } => kind
                == EventKind::CopyTable && connection_id@ == n.connection_id && database@
                == text_or_none(n.database_name) && text::opt_view(schema) == n.schema_name && table@
                == n.name,
            NodeTask::TruncateTable { connection_id, database, table } => kind
                == EventKind::TruncateTable && connection_id@ == n.connection_id && database@
                == text_or_none(db_node::lookup(n.metadata, "database"@)) && table@ == n.name,
            NodeTask::DropView { connection_id, database, view } => kind == EventKind::DeleteView
                && connection_id@ == n.connection_id && database@ == text_or_none(
                db_node::lookup(n.metadata, "database"@),
            ) && view@ == n.name,
            NodeTask::RenameQuery { path, name } => kind == EventKind::RenameQuery
                && db_node::lookup(n.metadata, "file_path"@) == Some(path@) && name@ == n.name,
            NodeTask::DeleteQuery { path, name } => kind == EventKind::DeleteQuery
                && db_node::lookup(n.metadata, "file_path"@) == Some(path@) && name@ == n.name,
            _ => true,
        },
{
    if let NodeTask::DeleteConnection { connection_id, name, number } = task {
        assert forall|v: i64|
            n.connection_id == #[trigger] text::signed_decimal(v as int) implies number == Some(
            v,
        ) by {
            text::law_number_reads_back(v as int);
        }
    }
}

/// Nothing is done just where there is nothing to do: for a stored query without
/// a file, and for a design of something that is neither a table nor holds
/// tables. An event makes no sense just where it needs a database and the node
/// is in none.
pub proof fn law_no_task(kind: EventKind, n: NodeView, unique: Seq<char>, task: NodeTask)
    requires
        tree_events::is_task(kind, n, unique, task),
    ensures
        task is Nothing <==> {
            ||| (kind == EventKind::OpenNamedQuery || kind == EventKind::RenameQuery || kind
                == EventKind::DeleteQuery) && db_node::lookup(n.metadata, "file_path"@) is None
            ||| kind == EventKind::DesignTable && n.node_type != DbNodeType::Schema && n.node_type
                != DbNodeType::TablesFolder && n.node_type != DbNodeType::Table && n.node_type
                != DbNodeType::Database
        },
        task is ErrorInfo <==> {
            ||| (kind == EventKind::OpenErDiagram || kind == EventKind::OpenTableData || kind
                == EventKind::OpenViewData) && n.database_name is None
            ||| kind is DumpSqlFile && dump_target::target_of(n) is None
        },
{
}

/// The statement that drops a schema names it in double quotes, with the double
/// quotes in it doubled.
pub proof fn law_drop_schema(a: Seq<char>, b: Seq<char>)
    requires
        !a.contains('"'),
        !b.contains('"'),
    ensures
        tree_events::drop_schema_text(a) == "DROP SCHEMA \""@ + a + "\""@,
        tree_events::drop_schema_text(a.push('"') + b) == "DROP SCHEMA \""@ + (a + "\"\""@ + b)
            + "\""@,
{
    text_laws::law_replaced(b, a, '"', "\"\""@);
    text_laws::law_replaced(a, seq!['"'] + b, '"', "\"\""@);
    text_laws::law_replaced(seq!['"'], b, '"', "\"\""@);
    assert(a.push('"') + b =~= a + (seq!['"'] + b));
    assert(a + ("\"\""@ + b) =~= a + "\"\""@ + b);
}

// ---------------------------------------------------------------------------
// Results
// ---------------------------------------------------------------------------

/// The errors of a script are those of its statements, in their order.
pub proof fn law_script_errors(v: Seq<SqlResult>, r: SqlResult)
    ensures
        tree_events::error_messages(Seq::empty()) == Seq::<Seq<char>>::empty(),
        r matches SqlResult::Error(message) ==> tree_events::error_messages(v.push(r))
            == tree_events::error_messages(v).push(message@),
        !(r is Error) ==> tree_events::error_messages(v.push(r)) == tree_events::error_messages(v),
{
    assert(v.push(r).drop_last() =~= v);
}

/// A new name is taken without the white space around it, unless it is blank or
/// the old name.
pub proof fn law_new_name(a: Seq<char>, name: Seq<char>, b: Seq<char>, old_name: Seq<char>)
    requires
        text_laws::is_blank(a),
        text_laws::is_blank(b),
        name.len() > 0,
        !text::is_space(name[0]),
        !text::is_space(name.last()),
    ensures
        name != old_name ==> tree_events::accepted_name(a + name + b, old_name) == Some(name),
        tree_events::accepted_name(a + name + b, name) is None,
        tree_events::accepted_name(a, old_name) is None,
{
    text_laws::law_trimmed(a, name, b);
    text_laws::law_trimmed_is_part(a);
}

/// What stands in a database has an id below that of the schema where one is
/// named, and below that of the database otherwise.
pub proof fn law_place_id(connection_id: Seq<char>, database: Seq<char>, schema: Seq<char>)
    ensures
        tree_events::place_id(connection_id, database, None) == connection_id.push(':') + database,
        tree_events::place_id(connection_id, database, Some(schema)) == (connection_id.push(':')
            + database).push(':') + schema,
{
}

// ---------------------------------------------------------------------------
// How the tree follows
// ---------------------------------------------------------------------------

/// What is closed or dropped is closed or taken out in the tree, and what is
/// renamed, copied or changed is shown again where it stands.
pub proof fn law_tree_follows(n: NodeView, database: Seq<char>)
    requires
        database == text_or_none(db_node::lookup(n.metadata, "database"@)),
    ensures
        ({
            let after = |kind: EventKind| tree_events::update_after(kind, n);
            &&& after(EventKind::CloseConnection) == Some(
                UpdateView::CloseConnection(n.connection_id),
            )
            &&& after(EventKind::DeleteConnection) == Some(UpdateView::Refresh(n.connection_id))
            &&& after(EventKind::EditDatabase) == Some(UpdateView::Refresh(n.connection_id))
            &&& after(EventKind::CloseDatabase) == Some(
                UpdateView::CloseDatabase(n.connection_id.push(':') + n.name),
            )
            &&& after(EventKind::DeleteDatabase) == Some(
                UpdateView::RemoveDatabase(n.connection_id, n.name),
            )
            &&& after(EventKind::CreateSchema) == Some(
                UpdateView::Refresh(n.connection_id.push(':') + n.name),
            )
            &&& after(EventKind::DeleteSchema) == Some(
                UpdateView::RemoveSchema(n.connection_id, database, n.name),
            )
            &&& after(EventKind::DeleteTable) == Some(UpdateView::RemoveTable(n.id))
            &&& after(EventKind::DeleteView) == Some(UpdateView::RemoveView(n.id))
            &&& after(EventKind::RenameTable) == Some(
                UpdateView::Refresh(n.connection_id.push(':') + database),
            )
            &&& after(EventKind::CopyTable) == Some(
                UpdateView::Refresh(
                    tree_events::place_id(
                        n.connection_id,
                        text_or_none(n.database_name),
                        n.schema_name,
                    ),
                ),
            )
            &&& n.parent_context matches Some(p) ==> after(EventKind::RenameQuery) == Some(
                UpdateView::Refresh(p),
            ) && after(EventKind::DeleteQuery) == Some(UpdateView::Refresh(p))
            &&& n.parent_context is None ==> after(EventKind::RenameQuery) is None && after(
                EventKind::DeleteQuery,
            ) is None
        }),
{
}

/// After all other events the tree stays as it is.
pub proof fn law_tree_stays(kind: EventKind, n: NodeView)
    ensures
        match kind {
            EventKind::OpenTableData
            | EventKind::OpenViewData
            | EventKind::DesignTable
            | EventKind::CreateNewQuery
            | EventKind::OpenErDiagram
            | EventKind::OpenNamedQuery
            | EventKind::NodeSelected
            | EventKind::ImportData
            | EventKind::ExportData
            | EventKind::CreateDatabase
            | EventKind::TruncateTable
            | EventKind::RunSqlFile
            | EventKind::DumpSqlFile(_) => tree_events::update_after(kind, n) is None,
            _ => true,
        },
{
}

/// Each way to follow does in the tree what its name says, to the node that it
/// names.
pub proof fn law_update_is_made(
    t: Tree,
    id: Seq<char>,
    c: Seq<char>,
    d: Seq<char>,
    s: Seq<char>,
)
    ensures
        tree_events::updated(t, UpdateView::Refresh(id)) == t.refreshed(t.refresh_target(id)),
        tree_events::updated(t, UpdateView::CloseConnection(id)) == t.closed(id),
        tree_events::updated(t, UpdateView::CloseDatabase(id)) == t.closed(id),
        tree_events::updated(t, UpdateView::RemoveTable(id)) == t.node_removed(id).rebuilt(),
        tree_events::updated(t, UpdateView::RemoveView(id)) == t.node_removed(id).rebuilt(),
        tree_events::updated(t, UpdateView::RemoveDatabase(c, d)) == t.inner_removed(
            c,
            c.push(':') + d,
        ),
        tree_events::updated(t, UpdateView::RemoveSchema(c, d, s)) == t.inner_removed(
            c.push(':') + d,
            (c.push(':') + d).push(':') + s,
        ),
        tree_events::updated(t, UpdateView::AddDatabase(c, d, s)) == t.selection_added(
            c,
            d,
        ).database_added(c, d, s),
{
}

/// An update names the node that it was made with.
pub proof fn law_update_view(u: TreeUpdate)
    ensures
        match u {
            TreeUpdate::Refresh(id) => u.view() == UpdateView::Refresh(id@),
            TreeUpdate::CloseConnection(id) => u.view() == UpdateView::CloseConnection(id@),
            TreeUpdate::CloseDatabase(id) => u.view() == UpdateView::CloseDatabase(id@),
            TreeUpdate::RemoveTable(id) => u.view() == UpdateView::RemoveTable(id@),
            TreeUpdate::RemoveView(id) => u.view() == UpdateView::RemoveView(id@),
            TreeUpdate::AddDatabase { connection_id, database, sort_key } => u.view()
                == UpdateView::AddDatabase(connection_id@, database@, sort_key@),
            TreeUpdate::RemoveDatabase { connection_id, database } => u.view()
                == UpdateView::RemoveDatabase(connection_id@, database@),
            TreeUpdate::RemoveSchema { connection_id, database, schema } => u.view()
                == UpdateView::RemoveSchema(connection_id@, database@, schema@),
        },
{
}

// ---------------------------------------------------------------------------
// Batches
// ---------------------------------------------------------------------------

/// Each step of a batch drops the node itself, where it stands, by what the
/// batch deletes.
pub proof fn law_batch_step(action: DatabaseObjectsBatchAction, n: NodeView, step: BatchStep)
    requires
        tree_events::is_step(action, n, step),
    ensures
        match step {
            BatchStep::DeleteConnection { number } => action
                == DatabaseObjectsBatchAction::DeleteConnection && forall|v: i64|
                n.connection_id == #[trigger] text::signed_decimal(v as int) ==> number == Some(v),
            BatchStep::DropDatabase { connection_id, database } => action
                == DatabaseObjectsBatchAction::DeleteDatabase && connection_id@ == n.connection_id
                && database@ == n.name,
            BatchStep::DropSchema { connection_id, database, schema, plain_sql } => action
                == DatabaseObjectsBatchAction::DeleteSchema && connection_id@ == n.connection_id
                && database@ == text_or_none(db_node::lookup(n.metadata, "database"@)) && schema@
                == n.name && plain_sql@ == tree_events::drop_schema_text(n.name),
            BatchStep::DropTable { connection_id, database, schema, table } => {
                &&& action == DatabaseObjectsBatchAction::DeleteTable
                &&& connection_id@ == n.connection_id
                &&& n.table_name matches Some(t) ==> table@ == t
                &&& n.table_name is None ==> table@ == n.name
                &&& n.database_name matches Some(d) ==> database@ == d && text::opt_view(schema)
                    == n.schema_name
                &&& n.database_name is None && n.schema_name is Some ==> database@
                    == n.schema_name->0 && schema is None
                &&& n.database_name is None && n.schema_name is None ==> database@.len() == 0
                    && schema is None
            },
            BatchStep::DropView { connection_id, database, view } => action
                == DatabaseObjectsBatchAction::DeleteView && connection_id@ == n.connection_id
                && database@ == text_or_none(db_node::lookup(n.metadata, "database"@)) && view@
                == n.name,
            BatchStep::DeleteFile { path } => action == DatabaseObjectsBatchAction::DeleteQuery
                && db_node::lookup(n.metadata, "file_path"@) == Some(path@),
            BatchStep::Skip => action == DatabaseObjectsBatchAction::DeleteQuery && db_node::lookup(
                n.metadata,
                "file_path"@,
            ) is None,
        },
{
    if let BatchStep::DeleteConnection { number } = step {
        assert forall|v: i64|
            n.connection_id == #[trigger] text::signed_decimal(v as int) implies number == Some(
            v,
        ) by {
            text::law_number_reads_back(v as int);
        }
    }
}

/// The tree follows a deletion in a batch as it follows the same deletion
/// alone; stored queries are shown again at the end.
pub proof fn law_batch_follows(n: NodeView)
    ensures
        tree_events::batch_update(DatabaseObjectsBatchAction::DeleteConnection, n)
            == tree_events::update_after(EventKind::DeleteConnection, n),
        tree_events::batch_update(DatabaseObjectsBatchAction::DeleteDatabase, n)
            == tree_events::update_after(EventKind::DeleteDatabase, n),
        tree_events::batch_update(DatabaseObjectsBatchAction::DeleteSchema, n)
            == tree_events::update_after(EventKind::DeleteSchema, n),
        tree_events::batch_update(DatabaseObjectsBatchAction::DeleteTable, n)
            == tree_events::update_after(EventKind::DeleteTable, n),
        tree_events::batch_update(DatabaseObjectsBatchAction::DeleteView, n)
            == tree_events::update_after(EventKind::DeleteView, n),
        tree_events::batch_update(DatabaseObjectsBatchAction::DeleteQuery, n) is None,
{
}

/// After each step of a batch it goes on to the next node. What was done counts
/// and the tree follows it; what failed is told with the name of its node,
/// unless the words name it already.
pub proof fn law_batch_goes_on(
    action: DatabaseObjectsBatchAction,
    nodes: Seq<NodeView>,
    results: Seq<ResultView>,
    last: ResultView,
)
    requires
        results.len() < nodes.len(),
    ensures
        ({
            let b = tree_events::batch_course(action, nodes, results);
            let c = tree_events::batch_course(action, nodes, results.push(last));
            let n = nodes[results.len() as int];
            let name = if action == DatabaseObjectsBatchAction::DeleteTable && n.table_name
                is Some {
                n.table_name->0
            } else {
                n.name
            };
            &&& c.removed == b.removed + (if last is Done {
                1int
            } else {
                0int
            })
            &&& match last {
                ResultView::Done => c.errors == b.errors,
                ResultView::Ignored => c.errors == b.errors,
                ResultView::Failed(e) => c.errors == b.errors.push(name + ": "@ + e),
                ResultView::FailedInWords(e) => c.errors == b.errors.push(e),
            }
            &&& last is Done && tree_events::batch_update(action, n) is Some ==> c.updates
                == b.updates.push(tree_events::batch_update(action, n)->0)
            &&& !(last is Done) ==> c.updates == b.updates
        }),
        tree_events::batch_course(action, nodes, Seq::empty()) == (BatchView {
            action,
            nodes,
            next: 0,
            removed: 0,
            errors: Seq::empty(),
            updates: Seq::empty(),
        }),
{
    tree_events::law_batch_accounts(action, nodes, results);
    assert(results.push(last).drop_last() =~= results);
}

/// A batch without errors reports how many nodes are gone; of stored queries,
/// how many were asked for.
pub proof fn law_batch_count(b: BatchView)
    ensures
        b.action == DatabaseObjectsBatchAction::DeleteQuery ==> tree_events::batch_count(b)
            == b.nodes.len(),
        b.action != DatabaseObjectsBatchAction::DeleteQuery ==> tree_events::batch_count(b)
            == b.removed,
{
}

/// After stored queries were deleted, what held them is shown again, each once.
pub proof fn law_parents_refreshed(nodes: Seq<NodeView>, updates: Seq<UpdateView>, i: int, j: int)
    requires
        tree_events::refreshes_parents(nodes, updates),
    ensures
        0 <= i < nodes.len() && nodes[i].parent_context is Some ==> updates.contains(
            UpdateView::Refresh(nodes[i].parent_context->0),
        ),
        0 <= i < j < updates.len() ==> updates[i] != updates[j],
        0 <= i < updates.len() ==> exists|k: int|
            0 <= k < nodes.len() && (#[trigger] nodes[k]).parent_context is Some && updates[i]
                == UpdateView::Refresh(nodes[k].parent_context->0),
{
    if 0 <= i < nodes.len() && nodes[i].parent_context is Some {
        let u = UpdateView::Refresh(nodes[i].parent_context->0);
        assert(nodes[i].parent_context is Some && u == UpdateView::Refresh(
            nodes[i].parent_context->0,
        ));
    }
    if 0 <= i < updates.len() {
        assert(updates.contains(updates[i]));
    }
}

// ---------------------------------------------------------------------------
// The list of objects
// ---------------------------------------------------------------------------

/// The list of objects is shown again after a table was copied or designed,
/// wherever that was asked for, and after a change of connections, databases,
/// schemas, tables, views and queries that was asked for in the list.
pub proof fn law_objects_follow(kind: EventKind)
    ensures
        tree_events::objects_follow(kind, EventOrigin::Tree) <==> kind == EventKind::CopyTable
            || kind == EventKind::DesignTable,
        tree_events::objects_follow(kind, EventOrigin::Objects) == (match kind {
            EventKind::CopyTable | EventKind::DesignTable => true,
            EventKind::DeleteConnection | EventKind::CloseConnection => true,
            EventKind::CreateDatabase | EventKind::EditDatabase | EventKind::DeleteDatabase => true,
            EventKind::CreateSchema | EventKind::DeleteSchema => true,
            EventKind::DeleteTable | EventKind::DeleteView | EventKind::DeleteQuery => true,
            _ => false,
        }),
{
}

/// An event of the list of objects is handled as the event of the tree with its
/// name; showing the list again selects the node, and a database is added to the
/// tree in a way of its own.
pub proof fn law_objects_event(e: DatabaseObjectsEvent)
    ensures
        tree_events::objects_request_of(e) == (match e {
            DatabaseObjectsEvent::Batch(action) => ObjectsRequest::Batch(action),
            DatabaseObjectsEvent::AddDatabaseToTree => ObjectsRequest::AddToTree,
            DatabaseObjectsEvent::Refresh => ObjectsRequest::Task(EventKind::NodeSelected),
            DatabaseObjectsEvent::CreateDatabase => ObjectsRequest::Task(EventKind::CreateDatabase),
            DatabaseObjectsEvent::EditDatabase => ObjectsRequest::Task(EventKind::EditDatabase),
            DatabaseObjectsEvent::DeleteDatabase => ObjectsRequest::Task(EventKind::DeleteDatabase),
            DatabaseObjectsEvent::CreateSchema => ObjectsRequest::Task(EventKind::CreateSchema),
            DatabaseObjectsEvent::DeleteSchema => ObjectsRequest::Task(EventKind::DeleteSchema),
            DatabaseObjectsEvent::CloseConnection => ObjectsRequest::Task(
                EventKind::CloseConnection,
            ),
            DatabaseObjectsEvent::DeleteConnection => ObjectsRequest::Task(
                EventKind::DeleteConnection,
            ),
            DatabaseObjectsEvent::OpenTableData => ObjectsRequest::Task(EventKind::OpenTableData),
            DatabaseObjectsEvent::DesignTable => ObjectsRequest::Task(EventKind::DesignTable),
            DatabaseObjectsEvent::DeleteTable => ObjectsRequest::Task(EventKind::DeleteTable),
            DatabaseObjectsEvent::OpenViewData => ObjectsRequest::Task(EventKind::OpenViewData),
            DatabaseObjectsEvent::DeleteView => ObjectsRequest::Task(EventKind::DeleteView),
            DatabaseObjectsEvent::CreateNewQuery => ObjectsRequest::Task(EventKind::CreateNewQuery),
            DatabaseObjectsEvent::OpenNamedQuery => ObjectsRequest::Task(EventKind::OpenNamedQuery),
            DatabaseObjectsEvent::RenameQuery => ObjectsRequest::Task(EventKind::RenameQuery),
            DatabaseObjectsEvent::DeleteQuery => ObjectsRequest::Task(EventKind::DeleteQuery),
        }),
{
}

// ---------------------------------------------------------------------------
// Menus, icons and rows
// ---------------------------------------------------------------------------

/// An item becomes an entry that sends its event; it is disabled just where it
/// needs an active node and there is none. Items of other kinds of events are
/// left out.
pub proof fn law_menu_item(
    label: String,
    e: DbTreeViewEvent,
    name: String,
    requires_active: bool,
    is_active: bool,
)
    ensures
        tree_menu::entry_of(
            ContextMenuItem::Item { label, event: ContextMenuEvent::TreeEvent(e), requires_active },
            is_active,
        ) == Some(EntryView::Item(label@, e.view(), requires_active && !is_active)),
        tree_menu::entry_of(
            ContextMenuItem::Item { label, event: ContextMenuEvent::Custom(name), requires_active },
            is_active,
        ) is None,
        tree_menu::entry_of(ContextMenuItem::Separator, is_active) == Some(EntryView::Separator),
{
}

/// A submenu holds the entries of its items, and entries stand in the order of
/// their items.
pub proof fn law_menu(
    label: String,
    items: Vec<ContextMenuItem>,
    item: ContextMenuItem,
    requires_active: bool,
    is_active: bool,
)
    ensures
        tree_menu::entry_of(
            ContextMenuItem::Submenu { label, items, requires_active },
            is_active,
        ) == Some(
            EntryView::Submenu(
                label@,
                tree_menu::entries_of(items@, is_active),
                requires_active && !is_active,
            ),
        ),
        tree_menu::entries_of(Seq::empty(), is_active) == Seq::<EntryView>::empty(),
        tree_menu::entry_of(item, is_active) matches Some(e) ==> tree_menu::entries_of(
            items@.push(item),
            is_active,
        ) == tree_menu::entries_of(items@, is_active).push(e),
        tree_menu::entry_of(item, is_active) is None ==> tree_menu::entries_of(
            items@.push(item),
            is_active,
        ) == tree_menu::entries_of(items@, is_active),
{
    assert(items@.push(item).drop_last() =~= items@);
}

/// A node is drawn with the icon of its kind; a connection with that of its
/// product, and a column of the primary key with a key.
pub proof fn law_icon(n: NodeView)
    ensures
        n.node_type == DbNodeType::Connection ==> tree_menu::node_icon(n) == NodeIcon::Product(
            n.database_type,
        ),
        n.node_type == DbNodeType::Column ==> {
            let key = db_node::lookup(n.metadata, "is_primary_key"@) == Some("true"@);
            tree_menu::node_icon(n) == (if key {
                NodeIcon::PrimaryKey
            } else {
                NodeIcon::Column
            })
        },
        match n.node_type {
            DbNodeType::Database => tree_menu::node_icon(n) == NodeIcon::Database,
            DbNodeType::Schema => tree_menu::node_icon(n) == NodeIcon::Schema,
            DbNodeType::Table => tree_menu::node_icon(n) == NodeIcon::Table,
            DbNodeType::View => tree_menu::node_icon(n) == NodeIcon::View,
            DbNodeType::Function => tree_menu::node_icon(n) == NodeIcon::Function,
            DbNodeType::Procedure => tree_menu::node_icon(n) == NodeIcon::Procedure,
            DbNodeType::Index => tree_menu::node_icon(n) == NodeIcon::Index,
            DbNodeType::Trigger => tree_menu::node_icon(n) == NodeIcon::Trigger,
            DbNodeType::Sequence => tree_menu::node_icon(n) == NodeIcon::Sequence,
            DbNodeType::NamedQuery => tree_menu::node_icon(n) == NodeIcon::Query,
            DbNodeType::ForeignKey => tree_menu::node_icon(n) == NodeIcon::ForeignKey,
            DbNodeType::Check => tree_menu::node_icon(n) == NodeIcon::CheckConstraint,
            DbNodeType::TablesFolder => tree_menu::node_icon(n) == NodeIcon::FolderTables,
            DbNodeType::ViewsFolder => tree_menu::node_icon(n) == NodeIcon::FolderViews,
            DbNodeType::FunctionsFolder => tree_menu::node_icon(n) == NodeIcon::FolderFunctions,
            DbNodeType::ProceduresFolder => tree_menu::node_icon(n) == NodeIcon::FolderProcedures,
            DbNodeType::TriggersFolder => tree_menu::node_icon(n) == NodeIcon::FolderTriggers,
            DbNodeType::ForeignKeysFolder => tree_menu::node_icon(n) == NodeIcon::FolderForeignKeys,
            DbNodeType::ChecksFolder => tree_menu::node_icon(n) == NodeIcon::FolderCheckConstraints,
            DbNodeType::QueriesFolder => tree_menu::node_icon(n) == NodeIcon::FolderQueries,
            DbNodeType::ColumnsFolder => tree_menu::node_icon(n) == NodeIcon::FolderColumns,
            DbNodeType::IndexesFolder => tree_menu::node_icon(n) == NodeIcon::FolderIndexes,
            DbNodeType::SequencesFolder => tree_menu::node_icon(n) == NodeIcon::FolderSequences,
            _ => true,
        },
{
}

/// The icon of a kind is that of every node of the kind whose icon depends on
/// nothing else; a connection of no known product has that of MySQL, and a
/// folder that of a file.
pub proof fn law_kind_icon(n: NodeView)
    ensures
        match n.node_type {
            DbNodeType::Connection => tree_menu::kind_icon(n.node_type) == NodeIcon::MySql,
            DbNodeType::Column => tree_menu::kind_icon(n.node_type) == NodeIcon::Column,
            DbNodeType::Database
            | DbNodeType::Schema
            | DbNodeType::Table
            | DbNodeType::View
            | DbNodeType::Function
            | DbNodeType::Procedure
            | DbNodeType::Index
            | DbNodeType::Trigger
            | DbNodeType::Sequence
            | DbNodeType::NamedQuery => tree_menu::kind_icon(n.node_type) == tree_menu::node_icon(n),
            _ => tree_menu::kind_icon(n.node_type) == NodeIcon::File,
        },
{
}

/// A row shows its node: its name, how deep it stands, its error, and whether it
/// is selected, expanded and loading; what is searched for is highlighted.
pub proof fn law_row_shows_node(t: Tree, ix: usize, row: tree::TreeRow)
    requires
        ix < t.flat.len(),
        tree::tree_model_row(t, ix, row),
    ensures
        ({
            let id = t.flat[ix as int].node_id;
            &&& row.node_id@ == id
            &&& row.depth == t.flat[ix as int].depth
            &&& row.indent == 16 * t.flat[ix as int].depth + 8
            &&& t.node(id) matches Some(n) ==> row.label@ == n.name && row.label_is_key
                == tree_model::name_is_key(n.node_type) && row.has_arrow == tree_model::has_arrow(n)
                && row.is_folder == tree_model::is_drawn_as_folder(n.node_type)
            &&& row.error is Some <==> t.errors.contains_key(id)
            &&& row.error matches Some(e) ==> e@ == t.errors[id]
            &&& row.is_selected <==> t.selected_ix == Some(ix)
            &&& row.is_expanded <==> t.expanded.contains(id)
            &&& row.is_loading <==> t.loading.contains(id)
            &&& row.highlight@ == t.search_query
        }),
{
}

/// The row of a connection with databases says how many of them are selected and
/// how many there are, unless its product has only one; no other row does.
pub proof fn law_row_counts_databases(t: Tree, ix: usize, row: tree::TreeRow, n: NodeView)
    requires
        ix < t.flat.len(),
        tree::tree_model_row(t, ix, row),
        t.node(t.flat[ix as int].node_id) == Some(n),
    ensures
        ({
            let all = t.databases(t.flat[ix as int].node_id);
            &&& row.filter_count is Some <==> n.node_type == DbNodeType::Connection
                && n.database_type != DatabaseType::SQLite && n.database_type
                != DatabaseType::DuckDB && all.len() > 0
            &&& row.filter_count matches Some(c) ==> c.1 == all.len() && (match t.selection(
                t.flat[ix as int].node_id,
            ) {
                None => c.0 == all.len(),
                Some(set) => c.0 == tree_model::count_named(all, set),
            })
        }),
{
}

// ---------------------------------------------------------------------------
// Views
// ---------------------------------------------------------------------------

/// An action is about the node or connection that it was made with.
pub proof fn law_action_view(a: TreeAction)
    ensures
        match a {
            TreeAction::Emit(e) => a.view() == ActionView::Emit(e.view()),
            TreeAction::LoadChildren(id) => a.view() == ActionView::LoadChildren(id@),
            TreeAction::SaveFilter(id, list) => {
                &&& a.view() matches ActionView::SaveFilter(c, selection) && c == id@
                &&& list is None <==> a.view()->SaveFilter_1 is None
                &&& list matches Some(v) ==> forall|i: int|
                    0 <= i < v@.len() ==> (a.view()->SaveFilter_1->0).contains((#[trigger] v@[i])@)
                &&& list matches Some(v) ==> forall|name: Seq<char>| #[trigger]
                    (a.view()->SaveFilter_1->0).contains(name) ==> exists|i: int|
                        0 <= i < v@.len() && (#[trigger] v@[i])@ == name
            },
            TreeAction::RegisterConnection(id) => a.view() == ActionView::RegisterConnection(id@),
            TreeAction::UpdateConnection(id) => a.view() == ActionView::UpdateConnection(id@),
            TreeAction::UnregisterConnection(id) => a.view() == ActionView::UnregisterConnection(
                id@,
            ),
            TreeAction::MarkActive(id) => a.view() == ActionView::MarkActive(id),
            TreeAction::MarkInactive(id) => a.view() == ActionView::MarkInactive(id),
            TreeAction::ClearConnectionCache(id) => a.view() == ActionView::ClearConnectionCache(
                id@,
            ),
        },
{
    if let TreeAction::SaveFilter(id, Some(v)) = a {
        let set = text::views(v@).to_set();
        assert forall|i: int| 0 <= i < v@.len() implies set.contains((#[trigger] v@[i])@) by {
            assert(text::views(v@)[i] == v@[i]@);
        }
        assert forall|name: Seq<char>| #[trigger] set.contains(name) implies exists|i: int|
            0 <= i < v@.len() && (#[trigger] v@[i])@ == name by {
            let i = choose|i: int| 0 <= i < text::views(v@).len() && text::views(v@)[i] == name;
            assert(v@[i]@ == name);
        }
    }
}

/// An event of the tree is of the kind of its name, and about its node.
pub proof fn law_event_view(e: DbTreeViewEvent)
    ensures
        match e {
            DbTreeViewEvent::OpenTableData { node_id } => e.view() == (EventView {
                kind: EventKind::OpenTableData,
                node_id: node_id@,
            }),
            DbTreeViewEvent::OpenViewData { node_id } => e.view() == (EventView {
                kind: EventKind::OpenViewData,
                node_id: node_id@,
            }),
            DbTreeViewEvent::DesignTable { node_id } => e.view() == (EventView {
                kind: EventKind::DesignTable,
                node_id: node_id@,
            }),
            DbTreeViewEvent::CreateNewQuery { node_id } => e.view() == (EventView {
                kind: EventKind::CreateNewQuery,
                node_id: node_id@,
            }),
            DbTreeViewEvent::OpenErDiagram { node_id } => e.view() == (EventView {
                kind: EventKind::OpenErDiagram,
                node_id: node_id@,
            }),
            DbTreeViewEvent::OpenNamedQuery { node_id } => e.view() == (EventView {
                kind: EventKind::OpenNamedQuery,
                node_id: node_id@,
            }),
            DbTreeViewEvent::RenameQuery { node_id } => e.view() == (EventView {
                kind: EventKind::RenameQuery,
                node_id: node_id@,
            }),
            DbTreeViewEvent::DeleteQuery { node_id } => e.view() == (EventView {
                kind: EventKind::DeleteQuery,
                node_id: node_id@,
            }),
            DbTreeViewEvent::NodeSelected { node_id } => e.view() == (EventView {
                kind: EventKind::NodeSelected,
                node_id: node_id@,
            }),
            DbTreeViewEvent::ImportData { node_id } => e.view() == (EventView {
                kind: EventKind::ImportData,
                node_id: node_id@,
            }),
            DbTreeViewEvent::ExportData { node_id } => e.view() == (EventView {
                kind: EventKind::ExportData,
                node_id: node_id@,
            }),
            DbTreeViewEvent::CloseConnection { node_id } => e.view() == (EventView {
                kind: EventKind::CloseConnection,
                node_id: node_id@,
            }),
            DbTreeViewEvent::DeleteConnection { node_id } => e.view() == (EventView {
                kind: EventKind::DeleteConnection,
                node_id: node_id@,
            }),
            DbTreeViewEvent::CreateDatabase { node_id } => e.view() == (EventView {
                kind: EventKind::CreateDatabase,
                node_id: node_id@,
            }),
            DbTreeViewEvent::EditDatabase { node_id } => e.view() == (EventView {
                kind: EventKind::EditDatabase,
                node_id: node_id@,
            }),
            DbTreeViewEvent::CloseDatabase { node_id } => e.view() == (EventView {
                kind: EventKind::CloseDatabase,
                node_id: node_id@,
            }),
            DbTreeViewEvent::DeleteDatabase { node_id } => e.view() == (EventView {
                kind: EventKind::DeleteDatabase,
                node_id: node_id@,
            }),
            DbTreeViewEvent::CreateSchema { node_id } => e.view() == (EventView {
                kind: EventKind::CreateSchema,
                node_id: node_id@,
            }),
            DbTreeViewEvent::DeleteSchema { node_id } => e.view() == (EventView {
                kind: EventKind::DeleteSchema,
                node_id: node_id@,
            }),
            DbTreeViewEvent::DeleteTable { node_id } => e.view() == (EventView {
                kind: EventKind::DeleteTable,
                node_id: node_id@,
            }),
            DbTreeViewEvent::RenameTable { node_id } => e.view() == (EventView {
                kind: EventKind::RenameTable,
                node_id: node_id@,
            }),
            DbTreeViewEvent::CopyTable { node_id } => e.view() == (EventView {
                kind: EventKind::CopyTable,
                node_id: node_id@,
            }),
            DbTreeViewEvent::TruncateTable { node_id } => e.view() == (EventView {
                kind: EventKind::TruncateTable,
                node_id: node_id@,
            }),
            DbTreeViewEvent::DeleteView { node_id } => e.view() == (EventView {
                kind: EventKind::DeleteView,
                node_id: node_id@,
            }),
            DbTreeViewEvent::RunSqlFile { node_id } => e.view() == (EventView {
                kind: EventKind::RunSqlFile,
                node_id: node_id@,
            }),
            DbTreeViewEvent::DumpSqlFile { node_id, mode } => e.view() == (EventView {
                kind: EventKind::DumpSqlFile(mode),
                node_id: node_id@,
            }),
        },
{
}

/// A change of the stored connections is about the connection that it names.
pub proof fn law_change_view(e: ConnectionDataEvent)
    ensures
        match e {
            ConnectionDataEvent::ConnectionDeleted { connection_id } => e.view()
                == ChangeView::Deleted(connection_id),
            ConnectionDataEvent::ConnectionUpdated { connection } => e.view()
                == ChangeView::Updated(connection.view()),
            ConnectionDataEvent::ConnectionCreated { connection } => e.view()
                == ChangeView::Created(connection.view()),
            ConnectionDataEvent::SchemaChanged { connection_id, database, .. } => e.view()
                == ChangeView::Schema(connection_id@, database@),
            _ => e.view() == ChangeView::Workspace,
        },
{
}

/// A stored connection keeps its number, its workspace, its name and product,
/// its place and which databases are selected.
pub proof fn law_stored_connection(c: StoredConnection)
    ensures
        c.view().id == c.id,
        c.view().workspace_id == c.workspace_id,
        c.view().sort_key == c.sort_key@,
        c.config is Some <==> c.view().config is Some,
        c.config matches Some(x) ==> (c.view().config->0).name == x.name@
            && (c.view().config->0).database_type == x.database_type,
        c.selected_databases is Some <==> c.view().selected_databases is Some,
        c.selected_databases matches Some(v) ==> forall|i: int|
            0 <= i < v@.len() ==> (c.view().selected_databases->0).contains((#[trigger] v@[i])@),
{
    if let Some(v) = c.selected_databases {
        let set = text::views(v@).to_set();
        assert forall|i: int| 0 <= i < v@.len() implies set.contains((#[trigger] v@[i])@) by {
            assert(text::views(v@)[i] == v@[i]@);
        }
    }
}

} // verus!
