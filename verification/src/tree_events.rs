//! What the events of the database tree lead to: the tab, dialog or statement
//! for a node, what comes back, and how the tree follows.
use vstd::prelude::*;

use crate::db_node;
use crate::db_node::{DbNode, DbNodeType};
use crate::dump_target;
use crate::str_map::StrSet;
use crate::text;
use crate::tree;
use crate::tree::{DbTreeView, RefreshPlan};
use crate::tree_model;
use crate::tree_types;
use crate::tree_types::{DbTreeViewEvent, EventKind, SqlDumpMode, TreeAction};

verus! {

/// What an event asks for. `connection_id` is that of the node everywhere.
#[derive(Debug)]
#[allow(inconsistent_fields)]
pub enum NodeTask {
    /// Nothing is to be done.
    Nothing,
    /// The event makes no sense for the node.
    ErrorInfo,
    /// The objects of the node are shown.
    ShowObjects { connection_id: String },
    /// A tab with a new query is opened.
    QueryTab {
        tab_id: String,
        title: String,
        connection_id: String,
        database: Option<String>,
        schema: Option<String>,
    },
    /// A tab with an entity diagram is opened.
    DiagramTab { connection_id: String, database: String, schema: Option<String> },
    /// A tab with the rows of a table or a view is opened.
    DataTab {
        tab_id: String,
        connection_id: String,
        database: String,
        schema: Option<String>,
        name: String,
        editable: bool,
    },
    /// A tab that designs a table is opened; a new table where none is named.
    DesignerTab {
        tab_id: String,
        connection_id: String,
        database: String,
        schema: Option<String>,
        table: Option<String>,
    },
    /// A tab with a stored query is opened.
    StoredQueryTab {
        tab_id: String,
        path: String,
        name: String,
        connection_id: String,
        database: Option<String>,
        schema: Option<String>,
    },
    /// A window imports rows into a table.
    ImportWindow { connection_id: String, database: String, schema: Option<String>, table: String },
    /// A window exports the rows of a table.
    ExportWindow { connection_id: String, database: String, schema: Option<String>, table: String },
    /// A window runs a SQL file.
    RunFileWindow { connection_id: String, database: Option<String>, schema: Option<String> },
    /// A directory is chosen, and a window dumps to it.
    DumpWindow {
        connection_id: String,
        database: String,
        schema: Option<String>,
        table: Option<String>,
        mode: SqlDumpMode,
    },
    /// After a question, the connection is closed.
    CloseConnection { connection_id: String, name: String },
    /// After a question, the stored connection is deleted.
    DeleteConnection { connection_id: String, name: String, number: Option<i64> },
    /// A form asks for a new database.
    CreateDatabase { connection_id: String },
    /// A form asks for changes of a database.
    EditDatabase { connection_id: String, database: String },
    /// After a question, the database is closed.
    CloseDatabase { node_id: String, database: String },
    /// After a question, the database is dropped.
    DropDatabase { connection_id: String, database: String },
    /// A form asks for a new schema.
    CreateSchema { connection_id: String, database: String },
    /// After a question, the schema is dropped; `plain_sql` where the driver
    /// has no statement of its own.
    DropSchema { connection_id: String, database: String, schema: String, plain_sql: String },
    /// After a question, the table is dropped; nothing where it has no name.
    DropTable {
        connection_id: String,
        database: String,
        schema: Option<String>,
        table: Option<String>,
    },
    /// A form asks for a new name of the table.
    RenameTable { connection_id: String, database: String, table: String },
    /// A form asks for the name of a copy of the table.
    CopyTable { connection_id: String, database: String, schema: Option<String>, table: String },
    /// After a question, the table is emptied.
    TruncateTable { connection_id: String, database: String, table: String },
    /// After a question, the view is dropped.
    DropView { connection_id: String, database: String, view: String },
    /// A form asks for a new name of the stored query.
    RenameQuery { path: String, name: String },
    /// After a question, the stored query is deleted.
    DeleteQuery { path: String, name: String },
}

/// The text, or the empty text where there is none.
pub open spec fn or_empty(s: Option<Seq<char>>) -> Seq<char> {
    match s {
        Some(x) => x,
        None => Seq::empty(),
    }
}

/// The text, or the empty text where there is none.
fn unwrap_or_empty(s: Option<String>) -> (r: String)
    ensures
        r@ == or_empty(text::opt_view(s)),
{
    match s {
        Some(x) => x,
        None => {
            let r = String::new();
            assert(r@ =~= Seq::<char>::empty());
            r
        },
    }
}

/// The database that the metadata of a node names.
pub open spec fn meta_database(n: db_node::NodeView) -> Seq<char> {
    or_empty(db_node::lookup(n.metadata, "database"@))
}

/// Where a table is dropped: in its database and schema. A product that has
/// schemas but no databases takes the schema for the database.
pub open spec fn drop_place(database: Option<Seq<char>>, schema: Option<Seq<char>>) -> (
    Seq<char>,
    Option<Seq<char>>,
) {
    match (database, schema) {
        (None, Some(s)) => (s, None),
        (d, s) => (or_empty(d), s),
    }
}

/// Where a table is dropped.
pub fn drop_table_place(database: &Option<String>, schema: &Option<String>) -> (r: (
    String,
    Option<String>,
))
    ensures
        (r.0@, text::opt_view(r.1)) == drop_place(
            text::opt_view(*database),
            text::opt_view(*schema),
        ),
{
    if database.is_none() && schema.is_some() {
        (unwrap_or_empty(text::copy_opt(schema)), None)
    } else {
        (unwrap_or_empty(text::copy_opt(database)), text::copy_opt(schema))
    }
}

/// The statement that drops a schema, its name quoted.
pub open spec fn drop_schema_text(schema: Seq<char>) -> Seq<char> {
    "DROP SCHEMA \""@ + text::replaced(schema, '"', "\"\""@) + "\""@
}

/// The statement that drops a schema, its name quoted.
pub fn drop_schema_sql(schema: &str) -> (r: String)
    ensures
        r@ == drop_schema_text(schema@),
{
    let escaped = text::replace_char(schema, '"', "\"\"");
    let mut sql = "DROP SCHEMA \"".to_owned();
    sql.append(escaped.as_str());
    sql.append("\"");
    sql
}

/// What a database takes a quoted name for, from behind the opening quote to
/// the closing one; nothing where more follows or the name does not end.
pub open spec fn quoted_name(t: Seq<char>) -> Option<Seq<char>>
    decreases t.len(),
{
    if t.len() == 0 {
        None
    } else if t[0] != '"' {
        match quoted_name(t.drop_first()) {
            Some(rest) => Some(seq![t[0]] + rest),
            None => None,
        }
    } else if t.len() == 1 {
        Some(Seq::empty())
    } else if t[1] == '"' {
        match quoted_name(t.skip(2)) {
            Some(rest) => Some(seq!['"'] + rest),
            None => None,
        }
    } else {
        None
    }
}

proof fn lemma_quoted_name(s: Seq<char>, t: Seq<char>, u: Seq<char>)
    requires
        quoted_name(t) == Some(u),
    ensures
        quoted_name(text::replaced(s, '"', "\"\""@) + t) == Some(s + u),
    decreases s.len(),
{
    let q = "\"\""@;
    reveal_strlit("\"\"");
    assert(q =~= seq!['"', '"']);
    if s.len() == 0 {
        assert(text::replaced(s, '"', q) + t =~= t);
        assert(s + u =~= u);
    } else {
        let front = s.drop_last();
        let c = s.last();
        let r = text::replaced(front, '"', q);
        if c == '"' {
            let t2 = q + t;
            assert(t2.skip(2) =~= t);
            assert(quoted_name(t2) == Some(seq![c] + u));
            lemma_quoted_name(front, t2, seq![c] + u);
            assert(text::replaced(s, '"', q) + t =~= r + t2);
        } else {
            let t1 = seq![c] + t;
            assert(t1.drop_first() =~= t);
            assert(quoted_name(t1) == Some(seq![c] + u));
            lemma_quoted_name(front, t1, seq![c] + u);
            assert(text::replaced(s, '"', q) + t =~= r + t1);
        }
        assert(front + (seq![c] + u) =~= s + u);
    }
}

/// A database takes the statement for one that drops the schema with just that
/// name, whatever characters the name has.
pub proof fn law_dropped_schema_is_named(schema: Seq<char>)
    ensures
        text::begins_with(drop_schema_text(schema), "DROP SCHEMA \""@),
        quoted_name(drop_schema_text(schema).skip("DROP SCHEMA \""@.len() as int)) == Some(schema),
{
    let head = "DROP SCHEMA \""@;
    let close = "\""@;
    reveal_strlit("\"");
    assert(close =~= seq!['"']);
    let all = drop_schema_text(schema);
    let body = text::replaced(schema, '"', "\"\""@) + close;
    assert(all.subrange(0, head.len() as int) =~= head);
    assert(all.skip(head.len() as int) =~= body);
    assert(quoted_name(close) == Some(Seq::<char>::empty()));
    lemma_quoted_name(schema, close, Seq::empty());
    assert(schema + Seq::<char>::empty() =~= schema);
}

/// The id of the tab that shows the rows of a table or a view.
pub open spec fn data_tab_id(
    prefix: Seq<char>,
    database: Seq<char>,
    schema: Option<Seq<char>>,
    name: Seq<char>,
) -> Seq<char> {
    prefix + database + "."@ + or_empty(schema) + "."@ + name
}

fn make_data_tab_id(prefix: &str, database: &str, schema: &Option<String>, name: &str) -> (r:
    String)
    ensures
        r@ == data_tab_id(prefix@, database@, text::opt_view(*schema), name@),
{
    let mut id = prefix.to_owned();
    id.append(database);
    id.append(".");
    id.append(unwrap_or_empty(text::copy_opt(schema)).as_str());
    id.append(".");
    id.append(name);
    id
}

/// The id of a node for a schema, or for a database where no schema is given.
pub open spec fn place_id(
    connection_id: Seq<char>,
    database: Seq<char>,
    schema: Option<Seq<char>>,
) -> Seq<char> {
    let db = tree_model::inner_id(connection_id, database);
    match schema {
        Some(s) => tree_model::inner_id(db, s),
        None => db,
    }
}

/// The id of a node for a schema, or for a database where no schema is given.
pub fn place_node_id(connection_id: &str, database: &str, schema: &Option<String>) -> (r: String)
    ensures
        r@ == place_id(connection_id@, database@, text::opt_view(*schema)),
{
    let db = tree::inner_id(connection_id, database);
    match schema {
        Some(s) => tree::inner_id(db.as_str(), s.as_str()),
        None => db,
    }
}

/// `task` is what an event of the given kind asks for about the node `n`;
/// `unique` makes the id of a tab for something new.
pub open spec fn is_task(
    kind: EventKind,
    n: db_node::NodeView,
    unique: Seq<char>,
    task: NodeTask,
) -> bool {
    match kind {
        EventKind::NodeSelected => task matches NodeTask::ShowObjects { connection_id }
            && connection_id@ == n.connection_id,
        EventKind::CreateNewQuery => {
            &&& task matches NodeTask::QueryTab { tab_id, title, connection_id, database, schema }
            &&& tab_id@ == "query-"@ + (match n.database_name {
                Some(d) => d,
                None => "new"@,
            }) + "-"@ + unique
            &&& title@ == (match n.database_name {
                Some(d) => d,
                None => "New Query"@,
            }) + " - Query"@
            &&& connection_id@ == n.connection_id
            &&& text::opt_view(database) == n.database_name
            &&& text::opt_view(schema) == n.schema_name
        },
        EventKind::OpenErDiagram => match n.database_name {
            None => task is ErrorInfo,
            Some(d) => task matches NodeTask::DiagramTab { connection_id, database, schema }
                && connection_id@ == n.connection_id && database@ == d && text::opt_view(schema)
                == n.schema_name,
        },
        EventKind::OpenTableData => is_data_task("table-data-"@, true, n, task),
        EventKind::OpenViewData => is_data_task("view-data-"@, false, n, task),
        EventKind::DesignTable => if n.node_type == DbNodeType::Schema || n.node_type
            == DbNodeType::TablesFolder || n.node_type == DbNodeType::Table || n.node_type
            == DbNodeType::Database {
            &&& task matches NodeTask::DesignerTab {
                tab_id,
                connection_id,
                database,
                schema,
                table,
            }
            &&& connection_id@ == n.connection_id
            &&& database@ == or_empty(n.database_name)
            &&& text::opt_view(schema) == n.schema_name
            &&& text::opt_view(table) == (if n.node_type == DbNodeType::Table {
                Some(n.name)
            } else {
                None
            })
            &&& tab_id@ == "table-designer-"@ + or_empty(n.database_name) + (if n.node_type
                == DbNodeType::Table {
                "-"@ + n.name
            } else {
                "-new-"@ + unique
            })
        } else {
            task is Nothing
        },
        EventKind::ImportData => task matches NodeTask::ImportWindow {
            connection_id,
            database,
            schema,
            table,
        } && connection_id@ == n.connection_id && database@ == or_empty(n.database_name)
            && text::opt_view(schema) == n.schema_name && table@ == n.name,
        EventKind::ExportData => task matches NodeTask::ExportWindow {
            connection_id,
            database,
            schema,
            table,
        } && connection_id@ == n.connection_id && database@ == or_empty(n.database_name)
            && text::opt_view(schema) == n.schema_name && table@ == n.name,
        EventKind::CloseConnection => task matches NodeTask::CloseConnection {
            connection_id,
            name,
        } && connection_id@ == n.connection_id && name@ == n.name,
        EventKind::DeleteConnection => task matches NodeTask::DeleteConnection {
            connection_id,
            name,
            number,
        } && connection_id@ == n.connection_id && name@ == n.name && (match number {
            Some(v) => tree_model::connection_number(n.connection_id) == Some(v as int),
            None => tree_model::connection_number(n.connection_id) is None,
        }),
        EventKind::CreateDatabase => task matches NodeTask::CreateDatabase { connection_id }
            && connection_id@ == n.connection_id,
        EventKind::EditDatabase => task matches NodeTask::EditDatabase { connection_id, database }
            && connection_id@ == n.connection_id && database@ == n.name,
        EventKind::CloseDatabase => task matches NodeTask::CloseDatabase { node_id, database }
            && node_id@ == tree_model::inner_id(n.connection_id, n.name) && database@ == n.name,
        EventKind::DeleteDatabase => task matches NodeTask::DropDatabase { connection_id, database }
            && connection_id@ == n.connection_id && database@ == n.name,
        EventKind::CreateSchema => task matches NodeTask::CreateSchema { connection_id, database }
            && connection_id@ == n.connection_id && database@ == n.name,
        EventKind::DeleteSchema => task matches NodeTask::DropSchema {
            connection_id,
            database,
            schema,
            plain_sql,
        } && connection_id@ == n.connection_id && database@ == meta_database(n) && schema@ == n.name
            && plain_sql@ == drop_schema_text(n.name),
        EventKind::DeleteTable => task matches NodeTask::DropTable {
            connection_id,
            database,
            schema,
            table,
        } && connection_id@ == n.connection_id && (database@, text::opt_view(schema)) == drop_place(
            n.database_name,
            n.schema_name,
        ) && text::opt_view(table) == n.table_name,
        EventKind::RenameTable => task matches NodeTask::RenameTable {
            connection_id,
            database,
            table,
        } && connection_id@ == n.connection_id && database@ == meta_database(n) && table@ == n.name,
        EventKind::CopyTable => task matches NodeTask::CopyTable {
            connection_id,
            database,
            schema,
            table,
        } && connection_id@ == n.connection_id && database@ == or_empty(n.database_name)
            && text::opt_view(schema) == n.schema_name && table@ == n.name,
        EventKind::TruncateTable => task matches NodeTask::TruncateTable {
            connection_id,
            database,
            table,
        } && connection_id@ == n.connection_id && database@ == meta_database(n) && table@ == n.name,
        EventKind::DeleteView => task matches NodeTask::DropView { connection_id, database, view }
            && connection_id@ == n.connection_id && database@ == meta_database(n) && view@
            == n.name,
        EventKind::OpenNamedQuery => match db_node::lookup(n.metadata, "file_path"@) {
            None => task is Nothing,
            Some(p) => task matches NodeTask::StoredQueryTab {
                tab_id,
                path,
                name,
                connection_id,
                database,
                schema,
            } && tab_id@ == "query-"@ + n.name && path@ == p && name@ == n.name && connection_id@
                == n.connection_id && text::opt_view(database) == n.database_name && text::opt_view(
                schema,
            ) == n.schema_name,
        },
        EventKind::RenameQuery => match db_node::lookup(n.metadata, "file_path"@) {
            None => task is Nothing,
            Some(p) => task matches NodeTask::RenameQuery { path, name } && path@ == p && name@
                == n.name,
        },
        EventKind::DeleteQuery => match db_node::lookup(n.metadata, "file_path"@) {
            None => task is Nothing,
            Some(p) => task matches NodeTask::DeleteQuery { path, name } && path@ == p && name@
                == n.name,
        },
        EventKind::RunSqlFile => task matches NodeTask::RunFileWindow {
            connection_id,
            database,
            schema,
        } && connection_id@ == n.connection_id && text::opt_view(database) == (if n.node_type
            == DbNodeType::Database {
            Some(n.name)
        } else {
            None
        }) && text::opt_view(schema) == (if n.node_type == DbNodeType::Schema {
            Some(n.name)
        } else {
            None
        }),
        EventKind::DumpSqlFile(m) => match dump_target::target_of(n) {
            None => task is ErrorInfo,
            Some(t) => task matches NodeTask::DumpWindow {
                connection_id,
                database,
                schema,
                table,
                mode,
            } && connection_id@ == n.connection_id && database@ == t.database && text::opt_view(
                schema,
            ) == t.schema && text::opt_view(table) == t.table && mode == m,
        },
    }
}

/// `task` opens the rows of the node `n`.
pub open spec fn is_data_task(
    prefix: Seq<char>,
    may_edit: bool,
    n: db_node::NodeView,
    task: NodeTask,
) -> bool {
    match n.database_name {
        None => task is ErrorInfo,
        Some(d) => task matches NodeTask::DataTab {
            tab_id,
            connection_id,
            database,
            schema,
            name,
            editable,
        } && tab_id@ == data_tab_id(prefix, d, n.schema_name, n.name) && connection_id@
            == n.connection_id && database@ == d && text::opt_view(schema) == n.schema_name && name@
            == n.name && editable == may_edit,
    }
}

fn data_task(prefix: &str, editable: bool, node: &DbNode) -> (r: NodeTask)
    ensures
        is_data_task(prefix@, editable, node.view(), r),
{
    match &node.database_name {
        None => NodeTask::ErrorInfo,
        Some(database) => NodeTask::DataTab {
            tab_id: make_data_tab_id(
                prefix,
                database.as_str(),
                &node.schema_name,
                node.name.as_str(),
            ),
            connection_id: node.connection_id.clone(),
            database: database.clone(),
            schema: text::copy_opt(&node.schema_name),
            name: node.name.clone(),
            editable,
        },
    }
}

fn query_tab(node: &DbNode, unique: &str) -> (r: NodeTask)
    ensures
        is_task(EventKind::CreateNewQuery, node.view(), unique@, r),
{
    let mut tab_id = "query-".to_owned();
    let mut title = match &node.database_name {
        Some(d) => {
            tab_id.append(d.as_str());
            d.clone()
        },
        None => {
            tab_id.append("new");
            "New Query".to_owned()
        },
    };
    tab_id.append("-");
    tab_id.append(unique);
    title.append(" - Query");
    NodeTask::QueryTab {
        tab_id,
        title,
        connection_id: node.connection_id.clone(),
        database: text::copy_opt(&node.database_name),
        schema: text::copy_opt(&node.schema_name),
    }
}

fn designer_tab(node: &DbNode, unique: &str) -> (r: NodeTask)
    ensures
        is_task(EventKind::DesignTable, node.view(), unique@, r),
{
    match node.node_type {
        DbNodeType::Schema | DbNodeType::TablesFolder | DbNodeType::Table | DbNodeType::Database => {
            let database = unwrap_or_empty(text::copy_opt(&node.database_name));
            let mut tab_id = "table-designer-".to_owned();
            tab_id.append(database.as_str());
            let table = if node.node_type == DbNodeType::Table {
                let mut tail = "-".to_owned();
                tail.append(node.name.as_str());
                tab_id.append(tail.as_str());
                Some(node.name.clone())
            } else {
                let mut tail = "-new-".to_owned();
                tail.append(unique);
                tab_id.append(tail.as_str());
                None
            };
            NodeTask::DesignerTab {
                tab_id,
                connection_id: node.connection_id.clone(),
                database,
                schema: text::copy_opt(&node.schema_name),
                table,
            }
        },
        _ => NodeTask::Nothing,
    }
}

/// What an event of the given kind asks for about the node. `unique` is a text
/// that no other tab has in its id.
pub fn task_for(kind: EventKind, node: &DbNode, unique: &str) -> (r: NodeTask)
    ensures
        is_task(kind, node.view(), unique@, r),
{
    let connection_id = node.connection_id.clone();
    let name = node.name.clone();
    match kind {
        EventKind::NodeSelected => NodeTask::ShowObjects { connection_id },
        EventKind::CreateNewQuery => query_tab(node, unique),
        EventKind::OpenErDiagram => match &node.database_name {
            None => NodeTask::ErrorInfo,
            Some(database) => NodeTask::DiagramTab {
                connection_id,
                database: database.clone(),
                schema: text::copy_opt(&node.schema_name),
            },
        },
        EventKind::OpenTableData => data_task("table-data-", true, node),
        EventKind::OpenViewData => data_task("view-data-", false, node),
        EventKind::DesignTable => designer_tab(node, unique),
        EventKind::ImportData => NodeTask::ImportWindow {
            connection_id,
            database: unwrap_or_empty(text::copy_opt(&node.database_name)),
            schema: text::copy_opt(&node.schema_name),
            table: name,
        },
        EventKind::ExportData => NodeTask::ExportWindow {
            connection_id,
            database: unwrap_or_empty(text::copy_opt(&node.database_name)),
            schema: text::copy_opt(&node.schema_name),
            table: name,
        },
        EventKind::CloseConnection => NodeTask::CloseConnection { connection_id, name },
        EventKind::DeleteConnection => {
            let number = text::parse_i64(connection_id.as_str());
            NodeTask::DeleteConnection { connection_id, name, number }
        },
        EventKind::CreateDatabase => NodeTask::CreateDatabase { connection_id },
        EventKind::EditDatabase => NodeTask::EditDatabase { connection_id, database: name },
        EventKind::CloseDatabase => NodeTask::CloseDatabase {
            node_id: tree::inner_id(connection_id.as_str(), name.as_str()),
            database: name,
        },
        EventKind::DeleteDatabase => NodeTask::DropDatabase { connection_id, database: name },
        EventKind::CreateSchema => NodeTask::CreateSchema { connection_id, database: name },
        EventKind::DeleteSchema => NodeTask::DropSchema {
            connection_id,
            database: unwrap_or_empty(node.meta("database")),
            plain_sql: drop_schema_sql(name.as_str()),
            schema: name,
        },
        EventKind::DeleteTable => {
            let (database, schema) = drop_table_place(&node.database_name, &node.schema_name);
            NodeTask::DropTable {
                connection_id,
                database,
                schema,
                table: text::copy_opt(&node.table_name),
            }
        },
        EventKind::RenameTable => NodeTask::RenameTable {
            connection_id,
            database: unwrap_or_empty(node.meta("database")),
            table: name,
        },
        EventKind::CopyTable => NodeTask::CopyTable {
            connection_id,
            database: unwrap_or_empty(text::copy_opt(&node.database_name)),
            schema: text::copy_opt(&node.schema_name),
            table: name,
        },
        EventKind::TruncateTable => NodeTask::TruncateTable {
            connection_id,
            database: unwrap_or_empty(node.meta("database")),
            table: name,
        },
        EventKind::DeleteView => NodeTask::DropView {
            connection_id,
            database: unwrap_or_empty(node.meta("database")),
            view: name,
        },
        EventKind::OpenNamedQuery => match node.meta("file_path") {
            None => NodeTask::Nothing,
            Some(path) => {
                let mut tab_id = "query-".to_owned();
                tab_id.append(name.as_str());
                NodeTask::StoredQueryTab {
                    tab_id,
                    path,
                    name,
                    connection_id,
                    database: text::copy_opt(&node.database_name),
                    schema: text::copy_opt(&node.schema_name),
                }
            },
        },
        EventKind::RenameQuery => match node.meta("file_path") {
            None => NodeTask::Nothing,
            Some(path) => NodeTask::RenameQuery { path, name },
        },
        EventKind::DeleteQuery => match node.meta("file_path") {
            None => NodeTask::Nothing,
            Some(path) => NodeTask::DeleteQuery { path, name },
        },
        EventKind::RunSqlFile => {
            let database = if node.node_type == DbNodeType::Database {
                Some(node.name.clone())
            } else {
                None
            };
            let schema = if node.node_type == DbNodeType::Schema {
                Some(node.name.clone())
            } else {
                None
            };
            NodeTask::RunFileWindow { connection_id, database, schema }
        },
        EventKind::DumpSqlFile(mode) => match dump_target::resolve_sql_dump_target(node) {
            None => NodeTask::ErrorInfo,
            Some(target) => NodeTask::DumpWindow {
                connection_id,
                database: target.database,
                schema: target.schema,
                table: target.table,
                mode,
            },
        },
    }
}

/// What an event of the tree asks for. An event about a node that the tree
/// does not hold asks for nothing.
pub fn handle_tree_event(tree: &DbTreeView, event: &DbTreeViewEvent, unique: &str) -> (r: Option<
    NodeTask,
>)
    ensures
        match tree@.node(event.view().node_id) {
            Some(n) => r matches Some(task) && is_task(event.view().kind, n, unique@, task),
            None => r is None,
        },
{
    let (kind, node_id) = event.parts();
    match tree.get_node(node_id.as_str()) {
        Some(node) => Some(task_for(kind, node, unique)),
        None => None,
    }
}

// ---------------------------------------------------------------------------
// Answers
// ---------------------------------------------------------------------------

/// What came of a statement.
#[derive(Debug)]
pub enum SqlResult {
    /// Rows came back.
    Query,
    /// The statement was executed.
    Exec,
    /// The statement failed with this message.
    Error(String),
}

/// What follows a statement that a form asked for.
#[derive(Debug)]
pub enum StatementOutcome {
    /// Nothing.
    Ignored,
    /// The tree follows the change.
    Done,
    /// The message is shown.
    Failed(String),
}

/// What follows a statement: only one that was executed counts as done.
pub fn statement_outcome(result: Result<SqlResult, String>) -> (r: StatementOutcome)
    ensures
        match result {
            Ok(SqlResult::Query) => r is Ignored,
            Ok(SqlResult::Exec) => r is Done,
            Ok(SqlResult::Error(message)) => r == StatementOutcome::Failed(message),
            Err(message) => r == StatementOutcome::Failed(message),
        },
{
    match result {
        Ok(SqlResult::Query) => StatementOutcome::Ignored,
        Ok(SqlResult::Exec) => StatementOutcome::Done,
        Ok(SqlResult::Error(message)) => StatementOutcome::Failed(message),
        Err(message) => StatementOutcome::Failed(message),
    }
}

/// The messages of those results that are errors.
pub open spec fn error_messages(v: Seq<SqlResult>) -> Seq<Seq<char>>
    decreases v.len(),
{
    if v.len() == 0 {
        Seq::empty()
    } else {
        match v.last() {
            SqlResult::Error(message) => error_messages(v.drop_last()).push(message@),
            _ => error_messages(v.drop_last()),
        }
    }
}

/// What follows a script: where any of its statements failed, their messages
/// together.
pub fn script_outcome(result: Result<Vec<SqlResult>, String>) -> (r: Result<(), String>)
    ensures
        match result {
            Ok(results) => if error_messages(results@).len() == 0 {
                r is Ok
            } else {
                r matches Err(message) && message@ == text::joined(
                    error_messages(results@),
                    "; "@,
                )
            },
            Err(error) => r == Err::<(), String>(error),
        },
{
    match result {
        Ok(results) => {
            let mut messages: Vec<String> = Vec::new();
            let mut i: usize = 0;
            assert(results@.take(0) =~= Seq::empty());
            assert(text::views(messages@) =~= Seq::empty());
            while i < results.len()
                invariant
                    i <= results@.len(),
                    text::views(messages@) == error_messages(results@.take(i as int)),
                decreases results@.len() - i,
            {
                assert(results@.take(i as int + 1).drop_last() =~= results@.take(i as int));
                assert(results@.take(i as int + 1).last() == results@[i as int]);
                let ghost before = messages@;
                if let SqlResult::Error(message) = &results[i] {
                    messages.push(message.clone());
                    assert(text::views(messages@) =~= text::views(before).push(message@));
                }
                i = i + 1;
            }
            assert(results@.take(results@.len() as int) =~= results@);
            if messages.len() == 0 {
                Ok(())
            } else {
                Err(text::join(&messages, "; "))
            }
        },
        Err(error) => Err(error),
    }
}

/// Whether a statement that a form made is blank, and is not executed.
pub fn is_blank_statement(sql: &str) -> (r: bool)
    ensures
        r == (text::trimmed(sql@).len() == 0),
{
    text::trim(sql).as_str().is_empty()
}

/// The new name that a form gives: trimmed, and neither empty nor the old one.
pub open spec fn accepted_name(input: Seq<char>, old_name: Seq<char>) -> Option<Seq<char>> {
    let name = text::trimmed(input);
    if name.len() == 0 || name == old_name {
        None
    } else {
        Some(name)
    }
}

/// The new name that a form gives: trimmed, and neither empty nor the old one.
pub fn check_new_name(input: &str, old_name: &str) -> (r: Option<String>)
    ensures
        text::opt_view(r) == accepted_name(input@, old_name@),
{
    let name = text::trim(input);
    if name.as_str().is_empty() || text::same(name.as_str(), old_name) {
        None
    } else {
        Some(name)
    }
}

/// The file name of a stored query.
pub fn query_file_name(name: &str) -> (r: String)
    ensures
        r@ == name@ + ".sql"@,
{
    let mut file = name.to_owned();
    file.append(".sql");
    file
}

// ---------------------------------------------------------------------------
// How the tree follows
// ---------------------------------------------------------------------------

/// A change of the tree that follows what was done about a node.
#[derive(Debug)]
#[allow(inconsistent_fields)]
pub enum TreeUpdate {
    Refresh(String),
    CloseConnection(String),
    CloseDatabase(String),
    AddDatabase { connection_id: String, database: String, sort_key: String },
    RemoveDatabase { connection_id: String, database: String },
    RemoveSchema { connection_id: String, database: String, schema: String },
    RemoveTable(String),
    RemoveView(String),
}

/// The mathematical value of a [`TreeUpdate`].
pub ghost enum UpdateView {
    Refresh(Seq<char>),
    CloseConnection(Seq<char>),
    CloseDatabase(Seq<char>),
    AddDatabase(Seq<char>, Seq<char>, Seq<char>),
    RemoveDatabase(Seq<char>, Seq<char>),
    RemoveSchema(Seq<char>, Seq<char>, Seq<char>),
    RemoveTable(Seq<char>),
    RemoveView(Seq<char>),
}

impl TreeUpdate {
    /// The mathematical value of the update.
    pub open spec fn view(&self) -> UpdateView {
        match self {
            TreeUpdate::Refresh(id) => UpdateView::Refresh(id@),
            TreeUpdate::CloseConnection(id) => UpdateView::CloseConnection(id@),
            TreeUpdate::CloseDatabase(id) => UpdateView::CloseDatabase(id@),
            TreeUpdate::AddDatabase { connection_id, database, sort_key } => {
                UpdateView::AddDatabase(connection_id@, database@, sort_key@)
            },
            TreeUpdate::RemoveDatabase { connection_id, database } => UpdateView::RemoveDatabase(
                connection_id@,
                database@,
            ),
            TreeUpdate::RemoveSchema { connection_id, database, schema } => {
                UpdateView::RemoveSchema(connection_id@, database@, schema@)
            },
            TreeUpdate::RemoveTable(id) => UpdateView::RemoveTable(id@),
            TreeUpdate::RemoveView(id) => UpdateView::RemoveView(id@),
        }
    }
}

/// How the tree follows once what an event asked for was done about the node.
pub open spec fn update_after(kind: EventKind, n: db_node::NodeView) -> Option<UpdateView> {
    match kind {
        EventKind::CloseConnection => Some(UpdateView::CloseConnection(n.connection_id)),
        EventKind::DeleteConnection => Some(UpdateView::Refresh(n.connection_id)),
        EventKind::EditDatabase => Some(UpdateView::Refresh(n.connection_id)),
        EventKind::CloseDatabase => Some(
            UpdateView::CloseDatabase(tree_model::inner_id(n.connection_id, n.name)),
        ),
        EventKind::DeleteDatabase => Some(UpdateView::RemoveDatabase(n.connection_id, n.name)),
        EventKind::CreateSchema => Some(
            UpdateView::Refresh(tree_model::inner_id(n.connection_id, n.name)),
        ),
        EventKind::DeleteSchema => Some(
            UpdateView::RemoveSchema(n.connection_id, meta_database(n), n.name),
        ),
        EventKind::DeleteTable => Some(UpdateView::RemoveTable(n.id)),
        EventKind::RenameTable => Some(
            UpdateView::Refresh(tree_model::inner_id(n.connection_id, meta_database(n))),
        ),
        EventKind::CopyTable => Some(
            UpdateView::Refresh(
                place_id(n.connection_id, or_empty(n.database_name), n.schema_name),
            ),
        ),
        EventKind::DeleteView => Some(UpdateView::RemoveView(n.id)),
        EventKind::RenameQuery => match n.parent_context {
            Some(parent) => Some(UpdateView::Refresh(parent)),
            None => None,
        },
        EventKind::DeleteQuery => match n.parent_context {
            Some(parent) => Some(UpdateView::Refresh(parent)),
            None => None,
        },
        _ => None,
    }
}

/// How the tree follows once what an event asked for was done about the node.
pub fn tree_update_after(kind: EventKind, node: &DbNode) -> (r: Option<TreeUpdate>)
    ensures
        match r {
            Some(u) => update_after(kind, node.view()) == Some(u.view()),
            None => update_after(kind, node.view()) is None,
        },
{
    let connection_id = node.connection_id.clone();
    let name = node.name.clone();
    match kind {
        EventKind::CloseConnection => Some(TreeUpdate::CloseConnection(connection_id)),
        EventKind::DeleteConnection => Some(TreeUpdate::Refresh(connection_id)),
        EventKind::EditDatabase => Some(TreeUpdate::Refresh(connection_id)),
        EventKind::CloseDatabase => Some(
            TreeUpdate::CloseDatabase(tree::inner_id(connection_id.as_str(), name.as_str())),
        ),
        EventKind::DeleteDatabase => Some(
            TreeUpdate::RemoveDatabase { connection_id, database: name },
        ),
        EventKind::CreateSchema => Some(
            TreeUpdate::Refresh(tree::inner_id(connection_id.as_str(), name.as_str())),
        ),
        EventKind::DeleteSchema => Some(
            TreeUpdate::RemoveSchema {
                connection_id,
                database: unwrap_or_empty(node.meta("database")),
                schema: name,
            },
        ),
        EventKind::DeleteTable => Some(TreeUpdate::RemoveTable(node.id.clone())),
        EventKind::RenameTable => {
            let database = unwrap_or_empty(node.meta("database"));
            Some(TreeUpdate::Refresh(tree::inner_id(connection_id.as_str(), database.as_str())))
        },
        EventKind::CopyTable => {
            let database = unwrap_or_empty(text::copy_opt(&node.database_name));
            Some(
                TreeUpdate::Refresh(
                    place_node_id(connection_id.as_str(), database.as_str(), &node.schema_name),
                ),
            )
        },
        EventKind::DeleteView => Some(TreeUpdate::RemoveView(node.id.clone())),
        EventKind::RenameQuery | EventKind::DeleteQuery => match &node.parent_context {
            Some(parent) => Some(TreeUpdate::Refresh(parent.clone())),
            None => None,
        },
        _ => None,
    }
}

/// How the tree follows once a form made a database under the node: the
/// database is among those that are shown, and has a node.
pub fn tree_update_after_create(node: &DbNode, database: &str, sort_key: &str) -> (r: TreeUpdate)
    ensures
        r.view() == UpdateView::AddDatabase(node.view().connection_id, database@, sort_key@),
{
    TreeUpdate::AddDatabase {
        connection_id: node.connection_id.clone(),
        database: database.to_owned(),
        sort_key: sort_key.to_owned(),
    }
}

/// How the tree follows once the designer saved a table.
pub fn tree_update_after_design(
    connection_id: &str,
    database: &str,
    schema: &Option<String>,
) -> (r: TreeUpdate)
    ensures
        r.view() == UpdateView::Refresh(place_id(connection_id@, database@, text::opt_view(*schema))),
{
    TreeUpdate::Refresh(place_node_id(connection_id, database, schema))
}

/// The tree after an update.
pub open spec fn updated(t: tree_model::Tree, u: UpdateView) -> tree_model::Tree {
    match u {
        UpdateView::Refresh(id) => t.refreshed(t.refresh_target(id)),
        UpdateView::CloseConnection(id) => t.closed(id),
        UpdateView::CloseDatabase(id) => t.closed(id),
        UpdateView::AddDatabase(c, d, k) => t.selection_added(c, d).database_added(c, d, k),
        UpdateView::RemoveDatabase(c, d) => t.inner_removed(c, tree_model::inner_id(c, d)),
        UpdateView::RemoveSchema(c, d, s) => t.inner_removed(
            tree_model::inner_id(c, d),
            tree_model::inner_id(tree_model::inner_id(c, d), s),
        ),
        UpdateView::RemoveTable(id) => t.node_removed(id).rebuilt(),
        UpdateView::RemoveView(id) => t.node_removed(id).rebuilt(),
    }
}

/// Lets the tree follow; a refresh is to be gone on with by the plan.
pub fn apply_tree_update(tree: &mut DbTreeView, update: &TreeUpdate) -> (r: (
    Option<RefreshPlan>,
    Vec<TreeAction>,
))
    ensures
        final(tree)@ == updated(old(tree)@, update.view()),
        match *update {
            TreeUpdate::Refresh(id) => {
                let target = old(tree)@.refresh_target(id@);
                match old(tree)@.node(target) {
                    Some(n) => r.0 matches Some(plan) && plan.node_id@ == target
                        && plan.connection_id@ == n.connection_id && plan.reload_children == old(
                        tree,
                    )@.expanded.contains(target) && tree_model::is_scope_of(plan.scope, n),
                    None => r.0 is None,
                }
            },
            _ => r.0 is None,
        },
        tree_types::actions(r.1@) == (match *update {
            TreeUpdate::CloseConnection(id) => seq![
                tree_types::ActionView::ClearConnectionCache(id@),
            ] + match tree_model::connection_number(id@) {
                Some(number) => seq![tree_types::ActionView::MarkInactive(number as i64)],
                None => Seq::empty(),
            },
            TreeUpdate::AddDatabase { connection_id, database, .. } => {
                old(tree)@.selection_added_request(connection_id@, database@)
            },
            _ => Seq::empty(),
        }),
{
    match update {
        TreeUpdate::Refresh(id) => (tree.refresh_tree(id.as_str()), tree_types::no_actions()),
        TreeUpdate::CloseConnection(id) => (None, tree.close_connection(id.as_str())),
        TreeUpdate::CloseDatabase(id) => {
            tree.close_database(id.as_str());
            (None, tree_types::no_actions())
        },
        TreeUpdate::AddDatabase { connection_id, database, sort_key } => {
            let actions = tree.add_database_to_selection(
                connection_id.as_str(),
                database.as_str(),
            );
            tree.add_database_node(connection_id.as_str(), database.as_str(), sort_key.as_str());
            (None, actions)
        },
        TreeUpdate::RemoveDatabase { connection_id, database } => {
            tree.remove_database_node(connection_id.as_str(), database.as_str());
            (None, tree_types::no_actions())
        },
        TreeUpdate::RemoveSchema { connection_id, database, schema } => {
            tree.remove_schema_node(connection_id.as_str(), database.as_str(), schema.as_str());
            (None, tree_types::no_actions())
        },
        TreeUpdate::RemoveTable(id) => {
            tree.remove_table_node(id.as_str());
            (None, tree_types::no_actions())
        },
        TreeUpdate::RemoveView(id) => {
            tree.remove_view_node(id.as_str());
            (None, tree_types::no_actions())
        },
    }
}

/// Shows a database (or schema) from the list of objects in the tree. Whether
/// it could be shown, and what the tree asks for.
pub fn handle_add_database_to_tree(tree: &mut DbTreeView, node: &DbNode, sort_key: &str) -> (r: (
    bool,
    Vec<TreeAction>,
))
    ensures
        ({
            let n = node.view();
            let t = old(tree)@;
            if n.node_type == DbNodeType::Schema {
                let d = or_empty(n.database_name);
                let s = match n.schema_name {
                    Some(s) => s,
                    None => n.name,
                };
                &&& final(tree)@ == t.schema_shown(n.connection_id, d, s, sort_key@)
                &&& r.0 == (t.schema_shown_id(n.connection_id, d, s, sort_key@) is Some)
                &&& tree_types::actions(r.1@) == t.schema_shown_actions(
                    n.connection_id,
                    d,
                    s,
                    sort_key@,
                )
            } else {
                let d = match n.database_name {
                    Some(d) => d,
                    None => n.name,
                };
                &&& final(tree)@ == t.database_shown(n.connection_id, d, sort_key@)
                &&& r.0 == (t.database_shown_id(n.connection_id, d, sort_key@) is Some)
                &&& tree_types::actions(r.1@) == match t.database_shown_id(
                    n.connection_id,
                    d,
                    sort_key@,
                ) {
                    Some(id) => t.database_shown_actions(n.connection_id, d, sort_key@).push(
                        tree_model::node_selected(id),
                    ),
                    None => t.database_shown_actions(n.connection_id, d, sort_key@),
                }
            }
        }),
{
    if node.node_type == DbNodeType::Schema {
        let database = unwrap_or_empty(text::copy_opt(&node.database_name));
        let schema = match &node.schema_name {
            Some(s) => s.clone(),
            None => node.name.clone(),
        };
        let (id, actions) = tree.ensure_schema_node_expanded(
            node.connection_id.as_str(),
            database.as_str(),
            schema.as_str(),
            sort_key,
        );
        return (id.is_some(), actions);
    }
    let database = match &node.database_name {
        Some(d) => d.clone(),
        None => node.name.clone(),
    };
    let (id, mut actions) = tree.ensure_database_node_expanded(
        node.connection_id.as_str(),
        database.as_str(),
        sort_key,
    );
    match id {
        Some(id) => {
            let event = DbTreeViewEvent::NodeSelected { node_id: id };
            tree_types::push_action(&mut actions, TreeAction::Emit(event));
            (true, actions)
        },
        None => (false, actions),
    }
}

// ---------------------------------------------------------------------------
// Batches
// ---------------------------------------------------------------------------

/// What is done with several nodes at once.
#[derive(Debug, Clone, Copy, PartialEq, Eq, Structural)]
pub enum DatabaseObjectsBatchAction {
    DeleteConnection,
    DeleteDatabase,
    DeleteSchema,
    DeleteTable,
    DeleteView,
    DeleteQuery,
}

/// One step of a batch.
#[derive(Debug)]
#[allow(inconsistent_fields)]
pub enum BatchStep {
    /// Nothing is to be done about the node.
    Skip,
    DeleteConnection { number: Option<i64> },
    DropDatabase { connection_id: String, database: String },
    DropSchema { connection_id: String, database: String, schema: String, plain_sql: String },
    DropTable {
        connection_id: String,
        database: String,
        schema: Option<String>,
        table: String,
    },
    DropView { connection_id: String, database: String, view: String },
    DeleteFile { path: String },
}

/// `step` is what the batch does about the node `n`.
pub open spec fn is_step(
    action: DatabaseObjectsBatchAction,
    n: db_node::NodeView,
    step: BatchStep,
) -> bool {
    match action {
        DatabaseObjectsBatchAction::DeleteConnection => step matches BatchStep::DeleteConnection {
            number,
        } && (match number {
            Some(v) => tree_model::connection_number(n.connection_id) == Some(v as int),
            None => tree_model::connection_number(n.connection_id) is None,
        }),
        DatabaseObjectsBatchAction::DeleteDatabase => step matches BatchStep::DropDatabase {
            connection_id,
            database,
        } && connection_id@ == n.connection_id && database@ == n.name,
        DatabaseObjectsBatchAction::DeleteSchema => step matches BatchStep::DropSchema {
            connection_id,
            database,
            schema,
            plain_sql,
        } && connection_id@ == n.connection_id && database@ == meta_database(n) && schema@ == n.name
            && plain_sql@ == drop_schema_text(n.name),
        DatabaseObjectsBatchAction::DeleteTable => step matches BatchStep::DropTable {
            connection_id,
            database,
            schema,
            table,
        } && connection_id@ == n.connection_id && (database@, text::opt_view(schema)) == drop_place(
            n.database_name,
            n.schema_name,
        ) && table@ == (match n.table_name {
            Some(t) => t,
            None => n.name,
        }),
        DatabaseObjectsBatchAction::DeleteView => step matches BatchStep::DropView {
            connection_id,
            database,
            view,
        } && connection_id@ == n.connection_id && database@ == meta_database(n) && view@ == n.name,
        DatabaseObjectsBatchAction::DeleteQuery => match db_node::lookup(
            n.metadata,
            "file_path"@,
        ) {
            Some(p) => step matches BatchStep::DeleteFile { path } && path@ == p,
            None => step is Skip,
        },
    }
}

/// What the batch does about the node.
pub fn batch_step(action: DatabaseObjectsBatchAction, node: &DbNode) -> (r: BatchStep)
    ensures
        is_step(action, node.view(), r),
{
    let connection_id = node.connection_id.clone();
    let name = node.name.clone();
    match action {
        DatabaseObjectsBatchAction::DeleteConnection => BatchStep::DeleteConnection {
            number: text::parse_i64(connection_id.as_str()),
        },
        DatabaseObjectsBatchAction::DeleteDatabase => BatchStep::DropDatabase {
            connection_id,
            database: name,
        },
        DatabaseObjectsBatchAction::DeleteSchema => BatchStep::DropSchema {
            connection_id,
            database: unwrap_or_empty(node.meta("database")),
            plain_sql: drop_schema_sql(name.as_str()),
            schema: name,
        },
        DatabaseObjectsBatchAction::DeleteTable => {
            let (database, schema) = drop_table_place(&node.database_name, &node.schema_name);
            let table = match &node.table_name {
                Some(t) => t.clone(),
                None => name,
            };
            BatchStep::DropTable { connection_id, database, schema, table }
        },
        DatabaseObjectsBatchAction::DeleteView => BatchStep::DropView {
            connection_id,
            database: unwrap_or_empty(node.meta("database")),
            view: name,
        },
        DatabaseObjectsBatchAction::DeleteQuery => match node.meta("file_path") {
            Some(path) => BatchStep::DeleteFile { path },
            None => BatchStep::Skip,
        },
    }
}

/// The ids of the nodes above the given ones, each once.
pub fn query_parents(nodes: &Vec<DbNode>) -> (r: Vec<String>)
    ensures
        text::views(r@).no_duplicates(),
        forall|p: Seq<char>|
            text::views(r@).contains(p) <==> exists|i: int|
                0 <= i < nodes@.len() && (#[trigger] nodes@[i]).view().parent_context == Some(p),
{
    let mut parents = StrSet::new();
    let mut i: usize = 0;
    while i < nodes.len()
        invariant
            i <= nodes@.len(),
            forall|p: Seq<char>|
                parents@.contains(p) <==> exists|j: int|
                    0 <= j < i && (#[trigger] nodes@[j]).view().parent_context == Some(p),
        decreases nodes@.len() - i,
    {
        let ghost before = parents@;
        if let Some(parent) = &nodes[i].parent_context {
            parents.insert(parent.clone());
        }
        assert forall|p: Seq<char>| parents@.contains(p) implies exists|j: int|
            0 <= j < i + 1 && (#[trigger] nodes@[j]).view().parent_context == Some(p) by {
            if before.contains(p) {
                let j = choose|j: int|
                    0 <= j < i && (#[trigger] nodes@[j]).view().parent_context == Some(p);
                assert(nodes@[j].view().parent_context == Some(p));
            } else {
                assert(nodes@[i as int].view().parent_context == Some(p));
            }
        }
        i = i + 1;
    }
    let r = parents.to_vec();
    assert forall|p: Seq<char>| #[trigger]
        text::views(r@).contains(p) <==> exists|i: int|
            0 <= i < nodes@.len() && (#[trigger] nodes@[i]).view().parent_context == Some(p) by {
        assert(text::views(r@).to_set().contains(p) == text::views(r@).contains(p));
        assert(parents@.contains(p) == text::views(r@).contains(p));
    }
    r
}

/// What came of one step of a batch.
#[derive(Debug)]
pub enum StepResult {
    /// The node is gone.
    Done,
    /// Nothing was done, and nothing went wrong.
    Ignored,
    /// Something went wrong.
    Failed(String),
    /// Something went wrong, in words that name the node already.
    FailedInWords(String),
}

/// The mathematical value of a [`StepResult`].
pub ghost enum ResultView {
    Done,
    Ignored,
    Failed(Seq<char>),
    FailedInWords(Seq<char>),
}

impl StepResult {
    /// The mathematical value of the result.
    pub open spec fn view(&self) -> ResultView {
        match *self {
            StepResult::Done => ResultView::Done,
            StepResult::Ignored => ResultView::Ignored,
            StepResult::Failed(e) => ResultView::Failed(e@),
            StepResult::FailedInWords(e) => ResultView::FailedInWords(e@),
        }
    }
}

/// What came of a step that was a statement.
pub fn step_result(outcome: StatementOutcome) -> (r: StepResult)
    ensures
        r@ == (match outcome {
            StatementOutcome::Ignored => ResultView::Ignored,
            StatementOutcome::Done => ResultView::Done,
            StatementOutcome::Failed(message) => ResultView::Failed(message@),
        }),
{
    match outcome {
        StatementOutcome::Ignored => StepResult::Ignored,
        StatementOutcome::Done => StepResult::Done,
        StatementOutcome::Failed(message) => StepResult::Failed(message),
    }
}

/// The update that follows once the batch has removed the node. A stored query
/// is no node of its own; what is above it is shown again at the end.
pub open spec fn batch_update(
    action: DatabaseObjectsBatchAction,
    n: db_node::NodeView,
) -> Option<UpdateView> {
    match action {
        DatabaseObjectsBatchAction::DeleteConnection => Some(UpdateView::Refresh(n.connection_id)),
        DatabaseObjectsBatchAction::DeleteDatabase => Some(
            UpdateView::RemoveDatabase(n.connection_id, n.name),
        ),
        DatabaseObjectsBatchAction::DeleteSchema => Some(
            UpdateView::RemoveSchema(n.connection_id, meta_database(n), n.name),
        ),
        DatabaseObjectsBatchAction::DeleteTable => Some(UpdateView::RemoveTable(n.id)),
        DatabaseObjectsBatchAction::DeleteView => Some(UpdateView::RemoveView(n.id)),
        DatabaseObjectsBatchAction::DeleteQuery => None,
    }
}

/// The update that follows once the batch has removed the node.
fn make_batch_update(action: DatabaseObjectsBatchAction, node: &DbNode) -> (r: Option<TreeUpdate>)
    ensures
        match r {
            Some(u) => batch_update(action, node.view()) == Some(u.view()),
            None => batch_update(action, node.view()) is None,
        },
{
    let connection_id = node.connection_id.clone();
    let name = node.name.clone();
    match action {
        DatabaseObjectsBatchAction::DeleteConnection => Some(TreeUpdate::Refresh(connection_id)),
        DatabaseObjectsBatchAction::DeleteDatabase => Some(
            TreeUpdate::RemoveDatabase { connection_id, database: name },
        ),
        DatabaseObjectsBatchAction::DeleteSchema => Some(
            TreeUpdate::RemoveSchema {
                connection_id,
                database: unwrap_or_empty(node.meta("database")),
                schema: name,
            },
        ),
        DatabaseObjectsBatchAction::DeleteTable => Some(TreeUpdate::RemoveTable(node.id.clone())),
        DatabaseObjectsBatchAction::DeleteView => Some(TreeUpdate::RemoveView(node.id.clone())),
        DatabaseObjectsBatchAction::DeleteQuery => None,
    }
}

/// The values of a list of updates.
pub open spec fn update_views(v: Seq<TreeUpdate>) -> Seq<UpdateView> {
    Seq::new(v.len(), |i: int| v[i].view())
}

/// The values of a list of nodes.
pub open spec fn node_views(v: Seq<DbNode>) -> Seq<db_node::NodeView> {
    Seq::new(v.len(), |i: int| v[i].view())
}

/// An error with the name of what it is about.
pub open spec fn named_error(name: Seq<char>, error: Seq<char>) -> Seq<char> {
    name + ": "@ + error
}

/// The name of a node in the errors of a batch: that of its table where it
/// is one of a batch of tables.
pub open spec fn name_in_batch(action: DatabaseObjectsBatchAction, n: db_node::NodeView) -> Seq<
    char,
> {
    match (action, n.table_name) {
        (DatabaseObjectsBatchAction::DeleteTable, Some(t)) => t,
        _ => n.name,
    }
}

/// A batch and how far it is: the nodes before `next` are done.
#[derive(Debug)]
pub struct BatchRun {
    action: DatabaseObjectsBatchAction,
    nodes: Vec<DbNode>,
    next: usize,
    removed: usize,
    errors: Vec<String>,
    updates: Vec<TreeUpdate>,
}

/// The mathematical value of a [`BatchRun`].
pub ghost struct BatchView {
    pub action: DatabaseObjectsBatchAction,
    pub nodes: Seq<db_node::NodeView>,
    pub next: int,
    pub removed: int,
    pub errors: Seq<Seq<char>>,
    pub updates: Seq<UpdateView>,
}

/// A batch that has not begun.
pub open spec fn batch_started(
    action: DatabaseObjectsBatchAction,
    nodes: Seq<db_node::NodeView>,
) -> BatchView {
    BatchView {
        action,
        nodes,
        next: 0,
        removed: 0,
        errors: Seq::empty(),
        updates: Seq::empty(),
    }
}

/// The batch after what came of its next step.
pub open spec fn batch_after(b: BatchView, result: ResultView) -> BatchView {
    let n = b.nodes[b.next];
    match result {
        ResultView::Done => BatchView {
            next: b.next + 1,
            removed: b.removed + 1,
            updates: match batch_update(b.action, n) {
                Some(u) => b.updates.push(u),
                None => b.updates,
            },
            ..b
        },
        ResultView::Ignored => BatchView { next: b.next + 1, ..b },
        ResultView::Failed(e) => BatchView {
            next: b.next + 1,
            errors: b.errors.push(named_error(name_in_batch(b.action, n), e)),
            ..b
        },
        ResultView::FailedInWords(e) => BatchView {
            next: b.next + 1,
            errors: b.errors.push(e),
            ..b
        },
    }
}

/// The batch after what came of its first steps.
pub open spec fn batch_course(
    action: DatabaseObjectsBatchAction,
    nodes: Seq<db_node::NodeView>,
    results: Seq<ResultView>,
) -> BatchView
    decreases results.len(),
{
    if results.len() == 0 {
        batch_started(action, nodes)
    } else {
        batch_after(batch_course(action, nodes, results.drop_last()), results.last())
    }
}

/// How many nodes a batch without errors reports: stored queries are counted
/// as they were asked for.
pub open spec fn batch_count(b: BatchView) -> int {
    if b.action == DatabaseObjectsBatchAction::DeleteQuery {
        b.nodes.len() as int
    } else {
        b.removed
    }
}

/// `updates` shows what is above each node again, once.
pub open spec fn refreshes_parents(
    nodes: Seq<db_node::NodeView>,
    updates: Seq<UpdateView>,
) -> bool {
    &&& updates.no_duplicates()
    &&& forall|u: UpdateView|
        updates.contains(u) <==> exists|i: int|
            0 <= i < nodes.len() && (#[trigger] nodes[i]).parent_context is Some && u
                == UpdateView::Refresh(nodes[i].parent_context->0)
}

/// What follows the end of a batch.
#[derive(Debug)]
pub struct BatchEnd {
    /// How the tree is to follow.
    pub updates: Vec<TreeUpdate>,
    /// The list of objects is shown again.
    pub refresh_objects: bool,
    /// How many nodes are gone, or the errors together.
    pub summary: Result<usize, String>,
}

impl BatchRun {
    /// The mathematical value of the batch.
    pub closed spec fn view(&self) -> BatchView {
        BatchView {
            action: self.action,
            nodes: node_views(self.nodes@),
            next: self.next as int,
            removed: self.removed as int,
            errors: text::views(self.errors@),
            updates: update_views(self.updates@),
        }
    }

    /// The batch goes no further than its nodes do, and removes no more.
    #[verifier::type_invariant]
    spec fn within(self) -> bool {
        self.removed <= self.next <= self.nodes@.len()
    }

    /// Begins a batch; nothing where there are no nodes.
    pub fn start(action: DatabaseObjectsBatchAction, nodes: Vec<DbNode>) -> (r: Option<BatchRun>)
        ensures
            match r {
                Some(run) => nodes@.len() > 0 && run@ == batch_started(action, node_views(nodes@)),
                None => nodes@.len() == 0,
            },
    {
        if nodes.len() == 0 {
            return None;
        }
        let run = BatchRun {
            action,
            nodes,
            next: 0,
            removed: 0,
            errors: Vec::new(),
            updates: Vec::new(),
        };
        assert(run@.errors =~= Seq::empty());
        assert(run@.updates =~= Seq::empty());
        Some(run)
    }

    /// The next step; none where all nodes are done.
    pub fn current(&self) -> (r: Option<BatchStep>)
        ensures
            match r {
                Some(step) => 0 <= self@.next < self@.nodes.len() && is_step(
                    self@.action,
                    self@.nodes[self@.next],
                    step,
                ),
                None => self@.next == self@.nodes.len(),
            },
    {
        proof {
            use_type_invariant(self);
        }
        if self.next < self.nodes.len() {
            Some(batch_step(self.action, &self.nodes[self.next]))
        } else {
            None
        }
    }

    /// Takes over what came of the next step; nothing where all nodes are
    /// done.
    pub fn took(self, result: StepResult) -> (r: BatchRun)
        ensures
            r@ == (if self@.next < self@.nodes.len() {
                batch_after(self@, result@)
            } else {
                self@
            }),
    {
        proof {
            use_type_invariant(&self);
        }
        let ghost before = self@;
        if self.next >= self.nodes.len() {
            return self;
        }
        let action = self.action;
        let next: usize = self.next;
        let mut removed: usize = self.removed;
        let mut errors = self.errors;
        let mut updates = self.updates;
        let ghost errors_before = errors@;
        let ghost updates_before = updates@;
        match result {
            StepResult::Done => {
                if let Some(update) = make_batch_update(action, &self.nodes[next]) {
                    updates.push(update);
                    assert(update_views(updates@) =~= update_views(updates_before).push(
                        update.view(),
                    ));
                }
                removed = removed + 1;
            },
            StepResult::Ignored => {},
            StepResult::Failed(e) => {
                let mut line = match (action, &self.nodes[next].table_name) {
                    (DatabaseObjectsBatchAction::DeleteTable, Some(t)) => t.clone(),
                    _ => self.nodes[next].name.clone(),
                };
                line.append(": ");
                line.append(e.as_str());
                errors.push(line);
                assert(text::views(errors@) =~= text::views(errors_before).push(line@));
            },
            StepResult::FailedInWords(e) => {
                errors.push(e);
                assert(text::views(errors@) =~= text::views(errors_before).push(e@));
            },
        }
        assert(before.nodes[before.next] == self.nodes@[next as int].view());
        BatchRun { action, nodes: self.nodes, next: next + 1, removed, errors, updates }
    }

    /// Ends the batch.
    pub fn finish(self) -> (r: BatchEnd)
        ensures
            self@.action == DatabaseObjectsBatchAction::DeleteQuery ==> refreshes_parents(
                self@.nodes,
                update_views(r.updates@),
            ),
            self@.action != DatabaseObjectsBatchAction::DeleteQuery ==> update_views(r.updates@)
                == self@.updates,
            r.refresh_objects == (self@.action == DatabaseObjectsBatchAction::DeleteQuery
                || self@.removed > 0),
            match r.summary {
                Ok(count) => self@.errors.len() == 0 && count == batch_count(self@),
                Err(message) => self@.errors.len() > 0 && message@ == text::joined(
                    self@.errors,
                    "; "@,
                ),
            },
    {
        let is_query = self.action == DatabaseObjectsBatchAction::DeleteQuery;
        let summary = if self.errors.len() == 0 {
            Ok(if is_query {
                self.nodes.len()
            } else {
                self.removed
            })
        } else {
            Err(text::join(&self.errors, "; "))
        };
        let updates = if is_query {
            parent_updates(&self.nodes)
        } else {
            self.updates
        };
        BatchEnd { updates, refresh_objects: is_query || self.removed > 0, summary }
    }
}

/// The updates that show what is above the given nodes again.
fn parent_updates(nodes: &Vec<DbNode>) -> (r: Vec<TreeUpdate>)
    ensures
        refreshes_parents(node_views(nodes@), update_views(r@)),
{
    let parents = query_parents(nodes);
    let ghost ps = text::views(parents@);
    let mut updates: Vec<TreeUpdate> = Vec::new();
    let mut i: usize = 0;
    while i < parents.len()
        invariant
            i <= parents@.len(),
            ps == text::views(parents@),
            updates@.len() == i,
            forall|k: int|
                0 <= k < i ==> (#[trigger] update_views(updates@)[k]) == UpdateView::Refresh(ps[k]),
        decreases parents@.len() - i,
    {
        let ghost before = updates@;
        updates.push(TreeUpdate::Refresh(parents[i].clone()));
        assert forall|k: int| 0 <= k < i + 1 implies (#[trigger] update_views(updates@)[k])
            == UpdateView::Refresh(ps[k]) by {
            if k < i {
                assert(update_views(before)[k] == UpdateView::Refresh(ps[k]));
            }
        }
        i = i + 1;
    }
    let ghost us = update_views(updates@);
    let ghost ns = node_views(nodes@);
    proof {
        assert forall|a: int, b: int| 0 <= a < us.len() && 0 <= b < us.len() && a != b implies us[a]
            != us[b] by {
            assert(ps[a] != ps[b]);
        }
        assert forall|u: UpdateView|
            us.contains(u) <==> exists|i: int|
                0 <= i < ns.len() && (#[trigger] ns[i]).parent_context is Some && u
                    == UpdateView::Refresh(ns[i].parent_context->0) by {
            if us.contains(u) {
                let k = choose|k: int| 0 <= k < us.len() && us[k] == u;
                assert(ps.contains(ps[k]));
                let i = choose|i: int|
                    0 <= i < nodes@.len() && (#[trigger] nodes@[i]).view().parent_context == Some(
                        ps[k],
                    );
                assert(ns[i] == nodes@[i].view());
            }
            if exists|i: int|
                0 <= i < ns.len() && (#[trigger] ns[i]).parent_context is Some && u
                    == UpdateView::Refresh(ns[i].parent_context->0) {
                let i = choose|i: int|
                    0 <= i < ns.len() && (#[trigger] ns[i]).parent_context is Some && u
                        == UpdateView::Refresh(ns[i].parent_context->0);
                let p = ns[i].parent_context->0;
                assert(nodes@[i].view().parent_context == Some(p));
                assert(ps.contains(p));
                let k = choose|k: int| 0 <= k < ps.len() && ps[k] == p;
                assert(us[k] == u);
            }
        }
    }
    updates
}

/// A batch accounts for every step: what was not ignored is either gone or
/// among the errors, and the tree follows just what is gone.
pub proof fn law_batch_accounts(
    action: DatabaseObjectsBatchAction,
    nodes: Seq<db_node::NodeView>,
    results: Seq<ResultView>,
)
    requires
        results.len() <= nodes.len(),
    ensures
        ({
            let b = batch_course(action, nodes, results);
            &&& b.action == action && b.nodes == nodes && b.next == results.len()
            &&& 0 <= b.removed && b.removed + b.errors.len() <= results.len()
            &&& !results.contains(ResultView::Ignored) ==> b.removed + b.errors.len()
                == results.len()
            &&& action != DatabaseObjectsBatchAction::DeleteQuery ==> b.updates.len() == b.removed
        }),
    decreases results.len(),
{
    if results.len() > 0 {
        let front = results.drop_last();
        law_batch_accounts(action, nodes, front);
        assert(results.contains(results.last()));
        if front.contains(ResultView::Ignored) {
            let i = choose|i: int| 0 <= i < front.len() && front[i] == ResultView::Ignored;
            assert(results[i] == ResultView::Ignored);
        }
    }
}

/// A batch in which every step succeeds reports every node, and lets the tree
/// follow for each of them in turn.
pub proof fn law_batch_succeeds(
    action: DatabaseObjectsBatchAction,
    nodes: Seq<db_node::NodeView>,
    results: Seq<ResultView>,
)
    requires
        results.len() <= nodes.len(),
        forall|i: int| 0 <= i < results.len() ==> results[i] == ResultView::Done,
    ensures
        ({
            let b = batch_course(action, nodes, results);
            &&& b.errors.len() == 0
            &&& b.removed == results.len()
            &&& results.len() == nodes.len() ==> batch_count(b) == nodes.len()
            &&& action != DatabaseObjectsBatchAction::DeleteQuery ==> b.updates.len()
                == results.len() && forall|i: int|
                0 <= i < results.len() ==> Some(#[trigger] b.updates[i]) == batch_update(
                    action,
                    nodes[i],
                )
        }),
    decreases results.len(),
{
    law_batch_accounts(action, nodes, results);
    if results.len() > 0 {
        let front = results.drop_last();
        assert forall|i: int| 0 <= i < front.len() implies front[i] == ResultView::Done by {
            assert(results[i] == ResultView::Done);
        }
        law_batch_succeeds(action, nodes, front);
        law_batch_accounts(action, nodes, front);
        assert(results.last() == ResultView::Done);
    }
}

/// An event from the list of objects.
#[derive(Debug, Clone, Copy, PartialEq, Eq, Structural)]
pub enum DatabaseObjectsEvent {
    Refresh,
    AddDatabaseToTree,
    CreateDatabase,
    EditDatabase,
    DeleteDatabase,
    DeleteConnection,
    CloseConnection,
    OpenTableData,
    DesignTable,
    DeleteTable,
    OpenViewData,
    DeleteView,
    CreateNewQuery,
    OpenNamedQuery,
    RenameQuery,
    DeleteQuery,
    DeleteSchema,
    CreateSchema,
    Batch(DatabaseObjectsBatchAction),
}

/// Where an event came from.
#[derive(Debug, Clone, Copy, PartialEq, Eq, Structural)]
pub enum EventOrigin {
    Tree,
    Objects,
}

/// What the event asks for changes what the list of objects shows, and the
/// list follows where the event came from it.
pub open spec fn changes_objects(kind: EventKind) -> bool {
    kind == EventKind::CreateDatabase || kind == EventKind::EditDatabase || kind
        == EventKind::DeleteDatabase || kind == EventKind::DeleteConnection || kind
        == EventKind::CloseConnection || kind == EventKind::CreateSchema || kind
        == EventKind::DeleteSchema || kind == EventKind::DeleteTable || kind
        == EventKind::DeleteView || kind == EventKind::DeleteQuery
}

/// The list of objects is shown again once what an event asked for was done:
/// always after a table was copied or its design saved, and after other
/// changes where the event came from the list.
pub open spec fn objects_follow(kind: EventKind, origin: EventOrigin) -> bool {
    kind == EventKind::CopyTable || kind == EventKind::DesignTable || (origin
        == EventOrigin::Objects && changes_objects(kind))
}

/// Whether the list of objects is shown again once what an event asked for was
/// done. After a failure it is not.
pub fn refreshes_objects(kind: EventKind, origin: EventOrigin, done: bool) -> (r: bool)
    ensures
        r == (done && objects_follow(kind, origin)),
{
    if !done {
        return false;
    }
    match kind {
        EventKind::CopyTable | EventKind::DesignTable => true,
        EventKind::CreateDatabase
        | EventKind::EditDatabase
        | EventKind::DeleteDatabase
        | EventKind::DeleteConnection
        | EventKind::CloseConnection
        | EventKind::CreateSchema
        | EventKind::DeleteSchema
        | EventKind::DeleteTable
        | EventKind::DeleteView
        | EventKind::DeleteQuery => origin == EventOrigin::Objects,
        _ => false,
    }
}

/// How an event from the list of objects is handled.
#[derive(Debug, Clone, Copy, PartialEq, Eq, Structural)]
pub enum ObjectsRequest {
    /// As the event of the tree of this kind.
    Task(EventKind),
    /// By [`handle_add_database_to_tree`].
    AddToTree,
    /// As a batch.
    Batch(DatabaseObjectsBatchAction),
}

/// How an event from the list of objects is handled.
pub open spec fn objects_request_of(event: DatabaseObjectsEvent) -> ObjectsRequest {
    match event {
        DatabaseObjectsEvent::Refresh => ObjectsRequest::Task(EventKind::NodeSelected),
        DatabaseObjectsEvent::AddDatabaseToTree => ObjectsRequest::AddToTree,
        DatabaseObjectsEvent::CreateDatabase => ObjectsRequest::Task(EventKind::CreateDatabase),
        DatabaseObjectsEvent::EditDatabase => ObjectsRequest::Task(EventKind::EditDatabase),
        DatabaseObjectsEvent::DeleteDatabase => ObjectsRequest::Task(EventKind::DeleteDatabase),
        DatabaseObjectsEvent::DeleteConnection => ObjectsRequest::Task(EventKind::DeleteConnection),
        DatabaseObjectsEvent::CloseConnection => ObjectsRequest::Task(EventKind::CloseConnection),
        DatabaseObjectsEvent::OpenTableData => ObjectsRequest::Task(EventKind::OpenTableData),
        DatabaseObjectsEvent::DesignTable => ObjectsRequest::Task(EventKind::DesignTable),
        DatabaseObjectsEvent::DeleteTable => ObjectsRequest::Task(EventKind::DeleteTable),
        DatabaseObjectsEvent::OpenViewData => ObjectsRequest::Task(EventKind::OpenViewData),
        DatabaseObjectsEvent::DeleteView => ObjectsRequest::Task(EventKind::DeleteView),
        DatabaseObjectsEvent::CreateNewQuery => ObjectsRequest::Task(EventKind::CreateNewQuery),
        DatabaseObjectsEvent::OpenNamedQuery => ObjectsRequest::Task(EventKind::OpenNamedQuery),
        DatabaseObjectsEvent::RenameQuery => ObjectsRequest::Task(EventKind::RenameQuery),
        DatabaseObjectsEvent::DeleteQuery => ObjectsRequest::Task(EventKind::DeleteQuery),
        DatabaseObjectsEvent::DeleteSchema => ObjectsRequest::Task(EventKind::DeleteSchema),
        DatabaseObjectsEvent::CreateSchema => ObjectsRequest::Task(EventKind::CreateSchema),
        DatabaseObjectsEvent::Batch(action) => ObjectsRequest::Batch(action),
    }
}

/// How an event from the list of objects is handled.
pub fn handle_objects_event(event: DatabaseObjectsEvent) -> (r: ObjectsRequest)
    ensures
        r == objects_request_of(event),
{
    match event {
        DatabaseObjectsEvent::Refresh => ObjectsRequest::Task(EventKind::NodeSelected),
        DatabaseObjectsEvent::AddDatabaseToTree => ObjectsRequest::AddToTree,
        DatabaseObjectsEvent::CreateDatabase => ObjectsRequest::Task(EventKind::CreateDatabase),
        DatabaseObjectsEvent::EditDatabase => ObjectsRequest::Task(EventKind::EditDatabase),
        DatabaseObjectsEvent::DeleteDatabase => ObjectsRequest::Task(EventKind::DeleteDatabase),
        DatabaseObjectsEvent::DeleteConnection => ObjectsRequest::Task(EventKind::DeleteConnection),
        DatabaseObjectsEvent::CloseConnection => ObjectsRequest::Task(EventKind::CloseConnection),
        DatabaseObjectsEvent::OpenTableData => ObjectsRequest::Task(EventKind::OpenTableData),
        DatabaseObjectsEvent::DesignTable => ObjectsRequest::Task(EventKind::DesignTable),
        DatabaseObjectsEvent::DeleteTable => ObjectsRequest::Task(EventKind::DeleteTable),
        DatabaseObjectsEvent::OpenViewData => ObjectsRequest::Task(EventKind::OpenViewData),
        DatabaseObjectsEvent::DeleteView => ObjectsRequest::Task(EventKind::DeleteView),
        DatabaseObjectsEvent::CreateNewQuery => ObjectsRequest::Task(EventKind::CreateNewQuery),
        DatabaseObjectsEvent::OpenNamedQuery => ObjectsRequest::Task(EventKind::OpenNamedQuery),
        DatabaseObjectsEvent::RenameQuery => ObjectsRequest::Task(EventKind::RenameQuery),
        DatabaseObjectsEvent::DeleteQuery => ObjectsRequest::Task(EventKind::DeleteQuery),
        DatabaseObjectsEvent::DeleteSchema => ObjectsRequest::Task(EventKind::DeleteSchema),
        DatabaseObjectsEvent::CreateSchema => ObjectsRequest::Task(EventKind::CreateSchema),
        DatabaseObjectsEvent::Batch(action) => ObjectsRequest::Batch(action),
    }
}

} // verus!
