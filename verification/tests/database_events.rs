//! What follows from events of the database tree, on concrete values.
use onetcli::db_node::{DatabaseType, DbNode, DbNodeType};
use onetcli::dump_target::{
    resolve_sql_dump_target, sanitize_dump_filename_component, sql_dump_filename,
};
use onetcli::sql_dump::{
    append_dump_chunk, log_line, log_line_height, ChunkWrite, DumpStart, ExportProgressEvent, LogMessage,
    SqlDumpView,
};
use onetcli::tree_events::{
    batch_step, check_new_name, drop_schema_sql, drop_table_place, is_blank_statement,
    query_file_name, refreshes_objects, script_outcome, statement_outcome, task_for,
    tree_update_after, BatchRun, BatchStep, DatabaseObjectsBatchAction, EventOrigin, NodeTask, SqlResult, StatementOutcome, StepResult, TreeUpdate,
};
use onetcli::tree_menu::{
    connection_number, get_icon_for_node, get_icon_for_node_type, is_node_active, render_context_menu_items,
    ContextMenuEvent, ContextMenuItem, MenuEntry, NodeIcon,
};
use onetcli::tree_types::{DbTreeViewEvent, EventKind, SqlDumpMode};

fn node_with_metadata(node_type: DbNodeType, name: &str, metadata: &[(&str, &str)]) -> DbNode {
    let mut node = DbNode::new(
        "node-id".to_string(),
        name.to_string(),
        node_type,
        "conn-1".to_string(),
        DatabaseType::PostgreSQL,
        name.to_string(),
    );
    for (key, value) in metadata {
        node.metadata.push((key.to_string(), value.to_string()));
        match *key {
            "database" => node.database_name = Some(value.to_string()),
            "schema" => node.schema_name = Some(value.to_string()),
            _ => {}
        }
    }
    match node_type {
        DbNodeType::Schema => node.schema_name = Some(name.to_string()),
        DbNodeType::Table => node.table_name = Some(name.to_string()),
        _ => {}
    }
    node
}

#[test]
fn resolves_table_dump_target_with_database_and_schema() {
    let node = node_with_metadata(
        DbNodeType::Table,
        "orders",
        &[("database", "sales"), ("schema", "public")],
    );

    let target = resolve_sql_dump_target(&node).expect("table target should resolve");

    assert_eq!("sales", target.database);
    assert_eq!(Some("public"), target.schema.as_deref());
    assert_eq!(Some("orders"), target.table.as_deref());
}

#[test]
fn resolves_schema_dump_target_without_treating_schema_as_database() {
    let node = node_with_metadata(DbNodeType::Schema, "public", &[("database", "analytics")]);

    let target = resolve_sql_dump_target(&node).expect("schema target should resolve");

    assert_eq!("analytics", target.database);
    assert_eq!(Some("public"), target.schema.as_deref());
    assert_eq!(None, target.table.as_deref());
}

#[test]
fn sanitizes_dump_filename_components_for_path_safe_output() {
    assert_eq!(
        "sales_public",
        sanitize_dump_filename_component("sales/public")
    );
    assert_eq!("dump", sanitize_dump_filename_component(" \t\n"));
}

#[test]
fn builds_dump_filename_with_schema_and_table_context() {
    let filename = sql_dump_filename(
        "sales/db",
        Some("public:schema"),
        Some("orders*2026"),
        "2026-05-24_10-00-00",
    );

    assert_eq!(
        "sales_db_public_schema_orders_2026_2026-05-24_10-00-00.sql",
        filename
    );
}

#[test]
fn dump_target_needs_a_database() {
    let node = node_with_metadata(DbNodeType::Table, "orders", &[]);
    assert!(resolve_sql_dump_target(&node).is_none());
}

fn dump_view(table: Option<&str>, mode: SqlDumpMode) -> SqlDumpView {
    SqlDumpView::new(
        "conn-1".to_string(),
        "PostgreSQL".to_string(),
        "sales".to_string(),
        None,
        table.map(|t| t.to_string()),
        "/tmp/out".to_string(),
        mode,
    )
}

#[test]
fn dump_of_one_table_starts_with_its_export() {
    let mut view = dump_view(Some("orders"), SqlDumpMode::StructureOnly);
    match view.start_dump("now") {
        DumpStart::Export { filename, request } => {
            assert_eq!(filename, "sales_orders_now.sql");
            assert_eq!(request.tables, vec!["orders".to_string()]);
            assert!(request.include_schema);
            assert!(!request.include_data);
        }
        _ => panic!("one table is exported at once"),
    }
    assert!(view.is_running);
    assert!(matches!(view.start_dump("later"), DumpStart::AlreadyRunning));
}

#[test]
fn dump_of_a_database_lists_its_tables_first() {
    let mut view = dump_view(None, SqlDumpMode::StructureAndData);
    assert!(matches!(
        view.start_dump("now"),
        DumpStart::ListTables { filename } if filename == "sales_now.sql"
    ));
    let request = view
        .tables_listed(Ok(vec!["a".to_string(), "b".to_string()]))
        .unwrap();
    assert_eq!(request.tables.len(), 2);
    assert!(request.include_schema && request.include_data);
}

#[test]
fn dump_that_cannot_list_its_tables_ends_with_an_error() {
    let mut view = dump_view(None, SqlDumpMode::DataOnly);
    view.start_dump("now");
    assert!(view.tables_listed(Err("refused".to_string())).is_none());
    assert_eq!(view.error_count, 1);
    assert!(!view.is_running);
    assert!(view
        .logs
        .iter()
        .any(|l| matches!(&l.message, LogMessage::FetchTablesFailed(e) if e == "refused")));
}

#[test]
fn dump_counts_rows_and_errors() {
    let mut view = dump_view(Some("orders"), SqlDumpMode::DataOnly);
    view.start_dump("now");
    view.take_event(
        ExportProgressEvent::DataExported {
            table: "orders".to_string(),
            rows: 12,
            data: "INSERT".to_string(),
        },
        "1s".to_string(),
        "1".to_string(),
    );
    view.take_event(
        ExportProgressEvent::Error {
            table: "orders".to_string(),
            message: "lost".to_string(),
        },
        "1s".to_string(),
        "1".to_string(),
    );
    assert_eq!(view.transferred_records, 12);
    assert_eq!(view.processed_records, 12);
    assert_eq!(view.error_count, 1);
    view.finish(Ok(()), "/tmp/out/x.sql");
    assert!(view.is_finished);
    assert!(!view.is_running);
}

#[test]
fn dump_file_is_made_by_its_first_piece() {
    assert_eq!(append_dump_chunk("", false), ChunkWrite::Nothing);
    assert_eq!(append_dump_chunk("x", false), ChunkWrite::Create);
    assert_eq!(append_dump_chunk("x", true), ChunkWrite::Append);
}

#[test]
fn log_lines_name_their_table() {
    assert!(log_line("orders", "done").contains("orders"));
    assert!(log_line("orders", "done").contains("done"));
}

#[test]
fn schema_names_are_quoted() {
    assert_eq!(drop_schema_sql("a\"b"), "DROP SCHEMA \"a\"\"b\"");
    assert_eq!(drop_schema_sql("plain"), "DROP SCHEMA \"plain\"");
}

#[test]
fn new_names_are_trimmed_and_have_to_differ() {
    assert_eq!(check_new_name("  b ", "a").as_deref(), Some("b"));
    assert_eq!(check_new_name("a", "a"), None);
    assert_eq!(check_new_name("   ", "a"), None);
}

#[test]
fn outcomes_of_statements() {
    assert!(matches!(
        statement_outcome(Ok(SqlResult::Exec)),
        StatementOutcome::Done
    ));
    assert!(matches!(
        statement_outcome(Ok(SqlResult::Error("no".to_string()))),
        StatementOutcome::Failed(m) if m == "no"
    ));
    assert!(matches!(
        statement_outcome(Err("gone".to_string())),
        StatementOutcome::Failed(_)
    ));
    assert_eq!(
        script_outcome(Ok(vec![SqlResult::Exec, SqlResult::Error("second".to_string())])),
        Err("second".to_string())
    );
    assert_eq!(script_outcome(Ok(vec![SqlResult::Exec])), Ok(()));
}

#[test]
fn blank_statements_are_recognised() {
    assert!(is_blank_statement("  \n"));
    assert!(!is_blank_statement("select 1"));
}

#[test]
fn stored_queries_are_sql_files() {
    assert_eq!(query_file_name("daily"), "daily.sql");
}

#[test]
fn oracle_like_places_fall_back_to_the_schema() {
    assert_eq!(
        drop_table_place(&Some("db".to_string()), &Some("s".to_string())),
        ("db".to_string(), Some("s".to_string()))
    );
}

#[test]
fn table_events_become_tasks() {
    let node = node_with_metadata(
        DbNodeType::Table,
        "orders",
        &[("database", "sales"), ("schema", "public")],
    );
    match task_for(EventKind::OpenTableData, &node, "u") {
        NodeTask::DataTab {
            connection_id,
            database,
            schema,
            name,
            ..
        } => {
            assert_eq!(connection_id, "conn-1");
            assert_eq!(database, "sales");
            assert_eq!(schema.as_deref(), Some("public"));
            assert_eq!(name, "orders");
        }
        _ => panic!("a table is opened in a tab"),
    }
    assert!(matches!(
        task_for(EventKind::CopyTable, &node, "u"),
        NodeTask::CopyTable { table, .. } if table == "orders"
    ));
    assert!(matches!(
        tree_update_after(EventKind::DeleteTable, &node),
        Some(TreeUpdate::RemoveTable(id)) if id == "node-id"
    ));
}

#[test]
fn batches_report_what_is_gone_and_what_failed() {
    let node = node_with_metadata(DbNodeType::Table, "orders", &[("database", "sales")]);
    assert!(matches!(
        batch_step(DatabaseObjectsBatchAction::DeleteTable, &node),
        BatchStep::DropTable { table, .. } if table == "orders"
    ));
    assert!(matches!(
        batch_step(DatabaseObjectsBatchAction::DeleteView, &node),
        BatchStep::DropView { database, view, .. } if database == "sales" && view == "orders"
    ));
    assert!(matches!(
        batch_step(DatabaseObjectsBatchAction::DeleteQuery, &node),
        BatchStep::Skip
    ));
    let second = node_with_metadata(DbNodeType::Table, "items", &[("database", "sales")]);
    let run = BatchRun::start(DatabaseObjectsBatchAction::DeleteTable, vec![node, second]).unwrap();
    assert!(run.current().is_some());
    let run = run.took(StepResult::Done);
    let run = run.took(StepResult::Failed("locked".to_string()));
    assert!(run.current().is_none());
    let end = run.took(StepResult::Done).finish();
    assert_eq!(end.summary, Err("items: locked".to_string()));
    assert!(end.refresh_objects);
    assert!(matches!(&end.updates[..], [TreeUpdate::RemoveTable(_)]));
    assert!(BatchRun::start(DatabaseObjectsBatchAction::DeleteView, vec![]).is_none());
}

#[test]
fn menus_disable_what_needs_an_open_connection() {
    let items = vec![
        ContextMenuItem::Item {
            label: "Open".to_string(),
            event: ContextMenuEvent::TreeEvent(DbTreeViewEvent::OpenTableData {
                node_id: "n".to_string(),
            }),
            requires_active: true,
        },
        ContextMenuItem::Separator,
    ];
    let entries = render_context_menu_items(&items, false);
    assert!(matches!(
        &entries[0],
        MenuEntry::Item { kind: EventKind::OpenTableData, disabled: true, .. }
    ));
    assert!(matches!(&entries[1], MenuEntry::Separator));
    let entries = render_context_menu_items(&items, true);
    assert!(matches!(&entries[0], MenuEntry::Item { disabled: false, .. }));
}

#[test]
fn connections_are_known_by_number() {
    let mut node = node_with_metadata(DbNodeType::Connection, "c", &[]);
    node.connection_id = "42".to_string();
    assert_eq!(connection_number(&node), Some(42));
    node.connection_id = "x".to_string();
    assert_eq!(connection_number(&node), None);
    assert_eq!(get_icon_for_node_type(&DbNodeType::Table), NodeIcon::Table);
    let database = node_with_metadata(DbNodeType::Database, "d", &[]);
    assert_eq!(is_node_active(&database, true), is_node_active(&database, true));
}

#[test]
fn lines_of_the_log_grow_with_their_text() {
    assert_eq!(log_line_height("", ""), 20);
    assert_eq!(log_line_height("", &"x".repeat(94)), 20);
    assert_eq!(log_line_height("", &"x".repeat(95)), 40);
    assert_eq!(log_line_height("t", &"x".repeat(91)), 20);
    assert_eq!(log_line_height("t", &"x".repeat(92)), 40);
    assert_eq!(log_line_height("", &"x".repeat(1000)), 80);
    assert_eq!(log_line_height("", &"é".repeat(48)), 40);
}

#[test]
fn batches_of_stored_queries_show_what_is_above_again() {
    let query = |name: &str, parent: Option<&str>| {
        let mut node = node_with_metadata(DbNodeType::NamedQuery, name, &[("file_path", "/q.sql")]);
        node.parent_context = parent.map(str::to_string);
        node
    };
    let nodes = vec![query("a", Some("p")), query("b", Some("p")), query("c", None)];
    let mut run = BatchRun::start(DatabaseObjectsBatchAction::DeleteQuery, nodes).unwrap();
    while let Some(step) = run.current() {
        assert!(matches!(step, BatchStep::DeleteFile { path } if path == "/q.sql"));
        run = run.took(StepResult::Ignored);
    }
    let end = run.finish();
    assert_eq!(end.summary, Ok(3));
    assert!(matches!(&end.updates[..], [TreeUpdate::Refresh(id)] if id == "p"));
}

#[test]
fn nodes_that_are_not_there_yet_show_a_loader() {
    assert!(matches!(get_icon_for_node(None), NodeIcon::Loader));
}

#[test]
fn list_of_objects_follows_what_was_done() {
    let always = [EventKind::CopyTable, EventKind::DesignTable];
    let from_the_list = [
        EventKind::CreateDatabase,
        EventKind::EditDatabase,
        EventKind::DeleteDatabase,
        EventKind::DeleteConnection,
        EventKind::CloseConnection,
        EventKind::CreateSchema,
        EventKind::DeleteSchema,
        EventKind::DeleteTable,
        EventKind::DeleteView,
        EventKind::DeleteQuery,
    ];
    let never = [EventKind::RenameQuery, EventKind::RenameTable, EventKind::CloseDatabase];
    for kind in always {
        assert!(refreshes_objects(kind, EventOrigin::Tree, true));
        assert!(refreshes_objects(kind, EventOrigin::Objects, true));
        assert!(!refreshes_objects(kind, EventOrigin::Objects, false));
    }
    for kind in from_the_list {
        assert!(!refreshes_objects(kind, EventOrigin::Tree, true));
        assert!(refreshes_objects(kind, EventOrigin::Objects, true));
        assert!(!refreshes_objects(kind, EventOrigin::Objects, false));
    }
    for kind in never {
        assert!(!refreshes_objects(kind, EventOrigin::Objects, true));
    }
}
