//! The database tree on concrete values.
use onetcli::db_node::{sort_nodes, DatabaseType, DbNode, DbNodeType};
use onetcli::str_map::StrMap;
use onetcli::tree::{ChangeOutcome, DbTreeView};
use onetcli::tree_events::{
    apply_tree_update, handle_objects_event, handle_tree_event, tree_update_after_create,
    tree_update_after_design, DatabaseObjectsEvent, NodeTask, ObjectsRequest, TreeUpdate,
};
use onetcli::tree_types::{
    apply_db_context_menu_target, apply_db_selection_state, resolve_refresh_metadata_scope,
    sync_selected_databases_for_connection, ConnectionConfig, ConnectionDataEvent,
    DatabaseListDelegate, DatabaseSelection, DbTreeViewEvent, EventKind, RefreshMetadataScope,
    StoredConnection, TreeAction,
};

fn build_node(node_type: DbNodeType, name: &str, metadata: &[(&str, &str)]) -> DbNode {
    let mut node = DbNode::new(
        format!("node-{name}"),
        name.to_string(),
        node_type,
        "conn-1".to_string(),
        DatabaseType::MySQL,
        name.to_string(),
    );
    for (key, value) in metadata {
        node.metadata.push((key.to_string(), value.to_string()));
        match *key {
            "database" => node.database_name = Some(value.to_string()),
            "schema" => node.schema_name = Some(value.to_string()),
            _ => {}
        }
    }
    if node_type == DbNodeType::Database {
        node.database_name = Some(name.to_string());
    }
    node
}

fn build_connection(id: i64, selected_databases: Option<Vec<&str>>) -> StoredConnection {
    StoredConnection {
        id: Some(id),
        workspace_id: None,
        config: Some(ConnectionConfig {
            name: "conn".to_string(),
            database_type: DatabaseType::MySQL,
        }),
        selected_databases: selected_databases
            .map(|dbs| dbs.into_iter().map(|db| db.to_string()).collect()),
        sort_key: "conn".to_string(),
    }
}

fn child(id: &str, name: &str, node_type: DbNodeType, parent: &str) -> DbNode {
    let mut node = DbNode::new(
        id.to_string(),
        name.to_string(),
        node_type,
        "1".to_string(),
        DatabaseType::MySQL,
        name.to_string(),
    );
    node.parent_context = Some(parent.to_string());
    if node_type == DbNodeType::Database {
        node.database_name = Some(name.to_string());
    }
    node
}

/// A tree with one connection that has the databases `a`, `b` and `c`.
fn loaded_tree() -> DbTreeView {
    let mut tree = DbTreeView::new(&vec![build_connection(1, None)], "none".to_string());
    let actions = tree.toggle_expanded("1");
    assert!(actions
        .iter()
        .any(|a| matches!(a, TreeAction::LoadChildren(id) if id == "1")));
    tree.finish_load(
        "1",
        "1",
        DbNodeType::Connection,
        vec![
            child("1:a", "a", DbNodeType::Database, "1"),
            child("1:b", "b", DbNodeType::Database, "1"),
            child("1:c", "c", DbNodeType::Database, "1"),
        ],
    );
    tree
}

fn shown(tree: &DbTreeView) -> Vec<String> {
    (0..tree.row_count())
        .map(|ix| tree.tree_row(ix).unwrap().node_id)
        .collect()
}

#[test]
fn refresh_connection_node_uses_connection_scope() {
    let node = build_node(DbNodeType::Connection, "conn", &[]);
    assert_eq!(
        resolve_refresh_metadata_scope(&node),
        RefreshMetadataScope::Connection
    );
}

#[test]
fn refresh_nodes_with_database_context_use_database_scope() {
    let cases = [
        build_node(DbNodeType::Database, "analytics", &[]),
        build_node(DbNodeType::Schema, "public", &[("database", "analytics")]),
        build_node(
            DbNodeType::Table,
            "users",
            &[("database", "analytics"), ("schema", "public")],
        ),
        build_node(
            DbNodeType::ViewsFolder,
            "views",
            &[("database", "analytics"), ("schema", "public")],
        ),
        build_node(
            DbNodeType::Function,
            "fn_count",
            &[("database", "analytics")],
        ),
    ];

    for node in cases {
        assert_eq!(
            resolve_refresh_metadata_scope(&node),
            RefreshMetadataScope::Database("analytics".to_string())
        );
    }
}

#[test]
fn refresh_nodes_without_database_context_skip_metadata_invalidation() {
    let node = build_node(DbNodeType::QueriesFolder, "queries", &[]);
    assert_eq!(
        resolve_refresh_metadata_scope(&node),
        RefreshMetadataScope::Nothing
    );
}

fn names(selection: Option<&DatabaseSelection>) -> Option<Option<Vec<String>>> {
    selection.map(|s| match s {
        DatabaseSelection::All => None,
        DatabaseSelection::Only(set) => {
            let mut v = set.to_vec();
            v.sort();
            Some(v)
        }
    })
}

#[test]
fn sync_selected_databases_from_connection_preserves_saved_filter() {
    let connection = build_connection(7, Some(vec!["analytics", "warehouse"]));
    let mut selected_databases = StrMap::new();

    sync_selected_databases_for_connection(&mut selected_databases, &connection);

    assert_eq!(
        names(selected_databases.get("7")),
        Some(Some(vec!["analytics".to_string(), "warehouse".to_string()]))
    );
}

#[test]
fn sync_selected_databases_from_connection_restores_all_selected_state() {
    let connection = build_connection(9, None);
    let mut selected_databases = StrMap::new();
    sync_selected_databases_for_connection(
        &mut selected_databases,
        &build_connection(9, Some(vec!["legacy"])),
    );
    assert_eq!(
        names(selected_databases.get("9")),
        Some(Some(vec!["legacy".to_string()]))
    );

    sync_selected_databases_for_connection(&mut selected_databases, &connection);

    assert_eq!(names(selected_databases.get("9")), Some(None));
}

#[test]
fn set_context_menu_target_selects_row_and_tracks_menu_node() {
    let mut selected_node_id = None;
    let mut selected_ix = None;
    let mut context_menu_node_id = None;

    apply_db_context_menu_target(
        &mut selected_node_id,
        &mut selected_ix,
        &mut context_menu_node_id,
        "node-1",
        3,
    );

    assert_eq!(selected_node_id.as_deref(), Some("node-1"));
    assert_eq!(selected_ix, Some(3));
    assert_eq!(context_menu_node_id.as_deref(), Some("node-1"));

    apply_db_selection_state(
        &mut selected_node_id,
        &mut selected_ix,
        &mut context_menu_node_id,
        "node-2",
        4,
    );

    assert_eq!(selected_node_id.as_deref(), Some("node-2"));
    assert_eq!(selected_ix, Some(4));
    assert_eq!(context_menu_node_id, None);
}

#[test]
fn tree_without_connections_shows_one_row() {
    let tree = DbTreeView::new(&vec![], "No connection".to_string());
    assert_eq!(tree.row_count(), 1);
    assert_eq!(tree.tree_row(0).unwrap().label, "No connection");
    assert!(tree.tree_row(1).is_none());
}

#[test]
fn expanding_loads_once_and_shows_the_children_in_order() {
    let mut tree = loaded_tree();
    assert_eq!(shown(&tree), vec!["1", "1:a", "1:b", "1:c"]);
    assert_eq!(tree.tree_row(1).unwrap().depth, 1);
    assert_eq!(tree.tree_row(1).unwrap().indent, 24);
    let folded = tree.toggle_expanded("1");
    assert!(folded.is_empty());
    assert_eq!(shown(&tree), vec!["1"]);
    let unfolded = tree.toggle_expanded("1");
    assert!(unfolded.is_empty());
    assert_eq!(shown(&tree), vec!["1", "1:a", "1:b", "1:c"]);
}

#[test]
fn failed_load_folds_the_node_and_keeps_the_error() {
    let mut tree = DbTreeView::new(&vec![build_connection(1, None)], "none".to_string());
    tree.toggle_expanded("1");
    tree.fail_load("1", "refused".to_string());
    let row = tree.tree_row(0).unwrap();
    assert_eq!(row.error.as_deref(), Some("refused"));
    assert!(!row.is_expanded);
    assert!(!row.is_loading);
}

#[test]
fn database_filter_hides_what_is_not_selected() {
    let mut tree = loaded_tree();
    assert_eq!(tree.get_selected_database_count("1"), (3, 3));
    assert!(tree.is_all_selected("1"));
    tree.toggle_database_selection("1", "b");
    assert!(!tree.is_database_selected("1", "b"));
    assert_eq!(tree.get_selected_database_count("1"), (2, 3));
    assert_eq!(shown(&tree), vec!["1", "1:a", "1:c"]);
    tree.toggle_database_selection("1", "b");
    assert_eq!(shown(&tree), vec!["1", "1:a", "1:b", "1:c"]);
    tree.deselect_all_databases("1");
    assert_eq!(shown(&tree), vec!["1"]);
    let saved = tree.select_all_databases("1");
    assert!(matches!(saved, TreeAction::SaveFilter(id, None) if id == "1"));
    assert_eq!(shown(&tree), vec!["1", "1:a", "1:b", "1:c"]);
}

#[test]
fn filter_list_searches_by_lower_case_name() {
    let mut list = DatabaseListDelegate::new(
        "1".to_string(),
        vec![
            ("1:a".to_string(), "Alpha".to_string()),
            ("1:b".to_string(), "beta".to_string()),
        ],
    );
    list.perform_search("alpha");
    assert_eq!(
        list.filtered_databases,
        vec![("1:a".to_string(), "Alpha".to_string())]
    );
    list.perform_search("");
    assert_eq!(list.filtered_databases.len(), 2);
}

#[test]
fn search_shows_only_matching_rows() {
    let mut tree = loaded_tree();
    let seq = tree.search_edited();
    tree.apply_search(seq, "b".to_string());
    assert!(shown(&tree).contains(&"1:b".to_string()));
    assert!(!shown(&tree).contains(&"1:a".to_string()));
    let stale = seq;
    let newer = tree.search_edited();
    tree.apply_search(stale, "zzz".to_string());
    assert!(!tree.shows_nothing_found());
    tree.apply_search(newer, "zzz".to_string());
    assert!(tree.shows_nothing_found());
}

#[test]
fn closing_a_connection_forgets_what_is_below_it() {
    let mut tree = loaded_tree();
    let actions = tree.close_connection("1");
    assert_eq!(actions.len(), 2);
    assert!(matches!(&actions[0], TreeAction::ClearConnectionCache(id) if id == "1"));
    assert!(matches!(&actions[1], TreeAction::MarkInactive(1)));
    assert_eq!(shown(&tree), vec!["1"]);
    assert!(tree.get_node("1:a").is_none());
    assert!(tree
        .toggle_expanded("1")
        .iter()
        .any(|a| matches!(a, TreeAction::LoadChildren(_))));
}

#[test]
fn refresh_empties_the_node_and_loads_it_again_where_it_was_open() {
    let mut tree = loaded_tree();
    let plan = tree.refresh_tree("1").unwrap();
    assert_eq!(plan.node_id, "1");
    assert!(plan.reload_children);
    assert_eq!(plan.scope, RefreshMetadataScope::Connection);
    let actions = tree.finish_refresh(&plan);
    assert!(matches!(&actions[0], TreeAction::LoadChildren(id) if id == "1"));
    assert!(tree.tree_row(0).unwrap().is_expanded);
}

fn schema_change(connection_id: &str, database: &str) -> ConnectionDataEvent {
    ConnectionDataEvent::SchemaChanged {
        connection_id: connection_id.to_string(),
        database: database.to_string(),
        schema: None,
    }
}

#[test]
fn changed_schema_refreshes_its_database() {
    let mut tree = loaded_tree();
    tree.toggle_expanded("1:a");
    tree.finish_load(
        "1:a",
        "1",
        DbNodeType::Database,
        vec![child("1:a:t", "t", DbNodeType::Table, "1:a")],
    );
    let ChangeOutcome::Refresh(Some(plan)) =
        tree.handle_connection_data_event(&schema_change("1", "a"))
    else {
        panic!("the database is refreshed");
    };
    assert_eq!(plan.node_id, "1:a");
    assert_eq!(plan.connection_id, "1");
    assert_eq!(plan.scope, RefreshMetadataScope::Database("a".to_string()));
    assert!(plan.reload_children);
    assert!(tree.get_node("1:a:t").is_none());
    let actions = tree.finish_refresh(&plan);
    assert!(matches!(actions.as_slice(), [TreeAction::LoadChildren(id)] if id == "1:a"));
    match tree.handle_connection_data_event(&schema_change("1", "b")) {
        ChangeOutcome::Refresh(Some(plan)) => {
            assert_eq!(plan.node_id, "1:b");
            assert!(!plan.reload_children);
            assert!(tree.finish_refresh(&plan).is_empty());
        }
        _ => panic!("the database is refreshed"),
    }
    match tree.handle_connection_data_event(&schema_change("1", "unknown")) {
        ChangeOutcome::Refresh(Some(plan)) => {
            assert_eq!(plan.node_id, "1");
            assert_eq!(plan.scope, RefreshMetadataScope::Connection);
        }
        _ => panic!("the connection is refreshed"),
    }
    assert!(matches!(
        tree.handle_connection_data_event(&schema_change("2", "a")),
        ChangeOutcome::Actions(actions) if actions.is_empty()
    ));
}

#[test]
fn switching_a_database_twice_changes_nothing() {
    let mut tree = DbTreeView::new(
        &vec![build_connection(1, Some(vec!["a", "b", "c"]))],
        "none".to_string(),
    );
    tree.toggle_expanded("1");
    tree.finish_load(
        "1",
        "1",
        DbNodeType::Connection,
        vec![
            child("1:a", "a", DbNodeType::Database, "1"),
            child("1:b", "b", DbNodeType::Database, "1"),
            child("1:c", "c", DbNodeType::Database, "1"),
        ],
    );
    tree.toggle_database_selection("1", "a");
    tree.toggle_database_selection("1", "a");
    for name in ["a", "b", "c"] {
        assert!(tree.is_database_selected("1", name));
    }
}

#[test]
fn databases_come_and_go_one_by_one() {
    let mut tree = loaded_tree();
    tree.add_database_node("1", "bb", "bb");
    assert!(shown(&tree).contains(&"1:bb".to_string()));
    tree.remove_database_node("1", "bb");
    assert_eq!(shown(&tree), vec!["1", "1:a", "1:b", "1:c"]);
}

#[test]
fn double_click_on_a_table_opens_its_rows() {
    let mut tree = loaded_tree();
    tree.toggle_expanded("1:a");
    tree.finish_load(
        "1:a",
        "1",
        DbNodeType::Database,
        vec![child("1:a:t", "t", DbNodeType::Table, "1:a")],
    );
    let actions = tree.handle_item_double_click("1:a:t");
    assert!(actions.iter().any(|a| matches!(
        a,
        TreeAction::Emit(DbTreeViewEvent::OpenTableData { node_id }) if node_id == "1:a:t"
    )));
}

#[test]
fn click_selects_and_context_menu_follows() {
    let mut tree = loaded_tree();
    let action = tree.handle_item_click("1:b", 2);
    assert!(matches!(
        action,
        TreeAction::Emit(DbTreeViewEvent::NodeSelected { node_id }) if node_id == "1:b"
    ));
    assert!(tree.tree_row(2).unwrap().is_selected);
    assert_eq!(tree.get_selected_database().as_deref(), Some("b"));
    tree.set_context_menu_target("1:c", 3);
    assert_eq!(tree.context_menu_node().unwrap().id, "1:c");
}

#[test]
fn deleted_connection_leaves_the_tree_and_foreign_ones_do_not_matter() {
    let mut tree = loaded_tree();
    match tree.handle_connection_data_event(&ConnectionDataEvent::ConnectionDeleted {
        connection_id: 5,
    }) {
        ChangeOutcome::Actions(actions) => assert!(actions.is_empty()),
        _ => panic!("a foreign connection asks for nothing"),
    }
    assert_eq!(tree.row_count(), 4);
    tree.handle_connection_data_event(&ConnectionDataEvent::ConnectionDeleted {
        connection_id: 1,
    });
    assert!(tree.get_node("1").is_none());
    assert!(!shown(&tree).contains(&"1:a".to_string()));
}

#[test]
fn collapse_all_shows_the_connections_alone() {
    let mut tree = loaded_tree();
    tree.collapse_all();
    assert_eq!(shown(&tree), vec!["1"]);
}

#[test]
fn events_of_the_tree_ask_for_tasks() {
    let tree = loaded_tree();
    let event = DbTreeViewEvent::CloseDatabase {
        node_id: "1:a".to_string(),
    };
    assert!(matches!(
        handle_tree_event(&tree, &event, "u"),
        Some(NodeTask::CloseDatabase { node_id, database }) if node_id == "1:a" && database == "a"
    ));
    let event = DbTreeViewEvent::DeleteTable {
        node_id: "gone".to_string(),
    };
    assert!(handle_tree_event(&tree, &event, "u").is_none());
    assert_eq!(
        handle_objects_event(DatabaseObjectsEvent::Refresh),
        ObjectsRequest::Task(EventKind::NodeSelected)
    );
    assert_eq!(
        handle_objects_event(DatabaseObjectsEvent::AddDatabaseToTree),
        ObjectsRequest::AddToTree
    );
}

#[test]
fn tree_follows_what_was_done() {
    let mut tree = loaded_tree();
    let node = child("1", "conn", DbNodeType::Connection, "");
    let update = tree_update_after_create(&node, "d", "d");
    let (plan, actions) = apply_tree_update(&mut tree, &update);
    assert!(plan.is_none() && actions.is_empty());
    assert_eq!(shown(&tree), ["1", "1:a", "1:b", "1:c", "1:d"]);
    let update = TreeUpdate::RemoveDatabase {
        connection_id: "1".to_string(),
        database: "b".to_string(),
    };
    apply_tree_update(&mut tree, &update);
    assert_eq!(shown(&tree), ["1", "1:a", "1:c", "1:d"]);
    let (plan, _) = apply_tree_update(&mut tree, &TreeUpdate::Refresh("1".to_string()));
    let plan = plan.unwrap();
    assert_eq!(plan.node_id, "1");
    assert!(plan.reload_children);
    assert_eq!(plan.scope, RefreshMetadataScope::Connection);
    assert_eq!(shown(&tree), ["1"]);
    let (_, actions) = apply_tree_update(&mut tree, &TreeUpdate::CloseConnection("1".to_string()));
    assert_eq!(actions.len(), 2);
    assert!(matches!(
        tree_update_after_design("1", "a", &Some("s".to_string())),
        TreeUpdate::Refresh(id) if id == "1:a:s"
    ));
}

#[test]
fn schema_nodes_are_added_below_their_database() {
    let mut tree = loaded_tree();
    tree.add_schema_node("1", "a", "s", "s");
    assert!(tree.get_node("1:a:s").is_some());
    assert_eq!(
        tree.get_node("1:a").unwrap().children[0].node_type,
        DbNodeType::Schema
    );
}

#[test]
fn database_filter_searches_and_toggles() {
    let mut tree = loaded_tree();
    tree.set_db_filter_search("1", "B".to_string());
    assert_eq!(
        tree.get_filtered_databases("1"),
        vec![("1:b".to_string(), "b".to_string())]
    );
    tree.toggle_all_databases("1");
    assert!(!tree.is_all_selected("1"));
    assert_eq!(tree.get_selected_database_count("1"), (0, 3));
    tree.toggle_all_databases("1");
    assert!(tree.is_all_selected("1"));
    tree.open_database_filter("1");
    let mut list = DatabaseListDelegate::new(
        "1".to_string(),
        tree.get_databases_for_connection("1"),
    );
    list.set_selected_index(Some(1));
    assert_eq!(list.items_count(), 3);
    let line = tree.filter_line(&list, 1).unwrap();
    assert_eq!(line.db_name, "b");
    assert!(line.is_selected && line.selected);
    assert!(tree.filter_line(&list, 3).is_none());
}

#[test]
fn active_connection_is_unfolded_and_selected() {
    let mut tree = DbTreeView::new(&vec![build_connection(1, None)], "none".to_string());
    tree.set_connection_name("work".to_string());
    let actions = tree.active_connection("1");
    assert!(matches!(
        &actions[..],
        [TreeAction::LoadChildren(id)] if id == "1"
    ));
    assert!(tree.active_connection("1").is_empty());
}

#[test]
fn renamed_connection_takes_its_new_place() {
    let named = |id: i64, name: &str| StoredConnection {
        config: Some(ConnectionConfig {
            name: name.to_string(),
            database_type: DatabaseType::MySQL,
        }),
        sort_key: name.to_string(),
        ..build_connection(id, None)
    };
    let mut tree = DbTreeView::new(&vec![named(1, "a"), named(2, "b")], "none".to_string());
    assert_eq!(shown(&tree), vec!["1", "2"]);
    tree.handle_connection_data_event(&ConnectionDataEvent::ConnectionUpdated {
        connection: named(1, "c"),
    });
    assert_eq!(shown(&tree), vec!["2", "1"]);
    assert_eq!(tree.get_node("1").unwrap().name, "c");
}

#[test]
fn sorted_nodes_stand_in_order_and_equal_ones_stay() {
    let keyed = |id: &str, key: &str| {
        let mut node = child(id, id, DbNodeType::Table, "1");
        node.sort_key = key.to_string();
        node
    };
    let nodes = vec![keyed("1", "b"), keyed("2", "a"), keyed("3", "b"), keyed("4", "")];
    let ids: Vec<String> = sort_nodes(nodes).into_iter().map(|n| n.id).collect();
    assert_eq!(ids, vec!["4", "2", "1", "3"]);
}
