pub mod base64;
pub mod bson_ext;
pub mod collection;
pub mod collection_laws;
pub mod collection_model;
pub mod collection_panels;
pub mod collection_step_laws;
pub mod collection_types;
pub mod db_node;
pub mod document_laws;
pub mod document_table;
pub mod dump_laws;
pub mod dump_target;
pub mod edit_laws;
pub mod mfa;
pub mod mongo_connection;
pub mod mongo_types;
pub mod node_store;
pub mod panel_laws;
pub mod places;
pub mod query_input;
pub mod query_laws;
pub mod schema;
pub mod shell;
pub mod shell_laws;
pub mod sql_dump;
pub mod ssh_auth;
pub mod ssh_connect;
pub mod ssh_laws;
pub mod str_map;
pub mod terminal;
pub mod terminal_laws;
pub mod terminal_types;
pub mod text;
pub mod text_laws;
pub mod tree;
pub mod tree_change_laws;
pub mod tree_event_laws;
pub mod tree_events;
pub mod tree_laws;
pub mod tree_list_laws;
pub mod tree_menu;
pub mod tree_model;
pub mod tree_row_laws;
pub mod tree_types;
pub mod view_laws;
