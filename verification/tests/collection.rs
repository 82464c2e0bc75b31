//! The view of a collection on concrete values.
use mongodb::bson::{Bson, Document};
use onetcli::collection::{next_update, CollectionView, SaveStep, TableEvent};
use onetcli::collection_panels::{
    CollectionTabConfig, DetailBody, DetailButtons, DetailTitle, DocumentsBody, PanelBody, ShownTab,
};
use onetcli::collection_types::{
    EditWork, EditorMode, Effect, ExportKind, Failure, Request, Success,
};
use onetcli::query_input::{InputError, QueryLabels};

fn document(fields: Vec<(&str, Bson)>) -> Document {
    let mut d = Document::new();
    for (key, value) in fields {
        d.insert(key, value);
    }
    d
}

fn text(s: &str) -> Bson {
    Bson::String(s.to_string())
}

fn labels() -> QueryLabels {
    QueryLabels {
        filter: "Filter".to_string(),
        sort: "Sort".to_string(),
        projection: "Projection".to_string(),
        page_size: "Page size".to_string(),
        skip: "Skip".to_string(),
    }
}

fn rows() -> Vec<Document> {
    vec![
        document(vec![("_id", Bson::Int32(1)), ("name", text("a"))]),
        document(vec![("_id", Bson::Int32(2)), ("name", text("b"))]),
        document(vec![("_id", Bson::Int32(3)), ("name", text("c"))]),
    ]
}

fn opened() -> CollectionView {
    let config = CollectionTabConfig {
        connection_id: "1".to_string(),
        database_name: "shop".to_string(),
        collection_name: "users".to_string(),
    };
    assert_eq!(config.title(), "shop/users");
    let (mut view, effects) = config.open(&labels());
    match &effects[..] {
        [Effect::Send {
            target,
            request: Request::Find { filter: None, plan },
        }] => {
            assert_eq!(target.collection_name, "users");
            assert_eq!(plan.limit, Some(25));
            assert_eq!(plan.skip, None);
        }
        _ => panic!("the first page is fetched"),
    }
    assert_eq!(view.documents_body(), DocumentsBody::Loading);
    assert!(view.query_finished(Ok(rows()), Ok(3)).is_empty());
    view
}

#[test]
fn new_view_shows_nothing() {
    let view = CollectionView::new();
    assert_eq!(view.shown_tab(), ShownTab::SelectCollection);
    assert_eq!(view.header_title(), None);
    assert_eq!(view.texts.page_size, "25");
    assert_eq!(view.texts.skip, "0");
    assert_eq!(view.aggregation_text, "[]");
    assert_eq!(view.documents_body(), DocumentsBody::Empty);
}

#[test]
fn first_page_is_listed() {
    let view = opened();
    assert_eq!(view.documents.len(), 3);
    assert_eq!(view.table.rows_count(), 3);
    assert_eq!(view.total_count, Some(3));
    assert_eq!(view.documents_body(), DocumentsBody::Table);
    assert_eq!(view.header_title().as_deref(), Some("shop / users"));
    let bar = view.page_bar(&labels());
    assert_eq!((bar.start, bar.end, bar.page, bar.pages), (1, 3, 1, 1));
    assert!(!bar.can_prev && !bar.can_next);
    assert_eq!(view.page_bar_within(&labels()), Some(bar));
    let mut view = opened();
    view.texts.skip = i64::MAX.to_string();
    assert_eq!(view.page_bar_within(&labels()), None);
}

#[test]
fn unknown_total_goes_by_the_length_of_the_page() {
    let mut view = opened();
    view.texts.page_size = "3".to_string();
    view.find_first_page(&labels());
    view.query_finished(Ok(rows()), Err("not allowed".to_string()));
    assert_eq!(view.total_count, None);
    assert!(view.page_bar(&labels()).can_next);
}

#[test]
fn pages_follow_each_other() {
    let mut view = opened();
    view.texts.page_size = "2".to_string();
    view.find_first_page(&labels());
    view.query_finished(Ok(rows()[..2].to_vec()), Ok(5));
    let bar = view.page_bar(&labels());
    assert_eq!((bar.pages, bar.can_next, bar.can_prev), (3, true, false));
    let effects = view.next_page(&labels());
    assert!(matches!(
        &effects[0],
        Effect::Send { request: Request::Find { plan, .. }, .. } if plan.skip == Some(2)
    ));
    view.query_finished(Ok(rows()[..2].to_vec()), Ok(5));
    let bar = view.page_bar(&labels());
    assert_eq!((bar.start, bar.end, bar.page), (3, 4, 2));
    view.previous_page(&labels());
    assert_eq!(view.page_index, 0);
}

#[test]
fn skipping_beyond_the_end_counts_one_page() {
    let mut view = opened();
    view.texts.skip = "10".to_string();
    view.find_first_page(&labels());
    view.query_finished(Ok(vec![]), Ok(3));
    let bar = view.page_bar(&labels());
    assert_eq!((bar.start, bar.end, bar.pages), (0, 10, 1));
    assert!(!bar.can_next);
}

#[test]
fn selection_survives_a_reload() {
    let mut view = opened();
    view.handle_table_event(TableEvent::SelectRow(1));
    assert_eq!(view.selected_index, Some(1));
    assert_eq!(view.editing_id, Some(Bson::Int32(2)));
    assert!(view.editor_text.contains("\"b\""));
    view.reload(&labels());
    assert_eq!(view.selected_index, None);
    let mut moved = rows();
    moved.remove(0);
    view.query_finished(Ok(moved), Ok(2));
    assert_eq!(view.selected_index, Some(0));
    assert_eq!(view.pending_editor_value.is_some(), true);
    view.reload(&labels());
    view.query_finished(Ok(vec![]), Ok(0));
    assert_eq!(view.selected_index, None);
}

#[test]
fn wrong_input_stops_the_query() {
    let mut view = opened();
    view.texts.filter = "[".to_string();
    let effects = view.reload(&labels());
    assert!(matches!(
        &effects[..],
        [Effect::NotifyError(Failure::Input(InputError::ParseFailed { label, .. }))] if label == "Filter"
    ));
    assert_eq!(view.documents_body(), DocumentsBody::Error);
    assert_eq!(view.documents.len(), 3);
    view.reset_inputs();
    assert_eq!(view.texts.filter, "");
}

#[test]
fn failed_query_is_reported() {
    let mut view = opened();
    view.reload(&labels());
    let effects = view.query_finished(Err("gone".to_string()), Ok(0));
    assert!(matches!(
        &effects[..],
        [Effect::NotifyError(Failure::Reply(m))] if m == "gone"
    ));
    assert!(!view.is_loading);
}

#[test]
fn new_document_is_inserted() {
    let mut view = opened();
    view.start_create();
    assert_eq!(view.editor_text, "{\n  \n}");
    assert!(matches!(view.detail_panel().title, DetailTitle::NewDocument));
    assert_eq!(view.detail_panel().buttons, DetailButtons::SaveAndCancel);
    view.editor_text = r#"{"_id": 9}"#.to_string();
    let effects = view.save_edit("Document");
    assert!(matches!(
        &effects[..],
        [Effect::Send {
            request: Request::Edit {
                work: EditWork::Insert(d),
                done: Success::DocumentCreated
            },
            ..
        }] if d.get("_id") == Some(&Bson::Int32(9))
    ));
    assert_eq!(view.pending_select_id, Some(Bson::Int32(9)));
    let effects = view.edit_finished(Ok(()), Success::DocumentCreated);
    assert!(matches!(
        &effects[..],
        [Effect::NotifySuccess(Success::DocumentCreated)]
    ));
    assert!(view.pending_reload);
    let effects = view.apply_pending(&labels());
    assert!(matches!(
        &effects[..],
        [Effect::Send { request: Request::Find { .. }, .. }]
    ));
    assert!(!view.pending_reload);
}

#[test]
fn edited_document_keeps_its_id() {
    let mut view = opened();
    view.select_document(0);
    view.start_update();
    assert_eq!(view.editor_mode, EditorMode::Update);
    view.editor_text = r#"{"_id": 77, "name": "z"}"#.to_string();
    let effects = view.save_edit("Document");
    assert!(matches!(
        &effects[..],
        [Effect::Send {
            request: Request::Edit {
                work: EditWork::Replace { id: Bson::Int32(1), document },
                done: Success::DocumentUpdated
            },
            ..
        }] if document.get("_id") == Some(&Bson::Int32(1)) && document.get("name") == Some(&text("z"))
    ));
}

#[test]
fn refused_edit_keeps_the_text() {
    let mut view = opened();
    view.select_document(0);
    view.start_update();
    view.editor_text = "{\"a\": 1}".to_string();
    view.save_edit("Document");
    let effects = view.edit_finished(Err("no".to_string()), Success::DocumentUpdated);
    assert!(matches!(
        &effects[..],
        [Effect::NotifyError(Failure::Reply(m))] if m == "no"
    ));
    assert_eq!(view.editor_text, "{\"a\": 1}");
    assert_eq!(view.editor_mode, EditorMode::Update);
    view.cancel_edit();
    assert_eq!(view.editor_mode, EditorMode::View);
    assert!(view.editor_text.contains("\"a\""));
}

#[test]
fn documents_without_id_cannot_be_changed() {
    let mut view = opened();
    view.reload(&labels());
    view.query_finished(Ok(vec![document(vec![("n", Bson::Int32(1))])]), Ok(1));
    view.select_document(0);
    view.start_update();
    let effects = view.save_edit("Document");
    assert!(matches!(
        &effects[..],
        [Effect::NotifyError(Failure::IdRequiredForUpdate)]
    ));
    view.select_document(0);
    assert!(matches!(
        &view.delete_selected()[..],
        [Effect::NotifyError(Failure::IdRequiredForDelete)]
    ));
}

#[test]
fn deletion_moves_to_the_neighbour() {
    let mut view = opened();
    view.select_document(1);
    let effects = view.delete_selected();
    assert!(matches!(
        &effects[..],
        [Effect::Send { request: Request::Delete { id: Bson::Int32(2) }, .. }]
    ));
    assert_eq!(view.pending_select_id, Some(Bson::Int32(3)));
    view.delete_finished(Ok(()));
    assert_eq!(view.selected_index, None);
    view.select_document(2);
    view.delete_selected();
    assert_eq!(view.pending_select_id, Some(Bson::Int32(2)));
}

#[test]
fn nested_fields_are_edited_beside_the_table() {
    let mut view = opened();
    view.reload(&labels());
    let nested = document(vec![
        ("_id", Bson::Int32(1)),
        ("tags", Bson::Array(vec![text("x")])),
        ("name", text("a")),
    ]);
    view.query_finished(Ok(vec![nested]), Ok(1));
    view.handle_table_event(TableEvent::DoubleClickedCell(0, 2));
    assert_eq!(view.editor_mode, EditorMode::FieldUpdate);
    assert!(matches!(
        view.detail_panel().title,
        DetailTitle::EditField(field) if field == "tags"
    ));
    view.editor_text = "[\"y\"]".to_string();
    let effects = view.save_edit("Document");
    assert!(matches!(
        &effects[..],
        [Effect::Send {
            request: Request::Edit {
                work: EditWork::SetFields { id: Bson::Int32(1), fields },
                done: Success::FieldUpdated
            },
            ..
        }] if fields.get("tags") == Some(&Bson::Array(vec![text("y")]))
    ));
}

#[test]
fn edits_in_the_table_reach_the_list_and_are_saved() {
    let mut view = opened();
    assert!(view.table.record_cell_edit(0, "name", "new").unwrap());
    view.handle_table_event(TableEvent::CellEdited(0, 1));
    assert!(view.documents[0].pretty_json.contains("new"));
    assert!(view.action_bar().save_changes);
    let effects = view.save_table_changes();
    assert!(matches!(
        &effects[..],
        [Effect::Send { request: Request::SaveChanges { changes, count: 1 }, .. }]
            if changes[0].set_fields.get("name") == Some(&text("new"))
    ));
    let effects = view.changes_saved(Ok(()), 1);
    assert!(matches!(
        &effects[..],
        [Effect::NotifySuccess(Success::TableChangesSaved(1))]
    ));
    let mut view = opened();
    view.table.record_cell_edit(0, "name", "new").unwrap();
    view.handle_table_event(TableEvent::CellEdited(0, 1));
    view.revert_table_changes();
    assert!(view.documents[0].pretty_json.contains("\"a\""));
    assert!(view.save_table_changes().is_empty());
}

#[test]
fn detail_fields_wait_for_the_edits_of_the_table() {
    let mut view = opened();
    view.reload(&labels());
    view.query_finished(
        Ok(vec![document(vec![
            ("_id", Bson::Int32(1)),
            ("tags", Bson::Array(vec![])),
            ("name", text("a")),
        ])]),
        Ok(1),
    );
    view.table.record_cell_edit(0, "name", "b").unwrap();
    assert!(matches!(
        &view.start_field_update(0, 2)[..],
        [Effect::NotifyError(Failure::SaveOrRevertChangesFirst)]
    ));
}

#[test]
fn explanation_is_shown_and_put_away() {
    let mut view = opened();
    let effects = view.explain_clicked(&labels());
    assert!(matches!(
        &effects[..],
        [Effect::Send { request: Request::Explain { .. }, .. }]
    ));
    view.explain_finished(Ok(document(vec![("ok", Bson::Int32(1))])));
    view.apply_pending(&labels());
    assert!(view.explain_text.contains("ok"));
    assert_eq!(view.detail_panel().body, DetailBody::Explanation);
    assert!(view.explain_clicked(&labels()).is_empty());
    assert!(!view.show_explain);
    view.explain_clicked(&labels());
    view.explain_finished(Err("no".to_string()));
    assert!(!view.show_explain);
}

#[test]
fn aggregations_have_their_own_panel() {
    let mut view = opened();
    view.aggregation_text = "{}".to_string();
    assert!(matches!(
        &view.run_aggregation()[..],
        [Effect::NotifyError(Failure::Input(InputError::PipelineMustBeArray))]
    ));
    assert_eq!(view.aggregation.body(), PanelBody::Error);
    view.aggregation_text = "[]".to_string();
    assert!(matches!(
        &view.run_aggregation()[..],
        [Effect::Send { request: Request::Aggregate { pipeline }, .. }] if pipeline.is_empty()
    ));
    assert_eq!(view.aggregation.body(), PanelBody::Loading);
    view.aggregation_finished(Ok(rows()));
    assert_eq!(view.aggregation.count, Some(3));
    view.apply_pending(&labels());
    assert!(matches!(
        &view.export_aggregation_result()[..],
        [Effect::Export { kind: ExportKind::Aggregation, .. }]
    ));
    view.aggregation_output = " ".to_string();
    assert!(matches!(
        &view.export_aggregation_result()[..],
        [Effect::NotifyError(Failure::NothingToExport)]
    ));
}

#[test]
fn tabs_fetch_what_they_show() {
    let mut view = opened();
    assert!(matches!(
        &view.set_active_tab(2)[..],
        [Effect::Send { request: Request::Sample { limit: 100 }, .. }]
    ));
    view.schema_loaded(Ok(rows()));
    assert_eq!(view.schema.count, Some(3));
    assert!(view.set_active_tab(2).is_empty());
    assert!(matches!(
        &view.set_active_tab(3)[..],
        [Effect::Send { request: Request::ListIndexes, .. }]
    ));
    view.indexes_loaded(Ok(vec![Document::new()]));
    assert_eq!(view.indexes.count, Some(1));
    assert!(matches!(
        &view.set_active_tab(4)[..],
        [Effect::Send { request: Request::GetValidation, .. }]
    ));
    view.validation_loaded(Ok(None));
    view.apply_pending(&labels());
    assert_eq!(view.validation_text, "{}");
    assert_eq!(view.shown_tab(), ShownTab::Validation);
}

#[test]
fn indexes_are_made_and_dropped() {
    let mut view = opened();
    view.index_keys = "{\"a\": 1}".to_string();
    view.index_name = "  by_a ".to_string();
    assert!(matches!(
        &view.create_index("Keys")[..],
        [Effect::Send { request: Request::CreateIndex { name: Some(name), .. }, .. }] if name == "by_a"
    ));
    let effects = view.index_created(Ok(()));
    assert!(matches!(
        &effects[..],
        [
            Effect::NotifySuccess(Success::IndexCreated),
            Effect::Send { request: Request::ListIndexes, .. }
        ]
    ));
    view.index_drop = " ".to_string();
    assert!(matches!(
        &view.drop_index()[..],
        [Effect::NotifyError(Failure::IndexNameRequired)]
    ));
    view.index_drop = "by_a".to_string();
    assert_eq!(view.drop_index().len(), 1);
    assert_eq!(view.index_dropped(Err("no".to_string())).len(), 1);
    assert_eq!(view.indexes.body(), PanelBody::Error);
}

#[test]
fn validation_rules_are_set_and_cleared() {
    let mut view = opened();
    view.validation_text = "{\"a\": 1}".to_string();
    assert!(matches!(
        &view.save_validation("Rules")[..],
        [Effect::Send {
            request: Request::SetValidation { validator: Some(_), clear: false },
            ..
        }]
    ));
    let effects = view.validation_changed(Ok(()), false);
    assert!(matches!(
        &effects[0],
        Effect::NotifySuccess(Success::ValidationUpdated)
    ));
    assert!(matches!(
        &view.clear_validation()[..],
        [Effect::Send {
            request: Request::SetValidation { validator: None, clear: true },
            ..
        }]
    ));
    view.validation_changed(Ok(()), true);
    assert_eq!(view.pending_validation_value.as_deref(), Some("{}"));
}

#[test]
fn exports_are_texts() {
    let mut view = opened();
    assert!(matches!(
        &view.export_data()[..],
        [Effect::Export { kind: ExportKind::Data, content }] if content.contains("\"name\": \"a\"")
    ));
    assert!(matches!(
        &view.export_code(&labels())[..],
        [Effect::Export { kind: ExportKind::Code, content }] if content == "db.users.find({}).limit(25)"
    ));
    assert!(view.copy_selected().is_empty());
    view.select_document(0);
    assert!(matches!(
        &view.copy_selected()[..],
        [Effect::Copy(_), Effect::NotifySuccess(Success::DocumentCopied)]
    ));
    view.toggle_detail_panel();
    assert!(view.detail_panel_collapsed);
    view.toggle_options();
    assert!(view.show_options);
}

#[test]
fn saving_stops_at_the_first_refused_update() {
    let send_all = |replies: &[Result<(), String>]| {
        let mut sent = 0;
        let mut step = next_update(replies.len(), 0, Ok(()));
        loop {
            match step {
                SaveStep::End(result) => return (sent, result),
                SaveStep::Update(i) => {
                    assert_eq!(i, sent);
                    sent += 1;
                    step = next_update(replies.len(), sent, replies[i].clone());
                }
            }
        }
    };
    let refused = || Err("refused".to_string());
    assert_eq!(send_all(&[]), (0, Ok(())));
    assert_eq!(send_all(&[Ok(()), Ok(())]), (2, Ok(())));
    assert_eq!(send_all(&[Ok(()), refused(), Ok(())]), (2, refused()));
    assert_eq!(send_all(&[Ok(()), refused()]), (2, refused()));
}
