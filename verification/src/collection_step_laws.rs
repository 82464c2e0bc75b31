//! What each operation on the view of a collection asks for and shows.
use vstd::prelude::*;

use crate::bson_ext;
use crate::bson_ext::BsonView;
use crate::collection_model;
use crate::collection_model::{Collection, PanelView, Step};
use crate::collection_types::{
    EditorMode, EffectView, ExportKind, FailureView, RequestView, Success, TargetView, WorkView,
};
use crate::document_table;
use crate::document_table::TableView;
use crate::query_input;
use crate::query_input::TextsView;
use crate::schema;
use crate::schema::ItemView;
use crate::text;
use crate::text_laws;

verus! {

// ---------------------------------------------------------------------------
// The collection that is shown
// ---------------------------------------------------------------------------

/// A collection is shown just where its connection, its database and its name
/// are known.
pub proof fn law_target(s: Collection)
    ensures
        s.target() is Some <==> s.connection_id is Some && s.database_name is Some
            && s.collection_name is Some,
        s.target() matches Some(t) ==> s.connection_id == Some(t.connection_id) && s.database_name
            == Some(t.database_name) && s.collection_name == Some(t.collection_name),
{
}

/// The document at a place is the one that stands there, and its id the one of
/// the selection.
pub proof fn law_item(s: Collection, i: usize)
    ensures
        i < s.documents.len() ==> s.item(Some(i)) == Some(s.documents[i as int]),
        i >= s.documents.len() ==> s.item(Some(i)) is None,
        s.item(None) is None,
        s.selected == Some(i) && i < s.documents.len() ==> s.selected_id()
            == s.documents[i as int].id_bson,
        s.selected is None ==> s.selected_id() is None,
{
}

/// A failure is shown and told, and ends the waiting; everything else stays.
pub proof fn law_failure(s: Collection, f: FailureView)
    ensures
        s.failed(f).effects == seq![EffectView::NotifyError(f)],
        s.failed(f).state.error == Some(f),
        !s.failed(f).state.is_loading,
        s.failed(f).state == (Collection {
            error: s.failed(f).state.error,
            is_loading: s.failed(f).state.is_loading,
            ..s
        }),
{
}

/// A request goes to the collection that is shown, and the view waits as it was
/// told to; where none is shown, nothing happens.
pub proof fn law_sent(s: Collection, after: Collection, request: RequestView, target: TargetView)
    ensures
        s.target() == Some(target) ==> s.sends(after, request).effects == seq![
            EffectView::Send { target, request },
        ] && s.sends(after, request).state == after,
        s.target() is None ==> s.sends(after, request).effects.len() == 0 && s.sends(
            after,
            request,
        ).state == s,
{
}

/// While the server works the view is loading and shows no error; everything
/// else stays.
pub proof fn law_waiting(s: Collection)
    ensures
        s.waiting().is_loading,
        s.waiting().error is None,
        s.waiting() == (Collection {
            is_loading: s.waiting().is_loading,
            error: s.waiting().error,
            ..s
        }),
{
}

/// At first no collection is shown, nothing is loading and nothing went wrong.
pub proof fn law_first_view()
    ensures
        ({
            let s = collection_model::initial();
            &&& s.target() is None
            &&& s.active_tab == 0
            &&& s.documents.len() == 0 && s.selected is None && s.total_count is None
            &&& !s.is_loading && s.error is None && s.page_index == 0
            &&& s.mode == EditorMode::View && s.editing_id is None && s.editing_field is None
            &&& !s.show_options && !s.show_explain && !s.collapsed && !s.pending_reload
            &&& s.pending_select is None && s.pending_editor is None
            &&& s.texts == query_input::initial_texts()
            &&& s.aggregation_text == "[]"@
            &&& !s.aggregation.loading && !s.schema.loading && !s.indexes.loading
                && !s.validation.loading
        }),
{
}

/// Resetting the inputs sets them back to those of the first view and goes to
/// the first page; the documents stay.
pub proof fn law_inputs_reset(s: Collection)
    ensures
        ({
            let u = collection_model::inputs_reset(s);
            &&& u.texts == collection_model::initial().texts
            &&& u.page_index == 0
            &&& !u.show_explain
            &&& u == (Collection {
                texts: u.texts,
                page_index: u.page_index,
                show_explain: u.show_explain,
                ..s
            })
        }),
{
}

// ---------------------------------------------------------------------------
// Pages
// ---------------------------------------------------------------------------

/// While a query runs no document is shown or selected and nothing is edited;
/// the document that was selected is to be selected again. The inputs and the
/// page stay.
pub proof fn law_query_running(s: Collection)
    ensures
        ({
            let u = collection_model::query_running(s);
            &&& u.is_loading && u.error is None
            &&& u.documents.len() == 0 && u.table.documents.len() == 0
            &&& u.total_count is None && u.selected is None
            &&& u.mode == EditorMode::View && u.editing_id is None && u.editing_field is None
            &&& !u.show_explain
            &&& s.pending_select is Some ==> u.pending_select == s.pending_select
            &&& s.pending_select is None ==> u.pending_select == s.selected_id()
            &&& u.texts == s.texts && u.page_index == s.page_index && u.target() == s.target()
            &&& u.active_tab == s.active_tab && u.pending_reload == s.pending_reload
        }),
{
}

/// The documents of a page are shown in the list and in the table, with their
/// number; what was to be selected is, and its text goes to the editor.
pub proof fn law_page_shown(s: Collection, items: Seq<ItemView>, total: Option<i64>, i: int)
    ensures
        ({
            let u = collection_model::page_shown(s, items, total);
            &&& u.documents == items
            &&& u.table.documents.len() == items.len()
            &&& 0 <= i < items.len() ==> u.table.documents[i] == items[i].document
            &&& u.total_count == total
            &&& !u.is_loading && u.error is None && u.pending_select is None
            &&& s.pending_select is None ==> u.selected == s.selected && u.pending_editor
                == s.pending_editor && u.mode == s.mode
            &&& s.pending_select matches Some(id) ==> u.selected == collection_model::place_of(
                items,
                id,
            )
            &&& s.pending_select is Some && u.selected is Some ==> u.editing_id
                == items[u.selected->0 as int].id_bson && u.pending_editor == Some(
                items[u.selected->0 as int].pretty_json,
            )
            &&& u.texts == s.texts && u.page_index == s.page_index && u.target() == s.target()
        }),
{
}

/// A page that came is shown, and one that did not is told; a document that
/// cannot be written as text counts as such.
pub proof fn law_query_finished(
    s: Collection,
    documents: Seq<Seq<(Seq<char>, BsonView)>>,
    why: Seq<char>,
    total: Option<i64>,
)
    ensures
        collection_model::query_finished(s, Err(why), total) == s.failed(FailureView::Reply(why)),
        schema::items_of(documents) matches Ok(items) ==> {
            let done = collection_model::query_finished(s, Ok(documents), total);
            done.effects.len() == 0 && done.state == collection_model::page_shown(s, items, total)
        },
        schema::items_of(documents) matches Err(e) ==> collection_model::query_finished(
            s,
            Ok(documents),
            total,
        ) == s.failed(FailureView::Reply("Serialization error: "@ + e)),
{
}

// ---------------------------------------------------------------------------
// Selecting and editing
// ---------------------------------------------------------------------------

/// A document that is selected is the one that is viewed: its id is remembered
/// and its text stands in the editor. A place that is none changes nothing.
pub proof fn law_document_selected(s: Collection, i: usize)
    ensures
        i >= s.documents.len() ==> collection_model::document_selected(s, i) == s,
        i < s.documents.len() ==> {
            let u = collection_model::document_selected(s, i);
            let item = s.documents[i as int];
            &&& u.selected == Some(i)
            &&& u.mode == EditorMode::View
            &&& u.editing_id == item.id_bson && u.editing_field is None
            &&& u.editor_text == item.pretty_json && u.pending_editor is None
            &&& !u.show_explain
            &&& u.documents == s.documents && u.table == s.table && u.texts == s.texts
        },
{
}

/// A new document starts with an empty one in the editor, and is nobody's yet.
pub proof fn law_create_started(s: Collection)
    ensures
        ({
            let u = collection_model::create_started(s);
            &&& u.mode == EditorMode::Create
            &&& u.editing_id is None && u.editing_field is None
            &&& u.editor_text == "{\n  \n}"@ && u.pending_editor is None
            &&& !u.collapsed && !u.show_explain
            &&& u.documents == s.documents && u.selected == s.selected && u.table == s.table
        }),
{
}

/// The document that is selected is edited in the editor, under its id.
pub proof fn law_update_started(s: Collection, item: ItemView)
    ensures
        s.item(s.selected) is None ==> collection_model::update_started(s) == s,
        s.item(s.selected) == Some(item) ==> {
            let u = collection_model::update_started(s);
            &&& u.mode == EditorMode::Update
            &&& u.editing_id == item.id_bson && u.editing_field is None
            &&& u.editor_text == item.pretty_json && u.pending_editor is None
            &&& !u.collapsed && !u.show_explain
            &&& u.documents == s.documents && u.selected == s.selected && u.table == s.table
        },
{
}

/// The cells that are edited beside the table are those of safe fields whose
/// values cannot be edited in their place.
pub proof fn law_detail_cell(t: TableView, row: usize, col: usize)
    ensures
        collection_model::is_detail_cell(t, row, col) <==> col < t.columns.len()
            && document_table::is_safe_field(t.columns[col as int]) && t.value(row, col) is Some
            && !document_table::is_editable(t.value(row, col)->0),
{
}

/// A field that is edited beside the table stands in the editor as text, under
/// the id of its document; the columns of the table count from one.
pub proof fn law_field_update_started(s: Collection, row: usize, col: usize, shown: Seq<char>)
    requires
        col < usize::MAX,
        collection_model::is_detail_cell(s.table, row, col),
        s.table.changes.len() == 0,
        row < s.documents.len(),
        s.documents[row as int].id_bson is Some,
        bson_ext::field(s.documents[row as int].document, s.table.columns[col as int]) is Some,
        bson_ext::json_pretty_text(
            bson_ext::relaxed_json(
                bson_ext::field(s.documents[row as int].document, s.table.columns[col as int])->0,
            ),
        ) == Ok::<Seq<char>, Seq<char>>(shown),
    ensures
        ({
            let done = collection_model::field_update_started(s, row, (col + 1) as usize);
            let id = s.documents[row as int].id_bson->0;
            &&& done.effects.len() == 0
            &&& done.state.mode == EditorMode::FieldUpdate
            &&& done.state.selected == Some(row)
            &&& done.state.editing_id == Some(id)
            &&& done.state.editing_field == Some((s.table.columns[col as int], id))
            &&& done.state.editor_text == shown
            &&& !done.state.show_explain && !done.state.collapsed
            &&& done.state.documents == s.documents && done.state.table == s.table
        }),
{
}

/// A field is not edited beside the table while edits of the table wait, nor in
/// a document without an id; the column of the row numbers and other cells do
/// nothing.
pub proof fn law_field_update_refused(s: Collection, row: usize, col: usize)
    requires
        col < usize::MAX,
    ensures
        collection_model::field_update_started(s, row, 0).state == s,
        collection_model::field_update_started(s, row, 0).effects.len() == 0,
        !collection_model::is_detail_cell(s.table, row, col)
            ==> collection_model::field_update_started(s, row, (col + 1) as usize).state == s,
        collection_model::is_detail_cell(s.table, row, col) && s.table.changes.len() > 0
            ==> collection_model::field_update_started(s, row, (col + 1) as usize) == s.failed(
            FailureView::SaveOrRevertChangesFirst,
        ),
        collection_model::is_detail_cell(s.table, row, col) && s.table.changes.len() == 0 && row
            < s.documents.len() && s.documents[row as int].id_bson is None
            ==> collection_model::field_update_started(s, row, (col + 1) as usize) == s.failed(
            FailureView::IdRequiredForUpdate,
        ),
{
}

/// Giving up an edit goes back to viewing the selected document.
pub proof fn law_edit_cancelled(s: Collection)
    ensures
        ({
            let u = collection_model::edit_cancelled(s);
            &&& u.mode == EditorMode::View && u.editing_field is None && !u.show_explain
            &&& s.item(s.selected) matches Some(item) ==> u.editor_text == item.pretty_json
                && u.pending_editor is None
            &&& s.item(s.selected) is None ==> u.editor_text == s.editor_text
            &&& u.documents == s.documents && u.table == s.table && u.selected == s.selected
        }),
{
}

/// What is sent when the editor is saved.
pub open spec fn saves(s: Collection, done: Step, work: WorkView, success: Success) -> bool {
    &&& done.effects == seq![
        EffectView::Send {
            target: s.target()->0,
            request: RequestView::Edit { work, done: success },
        },
    ]
    &&& done.state.is_loading && done.state.error is None
    &&& done.state.documents == s.documents && done.state.editor_text == s.editor_text
        && done.state.mode == s.mode
}

/// A new document is inserted as it stands in the editor, and selected once it
/// is there.
pub proof fn law_document_created(
    s: Collection,
    label: Seq<char>,
    document: Seq<(Seq<char>, BsonView)>,
)
    requires
        s.mode == EditorMode::Create,
        s.target() is Some,
        query_input::document_read(s.editor_text, label) == Ok::<
            _,
            query_input::InputErrorView,
        >(document),
    ensures
        ({
            let done = collection_model::save_edit(s, label);
            &&& saves(s, done, WorkView::Insert(document), Success::DocumentCreated)
            &&& done.state.pending_select == bson_ext::field(document, "_id"@)
        }),
{
}

/// A document that was edited takes the place of the one with its id, and keeps
/// the id.
pub proof fn law_document_replaced(
    s: Collection,
    label: Seq<char>,
    document: Seq<(Seq<char>, BsonView)>,
    id: BsonView,
)
    requires
        s.mode == EditorMode::Update,
        s.target() is Some,
        query_input::document_read(s.editor_text, label) == Ok::<
            _,
            query_input::InputErrorView,
        >(document),
        s.editing_id == Some(id) || (s.editing_id is None && s.selected_id() == Some(id)),
    ensures
        ({
            let done = collection_model::save_edit(s, label);
            &&& saves(
                s,
                done,
                WorkView::Replace { id, document: bson_ext::with_field(document, "_id"@, id) },
                Success::DocumentUpdated,
            )
            &&& done.state.pending_select == Some(id)
        }),
{
}

/// A field that was edited is set, and no other, in the document with its id.
pub proof fn law_field_saved(
    s: Collection,
    label: Seq<char>,
    field: Seq<char>,
    id: BsonView,
    value: BsonView,
)
    requires
        s.mode == EditorMode::FieldUpdate,
        s.target() is Some,
        s.editing_field == Some((field, id)),
        query_input::value_read(s.editor_text, field) == Ok::<_, query_input::InputErrorView>(
            value,
        ),
    ensures
        ({
            let done = collection_model::save_edit(s, label);
            &&& saves(
                s,
                done,
                WorkView::SetFields { id, fields: seq![(field, value)] },
                Success::FieldUpdated,
            )
            &&& done.state.pending_select == Some(id)
        }),
{
    assert(bson_ext::with_field(Seq::empty(), field, value) =~= seq![(field, value)]);
}

/// What cannot be read is not saved, nor what has no id; the reason is told.
pub proof fn law_save_refused(s: Collection, label: Seq<char>, e: query_input::InputErrorView)
    ensures
        s.mode != EditorMode::FieldUpdate && query_input::document_read(s.editor_text, label) == Err::<
            Seq<(Seq<char>, BsonView)>,
            _,
        >(e) ==> collection_model::save_edit(s, label) == s.failed(FailureView::Input(e)),
        s.mode == EditorMode::FieldUpdate && s.editing_field is None
            ==> collection_model::save_edit(s, label) == s.failed(FailureView::IdRequiredForUpdate),
        s.mode == EditorMode::FieldUpdate && s.editing_field is Some && query_input::value_read(
            s.editor_text,
            (s.editing_field->0).0,
        ) == Err::<BsonView, _>(e) ==> collection_model::save_edit(s, label) == s.failed(
            FailureView::Input(e),
        ),
        s.mode == EditorMode::Update && s.target() is Some && s.editing_id is None
            && s.selected_id() is None && query_input::document_read(s.editor_text, label) is Ok
            ==> collection_model::save_edit(s, label) == s.failed(FailureView::IdRequiredForUpdate),
{
}

/// What was saved is told, the view goes back to viewing, and the page is
/// fetched again; what was not is told too, and the edit goes on.
pub proof fn law_edit_finished(s: Collection, why: Seq<char>, done: Success)
    ensures
        ({
            let ok = collection_model::edit_finished(s, Ok(()), done);
            &&& ok.effects == seq![EffectView::NotifySuccess(done)]
            &&& !ok.state.is_loading && ok.state.pending_reload
            &&& ok.state.mode == EditorMode::View && ok.state.editing_id is None
                && ok.state.editing_field is None && !ok.state.show_explain
            &&& ok.state.pending_select == s.pending_select && ok.state.selected == s.selected
            &&& collection_model::edit_finished(s, Err(why), done) == s.failed(
                FailureView::Reply(why),
            )
        }),
        ({
            let gone = collection_model::delete_finished(s, Ok(()));
            &&& gone.effects == seq![EffectView::NotifySuccess(Success::DocumentDeleted)]
            &&& gone.state.selected is None && gone.state.pending_reload && !gone.state.is_loading
            &&& gone.state.mode == EditorMode::View && gone.state.editing_id is None
            &&& gone.state.pending_select == s.pending_select
            &&& collection_model::delete_finished(s, Err(why)) == s.failed(FailureView::Reply(why))
        }),
{
}

/// The document that is selected is deleted by its id, and its neighbour is to
/// be selected: the next, or the one before the last.
pub proof fn law_document_deleted(s: Collection, i: usize, id: BsonView)
    requires
        s.target() is Some,
        s.selected == Some(i),
        i < s.documents.len(),
        s.documents[i as int].id_bson == Some(id),
    ensures
        ({
            let done = collection_model::delete_selected(s);
            &&& done.effects == seq![
                EffectView::Send { target: s.target()->0, request: RequestView::Delete { id } },
            ]
            &&& done.state.is_loading && done.state.error is None
            &&& i + 1 < s.documents.len() ==> done.state.pending_select == s.documents[i
                + 1].id_bson
            &&& i + 1 == s.documents.len() && i > 0 ==> done.state.pending_select == s.documents[i
                - 1].id_bson
            &&& s.documents.len() == 1 ==> done.state.pending_select is None
            &&& done.state.documents == s.documents && done.state.selected == s.selected
        }),
{
}

/// A document without an id is not deleted, and without a selection nothing is.
pub proof fn law_delete_refused(s: Collection)
    ensures
        s.target() is None || s.item(s.selected) is None ==> collection_model::delete_selected(
            s,
        ).state == s && collection_model::delete_selected(s).effects.len() == 0,
        s.target() is Some && s.item(s.selected) is Some && (s.item(s.selected)->0).id_bson is None
            ==> collection_model::delete_selected(s) == s.failed(FailureView::IdRequiredForDelete),
{
}

/// The selected document is copied as its text, and that is told.
pub proof fn law_copied(s: Collection, item: ItemView)
    ensures
        s.item(s.selected) == Some(item) ==> collection_model::copy_selected(s) == seq![
            EffectView::Copy(item.pretty_json),
            EffectView::NotifySuccess(Success::DocumentCopied),
        ],
        s.item(s.selected) is None ==> collection_model::copy_selected(s).len() == 0,
{
}

// ---------------------------------------------------------------------------
// The edits of the table
// ---------------------------------------------------------------------------

/// Each document with edits is updated by its id, with just its edits, and the
/// number of edits is told; a document without an id is not.
pub proof fn law_changes_sent(s: Collection, i: int)
    requires
        s.target() is Some,
        s.table.changes.len() > 0,
    ensures
        ({
            let rows = document_table::rows_set(s.table.changes);
            let done = collection_model::save_table_changes(s);
            let lacking = exists|k: int|
                0 <= k < rows.len() && s.table.original((#[trigger] rows[k]).row, "_id"@) is None;
            &&& lacking ==> done == s.failed(
                FailureView::Reply("Invalid filter: "@ + "Missing _id for update."@),
            )
            &&& !lacking ==> {
                &&& done.state.is_loading && done.state.error is None
                &&& done.state.pending_select == s.selected_id()
                &&& done.effects.len() == 1
                &&& done.effects[0] matches EffectView::Send { target, request }
                &&& target == s.target()->0
                &&& request matches RequestView::SaveChanges { changes, count }
                &&& changes.len() == rows.len() && count == collection_model::fields_set(changes)
                    && (0 <= i < rows.len() ==> changes[i].row == rows[i].row && changes[i].fields
                    == rows[i].fields && s.table.original(rows[i].row, "_id"@) == Some(
                    changes[i].id,
                ))
            }
        }),
{
    let rows = document_table::rows_set(s.table.changes);
    if !collection_model::lacks_id(s.table) && 0 <= i < rows.len() {
        assert(s.table.original(rows[i].row, "_id"@) is Some);
    }
}

/// The number of fields that updates set is counted one by one.
pub proof fn law_fields_counted(
    updates: Seq<crate::collection_types::UpdateView>,
    u: crate::collection_types::UpdateView,
)
    ensures
        collection_model::fields_set(Seq::empty()) == 0,
        collection_model::fields_set(updates.push(u)) == collection_model::fields_set(updates)
            + u.fields.len(),
{
    assert(updates.push(u).drop_last() =~= updates);
}

/// Without edits there is nothing to save.
pub proof fn law_no_changes(s: Collection)
    requires
        s.table.changes.len() == 0,
        !collection_model::lacks_id(s.table),
    ensures
        collection_model::save_table_changes(s).state == s,
        collection_model::save_table_changes(s).effects.len() == 0,
{
}

/// Edits that were saved are told with their number, and the page is fetched
/// again; edits that were not are kept.
pub proof fn law_changes_saved(s: Collection, why: Seq<char>, count: usize)
    ensures
        ({
            let ok = collection_model::changes_saved(s, Ok(()), count);
            &&& ok.effects == seq![EffectView::NotifySuccess(Success::TableChangesSaved(count))]
            &&& !ok.state.is_loading && ok.state.pending_reload
            &&& ok.state == (Collection {
                is_loading: ok.state.is_loading,
                pending_reload: ok.state.pending_reload,
                ..s
            })
            &&& collection_model::changes_saved(s, Err(why), count) == s.failed(
                FailureView::Reply(why),
            )
        }),
{
}

/// The list takes over the documents of the table, in their order.
pub proof fn law_list_follows_table(s: Collection, row: usize)
    ensures
        schema::items_of(s.table.documents) matches Ok(items) ==> {
            &&& collection_model::documents_synced(s).effects.len() == 0
            &&& collection_model::documents_synced(s).state == (Collection {
                documents: items,
                ..s
            })
            &&& collection_model::cell_edited(s, row).effects.len() == 0
            &&& collection_model::cell_edited(s, row).state.documents == items
            &&& row < items.len() ==> collection_model::cell_edited(s, row).state.selected == Some(
                row,
            )
        },
        schema::items_of(s.table.documents) matches Err(e)
            ==> collection_model::documents_synced(s) == s.failed(
            FailureView::Reply("Serialization error: "@ + e),
        ),
{
}

// ---------------------------------------------------------------------------
// Explanations
// ---------------------------------------------------------------------------

/// A click explains the query, and puts the explanation away where it is shown.
pub proof fn law_explain_clicked(s: Collection, labels: TextsView)
    ensures
        s.show_explain ==> !collection_model::explain_clicked(s, labels).state.show_explain
            && collection_model::explain_clicked(s, labels).effects.len() == 0,
        !s.show_explain ==> collection_model::explain_clicked(s, labels)
            == collection_model::run_explain(s, labels),
        query_input::query_read(s.texts, labels) is Ok && s.target() is Some
            ==> collection_model::run_explain(s, labels).state.show_explain
            && collection_model::run_explain(s, labels).state.is_loading
            && !collection_model::run_explain(s, labels).state.collapsed,
{
}

/// An explanation that came is shown as text; one that did not is told, and
/// none is shown.
pub proof fn law_explain_finished(
    s: Collection,
    document: Seq<(Seq<char>, BsonView)>,
    why: Seq<char>,
)
    ensures
        schema::pretty_text(document) matches Ok(shown) ==> {
            let done = collection_model::explain_finished(s, Ok(document));
            &&& done.effects.len() == 0
            &&& done.state.pending_explain == Some(shown)
            &&& done.state.show_explain && !done.state.is_loading
            &&& done.state.error == s.error && done.state.documents == s.documents
        },
        ({
            let done = collection_model::explain_finished(s, Err(why));
            &&& done.effects == seq![EffectView::NotifyError(FailureView::Reply(why))]
            &&& !done.state.show_explain && !done.state.is_loading
            &&& done.state.error == Some(FailureView::Reply(why))
        }),
{
}

// ---------------------------------------------------------------------------
// Panels
// ---------------------------------------------------------------------------

/// What is under way is loading and without error.
pub open spec fn is_under_way(p: PanelView) -> bool {
    p.loading && p.error is None
}

/// What failed is not loading, and says why.
pub open spec fn has_failed(p: PanelView, why: FailureView) -> bool {
    !p.loading && p.error == Some(why)
}

/// What came is not loading, and says how much it is.
pub open spec fn has_come(p: PanelView, count: int) -> bool {
    !p.loading && p.count is Some && p.count->0 == count
}

/// The one thing that is asked of the server.
pub open spec fn asks(s: Collection, done: Step, request: RequestView) -> bool {
    done.effects == seq![EffectView::Send { target: s.target()->0, request }]
}

/// An aggregation runs the stages that were typed; a wrong one is told.
pub proof fn law_aggregation_run(
    s: Collection,
    pipeline: Seq<Seq<(Seq<char>, BsonView)>>,
    e: query_input::InputErrorView,
)
    ensures
        query_input::pipeline_read(s.aggregation_text) == Ok::<_, query_input::InputErrorView>(
            pipeline,
        ) && s.target() is Some ==> {
            let done = collection_model::run_aggregation(s);
            asks(s, done, RequestView::Aggregate { pipeline }) && is_under_way(
                done.state.aggregation,
            )
        },
        query_input::pipeline_read(s.aggregation_text) == Err::<
            Seq<Seq<(Seq<char>, BsonView)>>,
            _,
        >(e) ==> {
            let done = collection_model::run_aggregation(s);
            &&& done.effects == seq![EffectView::NotifyError(FailureView::Input(e))]
            &&& done.state.aggregation.error == Some(FailureView::Input(e))
        },
{
}

/// The documents of an aggregation are shown as text, with their number; a
/// failure is shown and told.
pub proof fn law_aggregation_finished(
    s: Collection,
    documents: Seq<Seq<(Seq<char>, BsonView)>>,
    why: Seq<char>,
)
    requires
        documents.len() <= usize::MAX,
    ensures
        schema::list_text(documents) matches Ok(shown) ==> {
            let done = collection_model::aggregation_finished(s, Ok(documents));
            &&& done.effects.len() == 0
            &&& done.state.pending_aggregation == Some(shown)
            &&& has_come(done.state.aggregation, documents.len() as int)
        },
        schema::list_text(documents) matches Err(e) ==> {
            let done = collection_model::aggregation_finished(s, Ok(documents));
            let f = FailureView::Reply("Serialization error: "@ + e);
            done.effects == seq![EffectView::NotifyError(f)] && has_failed(
                done.state.aggregation,
                f,
            )
        },
        ({
            let done = collection_model::aggregation_finished(s, Err(why));
            let f = FailureView::Reply(why);
            done.effects == seq![EffectView::NotifyError(f)] && has_failed(
                done.state.aggregation,
                f,
            ) && done.state.aggregation_output == s.aggregation_output
        }),
{
}

/// The output of an aggregation is handed out as it is, unless it is blank.
pub proof fn law_aggregation_exported(s: Collection)
    ensures
        text_laws::is_blank(s.aggregation_output) ==> collection_model::export_aggregation(s)
            == EffectView::NotifyError(FailureView::NothingToExport),
        !text_laws::is_blank(s.aggregation_output) ==> collection_model::export_aggregation(s) == (
        EffectView::Export { kind: ExportKind::Aggregation, content: s.aggregation_output }),
{
    text_laws::law_trimmed_is_part(s.aggregation_output);
}

/// The schema is drawn from a sample of a hundred documents, and shown with
/// their number; a failure is shown and told.
pub proof fn law_schema_drawn(
    s: Collection,
    documents: Seq<Seq<(Seq<char>, BsonView)>>,
    why: Seq<char>,
)
    requires
        s.target() is Some,
        documents.len() <= usize::MAX,
    ensures
        ({
            let done = collection_model::load_schema(s);
            asks(s, done, RequestView::Sample { limit: 100 }) && is_under_way(done.state.schema)
        }),
        bson_ext::json_pretty_text(schema::schema_json(documents)) matches Ok(shown) ==> {
            let done = collection_model::schema_loaded(s, Ok(documents));
            &&& done.effects.len() == 0
            &&& done.state.pending_schema == Some(shown)
            &&& has_come(done.state.schema, documents.len() as int)
        },
        ({
            let done = collection_model::schema_loaded(s, Err(why));
            let f = FailureView::Reply(why);
            done.effects == seq![EffectView::NotifyError(f)] && has_failed(done.state.schema, f)
        }),
{
}

/// The indexes are listed as text, with their number; a failure is shown and
/// told.
pub proof fn law_indexes_listed(
    s: Collection,
    documents: Seq<Seq<(Seq<char>, BsonView)>>,
    why: Seq<char>,
)
    requires
        s.target() is Some,
        documents.len() <= usize::MAX,
    ensures
        ({
            let done = collection_model::load_indexes(s);
            asks(s, done, RequestView::ListIndexes) && is_under_way(done.state.indexes)
        }),
        schema::list_text(documents) matches Ok(shown) ==> {
            let done = collection_model::indexes_loaded(s, Ok(documents));
            &&& done.effects.len() == 0
            &&& done.state.pending_indexes == Some(shown)
            &&& has_come(done.state.indexes, documents.len() as int)
        },
        ({
            let done = collection_model::indexes_loaded(s, Err(why));
            let f = FailureView::Reply(why);
            done.effects == seq![EffectView::NotifyError(f)] && has_failed(done.state.indexes, f)
        }),
{
}

/// An index is made with the keys that were typed, under the name that was
/// typed, without the white space around it; a blank name is none, and wrong
/// keys are told.
pub proof fn law_index_created(
    s: Collection,
    label: Seq<char>,
    keys: Seq<(Seq<char>, BsonView)>,
    a: Seq<char>,
    name: Seq<char>,
    b: Seq<char>,
    e: query_input::InputErrorView,
)
    requires
        s.target() is Some,
        text_laws::is_blank(a),
        text_laws::is_blank(b),
        name.len() > 0,
        !text::is_space(name[0]),
        !text::is_space(name.last()),
    ensures
        query_input::document_read(s.index_keys, label) == Ok::<_, query_input::InputErrorView>(
            keys,
        ) ==> {
            let done = collection_model::create_index(s, label);
            &&& is_under_way(done.state.indexes) && done.state.indexes.count == s.indexes.count
            &&& s.index_name == a + name + b ==> asks(
                s,
                done,
                RequestView::CreateIndex { keys, name: Some(name) },
            )
            &&& text_laws::is_blank(s.index_name) ==> asks(
                s,
                done,
                RequestView::CreateIndex { keys, name: None },
            )
        },
        query_input::document_read(s.index_keys, label) == Err::<Seq<(Seq<char>, BsonView)>, _>(e)
            ==> {
            let done = collection_model::create_index(s, label);
            &&& done.effects == seq![EffectView::NotifyError(FailureView::Input(e))]
            &&& done.state.indexes.error == Some(FailureView::Input(e))
        },
{
    text_laws::law_trimmed(a, name, b);
    text_laws::law_trimmed_is_part(s.index_name);
}

/// The index of the name that was typed is dropped; a blank name is told.
pub proof fn law_index_dropped(s: Collection, a: Seq<char>, name: Seq<char>, b: Seq<char>)
    requires
        s.target() is Some,
        text_laws::is_blank(a),
        text_laws::is_blank(b),
        name.len() > 0,
        !text::is_space(name[0]),
        !text::is_space(name.last()),
    ensures
        s.index_drop == a + name + b ==> asks(
            s,
            collection_model::drop_index(s),
            RequestView::DropIndex { name },
        ) && is_under_way(collection_model::drop_index(s).state.indexes),
        text_laws::is_blank(s.index_drop) ==> collection_model::drop_index(s).effects == seq![
            EffectView::NotifyError(FailureView::IndexNameRequired),
        ] && collection_model::drop_index(s).state.indexes.error == Some(
            FailureView::IndexNameRequired,
        ),
{
    text_laws::law_trimmed(a, name, b);
    text_laws::law_trimmed_is_part(s.index_drop);
}

/// After an index was made or dropped that is told, and the indexes are listed
/// again; a failure is shown and told.
pub proof fn law_index_changed(s: Collection, why: Seq<char>, done: Success)
    requires
        s.target() is Some,
    ensures
        collection_model::index_changed(s, Ok(()), done).effects == seq![
            EffectView::NotifySuccess(done),
            EffectView::Send { target: s.target()->0, request: RequestView::ListIndexes },
        ],
        is_under_way(collection_model::index_changed(s, Ok(()), done).state.indexes),
        collection_model::index_changed(s, Err(why), done).effects == seq![
            EffectView::NotifyError(FailureView::Reply(why)),
        ],
        has_failed(
            collection_model::index_changed(s, Err(why), done).state.indexes,
            FailureView::Reply(why),
        ),
{
}

/// The validation rules are fetched and shown as text, `{}` where there are
/// none; a failure is shown and told.
pub proof fn law_validation_loaded(
    s: Collection,
    rules: Seq<(Seq<char>, BsonView)>,
    why: Seq<char>,
)
    requires
        s.target() is Some,
    ensures
        asks(s, collection_model::load_validation(s), RequestView::GetValidation),
        is_under_way(collection_model::load_validation(s).state.validation),
        collection_model::validation_loaded(s, Ok(None)).state.pending_validation == Some("{}"@),
        schema::pretty_text(rules) matches Ok(shown) ==> collection_model::validation_loaded(
            s,
            Ok(Some(rules)),
        ).state.pending_validation == Some(shown),
        schema::pretty_text(rules) is Err ==> collection_model::validation_loaded(
            s,
            Ok(Some(rules)),
        ).state.pending_validation == Some("{}"@),
        !collection_model::validation_loaded(s, Ok(Some(rules))).state.validation.loading,
        collection_model::validation_loaded(s, Ok(Some(rules))).effects.len() == 0,
        collection_model::validation_loaded(s, Err(why)).effects == seq![
            EffectView::NotifyError(FailureView::Reply(why)),
        ],
        has_failed(
            collection_model::validation_loaded(s, Err(why)).state.validation,
            FailureView::Reply(why),
        ),
{
}

/// The rules that were typed are saved, none for a blank text; wrong ones are
/// told. Clearing asks to clear them.
pub proof fn law_validation_saved(
    s: Collection,
    label: Seq<char>,
    validator: Option<Seq<(Seq<char>, BsonView)>>,
    e: query_input::InputErrorView,
)
    requires
        s.target() is Some,
    ensures
        query_input::optional_document_read(s.validation_text, label) == Ok::<
            _,
            query_input::InputErrorView,
        >(validator) ==> asks(
            s,
            collection_model::save_validation(s, label),
            RequestView::SetValidation { validator, clear: false },
        ) && is_under_way(collection_model::save_validation(s, label).state.validation),
        query_input::optional_document_read(s.validation_text, label) == Err::<
            Option<Seq<(Seq<char>, BsonView)>>,
            _,
        >(e) ==> collection_model::save_validation(s, label).effects == seq![
            EffectView::NotifyError(FailureView::Input(e)),
        ],
        asks(
            s,
            collection_model::clear_validation(s),
            RequestView::SetValidation { validator: None, clear: true },
        ),
        is_under_way(collection_model::clear_validation(s).state.validation),
{
}

/// After the rules were changed that is told, and they are fetched again; a
/// failure is shown and told.
pub proof fn law_validation_changed(s: Collection, why: Seq<char>)
    requires
        s.target() is Some,
    ensures
        collection_model::validation_changed(s, Ok(()), false).effects == seq![
            EffectView::NotifySuccess(Success::ValidationUpdated),
            EffectView::Send { target: s.target()->0, request: RequestView::GetValidation },
        ],
        collection_model::validation_changed(s, Ok(()), true).effects == seq![
            EffectView::NotifySuccess(Success::ValidationCleared),
            EffectView::Send { target: s.target()->0, request: RequestView::GetValidation },
        ],
        collection_model::validation_changed(s, Ok(()), true).state.pending_validation == Some(
            "{}"@,
        ),
        collection_model::validation_changed(s, Ok(()), false).state.pending_validation
            == s.pending_validation,
        has_failed(
            collection_model::validation_changed(s, Err(why), true).state.validation,
            FailureView::Reply(why),
        ),
        collection_model::validation_changed(s, Err(why), true).effects == seq![
            EffectView::NotifyError(FailureView::Reply(why)),
        ],
{
}

/// A tab that is chosen is shown, and fetches what it shows where that is the
/// schema, the indexes or the rules; the tab that is shown already does
/// nothing.
pub proof fn law_tab_shown(s: Collection, index: usize)
    requires
        s.target() is Some,
    ensures
        ({
            let done = collection_model::tab_shown(s, index);
            &&& done.state.active_tab == index
            &&& s.active_tab == index ==> done.state == s && done.effects.len() == 0
            &&& s.active_tab != index && index == 2 ==> asks(
                s,
                done,
                RequestView::Sample { limit: 100 },
            )
            &&& s.active_tab != index && index == 3 ==> asks(s, done, RequestView::ListIndexes)
            &&& s.active_tab != index && index == 4 ==> asks(s, done, RequestView::GetValidation)
            &&& index != 2 && index != 3 && index != 4 ==> done.effects.len() == 0
        }),
{
}

/// Texts that were waiting are shown in their own places, and nowhere else, and
/// wait no longer.
pub proof fn law_pending_texts(s: Collection, labels: TextsView)
    requires
        !s.pending_reload,
    ensures
        ({
            let u = collection_model::apply_pending(s, labels).state;
            &&& u.editor_text == (if s.pending_editor is Some {
                s.pending_editor->0
            } else {
                s.editor_text
            })
            &&& u.explain_text == (if s.pending_explain is Some {
                s.pending_explain->0
            } else {
                s.explain_text
            })
            &&& u.aggregation_output == (if s.pending_aggregation is Some {
                s.pending_aggregation->0
            } else {
                s.aggregation_output
            })
            &&& u.schema_output == (if s.pending_schema is Some {
                s.pending_schema->0
            } else {
                s.schema_output
            })
            &&& u.indexes_output == (if s.pending_indexes is Some {
                s.pending_indexes->0
            } else {
                s.indexes_output
            })
            &&& u.validation_text == (if s.pending_validation is Some {
                s.pending_validation->0
            } else {
                s.validation_text
            })
            &&& u.pending_editor is None && u.pending_explain is None && u.pending_aggregation
                is None
            &&& u.pending_schema is None && u.pending_indexes is None && u.pending_validation
                is None
            &&& u.documents == s.documents && u.selected == s.selected && u.texts == s.texts
            &&& collection_model::apply_pending(s, labels).effects.len() == 0
        }),
{
}

/// A page that was to be fetched again is.
pub proof fn law_pending_reload(s: Collection, labels: TextsView)
    requires
        s.pending_reload,
        query_input::query_read(s.texts, labels) is Ok,
        s.target() is Some,
    ensures
        ({
            let done = collection_model::apply_pending(s, labels);
            &&& !done.state.pending_reload && done.state.is_loading
            &&& done.effects == collection_model::run_query(s, labels).effects
        }),
{
}

/// The documents are handed out as text, as they are listed.
pub proof fn law_data_exported(s: Collection)
    ensures
        schema::list_text(schema::item_documents(s.documents)) matches Ok(content) ==> {
            let done = collection_model::export_data(s);
            &&& done.state == s
            &&& done.effects == seq![EffectView::Export { kind: ExportKind::Data, content }]
        },
        schema::list_text(schema::item_documents(s.documents)) matches Err(e)
            ==> collection_model::export_data(s) == s.failed(
            FailureView::Reply("Serialization error: "@ + e),
        ),
{
}

/// Where nothing is edited, saving has nothing to do, and says so once it is
/// done.
pub proof fn law_idle_save(s: Collection, label: Seq<char>)
    requires
        s.mode == EditorMode::View,
        s.target() is Some,
        query_input::document_read(s.editor_text, label) is Ok,
    ensures
        saves(s, collection_model::save_edit(s, label), WorkView::Idle, Success::OperationDone),
        collection_model::save_edit(s, label).state.pending_select is None,
{
}

/// Giving up the edits of the table shows its documents as they came, in the
/// list too, and the one that is selected in the editor.
pub proof fn law_changes_given_up(s: Collection, items: Seq<ItemView>)
    requires
        schema::items_of(s.table.originals) == Ok::<_, Seq<char>>(items),
    ensures
        ({
            let done = collection_model::changes_reverted(s);
            &&& done.effects.len() == 0
            &&& done.state.table.documents == s.table.originals
            &&& done.state.table.changes.len() == 0
            &&& done.state.documents == items
            &&& done.state.selected == s.selected
            &&& s.selected matches Some(i) ==> i < items.len() ==> done.state.editor_text
                == items[i as int].pretty_json
        }),
{
}

/// A collection that is shown starts anew: on the tab of the documents, with
/// nothing selected or edited, and with nothing fetched in the other tabs.
pub proof fn law_collection_starts_anew(s: Collection, target: TargetView, labels: TextsView)
    requires
        query_input::query_read(s.texts, labels) is Ok,
    ensures
        ({
            let u = collection_model::load_collection(s, target, labels).state;
            &&& u.target() == Some(target)
            &&& u.active_tab == 0
            &&& u.page_index == 0 && u.selected is None && u.documents.len() == 0
            &&& u.mode == EditorMode::View && u.editing_id is None && u.editing_field is None
            &&& !u.show_explain
            &&& u.pending_aggregation == Some("[]"@) && u.pending_schema == Some("{}"@)
            &&& u.pending_indexes == Some("[]"@) && u.pending_validation == Some("{}"@)
            &&& !u.aggregation.loading && u.aggregation.error is None && u.aggregation.count is None
            &&& !u.schema.loading && u.schema.error is None && u.schema.count is None
            &&& !u.indexes.loading && u.indexes.error is None && u.indexes.count is None
            &&& !u.validation.loading && u.validation.error is None && u.validation.count is None
            &&& u.texts == s.texts
        }),
{
}

/// Where no collection is shown any more when a change comes back, it is told,
/// and nothing is fetched.
pub proof fn law_change_without_collection(s: Collection, done: Success)
    requires
        s.target() is None,
    ensures
        collection_model::index_changed(s, Ok(()), done).effects == seq![
            EffectView::NotifySuccess(done),
        ],
        !collection_model::index_changed(s, Ok(()), done).state.indexes.loading,
        collection_model::index_changed(s, Ok(()), done).state.indexes.count == s.indexes.count,
        collection_model::validation_changed(s, Ok(()), true).effects == seq![
            EffectView::NotifySuccess(Success::ValidationCleared),
        ],
        !collection_model::validation_changed(s, Ok(()), true).state.validation.loading,
{
}

// ---------------------------------------------------------------------------
// What stays
// ---------------------------------------------------------------------------

/// Nothing but the aggregation differs.
pub open spec fn only_aggregation_differs(s: Collection, u: Collection) -> bool {
    u == (Collection {
        aggregation: u.aggregation,
        pending_aggregation: u.pending_aggregation,
        ..s
    })
}

/// Nothing but the schema differs.
pub open spec fn only_schema_differs(s: Collection, u: Collection) -> bool {
    u == (Collection { schema: u.schema, pending_schema: u.pending_schema, ..s })
}

/// Nothing but the indexes differ.
pub open spec fn only_indexes_differ(s: Collection, u: Collection) -> bool {
    u == (Collection { indexes: u.indexes, pending_indexes: u.pending_indexes, ..s })
}

/// Nothing but the validation rules differ.
pub open spec fn only_validation_differs(s: Collection, u: Collection) -> bool {
    u == (Collection {
        validation: u.validation,
        pending_validation: u.pending_validation,
        ..s
    })
}

/// Each panel works on its own: what happens in one leaves the documents, the
/// inputs and the other panels alone.
pub proof fn law_panels_are_apart(
    s: Collection,
    documents: Result<Seq<Seq<(Seq<char>, BsonView)>>, Seq<char>>,
    rules: Result<Option<Seq<(Seq<char>, BsonView)>>, Seq<char>>,
    result: Result<(), Seq<char>>,
    label: Seq<char>,
    success: Success,
    cleared: bool,
)
    ensures
        only_aggregation_differs(s, collection_model::run_aggregation(s).state),
        only_aggregation_differs(s, collection_model::aggregation_finished(s, documents).state),
        only_schema_differs(s, collection_model::load_schema(s).state),
        only_schema_differs(s, collection_model::schema_loaded(s, documents).state),
        only_indexes_differ(s, collection_model::load_indexes(s).state),
        only_indexes_differ(s, collection_model::indexes_loaded(s, documents).state),
        only_indexes_differ(s, collection_model::create_index(s, label).state),
        only_indexes_differ(s, collection_model::drop_index(s).state),
        only_indexes_differ(s, collection_model::index_changed(s, result, success).state),
        only_validation_differs(s, collection_model::load_validation(s).state),
        only_validation_differs(s, collection_model::validation_loaded(s, rules).state),
        only_validation_differs(s, collection_model::save_validation(s, label).state),
        only_validation_differs(s, collection_model::clear_validation(s).state),
        only_validation_differs(s, collection_model::validation_changed(s, result, cleared).state),
{
}

/// Nothing differs but what is selected and edited, and how it is shown.
pub open spec fn only_editing_differs(s: Collection, u: Collection) -> bool {
    u == (Collection {
        selected: u.selected,
        mode: u.mode,
        editing_id: u.editing_id,
        editing_field: u.editing_field,
        editor_text: u.editor_text,
        pending_editor: u.pending_editor,
        show_explain: u.show_explain,
        collapsed: u.collapsed,
        is_loading: u.is_loading,
        error: u.error,
        ..s
    })
}

/// Selecting and editing leaves the documents, the table, the inputs and the
/// panels alone.
pub proof fn law_editing_is_apart(s: Collection, i: usize, col: usize)
    ensures
        only_editing_differs(s, collection_model::document_selected(s, i)),
        only_editing_differs(s, collection_model::create_started(s)),
        only_editing_differs(s, collection_model::update_started(s)),
        only_editing_differs(s, collection_model::field_update_started(s, i, col).state),
        only_editing_differs(s, collection_model::edit_cancelled(s)),
{
}

/// Nothing differs but what is waited for and told, and what is edited and
/// selected.
pub open spec fn only_work_differs(s: Collection, u: Collection) -> bool {
    u == (Collection {
        selected: u.selected,
        mode: u.mode,
        editing_id: u.editing_id,
        editing_field: u.editing_field,
        show_explain: u.show_explain,
        pending_explain: u.pending_explain,
        collapsed: u.collapsed,
        is_loading: u.is_loading,
        error: u.error,
        pending_reload: u.pending_reload,
        pending_select: u.pending_select,
        ..s
    })
}

/// Saving and deleting leave the documents, the table, the inputs and the
/// panels alone.
pub proof fn law_saving_is_apart(
    s: Collection,
    label: Seq<char>,
    result: Result<(), Seq<char>>,
    done: Success,
    count: usize,
)
    ensures
        only_work_differs(s, collection_model::save_edit(s, label).state),
        only_work_differs(s, collection_model::edit_finished(s, result, done).state),
        only_work_differs(s, collection_model::delete_selected(s).state),
        only_work_differs(s, collection_model::delete_finished(s, result).state),
        only_work_differs(s, collection_model::save_table_changes(s).state),
        only_work_differs(s, collection_model::changes_saved(s, result, count).state),
{
}

/// Explaining a query and handing documents out leave the documents, the table,
/// the inputs and the panels alone.
pub proof fn law_explaining_is_apart(
    s: Collection,
    labels: TextsView,
    document: Result<Seq<(Seq<char>, BsonView)>, Seq<char>>,
)
    ensures
        only_work_differs(s, collection_model::run_explain(s, labels).state),
        only_work_differs(s, collection_model::explain_clicked(s, labels).state),
        only_work_differs(s, collection_model::explain_finished(s, document).state),
        only_work_differs(s, collection_model::export_data(s).state),
        only_work_differs(s, collection_model::export_code(s, labels).state),
{
}

/// Nothing differs but the page, what is selected of it and what is told.
pub open spec fn only_page_differs(s: Collection, u: Collection) -> bool {
    u == (Collection {
        documents: u.documents,
        table: u.table,
        total_count: u.total_count,
        page_index: u.page_index,
        selected: u.selected,
        mode: u.mode,
        editing_id: u.editing_id,
        editing_field: u.editing_field,
        show_explain: u.show_explain,
        is_loading: u.is_loading,
        error: u.error,
        pending_editor: u.pending_editor,
        pending_select: u.pending_select,
        ..s
    })
}

/// Fetching a page leaves the panels and the inputs alone.
pub proof fn law_pages_are_apart(
    s: Collection,
    labels: TextsView,
    documents: Result<Seq<Seq<(Seq<char>, BsonView)>>, Seq<char>>,
    total: Option<i64>,
)
    ensures
        only_page_differs(s, collection_model::run_query(s, labels).state),
        only_page_differs(s, collection_model::find_first_page(s, labels).state),
        only_page_differs(s, collection_model::previous_page(s, labels).state),
        only_page_differs(s, collection_model::next_page(s, labels).state),
        only_page_differs(s, collection_model::query_finished(s, documents, total).state),
{
}

} // verus!
