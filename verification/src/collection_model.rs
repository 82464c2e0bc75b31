//! The view of a collection as mathematics: its state, and what every
//! operation makes of it.
use vstd::prelude::*;

use crate::bson_ext;
use crate::bson_ext::BsonView;
use crate::collection_types::{EditorMode, EffectView, ExportKind, FailureView, RequestView, Success,
    TargetView, UpdateView, WorkView};
use crate::document_table;
use crate::document_table::TableView;
use crate::query_input;
use crate::query_input::{QueryView, TextsView};
use crate::schema;
use crate::schema::ItemView;
use crate::text;

verus! {

/// The tab of the documents.
pub const TAB_DOCUMENTS: usize = 0;

/// The tab of the aggregations.
pub const TAB_AGGREGATIONS: usize = 1;

/// The tab of the schema.
pub const TAB_SCHEMA: usize = 2;

/// The tab of the indexes.
pub const TAB_INDEXES: usize = 3;

/// The tab of the validation rules.
pub const TAB_VALIDATION: usize = 4;

/// How many documents a schema is drawn from.
pub const SCHEMA_SAMPLE_LIMIT: i64 = 100;

/// Something that is fetched on its own: whether it is under way, why it
/// failed, and how much came.
pub ghost struct PanelView {
    pub loading: bool,
    pub error: Option<FailureView>,
    pub count: Option<usize>,
}

/// The state of the view of a collection.
pub ghost struct Collection {
    pub connection_id: Option<Seq<char>>,
    pub database_name: Option<Seq<char>>,
    pub collection_name: Option<Seq<char>>,
    pub active_tab: usize,
    pub texts: TextsView,
    pub editor_text: Seq<char>,
    pub explain_text: Seq<char>,
    pub aggregation_text: Seq<char>,
    pub aggregation_output: Seq<char>,
    pub schema_output: Seq<char>,
    pub index_name: Seq<char>,
    pub index_keys: Seq<char>,
    pub index_drop: Seq<char>,
    pub indexes_output: Seq<char>,
    pub validation_text: Seq<char>,
    pub table: TableView,
    pub documents: Seq<ItemView>,
    pub selected: Option<usize>,
    pub is_loading: bool,
    pub error: Option<FailureView>,
    pub total_count: Option<i64>,
    pub page_index: i64,
    pub show_options: bool,
    pub show_explain: bool,
    pub mode: EditorMode,
    pub editing_id: Option<BsonView>,
    pub editing_field: Option<(Seq<char>, BsonView)>,
    pub pending_editor: Option<Seq<char>>,
    pub pending_explain: Option<Seq<char>>,
    pub pending_aggregation: Option<Seq<char>>,
    pub pending_schema: Option<Seq<char>>,
    pub pending_indexes: Option<Seq<char>>,
    pub pending_validation: Option<Seq<char>>,
    pub pending_reload: bool,
    pub pending_select: Option<BsonView>,
    pub collapsed: bool,
    pub aggregation: PanelView,
    pub schema: PanelView,
    pub indexes: PanelView,
    pub validation: PanelView,
}

/// What an operation makes of the view, and what follows outside it.
pub ghost struct Step {
    pub state: Collection,
    pub effects: Seq<EffectView>,
}

/// Nothing follows outside the view.
pub open spec fn quiet(state: Collection) -> Step {
    Step { state, effects: Seq::empty() }
}

/// One thing follows outside the view.
pub open spec fn with_effect(state: Collection, effect: EffectView) -> Step {
    Step { state, effects: seq![effect] }
}

/// Something that is not fetched.
pub open spec fn idle_panel() -> PanelView {
    PanelView { loading: false, error: None, count: None }
}

/// The reply of an error with the given text.
pub open spec fn unwritable(why: Seq<char>) -> FailureView {
    FailureView::Reply("Serialization error: "@ + why)
}

/// The view before a collection is shown.
pub open spec fn initial() -> Collection {
    Collection {
        connection_id: None,
        database_name: None,
        collection_name: None,
        active_tab: TAB_DOCUMENTS,
        texts: query_input::initial_texts(),
        editor_text: Seq::empty(),
        explain_text: Seq::empty(),
        aggregation_text: "[]"@,
        aggregation_output: Seq::empty(),
        schema_output: Seq::empty(),
        index_name: Seq::empty(),
        index_keys: Seq::empty(),
        index_drop: Seq::empty(),
        indexes_output: Seq::empty(),
        validation_text: Seq::empty(),
        table: document_table::fresh_table(Seq::empty()),
        documents: Seq::empty(),
        selected: None,
        is_loading: false,
        error: None,
        total_count: None,
        page_index: 0,
        show_options: false,
        show_explain: false,
        mode: EditorMode::View,
        editing_id: None,
        editing_field: None,
        pending_editor: None,
        pending_explain: None,
        pending_aggregation: None,
        pending_schema: None,
        pending_indexes: None,
        pending_validation: None,
        pending_reload: false,
        pending_select: None,
        collapsed: false,
        aggregation: idle_panel(),
        schema: idle_panel(),
        indexes: idle_panel(),
        validation: idle_panel(),
    }
}

// ---------------------------------------------------------------------------
// Parts
// ---------------------------------------------------------------------------

/// The table with other documents.
pub open spec fn table_shows(
    t: TableView,
    documents: Seq<Seq<(Seq<char>, BsonView)>>,
) -> TableView {
    TableView {
        editable: t.editable,
        loading: t.loading,
        ..document_table::fresh_table(documents)
    }
}

impl Collection {
    /// The collection that is shown.
    pub open spec fn target(self) -> Option<TargetView> {
        match (self.connection_id, self.database_name, self.collection_name) {
            (Some(connection_id), Some(database_name), Some(collection_name)) => Some(
                TargetView { connection_id, database_name, collection_name },
            ),
            _ => None,
        }
    }

    /// The document at a place of the list.
    pub open spec fn item(self, index: Option<usize>) -> Option<ItemView> {
        match index {
            Some(i) => if i < self.documents.len() {
                Some(self.documents[i as int])
            } else {
                None
            },
            None => None,
        }
    }

    /// The id of the document that is selected.
    pub open spec fn selected_id(self) -> Option<BsonView> {
        match self.item(self.selected) {
            Some(item) => item.id_bson,
            None => None,
        }
    }

    /// The view with a failure to be shown.
    pub open spec fn failed(self, f: FailureView) -> Step {
        with_effect(
            Collection { error: Some(f), is_loading: false, ..self },
            EffectView::NotifyError(f),
        )
    }

    /// The view while the server works on something.
    pub open spec fn waiting(self) -> Collection {
        Collection { is_loading: true, error: None, ..self }
    }

    /// The view with other texts in the editor.
    pub open spec fn editor_shows(self, s: Seq<char>) -> Collection {
        Collection { editor_text: s, pending_editor: None, ..self }
    }

    /// The request is sent, where a collection is shown.
    pub open spec fn sends(self, after: Collection, request: RequestView) -> Step {
        match self.target() {
            None => quiet(self),
            Some(target) => with_effect(after, EffectView::Send { target, request }),
        }
    }
}

// ---------------------------------------------------------------------------
// Queries
// ---------------------------------------------------------------------------

/// The view while a query runs.
pub open spec fn query_running(s: Collection) -> Collection {
    Collection {
        pending_select: match s.pending_select {
            Some(id) => Some(id),
            None => s.selected_id(),
        },
        is_loading: true,
        error: None,
        documents: Seq::empty(),
        table: table_shows(s.table, Seq::empty()),
        total_count: None,
        selected: None,
        mode: EditorMode::View,
        editing_id: None,
        editing_field: None,
        show_explain: false,
        ..s
    }
}

/// How the page that is shown is fetched.
pub open spec fn page_request(s: Collection, q: QueryView) -> RequestView {
    RequestView::Find {
        filter: q.filter,
        plan: query_input::plan_of(
            q,
            query_input::page_start(q.skip_base, q.page_size, s.page_index),
        ),
    }
}

/// The query that the inputs stand for is run.
pub open spec fn run_query(s: Collection, labels: TextsView) -> Step {
    match query_input::query_read(s.texts, labels) {
        Err(e) => s.failed(FailureView::Input(e)),
        Ok(q) => s.sends(query_running(s), page_request(s, q)),
    }
}

/// The query is run again, where a collection is shown.
pub open spec fn reload(s: Collection, labels: TextsView) -> Step {
    match s.target() {
        None => quiet(s),
        Some(_) => run_query(s, labels),
    }
}

/// The first page is fetched.
pub open spec fn find_first_page(s: Collection, labels: TextsView) -> Step {
    reload(Collection { page_index: 0, ..s }, labels)
}

/// The page before is fetched.
pub open spec fn previous_page(s: Collection, labels: TextsView) -> Step {
    if s.page_index > 0 {
        reload(Collection { page_index: (s.page_index - 1) as i64, ..s }, labels)
    } else {
        quiet(s)
    }
}

/// The next page is fetched.
pub open spec fn next_page(s: Collection, labels: TextsView) -> Step {
    reload(Collection { page_index: (s.page_index + 1) as i64, ..s }, labels)
}

/// A collection is shown.
pub open spec fn load_collection(
    s: Collection,
    target: TargetView,
    labels: TextsView,
) -> Step {
    run_query(
        Collection {
            connection_id: Some(target.connection_id),
            database_name: Some(target.database_name),
            collection_name: Some(target.collection_name),
            active_tab: TAB_DOCUMENTS,
            page_index: 0,
            selected: None,
            documents: Seq::empty(),
            table: table_shows(s.table, Seq::empty()),
            mode: EditorMode::View,
            editing_id: None,
            editing_field: None,
            show_explain: false,
            aggregation: idle_panel(),
            pending_aggregation: Some("[]"@),
            schema: idle_panel(),
            pending_schema: Some("{}"@),
            indexes: idle_panel(),
            pending_indexes: Some("[]"@),
            validation: idle_panel(),
            pending_validation: Some("{}"@),
            ..s
        },
        labels,
    )
}

/// The place of the first document with the id.
pub open spec fn place_of(items: Seq<ItemView>, id: BsonView) -> Option<usize>
    decreases items.len(),
{
    if items.len() == 0 {
        None
    } else {
        match place_of(items.drop_last(), id) {
            Some(i) => Some(i),
            None => match items.last().id_bson {
                Some(v) => if bson_ext::same_value(v, id) {
                    Some((items.len() - 1) as usize)
                } else {
                    None
                },
                None => None,
            },
        }
    }
}

/// The view with the documents of a page.
pub open spec fn page_shown(s: Collection, items: Seq<ItemView>, total: Option<i64>) -> Collection {
    let shown = Collection {
        documents: items,
        table: table_shows(s.table, schema::item_documents(items)),
        total_count: total,
        is_loading: false,
        error: None,
        pending_select: None,
        ..s
    };
    match s.pending_select {
        None => shown,
        Some(id) => match place_of(items, id) {
            Some(i) => Collection {
                selected: Some(i),
                mode: EditorMode::View,
                editing_id: items[i as int].id_bson,
                editing_field: None,
                pending_editor: Some(items[i as int].pretty_json),
                ..shown
            },
            None => Collection { selected: None, editing_id: None, editing_field: None, ..shown },
        },
    }
}

/// A query came back. A count that failed leaves the total unknown.
pub open spec fn query_finished(
    s: Collection,
    documents: Result<Seq<Seq<(Seq<char>, BsonView)>>, Seq<char>>,
    total: Option<i64>,
) -> Step {
    match documents {
        Err(why) => s.failed(FailureView::Reply(why)),
        Ok(ds) => match schema::items_of(ds) {
            Err(why) => s.failed(unwritable(why)),
            Ok(items) => quiet(page_shown(s, items, total)),
        },
    }
}

/// The inputs of the query are set back.
pub open spec fn inputs_reset(s: Collection) -> Collection {
    Collection {
        texts: query_input::initial_texts(),
        page_index: 0,
        show_explain: false,
        ..s
    }
}

// ---------------------------------------------------------------------------
// Selection and the editor
// ---------------------------------------------------------------------------

/// A document of the list is selected.
pub open spec fn document_selected(s: Collection, index: usize) -> Collection {
    if index < s.documents.len() {
        let item = s.documents[index as int];
        Collection {
            selected: Some(index),
            mode: EditorMode::View,
            editing_id: item.id_bson,
            editing_field: None,
            show_explain: false,
            ..s.editor_shows(item.pretty_json)
        }
    } else {
        s
    }
}

/// A new document is begun.
pub open spec fn create_started(s: Collection) -> Collection {
    Collection {
        mode: EditorMode::Create,
        editing_id: None,
        editing_field: None,
        show_explain: false,
        collapsed: false,
        ..s.editor_shows("{\n  \n}"@)
    }
}

/// The selected document is edited.
pub open spec fn update_started(s: Collection) -> Collection {
    match s.item(s.selected) {
        None => s,
        Some(item) => Collection {
            mode: EditorMode::Update,
            editing_id: item.id_bson,
            editing_field: None,
            show_explain: false,
            collapsed: false,
            ..s.editor_shows(item.pretty_json)
        },
    }
}

/// The cell is edited beside the table.
pub open spec fn is_detail_cell(t: TableView, row: usize, col: usize) -> bool {
    col < t.columns.len() && document_table::is_safe_field(t.columns[col as int]) && (t.value(
        row,
        col,
    ) matches Some(v) && !document_table::is_editable(v))
}

/// A field that is edited beside the table is edited. The columns of the
/// table count from one: before them stands the number of the row.
pub open spec fn field_update_started(s: Collection, row: usize, table_col: usize) -> Step {
    let col = (table_col - 1) as usize;
    if table_col == 0 || !is_detail_cell(s.table, row, col) {
        quiet(s)
    } else if s.table.changes.len() > 0 {
        s.failed(FailureView::SaveOrRevertChangesFirst)
    } else {
        let field = s.table.columns[col as int];
        match s.item(Some(row)) {
            None => quiet(s),
            Some(item) => match item.id_bson {
                None => s.failed(FailureView::IdRequiredForUpdate),
                Some(id) => match bson_ext::field(item.document, field) {
                    None => quiet(s),
                    Some(value) => match bson_ext::json_pretty_text(bson_ext::relaxed_json(value)) {
                        Err(why) => s.failed(unwritable(why)),
                        Ok(shown) => quiet(
                            Collection {
                                selected: Some(row),
                                mode: EditorMode::FieldUpdate,
                                editing_id: Some(id),
                                editing_field: Some((field, id)),
                                show_explain: false,
                                collapsed: false,
                                ..s.editor_shows(shown)
                            },
                        ),
                    },
                },
            },
        }
    }
}

/// Editing is given up.
pub open spec fn edit_cancelled(s: Collection) -> Collection {
    let viewing = Collection {
        mode: EditorMode::View,
        editing_field: None,
        show_explain: false,
        ..s
    };
    match s.item(s.selected) {
        None => viewing,
        Some(item) => viewing.editor_shows(item.pretty_json),
    }
}

/// The field in the editor is saved.
pub open spec fn save_field(s: Collection) -> Step {
    match s.editing_field {
        None => s.failed(FailureView::IdRequiredForUpdate),
        Some((field, id)) => match query_input::value_read(s.editor_text, field) {
            Err(e) => s.failed(FailureView::Input(e)),
            Ok(value) => s.sends(
                Collection { pending_select: Some(id), ..s.waiting() },
                RequestView::Edit {
                    work: WorkView::SetFields {
                        id,
                        fields: bson_ext::with_field(Seq::empty(), field, value),
                    },
                    done: Success::FieldUpdated,
                },
            ),
        },
    }
}

/// The id of the document in the editor.
pub open spec fn edited_id(s: Collection) -> Option<BsonView> {
    match s.editing_id {
        Some(id) => Some(id),
        None => s.selected_id(),
    }
}

/// The document in the editor is saved.
pub open spec fn save_edit(s: Collection, label: Seq<char>) -> Step {
    if s.mode == EditorMode::FieldUpdate {
        save_field(s)
    } else {
        match query_input::document_read(s.editor_text, label) {
            Err(e) => s.failed(FailureView::Input(e)),
            Ok(document) => match s.target() {
                None => quiet(s),
                Some(_) => match s.mode {
                    EditorMode::Create => s.sends(
                        Collection {
                            pending_select: bson_ext::field(document, "_id"@),
                            ..s.waiting()
                        },
                        RequestView::Edit {
                            work: WorkView::Insert(document),
                            done: Success::DocumentCreated,
                        },
                    ),
                    EditorMode::Update => match edited_id(s) {
                        None => s.failed(FailureView::IdRequiredForUpdate),
                        Some(id) => s.sends(
                            Collection { pending_select: Some(id), ..s.waiting() },
                            RequestView::Edit {
                                work: WorkView::Replace {
                                    id,
                                    document: bson_ext::with_field(document, "_id"@, id),
                                },
                                done: Success::DocumentUpdated,
                            },
                        ),
                    },
                    _ => s.sends(
                        Collection { pending_select: None, ..s.waiting() },
                        RequestView::Edit { work: WorkView::Idle, done: Success::OperationDone },
                    ),
                },
            },
        }
    }
}

/// Saving the editor came back.
pub open spec fn edit_finished(
    s: Collection,
    result: Result<(), Seq<char>>,
    done: Success,
) -> Step {
    match result {
        Ok(_) => with_effect(
            Collection {
                is_loading: false,
                mode: EditorMode::View,
                editing_id: None,
                editing_field: None,
                show_explain: false,
                pending_reload: true,
                ..s
            },
            EffectView::NotifySuccess(done),
        ),
        Err(why) => s.failed(FailureView::Reply(why)),
    }
}

/// The id of the neighbour of a document: of the next, or of the one before
/// where there is no next.
pub open spec fn neighbour_id(items: Seq<ItemView>, index: int) -> Option<BsonView> {
    if index + 1 < items.len() {
        items[index + 1].id_bson
    } else if 1 <= index <= items.len() {
        items[index - 1].id_bson
    } else {
        None
    }
}

/// The selected document is deleted.
pub open spec fn delete_selected(s: Collection) -> Step {
    match (s.target(), s.item(s.selected)) {
        (Some(_), Some(item)) => match item.id_bson {
            None => s.failed(FailureView::IdRequiredForDelete),
            Some(id) => s.sends(
                Collection {
                    pending_select: neighbour_id(s.documents, s.selected->0 as int),
                    ..s.waiting()
                },
                RequestView::Delete { id },
            ),
        },
        _ => quiet(s),
    }
}

/// Deleting came back.
pub open spec fn delete_finished(s: Collection, result: Result<(), Seq<char>>) -> Step {
    match result {
        Ok(_) => with_effect(
            Collection {
                selected: None,
                ..edit_finished(s, result, Success::DocumentDeleted).state
            },
            EffectView::NotifySuccess(Success::DocumentDeleted),
        ),
        Err(why) => s.failed(FailureView::Reply(why)),
    }
}

/// The selected document is copied.
pub open spec fn copy_selected(s: Collection) -> Seq<EffectView> {
    match s.item(s.selected) {
        None => Seq::empty(),
        Some(item) => seq![
            EffectView::Copy(item.pretty_json),
            EffectView::NotifySuccess(Success::DocumentCopied),
        ],
    }
}

// ---------------------------------------------------------------------------
// The table
// ---------------------------------------------------------------------------

/// One of the edited documents has no id.
pub open spec fn lacks_id(t: TableView) -> bool {
    exists|i: int|
        0 <= i < document_table::rows_set(t.changes).len() && t.original(
            (#[trigger] document_table::rows_set(t.changes)[i]).row,
            "_id"@,
        ) is None
}

/// The edits of the table as updates.
pub open spec fn updates_of(t: TableView) -> Seq<UpdateView> {
    let rows = document_table::rows_set(t.changes);
    Seq::new(
        rows.len(),
        |i: int|
            UpdateView {
                row: rows[i].row,
                id: t.original(rows[i].row, "_id"@)->0,
                fields: rows[i].fields,
            },
    )
}

/// How many fields the updates set.
pub open spec fn fields_set(updates: Seq<UpdateView>) -> nat
    decreases updates.len(),
{
    if updates.len() == 0 {
        0
    } else {
        fields_set(updates.drop_last()) + updates.last().fields.len()
    }
}

/// The edits of the table are saved.
pub open spec fn save_table_changes(s: Collection) -> Step {
    if lacks_id(s.table) {
        s.failed(FailureView::Reply("Invalid filter: "@ + "Missing _id for update."@))
    } else if s.table.changes.len() == 0 {
        quiet(s)
    } else {
        let changes = updates_of(s.table);
        s.sends(
            Collection { pending_select: s.selected_id(), ..s.waiting() },
            RequestView::SaveChanges { changes, count: fields_set(changes) as int },
        )
    }
}

/// Saving the edits of the table came back.
pub open spec fn changes_saved(s: Collection, result: Result<(), Seq<char>>, count: usize) -> Step {
    match result {
        Ok(_) => with_effect(
            Collection { is_loading: false, pending_reload: true, ..s },
            EffectView::NotifySuccess(Success::TableChangesSaved(count)),
        ),
        Err(why) => s.failed(FailureView::Reply(why)),
    }
}

/// The list takes over the documents of the table.
pub open spec fn documents_synced(s: Collection) -> Step {
    match schema::items_of(s.table.documents) {
        Ok(items) => quiet(Collection { documents: items, ..s }),
        Err(why) => s.failed(unwritable(why)),
    }
}

/// A cell of the table was edited.
pub open spec fn cell_edited(s: Collection, row: usize) -> Step {
    let synced = documents_synced(s);
    Step { state: document_selected(synced.state, row), ..synced }
}

/// The edits of the table are given up.
pub open spec fn changes_reverted(s: Collection) -> Step {
    let synced = documents_synced(Collection { table: s.table.reverted(), ..s });
    match synced.state.selected {
        Some(i) => Step { state: document_selected(synced.state, i), ..synced },
        None => synced,
    }
}

// ---------------------------------------------------------------------------
// Explanations, aggregations, schema, indexes, validation
// ---------------------------------------------------------------------------

/// The query is explained.
pub open spec fn run_explain(s: Collection, labels: TextsView) -> Step {
    match query_input::query_read(s.texts, labels) {
        Err(e) => s.failed(FailureView::Input(e)),
        Ok(q) => s.sends(
            Collection { show_explain: true, collapsed: false, ..s.waiting() },
            RequestView::Explain {
                filter: q.filter,
                plan: query_input::plan_of(
                    q,
                    query_input::page_start(q.skip_base, q.page_size, s.page_index),
                ),
            },
        ),
    }
}

/// The explanation is shown or put away.
pub open spec fn explain_clicked(s: Collection, labels: TextsView) -> Step {
    if s.show_explain {
        quiet(Collection { show_explain: false, ..s })
    } else {
        run_explain(s, labels)
    }
}

/// The explanation came back.
pub open spec fn explain_finished(
    s: Collection,
    result: Result<Seq<(Seq<char>, BsonView)>, Seq<char>>,
) -> Step {
    let hidden = Collection { show_explain: false, ..s };
    match result {
        Err(why) => hidden.failed(FailureView::Reply(why)),
        Ok(document) => match schema::pretty_text(document) {
            Err(why) => hidden.failed(unwritable(why)),
            Ok(shown) => quiet(
                Collection {
                    is_loading: false,
                    pending_explain: Some(shown),
                    show_explain: true,
                    ..s
                },
            ),
        },
    }
}

/// Something that is fetched anew.
pub open spec fn fetching() -> PanelView {
    PanelView { loading: true, error: None, count: None }
}

/// Something that was refused.
pub open spec fn refused(p: PanelView, f: FailureView) -> PanelView {
    PanelView { error: Some(f), ..p }
}

/// Something that failed.
pub open spec fn broken(p: PanelView, f: FailureView) -> PanelView {
    PanelView { loading: false, error: Some(f), ..p }
}

/// Something that came.
pub open spec fn fetched(p: PanelView, count: usize) -> PanelView {
    PanelView { loading: false, count: Some(count), ..p }
}

/// The aggregation is run.
pub open spec fn run_aggregation(s: Collection) -> Step {
    match query_input::pipeline_read(s.aggregation_text) {
        Err(e) => with_effect(
            Collection { aggregation: refused(s.aggregation, FailureView::Input(e)), ..s },
            EffectView::NotifyError(FailureView::Input(e)),
        ),
        Ok(pipeline) => s.sends(
            Collection { aggregation: fetching(), ..s },
            RequestView::Aggregate { pipeline },
        ),
    }
}

/// The aggregation failed.
pub open spec fn aggregation_failed(s: Collection, f: FailureView) -> Step {
    with_effect(
        Collection { aggregation: broken(s.aggregation, f), ..s },
        EffectView::NotifyError(f),
    )
}

/// The aggregation came back.
pub open spec fn aggregation_finished(
    s: Collection,
    result: Result<Seq<Seq<(Seq<char>, BsonView)>>, Seq<char>>,
) -> Step {
    match result {
        Err(why) => aggregation_failed(s, FailureView::Reply(why)),
        Ok(documents) => match schema::list_text(documents) {
            Err(why) => aggregation_failed(s, unwritable(why)),
            Ok(shown) => quiet(
                Collection {
                    aggregation: fetched(s.aggregation, documents.len() as usize),
                    pending_aggregation: Some(shown),
                    ..s
                },
            ),
        },
    }
}

/// The result of the aggregation is handed out.
pub open spec fn export_aggregation(s: Collection) -> EffectView {
    if text::trimmed(s.aggregation_output).len() == 0 {
        EffectView::NotifyError(FailureView::NothingToExport)
    } else {
        EffectView::Export { kind: ExportKind::Aggregation, content: s.aggregation_output }
    }
}

/// The schema is drawn anew.
pub open spec fn load_schema(s: Collection) -> Step {
    s.sends(
        Collection { schema: fetching(), ..s },
        RequestView::Sample { limit: SCHEMA_SAMPLE_LIMIT },
    )
}

/// Drawing the schema failed.
pub open spec fn schema_failed(s: Collection, f: FailureView) -> Step {
    with_effect(Collection { schema: broken(s.schema, f), ..s }, EffectView::NotifyError(f))
}

/// The sample for the schema came back.
pub open spec fn schema_loaded(
    s: Collection,
    result: Result<Seq<Seq<(Seq<char>, BsonView)>>, Seq<char>>,
) -> Step {
    match result {
        Err(why) => schema_failed(s, FailureView::Reply(why)),
        Ok(documents) => match bson_ext::json_pretty_text(schema::schema_json(documents)) {
            Err(why) => schema_failed(s, unwritable(why)),
            Ok(shown) => quiet(
                Collection {
                    schema: fetched(s.schema, documents.len() as usize),
                    pending_schema: Some(shown),
                    ..s
                },
            ),
        },
    }
}

/// The indexes are listed anew.
pub open spec fn load_indexes(s: Collection) -> Step {
    s.sends(Collection { indexes: fetching(), ..s }, RequestView::ListIndexes)
}

/// Work on the indexes failed.
pub open spec fn indexes_failed(s: Collection, f: FailureView) -> Step {
    with_effect(Collection { indexes: broken(s.indexes, f), ..s }, EffectView::NotifyError(f))
}

/// The list of the indexes came back.
pub open spec fn indexes_loaded(
    s: Collection,
    result: Result<Seq<Seq<(Seq<char>, BsonView)>>, Seq<char>>,
) -> Step {
    match result {
        Err(why) => indexes_failed(s, FailureView::Reply(why)),
        Ok(documents) => match schema::list_text(documents) {
            Err(why) => indexes_failed(s, unwritable(why)),
            Ok(shown) => quiet(
                Collection {
                    indexes: fetched(s.indexes, documents.len() as usize),
                    pending_indexes: Some(shown),
                    ..s
                },
            ),
        },
    }
}

/// Work on the indexes is under way; how many there are is still known.
pub open spec fn indexes_busy(s: Collection) -> Collection {
    Collection { indexes: PanelView { loading: true, error: None, ..s.indexes }, ..s }
}

/// An input about indexes is refused.
pub open spec fn indexes_refused(s: Collection, f: FailureView) -> Step {
    with_effect(Collection { indexes: refused(s.indexes, f), ..s }, EffectView::NotifyError(f))
}

/// An index is made.
pub open spec fn create_index(s: Collection, label: Seq<char>) -> Step {
    match query_input::document_read(s.index_keys, label) {
        Err(e) => indexes_refused(s, FailureView::Input(e)),
        Ok(keys) => s.sends(
            indexes_busy(s),
            RequestView::CreateIndex {
                keys,
                name: if text::trimmed(s.index_name).len() == 0 {
                    None
                } else {
                    Some(text::trimmed(s.index_name))
                },
            },
        ),
    }
}

/// An index is dropped.
pub open spec fn drop_index(s: Collection) -> Step {
    let name = text::trimmed(s.index_drop);
    if name.len() == 0 {
        indexes_refused(s, FailureView::IndexNameRequired)
    } else {
        s.sends(indexes_busy(s), RequestView::DropIndex { name })
    }
}

/// Making or dropping an index came back: then the indexes are listed anew.
pub open spec fn index_changed(s: Collection, result: Result<(), Seq<char>>, done: Success) -> Step {
    match result {
        Err(why) => indexes_failed(s, FailureView::Reply(why)),
        Ok(_) => {
            let listed = load_indexes(
                Collection { indexes: PanelView { loading: false, ..s.indexes }, ..s },
            );
            Step { effects: seq![EffectView::NotifySuccess(done)] + listed.effects, ..listed }
        },
    }
}

/// Work on the validation rules is under way.
pub open spec fn validation_busy(s: Collection) -> Collection {
    Collection { validation: PanelView { loading: true, error: None, ..s.validation }, ..s }
}

/// The validation rules are fetched anew.
pub open spec fn load_validation(s: Collection) -> Step {
    s.sends(validation_busy(s), RequestView::GetValidation)
}

/// Work on the validation rules failed.
pub open spec fn validation_failed(s: Collection, f: FailureView) -> Step {
    with_effect(
        Collection { validation: broken(s.validation, f), ..s },
        EffectView::NotifyError(f),
    )
}

/// The text of validation rules; `{}` where there are none or they have none.
pub open spec fn rules_text(rules: Option<Seq<(Seq<char>, BsonView)>>) -> Seq<char> {
    match rules {
        None => "{}"@,
        Some(d) => match schema::pretty_text(d) {
            Ok(s) => s,
            Err(_) => "{}"@,
        },
    }
}

/// The validation rules came back.
pub open spec fn validation_loaded(
    s: Collection,
    result: Result<Option<Seq<(Seq<char>, BsonView)>>, Seq<char>>,
) -> Step {
    match result {
        Err(why) => validation_failed(s, FailureView::Reply(why)),
        Ok(rules) => quiet(
            Collection {
                validation: PanelView { loading: false, ..s.validation },
                pending_validation: Some(rules_text(rules)),
                ..s
            },
        ),
    }
}

/// The validation rules in the editor are saved.
pub open spec fn save_validation(s: Collection, label: Seq<char>) -> Step {
    match query_input::optional_document_read(s.validation_text, label) {
        Err(e) => with_effect(
            Collection { validation: refused(s.validation, FailureView::Input(e)), ..s },
            EffectView::NotifyError(FailureView::Input(e)),
        ),
        Ok(validator) => s.sends(
            validation_busy(s),
            RequestView::SetValidation { validator, clear: false },
        ),
    }
}

/// The validation rules are removed.
pub open spec fn clear_validation(s: Collection) -> Step {
    s.sends(validation_busy(s), RequestView::SetValidation { validator: None, clear: true })
}

/// Saving or removing the validation rules came back: then they are fetched
/// anew.
pub open spec fn validation_changed(
    s: Collection,
    result: Result<(), Seq<char>>,
    cleared: bool,
) -> Step {
    match result {
        Err(why) => validation_failed(s, FailureView::Reply(why)),
        Ok(_) => {
            let loaded = load_validation(
                Collection {
                    validation: PanelView { loading: false, ..s.validation },
                    pending_validation: if cleared {
                        Some("{}"@)
                    } else {
                        s.pending_validation
                    },
                    ..s
                },
            );
            Step {
                effects: seq![
                    EffectView::NotifySuccess(
                        if cleared {
                            Success::ValidationCleared
                        } else {
                            Success::ValidationUpdated
                        },
                    ),
                ] + loaded.effects,
                ..loaded
            }
        },
    }
}

/// Another tab is shown; those of the schema, the indexes and the validation
/// rules fetch what they show.
pub open spec fn tab_shown(s: Collection, index: usize) -> Step {
    let shown = Collection { active_tab: index, ..s };
    if s.active_tab == index {
        quiet(s)
    } else if index == TAB_SCHEMA {
        load_schema(shown)
    } else if index == TAB_INDEXES {
        load_indexes(shown)
    } else if index == TAB_VALIDATION {
        load_validation(shown)
    } else {
        quiet(shown)
    }
}

/// The value that is waiting, or else the one that is there.
pub open spec fn taken(pending: Option<Seq<char>>, current: Seq<char>) -> Seq<char> {
    match pending {
        Some(s) => s,
        None => current,
    }
}

/// Texts that came meanwhile are shown, and the page is fetched again where
/// that was put off.
pub open spec fn apply_pending(s: Collection, labels: TextsView) -> Step {
    let shown = Collection {
        editor_text: taken(s.pending_editor, s.editor_text),
        pending_editor: None,
        explain_text: taken(s.pending_explain, s.explain_text),
        pending_explain: None,
        aggregation_output: taken(s.pending_aggregation, s.aggregation_output),
        pending_aggregation: None,
        schema_output: taken(s.pending_schema, s.schema_output),
        pending_schema: None,
        indexes_output: taken(s.pending_indexes, s.indexes_output),
        pending_indexes: None,
        validation_text: taken(s.pending_validation, s.validation_text),
        pending_validation: None,
        pending_reload: false,
        ..s
    };
    if s.pending_reload {
        run_query(shown, labels)
    } else {
        quiet(shown)
    }
}

/// The list is handed out as text.
pub open spec fn export_data(s: Collection) -> Step {
    match schema::list_text(schema::item_documents(s.documents)) {
        Err(why) => s.failed(unwritable(why)),
        Ok(content) => with_effect(s, EffectView::Export { kind: ExportKind::Data, content }),
    }
}

/// The query is handed out in the language of the shell.
pub open spec fn export_code(s: Collection, labels: TextsView) -> Step {
    match query_input::query_read(s.texts, labels) {
        Err(e) => s.failed(FailureView::Input(e)),
        Ok(q) => match s.collection_name {
            None => quiet(s),
            Some(name) => match query_input::query_code(
                name,
                q,
                query_input::page_start(q.skip_base, q.page_size, s.page_index) as i64,
            ) {
                Err(why) => s.failed(unwritable(why)),
                Ok(content) => with_effect(
                    s,
                    EffectView::Export { kind: ExportKind::Code, content },
                ),
            },
        },
    }
}

} // verus!
