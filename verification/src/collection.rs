//! The view of a collection: the page of documents with its table and editor,
//! and the panels of the aggregations, the schema, the indexes and the
//! validation rules.
//!
//! What the server has to do is handed out as a request, and what it replies
//! is handed back in; [`crate::collection_model`] says what each step means.
use vstd::prelude::*;

use mongodb::bson::{Bson, Document};

use crate::bson_ext;
use crate::collection_model;
use crate::collection_model::{Collection, PanelView, Step, TAB_DOCUMENTS};
use crate::collection_types;
use crate::collection_types::{
    effect_before, no_effects, one_effect, EditWork, EditorMode, Effect, Failure, FailureView,
    Request, Success, Target,
};
use crate::document_table;
use crate::document_table::{MongoDocumentFieldChange, MongoDocumentTableDelegate};
use crate::mongo_types;
use crate::query_input;
use crate::query_input::{QueryLabels, QueryTexts};
use crate::schema;
use crate::schema::DocumentItem;
use crate::text;

verus! {

/// Something that is fetched on its own: whether it is under way, why it
/// failed, and how much came.
#[derive(Debug)]
pub struct Panel {
    pub loading: bool,
    pub error: Option<Failure>,
    pub count: Option<usize>,
}

/// The mathematical value of an optional failure.
pub open spec fn opt_failure_view(f: Option<Failure>) -> Option<FailureView> {
    match f {
        Some(f) => Some(f@),
        None => None,
    }
}

impl Panel {
    /// The mathematical value of the panel.
    pub open spec fn view(&self) -> PanelView {
        PanelView {
            loading: self.loading,
            error: opt_failure_view(self.error),
            count: self.count,
        }
    }

    fn idle() -> (r: Panel)
        ensures
            r@ == collection_model::idle_panel(),
    {
        Panel { loading: false, error: None, count: None }
    }

    pub(crate) fn fetching() -> (r: Panel)
        ensures
            r@ == collection_model::fetching(),
    {
        Panel { loading: true, error: None, count: None }
    }
}

/// The field that is edited beside the table, and the id of its document.
#[derive(Debug)]
pub struct EditingField {
    pub field: String,
    pub id: Bson,
}

/// The mathematical value of an optional field that is edited.
pub open spec fn editing_view(e: Option<EditingField>) -> Option<
    (Seq<char>, bson_ext::BsonView),
> {
    match e {
        Some(e) => Some((e.field@, bson_ext::bson_view(e.id))),
        None => None,
    }
}

/// The view of a collection.
#[derive(Debug)]
pub struct CollectionView {
    pub connection_id: Option<String>,
    pub database_name: Option<String>,
    pub collection_name: Option<String>,
    pub active_tab: usize,
    pub texts: QueryTexts,
    pub editor_text: String,
    pub explain_text: String,
    pub aggregation_text: String,
    pub aggregation_output: String,
    pub schema_output: String,
    pub index_name: String,
    pub index_keys: String,
    pub index_drop: String,
    pub indexes_output: String,
    pub validation_text: String,
    pub table: MongoDocumentTableDelegate,
    pub documents: Vec<DocumentItem>,
    pub selected_index: Option<usize>,
    pub is_loading: bool,
    pub error_message: Option<Failure>,
    pub total_count: Option<i64>,
    pub page_index: i64,
    pub show_options: bool,
    pub show_explain: bool,
    pub editor_mode: EditorMode,
    pub editing_id: Option<Bson>,
    pub editing_field: Option<EditingField>,
    pub pending_editor_value: Option<String>,
    pub pending_explain_value: Option<String>,
    pub pending_aggregation_value: Option<String>,
    pub pending_schema_value: Option<String>,
    pub pending_indexes_value: Option<String>,
    pub pending_validation_value: Option<String>,
    pub pending_reload: bool,
    pub pending_select_id: Option<Bson>,
    pub detail_panel_collapsed: bool,
    pub aggregation: Panel,
    pub schema: Panel,
    pub indexes: Panel,
    pub validation: Panel,
}

/// What happened to the table.
#[derive(Clone, Copy, Debug, PartialEq, Eq, Structural)]
pub enum TableEvent {
    SelectCell(usize, usize),
    SelectRow(usize),
    CellEdited(usize, usize),
    DoubleClickedCell(usize, usize),
    Other,
}

/// What an event of the table leads to.
pub open spec fn table_event(s: Collection, event: TableEvent) -> Step {
    match event {
        TableEvent::SelectCell(row, _) => collection_model::quiet(
            collection_model::document_selected(s, row),
        ),
        TableEvent::SelectRow(row) => collection_model::quiet(
            collection_model::document_selected(s, row),
        ),
        TableEvent::CellEdited(row, _) => collection_model::cell_edited(s, row),
        TableEvent::DoubleClickedCell(row, col) => collection_model::field_update_started(
            s,
            row,
            col,
        ),
        TableEvent::Other => collection_model::quiet(s),
    }
}

/// The state and what follows make up the step.
pub open spec fn makes(state: Collection, effects: Seq<Effect>, step: Step) -> bool {
    state == step.state && collection_types::effect_views(effects) == step.effects
}

/// The mathematical value of a reply with documents.
pub open spec fn documents_reply(r: Result<Vec<Document>, String>) -> Result<
    Seq<Seq<(Seq<char>, bson_ext::BsonView)>>,
    Seq<char>,
> {
    match r {
        Ok(v) => Ok(bson_ext::document_views(v@)),
        Err(e) => Err(e@),
    }
}

/// The mathematical value of a reply with a document.
pub open spec fn document_reply(r: Result<Document, String>) -> Result<
    Seq<(Seq<char>, bson_ext::BsonView)>,
    Seq<char>,
> {
    match r {
        Ok(d) => Ok(bson_ext::document_view(d)),
        Err(e) => Err(e@),
    }
}

/// The mathematical value of a reply with a document or without.
pub open spec fn opt_document_reply(r: Result<Option<Document>, String>) -> Result<
    Option<Seq<(Seq<char>, bson_ext::BsonView)>>,
    Seq<char>,
> {
    match r {
        Ok(d) => Ok(query_input::opt_document_view(d)),
        Err(e) => Err(e@),
    }
}

/// The mathematical value of a bare reply.
pub open spec fn bare_reply(r: Result<(), String>) -> Result<(), Seq<char>> {
    match r {
        Ok(u) => Ok(u),
        Err(e) => Err(e@),
    }
}

/// The failure of a text that could not be written.
pub(crate) fn unwritable(e: mongo_types::MongoError) -> (r: Failure)
    ensures
        r@ == FailureView::Reply(mongo_types::error_text(e)),
{
    Failure::Reply(e.text())
}

impl CollectionView {
    /// The mathematical value of the view.
    pub open spec fn view(&self) -> Collection {
        Collection {
            connection_id: text::opt_view(self.connection_id),
            database_name: text::opt_view(self.database_name),
            collection_name: text::opt_view(self.collection_name),
            active_tab: self.active_tab,
            texts: self.texts@,
            editor_text: self.editor_text@,
            explain_text: self.explain_text@,
            aggregation_text: self.aggregation_text@,
            aggregation_output: self.aggregation_output@,
            schema_output: self.schema_output@,
            index_name: self.index_name@,
            index_keys: self.index_keys@,
            index_drop: self.index_drop@,
            indexes_output: self.indexes_output@,
            validation_text: self.validation_text@,
            table: self.table@,
            documents: schema::item_views(self.documents@),
            selected: self.selected_index,
            is_loading: self.is_loading,
            error: opt_failure_view(self.error_message),
            total_count: self.total_count,
            page_index: self.page_index,
            show_options: self.show_options,
            show_explain: self.show_explain,
            mode: self.editor_mode,
            editing_id: schema::opt_bson_view(self.editing_id),
            editing_field: editing_view(self.editing_field),
            pending_editor: text::opt_view(self.pending_editor_value),
            pending_explain: text::opt_view(self.pending_explain_value),
            pending_aggregation: text::opt_view(self.pending_aggregation_value),
            pending_schema: text::opt_view(self.pending_schema_value),
            pending_indexes: text::opt_view(self.pending_indexes_value),
            pending_validation: text::opt_view(self.pending_validation_value),
            pending_reload: self.pending_reload,
            pending_select: schema::opt_bson_view(self.pending_select_id),
            collapsed: self.detail_panel_collapsed,
            aggregation: self.aggregation@,
            schema: self.schema@,
            indexes: self.indexes@,
            validation: self.validation@,
        }
    }

    /// A view that shows no collection yet.
    pub fn new() -> (r: CollectionView)
        ensures
            r@ == collection_model::initial(),
    {
        let none: Vec<Document> = Vec::new();
        assert(bson_ext::document_views(none@) =~= Seq::empty());
        let documents: Vec<DocumentItem> = Vec::new();
        assert(schema::item_views(documents@) =~= Seq::empty());
        CollectionView {
            connection_id: None,
            database_name: None,
            collection_name: None,
            active_tab: TAB_DOCUMENTS,
            texts: QueryTexts::initial(),
            editor_text: String::new(),
            explain_text: String::new(),
            aggregation_text: "[]".to_owned(),
            aggregation_output: String::new(),
            schema_output: String::new(),
            index_name: String::new(),
            index_keys: String::new(),
            index_drop: String::new(),
            indexes_output: String::new(),
            validation_text: String::new(),
            table: MongoDocumentTableDelegate::new(none),
            documents,
            selected_index: None,
            is_loading: false,
            error_message: None,
            total_count: None,
            page_index: 0,
            show_options: false,
            show_explain: false,
            editor_mode: EditorMode::View,
            editing_id: None,
            editing_field: None,
            pending_editor_value: None,
            pending_explain_value: None,
            pending_aggregation_value: None,
            pending_schema_value: None,
            pending_indexes_value: None,
            pending_validation_value: None,
            pending_reload: false,
            pending_select_id: None,
            detail_panel_collapsed: false,
            aggregation: Panel::idle(),
            schema: Panel::idle(),
            indexes: Panel::idle(),
            validation: Panel::idle(),
        }
    }

    // -----------------------------------------------------------------------
    // Parts
    // -----------------------------------------------------------------------

    /// The collection that is shown.
    pub fn target(&self) -> (r: Option<Target>)
        ensures
            match r {
                Some(t) => self@.target() == Some(t@),
                None => self@.target() is None,
            },
    {
        match (&self.connection_id, &self.database_name, &self.collection_name) {
            (Some(c), Some(d), Some(n)) => Some(
                Target {
                    connection_id: c.clone(),
                    database_name: d.clone(),
                    collection_name: n.clone(),
                },
            ),
            _ => None,
        }
    }

    /// Shows a failure.
    pub(crate) fn fail(&mut self, f: Failure) -> (r: Vec<Effect>)
        ensures
            makes(final(self)@, r@, old(self)@.failed(f@)),
    {
        self.error_message = Some(f.copy());
        self.is_loading = false;
        one_effect(Effect::NotifyError(f))
    }

    /// The documents of the list.
    pub(crate) fn listed_documents(&self) -> (r: Vec<Document>)
        ensures
            bson_ext::document_views(r@) == schema::item_documents(self@.documents),
    {
        let ghost ds = schema::item_documents(self@.documents);
        let mut out: Vec<Document> = Vec::new();
        let mut i: usize = 0;
        assert(bson_ext::document_views(out@) =~= ds.take(0));
        while i < self.documents.len()
            invariant
                i <= self.documents@.len(),
                ds == schema::item_documents(self@.documents),
                bson_ext::document_views(out@) == ds.take(i as int),
            decreases self.documents@.len() - i,
        {
            let ghost before = out@;
            out.push(bson_ext::copy_document(&self.documents[i].document));
            assert(bson_ext::document_views(out@) =~= bson_ext::document_views(before).push(
                ds[i as int],
            ));
            assert(ds.take(i as int + 1) =~= ds.take(i as int).push(ds[i as int]));
            i = i + 1;
        }
        assert(ds.take(ds.len() as int) =~= ds);
        out
    }

    /// Shows the documents of the list in the table.
    fn refresh_document_table(&mut self)
        ensures
            final(self)@ == (Collection {
                table: collection_model::table_shows(
                    old(self)@.table,
                    schema::item_documents(old(self)@.documents),
                ),
                ..old(self)@
            }),
    {
        let documents = self.listed_documents();
        self.table.set_documents(documents);
    }

    /// Empties the list and the table.
    fn clear_documents(&mut self)
        ensures
            final(self)@ == (Collection {
                documents: Seq::empty(),
                table: collection_model::table_shows(old(self)@.table, Seq::empty()),
                ..old(self)@
            }),
    {
        self.documents = Vec::new();
        assert(self@.documents =~= Seq::empty());
        assert(schema::item_documents(Seq::empty()) =~= Seq::empty());
        self.refresh_document_table();
    }

    /// The id of the document that is selected.
    fn selected_id(&self) -> (r: Option<Bson>)
        ensures
            schema::opt_bson_view(r) == self@.selected_id(),
    {
        match self.selected_index {
            Some(i) if i < self.documents.len() => schema::copy_opt_bson(
                &self.documents[i].id_bson,
            ),
            _ => None,
        }
    }

    // -----------------------------------------------------------------------
    // Queries
    // -----------------------------------------------------------------------

    /// Runs the query that the inputs stand for.
    pub fn run_query(&mut self, labels: &QueryLabels) -> (r: Vec<Effect>)
        requires
            query_input::texts_fit(old(self)@.texts, old(self)@.page_index),
        ensures
            makes(final(self)@, r@, collection_model::run_query(old(self)@, labels@)),
    {
        let inputs = match query_input::read_query_inputs(&self.texts, labels) {
            Ok(inputs) => inputs,
            Err(e) => return self.fail(Failure::Input(e)),
        };
        let target = match self.target() {
            Some(t) => t,
            None => return no_effects(),
        };
        proof {
            query_input::law_query_numbers(self@.texts, labels@, self.page_index);
        }
        let skip: i64 = inputs.skip(self.page_index);
        let plan = query_input::build_find_options(&inputs, skip);
        if self.pending_select_id.is_none() {
            self.pending_select_id = self.selected_id();
        }
        self.is_loading = true;
        self.error_message = None;
        self.clear_documents();
        self.total_count = None;
        self.selected_index = None;
        self.editor_mode = EditorMode::View;
        self.editing_id = None;
        self.editing_field = None;
        self.show_explain = false;
        one_effect(Effect::Send { target, request: Request::Find { filter: inputs.filter, plan } })
    }

    /// Runs the query again, where a collection is shown.
    pub fn reload(&mut self, labels: &QueryLabels) -> (r: Vec<Effect>)
        requires
            query_input::texts_fit(old(self)@.texts, old(self)@.page_index),
        ensures
            makes(final(self)@, r@, collection_model::reload(old(self)@, labels@)),
    {
        if self.connection_id.is_none() || self.database_name.is_none()
            || self.collection_name.is_none() {
            return no_effects();
        }
        self.run_query(labels)
    }

    /// Fetches the first page: the user asks for it, or ends an input of the
    /// query.
    pub fn find_first_page(&mut self, labels: &QueryLabels) -> (r: Vec<Effect>)
        ensures
            makes(final(self)@, r@, collection_model::find_first_page(old(self)@, labels@)),
    {
        self.page_index = 0;
        self.reload(labels)
    }

    /// Fetches the page before.
    pub fn previous_page(&mut self, labels: &QueryLabels) -> (r: Vec<Effect>)
        requires
            old(self)@.page_index > 0 ==> query_input::texts_fit(
                old(self)@.texts,
                (old(self)@.page_index - 1) as i64,
            ),
        ensures
            makes(final(self)@, r@, collection_model::previous_page(old(self)@, labels@)),
    {
        if self.page_index > 0 {
            self.page_index = self.page_index - 1;
            self.reload(labels)
        } else {
            no_effects()
        }
    }

    /// Fetches the next page.
    pub fn next_page(&mut self, labels: &QueryLabels) -> (r: Vec<Effect>)
        requires
            old(self)@.page_index < i64::MAX,
            query_input::texts_fit(old(self)@.texts, (old(self)@.page_index + 1) as i64),
        ensures
            makes(final(self)@, r@, collection_model::next_page(old(self)@, labels@)),
    {
        self.page_index = self.page_index + 1;
        self.reload(labels)
    }

    /// Shows a collection.
    pub fn load_collection(&mut self, target: Target, labels: &QueryLabels) -> (r: Vec<Effect>)
        ensures
            makes(
                final(self)@,
                r@,
                collection_model::load_collection(old(self)@, target@, labels@),
            ),
    {
        self.connection_id = Some(target.connection_id);
        self.database_name = Some(target.database_name);
        self.collection_name = Some(target.collection_name);
        self.active_tab = TAB_DOCUMENTS;
        self.page_index = 0;
        self.selected_index = None;
        self.clear_documents();
        self.editor_mode = EditorMode::View;
        self.editing_id = None;
        self.editing_field = None;
        self.show_explain = false;
        self.aggregation = Panel::idle();
        self.pending_aggregation_value = Some("[]".to_owned());
        self.schema = Panel::idle();
        self.pending_schema_value = Some("{}".to_owned());
        self.indexes = Panel::idle();
        self.pending_indexes_value = Some("[]".to_owned());
        self.validation = Panel::idle();
        self.pending_validation_value = Some("{}".to_owned());
        self.run_query(labels)
    }

    /// The place of the first document with the id.
    fn find_document(&self, id: &Bson) -> (r: Option<usize>)
        ensures
            r == collection_model::place_of(self@.documents, bson_ext::bson_view(*id)),
            r matches Some(i) ==> i < self.documents@.len(),
    {
        let ghost items = self@.documents;
        let ghost key = bson_ext::bson_view(*id);
        let mut i: usize = 0;
        assert(items.take(0) =~= Seq::empty());
        while i < self.documents.len()
            invariant
                i <= self.documents@.len(),
                items == self@.documents,
                key == bson_ext::bson_view(*id),
                collection_model::place_of(items.take(i as int), key) is None,
            decreases self.documents@.len() - i,
        {
            assert(items.take(i as int + 1).drop_last() =~= items.take(i as int));
            assert(items.take(i as int + 1).last() == self.documents@[i as int]@);
            if let Some(v) = &self.documents[i].id_bson {
                if bson_ext::same_bson(v, id) {
                    proof {
                        lemma_place_stays(items, key, i as int + 1);
                    }
                    return Some(i);
                }
            }
            i = i + 1;
        }
        assert(items.take(items.len() as int) =~= items);
        None
    }

    /// Takes over the reply to a query: the documents, and how many there are
    /// in all. A count that failed leaves the total unknown.
    pub fn query_finished(
        &mut self,
        documents: Result<Vec<Document>, String>,
        total: Result<i64, String>,
    ) -> (r: Vec<Effect>)
        ensures
            makes(
                final(self)@,
                r@,
                collection_model::query_finished(
                    old(self)@,
                    documents_reply(documents),
                    match total {
                        Ok(n) => Some(n),
                        Err(_) => None,
                    },
                ),
            ),
    {
        let documents = match documents {
            Ok(documents) => documents,
            Err(why) => return self.fail(Failure::Reply(why)),
        };
        let items = match schema::document_items_from_documents(documents) {
            Ok(items) => items,
            Err(e) => return self.fail(unwritable(e)),
        };
        self.documents = items;
        self.refresh_document_table();
        self.total_count = match total {
            Ok(n) => Some(n),
            Err(_) => None,
        };
        self.is_loading = false;
        self.error_message = None;
        let wanted = self.pending_select_id.take();
        if let Some(id) = wanted {
            match self.find_document(&id) {
                Some(i) => {
                    self.selected_index = Some(i);
                    self.editor_mode = EditorMode::View;
                    self.editing_id = schema::copy_opt_bson(&self.documents[i].id_bson);
                    self.editing_field = None;
                    self.pending_editor_value = Some(self.documents[i].pretty_json.clone());
                },
                None => {
                    self.selected_index = None;
                    self.editing_id = None;
                    self.editing_field = None;
                },
            }
        }
        no_effects()
    }

    /// Sets the inputs of the query back.
    pub fn reset_inputs(&mut self)
        ensures
            final(self)@ == collection_model::inputs_reset(old(self)@),
    {
        self.texts = QueryTexts::initial();
        self.page_index = 0;
        self.show_explain = false;
    }

    // -----------------------------------------------------------------------
    // Selection and the editor
    // -----------------------------------------------------------------------

    /// Shows a text in the editor.
    fn show_in_editor(&mut self, s: String)
        ensures
            final(self)@ == old(self)@.editor_shows(s@),
    {
        self.editor_text = s;
        self.pending_editor_value = None;
    }

    /// Selects a document of the list.
    pub fn select_document(&mut self, index: usize)
        ensures
            final(self)@ == collection_model::document_selected(old(self)@, index),
    {
        if index >= self.documents.len() {
            return ;
        }
        self.selected_index = Some(index);
        self.editor_mode = EditorMode::View;
        self.editing_id = schema::copy_opt_bson(&self.documents[index].id_bson);
        self.editing_field = None;
        self.show_explain = false;
        let shown = self.documents[index].pretty_json.clone();
        self.show_in_editor(shown);
    }

    /// Begins a new document.
    pub fn start_create(&mut self)
        ensures
            final(self)@ == collection_model::create_started(old(self)@),
    {
        self.editor_mode = EditorMode::Create;
        self.editing_id = None;
        self.editing_field = None;
        self.show_explain = false;
        self.detail_panel_collapsed = false;
        self.show_in_editor("{\n  \n}".to_owned());
    }

    /// Edits the selected document.
    pub fn start_update(&mut self)
        ensures
            final(self)@ == collection_model::update_started(old(self)@),
    {
        let index: usize = match self.selected_index {
            Some(i) => i,
            None => return ,
        };
        if index >= self.documents.len() {
            return ;
        }
        self.editor_mode = EditorMode::Update;
        self.editing_id = schema::copy_opt_bson(&self.documents[index].id_bson);
        self.editing_field = None;
        self.show_explain = false;
        self.detail_panel_collapsed = false;
        let shown = self.documents[index].pretty_json.clone();
        self.show_in_editor(shown);
    }

    /// Edits a field beside the table. The columns of the table count from
    /// one: before them stands the number of the row.
    pub fn start_field_update(&mut self, row_index: usize, table_col_index: usize) -> (r: Vec<
        Effect,
    >)
        ensures
            makes(
                final(self)@,
                r@,
                collection_model::field_update_started(old(self)@, row_index, table_col_index),
            ),
    {
        if table_col_index == 0 {
            return no_effects();
        }
        let col: usize = table_col_index - 1;
        if !self.table.is_detail_editable_field(row_index, col) {
            return no_effects();
        }
        let field = match self.table.field_name_at(col) {
            Some(field) => field,
            None => return no_effects(),
        };
        if self.table.has_changes() {
            return self.fail(Failure::SaveOrRevertChangesFirst);
        }
        if row_index >= self.documents.len() {
            return no_effects();
        }
        let id = match &self.documents[row_index].id_bson {
            Some(id) => bson_ext::copy_bson(id),
            None => return self.fail(Failure::IdRequiredForUpdate),
        };
        let value = match bson_ext::get_field(&self.documents[row_index].document, field.as_str()) {
            Some(value) => value,
            None => return no_effects(),
        };
        let shown = match mongo_types::bson_to_pretty_json(&value) {
            Ok(s) => s,
            Err(e) => return self.fail(unwritable(e)),
        };
        self.selected_index = Some(row_index);
        self.editor_mode = EditorMode::FieldUpdate;
        self.editing_id = Some(bson_ext::copy_bson(&id));
        self.editing_field = Some(EditingField { field, id });
        self.show_explain = false;
        self.detail_panel_collapsed = false;
        self.show_in_editor(shown);
        no_effects()
    }

    /// Gives editing up.
    pub fn cancel_edit(&mut self)
        ensures
            final(self)@ == collection_model::edit_cancelled(old(self)@),
    {
        self.editor_mode = EditorMode::View;
        self.editing_field = None;
        self.show_explain = false;
        if let Some(index) = self.selected_index {
            if index < self.documents.len() {
                let shown = self.documents[index].pretty_json.clone();
                self.show_in_editor(shown);
            }
        }
    }

    /// Saves the field in the editor.
    pub fn save_field_update(&mut self) -> (r: Vec<Effect>)
        ensures
            makes(final(self)@, r@, collection_model::save_field(old(self)@)),
    {
        let (field, id) = match &self.editing_field {
            Some(e) => (e.field.clone(), bson_ext::copy_bson(&e.id)),
            None => return self.fail(Failure::IdRequiredForUpdate),
        };
        let value = match query_input::parse_required_bson_value(
            self.editor_text.as_str(),
            field.as_str(),
        ) {
            Ok(value) => value,
            Err(e) => return self.fail(Failure::Input(e)),
        };
        let target = match self.target() {
            Some(t) => t,
            None => return no_effects(),
        };
        self.pending_select_id = Some(bson_ext::copy_bson(&id));
        self.is_loading = true;
        self.error_message = None;
        let mut fields = bson_ext::new_document();
        bson_ext::set_field(&mut fields, field, value);
        one_effect(
            Effect::Send {
                target,
                request: Request::Edit {
                    work: EditWork::SetFields { id, fields },
                    done: Success::FieldUpdated,
                },
            },
        )
    }

    /// Saves the document in the editor.
    pub fn save_edit(&mut self, document_label: &str) -> (r: Vec<Effect>)
        ensures
            makes(final(self)@, r@, collection_model::save_edit(old(self)@, document_label@)),
    {
        if self.editor_mode == EditorMode::FieldUpdate {
            return self.save_field_update();
        }
        let mut document = match query_input::parse_required_document(
            self.editor_text.as_str(),
            document_label,
        ) {
            Ok(document) => document,
            Err(e) => return self.fail(Failure::Input(e)),
        };
        let target = match self.target() {
            Some(t) => t,
            None => return no_effects(),
        };
        let mode = self.editor_mode;
        let mut work = EditWork::Idle;
        let mut done = Success::OperationDone;
        if mode == EditorMode::Update {
            let id = match &self.editing_id {
                Some(id) => Some(bson_ext::copy_bson(id)),
                None => self.selected_id(),
            };
            let id = match id {
                Some(id) => id,
                None => return self.fail(Failure::IdRequiredForUpdate),
            };
            bson_ext::set_field(&mut document, "_id".to_owned(), bson_ext::copy_bson(&id));
            self.pending_select_id = Some(bson_ext::copy_bson(&id));
            work = EditWork::Replace { id, document };
            done = Success::DocumentUpdated;
        } else if mode == EditorMode::Create {
            self.pending_select_id = bson_ext::get_field(&document, "_id");
            work = EditWork::Insert(document);
            done = Success::DocumentCreated;
        } else {
            self.pending_select_id = None;
        }
        self.is_loading = true;
        self.error_message = None;
        one_effect(Effect::Send { target, request: Request::Edit { work, done } })
    }

    /// Takes over the reply to saving the editor.
    pub fn edit_finished(&mut self, result: Result<(), String>, done: Success) -> (r: Vec<Effect>)
        ensures
            makes(
                final(self)@,
                r@,
                collection_model::edit_finished(old(self)@, bare_reply(result), done),
            ),
    {
        match result {
            Ok(_) => {
                self.is_loading = false;
                self.editor_mode = EditorMode::View;
                self.editing_id = None;
                self.editing_field = None;
                self.show_explain = false;
                self.pending_reload = true;
                one_effect(Effect::NotifySuccess(done))
            },
            Err(why) => self.fail(Failure::Reply(why)),
        }
    }

    /// Deletes the selected document. Its neighbour is to be selected next.
    pub fn delete_selected(&mut self) -> (r: Vec<Effect>)
        ensures
            makes(final(self)@, r@, collection_model::delete_selected(old(self)@)),
    {
        let target = match self.target() {
            Some(t) => t,
            None => return no_effects(),
        };
        let index: usize = match self.selected_index {
            Some(i) => i,
            None => return no_effects(),
        };
        if index >= self.documents.len() {
            return no_effects();
        }
        let id = match &self.documents[index].id_bson {
            Some(id) => bson_ext::copy_bson(id),
            None => return self.fail(Failure::IdRequiredForDelete),
        };
        let next = if index + 1 < self.documents.len() {
            schema::copy_opt_bson(&self.documents[index + 1].id_bson)
        } else if index > 0 {
            schema::copy_opt_bson(&self.documents[index - 1].id_bson)
        } else {
            None
        };
        self.pending_select_id = next;
        self.is_loading = true;
        self.error_message = None;
        one_effect(Effect::Send { target, request: Request::Delete { id } })
    }

    /// Takes over the reply to deleting.
    pub fn delete_finished(&mut self, result: Result<(), String>) -> (r: Vec<Effect>)
        ensures
            makes(
                final(self)@,
                r@,
                collection_model::delete_finished(old(self)@, bare_reply(result)),
            ),
    {
        match result {
            Ok(_) => {
                let effects = self.edit_finished(Ok(()), Success::DocumentDeleted);
                self.selected_index = None;
                effects
            },
            Err(why) => self.fail(Failure::Reply(why)),
        }
    }

    /// Copies the selected document.
    pub fn copy_selected(&self) -> (r: Vec<Effect>)
        ensures
            collection_types::effect_views(r@) == collection_model::copy_selected(self@),
    {
        match self.selected_index {
            Some(i) if i < self.documents.len() => {
                let r = effect_before(
                    Effect::Copy(self.documents[i].pretty_json.clone()),
                    one_effect(Effect::NotifySuccess(Success::DocumentCopied)),
                );
                assert(collection_types::effect_views(r@) =~= collection_model::copy_selected(
                    self@,
                ));
                r
            },
            _ => no_effects(),
        }
    }

    // -----------------------------------------------------------------------
    // The table
    // -----------------------------------------------------------------------

    /// Takes over what happened to the table.
    pub fn handle_table_event(&mut self, event: TableEvent) -> (r: Vec<Effect>)
        ensures
            makes(final(self)@, r@, table_event(old(self)@, event)),
    {
        match event {
            TableEvent::SelectCell(row, _) => {
                self.select_document(row);
                no_effects()
            },
            TableEvent::SelectRow(row) => {
                self.select_document(row);
                no_effects()
            },
            TableEvent::CellEdited(row, _) => {
                let effects = self.sync_documents_from_table();
                self.select_document(row);
                effects
            },
            TableEvent::DoubleClickedCell(row, col) => self.start_field_update(row, col),
            TableEvent::Other => no_effects(),
        }
    }

    /// Takes the documents of the table over into the list.
    fn sync_documents_from_table(&mut self) -> (r: Vec<Effect>)
        ensures
            makes(final(self)@, r@, collection_model::documents_synced(old(self)@)),
    {
        let documents = document_table::copy_documents(self.table.documents());
        match schema::document_items_from_documents(documents) {
            Ok(items) => {
                self.documents = items;
                no_effects()
            },
            Err(e) => self.fail(unwritable(e)),
        }
    }

    /// Saves the edits of the table.
    pub fn save_table_changes(&mut self) -> (r: Vec<Effect>)
        ensures
            makes(final(self)@, r@, collection_model::save_table_changes(old(self)@)),
    {
        let ghost rows = document_table::rows_set(self.table@.changes);
        let changes = match self.table.field_changes() {
            Ok(changes) => changes,
            Err(e) => {
                assert(mongo_types::error_text(e) == "Invalid filter: "@
                    + "Missing _id for update."@);
                return self.fail(unwritable(e));
            },
        };
        proof {
            assert forall|i: int| 0 <= i < rows.len() implies self.table@.original(
                (#[trigger] rows[i]).row,
                "_id"@,
            ) is Some by {
                assert(changes@[i].row_index == rows[i].row);
            }
            assert(collection_types::update_views(changes@) =~= collection_model::updates_of(
                self.table@,
            ));
            lemma_fields_set_bounded(self.table@);
            lemma_rows_of_changes(self.table@.changes);
        }
        if changes.len() == 0 {
            return no_effects();
        }
        let target = match self.target() {
            Some(t) => t,
            None => return no_effects(),
        };
        let count: usize = count_fields(&changes);
        self.pending_select_id = self.selected_id();
        self.is_loading = true;
        self.error_message = None;
        one_effect(Effect::Send { target, request: Request::SaveChanges { changes, count } })
    }

    /// Takes over the reply to saving the edits of the table.
    pub fn changes_saved(&mut self, result: Result<(), String>, count: usize) -> (r: Vec<Effect>)
        ensures
            makes(
                final(self)@,
                r@,
                collection_model::changes_saved(old(self)@, bare_reply(result), count),
            ),
    {
        match result {
            Ok(_) => {
                self.is_loading = false;
                self.pending_reload = true;
                one_effect(Effect::NotifySuccess(Success::TableChangesSaved(count)))
            },
            Err(why) => self.fail(Failure::Reply(why)),
        }
    }

    /// Gives the edits of the table up.
    pub fn revert_table_changes(&mut self) -> (r: Vec<Effect>)
        ensures
            makes(final(self)@, r@, collection_model::changes_reverted(old(self)@)),
    {
        self.table.revert_changes();
        let effects = self.sync_documents_from_table();
        if let Some(index) = self.selected_index {
            self.select_document(index);
        }
        effects
    }
}

/// What follows while the edits of a table are saved: the update to be sent
/// next, or the end.
#[derive(Debug)]
pub enum SaveStep {
    Update(usize),
    End(Result<(), String>),
}

/// The mathematical value of a [`SaveStep`].
pub ghost enum SaveStepView {
    Update(int),
    End(Result<(), Seq<char>>),
}

impl SaveStep {
    /// The mathematical value of the step.
    pub open spec fn view(&self) -> SaveStepView {
        match *self {
            SaveStep::Update(i) => SaveStepView::Update(i as int),
            SaveStep::End(result) => SaveStepView::End(bare_reply(result)),
        }
    }
}

/// What follows once the first `done` of `total` updates were sent, and the
/// last of them was answered: the next update, or the end where all were sent
/// or the last was refused.
pub open spec fn save_after(
    total: int,
    done: int,
    reply: Result<(), Seq<char>>,
) -> SaveStepView {
    if reply is Ok && done < total {
        SaveStepView::Update(done)
    } else {
        SaveStepView::End(reply)
    }
}

/// What follows once the first `done` of `total` updates were sent and the
/// last of them was answered. Before the first, nothing was refused.
pub fn next_update(total: usize, done: usize, reply: Result<(), String>) -> (r: SaveStep)
    ensures
        r@ == save_after(total as int, done as int, bare_reply(reply)),
{
    match reply {
        Ok(_) => if done < total {
            SaveStep::Update(done)
        } else {
            SaveStep::End(Ok(()))
        },
        Err(why) => SaveStep::End(Err(why)),
    }
}

/// The number of updates that are sent and what saving ends with, where
/// `replies` are the answers of the server to the updates in their order and
/// `done` updates were sent and granted.
pub open spec fn saved_from(
    replies: Seq<Result<(), Seq<char>>>,
    done: int,
    reply: Result<(), Seq<char>>,
) -> (int, Result<(), Seq<char>>)
    decreases replies.len() - done,
{
    match save_after(replies.len() as int, done, reply) {
        SaveStepView::Update(i) => saved_from(replies, done + 1, replies[i]),
        SaveStepView::End(result) => (done, result),
    }
}

proof fn lemma_saved_from(
    replies: Seq<Result<(), Seq<char>>>,
    done: int,
    reply: Result<(), Seq<char>>,
    refused: int,
)
    requires
        0 <= done <= refused <= replies.len(),
        reply is Ok,
        forall|i: int| done <= i < refused ==> (#[trigger] replies[i]) is Ok,
        refused < replies.len() ==> replies[refused] is Err,
    ensures
        refused < replies.len() ==> saved_from(replies, done, reply) == (
            refused + 1,
            replies[refused],
        ),
        refused == replies.len() ==> saved_from(replies, done, reply).0 == refused && saved_from(
            replies,
            done,
            reply,
        ).1 is Ok,
    decreases refused - done,
{
    if done < refused {
        lemma_saved_from(replies, done + 1, replies[done], refused);
    } else if done < replies.len() {
        assert(saved_from(replies, done + 1, replies[done]) == (done + 1, replies[done]));
    }
}

/// Saving sends the updates in their order. It stops at the first that is
/// refused, and ends with its error; where none is refused, all are sent and
/// saving succeeds. `refused` is the place of the first refused one, or the
/// number of updates where there is none.
pub proof fn law_saving_stops_at_first_refusal(
    replies: Seq<Result<(), Seq<char>>>,
    refused: int,
)
    requires
        0 <= refused <= replies.len(),
        forall|i: int| 0 <= i < refused ==> (#[trigger] replies[i]) is Ok,
        refused < replies.len() ==> replies[refused] is Err,
    ensures
        refused < replies.len() ==> saved_from(replies, 0, Ok(())) == (
            refused + 1,
            replies[refused],
        ),
        refused == replies.len() ==> saved_from(replies, 0, Ok(())).0 == refused && saved_from(
            replies,
            0,
            Ok(()),
        ).1 is Ok,
{
    lemma_saved_from(replies, 0, Ok(()), refused);
}

proof fn lemma_place_stays(items: Seq<schema::ItemView>, id: bson_ext::BsonView, n: int)
    requires
        0 <= n <= items.len(),
        collection_model::place_of(items.take(n), id) is Some,
    ensures
        collection_model::place_of(items, id) == collection_model::place_of(items.take(n), id),
    decreases items.len() - n,
{
    if n == items.len() {
        assert(items.take(n) =~= items);
    } else {
        assert(items.take(n + 1).drop_last() =~= items.take(n));
        lemma_place_stays(items, id, n + 1);
    }
}

/// How many fields the updates set.
fn count_fields(changes: &Vec<MongoDocumentFieldChange>) -> (r: usize)
    requires
        collection_model::fields_set(collection_types::update_views(changes@)) <= usize::MAX,
    ensures
        r == collection_model::fields_set(collection_types::update_views(changes@)),
{
    let ghost us = collection_types::update_views(changes@);
    let mut n: usize = 0;
    let mut i: usize = 0;
    assert(us.take(0) =~= Seq::empty());
    while i < changes.len()
        invariant
            i <= changes@.len(),
            us == collection_types::update_views(changes@),
            collection_model::fields_set(us) <= usize::MAX,
            n == collection_model::fields_set(us.take(i as int)),
        decreases changes@.len() - i,
    {
        let keys = bson_ext::document_keys(&changes[i].set_fields);
        assert(keys@.len() == text::views(keys@).len());
        assert(us.take(i as int + 1).drop_last() =~= us.take(i as int));
        proof {
            lemma_fields_set_monotone(us, i as int + 1);
        }
        n = n + keys.len();
        i = i + 1;
    }
    assert(us.take(us.len() as int) =~= us);
    n
}

proof fn lemma_fields_set_monotone(updates: Seq<collection_types::UpdateView>, n: int)
    requires
        0 <= n <= updates.len(),
    ensures
        collection_model::fields_set(updates.take(n)) <= collection_model::fields_set(updates),
    decreases updates.len() - n,
{
    if n == updates.len() {
        assert(updates.take(n) =~= updates);
    } else {
        assert(updates.take(n + 1).drop_last() =~= updates.take(n));
        lemma_fields_set_monotone(updates, n + 1);
    }
}

proof fn lemma_rows_of_changes(changes: Seq<document_table::ChangeView>)
    ensures
        document_table::rows_set(changes).len() == 0 <==> changes.len() == 0,
{
}

/// How many fields the rows set.
spec fn row_fields(rows: Seq<document_table::RowView>) -> nat
    decreases rows.len(),
{
    if rows.len() == 0 {
        0
    } else {
        row_fields(rows.drop_last()) + rows.last().fields.len()
    }
}

proof fn lemma_row_fields(changes: Seq<document_table::ChangeView>)
    ensures
        row_fields(document_table::rows_set(changes)) <= changes.len(),
    decreases changes.len(),
{
    if changes.len() > 0 {
        lemma_row_fields(changes.drop_last());
        let rest = document_table::rows_set(changes.drop_last());
        let c = changes.last();
        let rows = document_table::rows_set(changes);
        if rest.len() > 0 && rest.last().row == c.row {
            assert(rows.drop_last() =~= rest.drop_last());
        } else {
            assert(rows.drop_last() =~= rest);
        }
    }
}

proof fn lemma_fields_set_bounded(t: document_table::TableView)
    ensures
        collection_model::fields_set(collection_model::updates_of(t)) <= t.changes.len(),
{
    lemma_row_fields(t.changes);
    lemma_fields_of_rows(t, document_table::rows_set(t.changes).len() as int);
    let us = collection_model::updates_of(t);
    let rows = document_table::rows_set(t.changes);
    assert(us.take(us.len() as int) =~= us);
    assert(rows.take(rows.len() as int) =~= rows);
}

proof fn lemma_fields_of_rows(t: document_table::TableView, n: int)
    requires
        0 <= n <= document_table::rows_set(t.changes).len(),
    ensures
        collection_model::fields_set(collection_model::updates_of(t).take(n)) == row_fields(
            document_table::rows_set(t.changes).take(n),
        ),
    decreases n,
{
    let us = collection_model::updates_of(t);
    let rows = document_table::rows_set(t.changes);
    if n > 0 {
        lemma_fields_of_rows(t, n - 1);
        assert(us.take(n).drop_last() =~= us.take(n - 1));
        assert(rows.take(n).drop_last() =~= rows.take(n - 1));
    }
}

} // verus!
