//! The panels of the view of a collection, and what it shows of itself.
use vstd::prelude::*;

use mongodb::bson::Document;

use crate::collection;
use crate::collection::{unwritable, CollectionView, Panel};
use crate::collection_model;
use crate::collection_model::{Collection, SCHEMA_SAMPLE_LIMIT, TAB_AGGREGATIONS, TAB_INDEXES,
    TAB_SCHEMA, TAB_VALIDATION};
use crate::collection_types;
use crate::collection_types::{
    effect_before, no_effects, one_effect, EditorMode, Effect, ExportKind, Failure, Request,
    Success,
};
use crate::mongo_types;
use crate::query_input;
use crate::query_input::{QueryLabels, TextsView};
use crate::schema;
use crate::text;

verus! {

impl Panel {
    /// A failure of something that was under way.
    fn break_off(&mut self, f: &Failure)
        ensures
            final(self)@ == collection_model::broken(old(self)@, f@),
    {
        self.loading = false;
        self.error = Some(f.copy());
    }

    /// A refused input.
    fn refuse(&mut self, f: &Failure)
        ensures
            final(self)@ == collection_model::refused(old(self)@, f@),
    {
        self.error = Some(f.copy());
    }

    /// Something came.
    fn arrive(&mut self, count: usize)
        ensures
            final(self)@ == collection_model::fetched(old(self)@, count),
    {
        self.loading = false;
        self.count = Some(count);
    }
}

/// Shows a text that is waiting.
fn take_over(pending: &mut Option<String>, current: &mut String)
    ensures
        final(current)@ == collection_model::taken(text::opt_view(*old(pending)), old(current)@),
        *final(pending) is None,
{
    if let Some(value) = pending.take() {
        *current = value;
    }
}

impl CollectionView {
    // -----------------------------------------------------------------------
    // Explanations
    // -----------------------------------------------------------------------

    /// Has the query explained.
    pub fn run_explain(&mut self, labels: &QueryLabels) -> (r: Vec<Effect>)
        requires
            query_input::texts_fit(old(self)@.texts, old(self)@.page_index),
        ensures
            collection::makes(
                final(self)@,
                r@,
                collection_model::run_explain(old(self)@, labels@),
            ),
    {
        let inputs = match query_input::read_query_inputs(&self.texts, labels) {
            Ok(inputs) => inputs,
            Err(e) => return self.fail(Failure::Input(e)),
        };
        let target = match self.target() {
            Some(t) => t,
            None => return no_effects(),
        };
        proof {
            query_input::law_query_numbers(self@.texts, labels@, self.page_index);
        }
        let skip: i64 = inputs.skip(self.page_index);
        let plan = query_input::build_find_options(&inputs, skip);
        self.is_loading = true;
        self.error_message = None;
        self.show_explain = true;
        self.detail_panel_collapsed = false;
        one_effect(
            Effect::Send { target, request: Request::Explain { filter: inputs.filter, plan } },
        )
    }

    /// Shows the explanation or puts it away.
    pub fn explain_clicked(&mut self, labels: &QueryLabels) -> (r: Vec<Effect>)
        requires
            query_input::texts_fit(old(self)@.texts, old(self)@.page_index),
        ensures
            collection::makes(
                final(self)@,
                r@,
                collection_model::explain_clicked(old(self)@, labels@),
            ),
    {
        if self.show_explain {
            self.show_explain = false;
            no_effects()
        } else {
            self.run_explain(labels)
        }
    }

    /// Takes over the explanation.
    pub fn explain_finished(&mut self, result: Result<Document, String>) -> (r: Vec<Effect>)
        ensures
            collection::makes(
                final(self)@,
                r@,
                collection_model::explain_finished(
                    old(self)@,
                    collection::document_reply(result),
                ),
            ),
    {
        let document = match result {
            Ok(d) => d,
            Err(why) => {
                self.show_explain = false;
                return self.fail(Failure::Reply(why));
            },
        };
        match mongo_types::document_to_pretty_json(&document) {
            Ok(shown) => {
                self.is_loading = false;
                self.pending_explain_value = Some(shown);
                self.show_explain = true;
                no_effects()
            },
            Err(e) => {
                self.show_explain = false;
                self.fail(unwritable(e))
            },
        }
    }

    // -----------------------------------------------------------------------
    // Aggregations
    // -----------------------------------------------------------------------

    /// Runs the aggregation.
    pub fn run_aggregation(&mut self) -> (r: Vec<Effect>)
        ensures
            collection::makes(final(self)@, r@, collection_model::run_aggregation(old(self)@)),
    {
        let pipeline = match query_input::parse_pipeline(self.aggregation_text.as_str()) {
            Ok(p) => p,
            Err(e) => {
                let f = Failure::Input(e);
                self.aggregation.refuse(&f);
                return one_effect(Effect::NotifyError(f));
            },
        };
        let target = match self.target() {
            Some(t) => t,
            None => return no_effects(),
        };
        self.aggregation = Panel::fetching();
        one_effect(Effect::Send { target, request: Request::Aggregate { pipeline } })
    }

    /// Shows a failure of the aggregation.
    fn fail_aggregation(&mut self, f: Failure) -> (r: Vec<Effect>)
        ensures
            collection::makes(
                final(self)@,
                r@,
                collection_model::aggregation_failed(old(self)@, f@),
            ),
    {
        self.aggregation.break_off(&f);
        one_effect(Effect::NotifyError(f))
    }

    /// Takes over the result of the aggregation.
    pub fn aggregation_finished(&mut self, result: Result<Vec<Document>, String>) -> (r: Vec<
        Effect,
    >)
        ensures
            collection::makes(
                final(self)@,
                r@,
                collection_model::aggregation_finished(
                    old(self)@,
                    collection::documents_reply(result),
                ),
            ),
    {
        let documents = match result {
            Ok(d) => d,
            Err(why) => return self.fail_aggregation(Failure::Reply(why)),
        };
        match schema::documents_to_pretty_json(&documents) {
            Ok(shown) => {
                self.pending_aggregation_value = Some(shown);
                self.aggregation.arrive(documents.len());
                no_effects()
            },
            Err(e) => self.fail_aggregation(unwritable(e)),
        }
    }

    /// Hands the result of the aggregation out.
    pub fn export_aggregation_result(&self) -> (r: Vec<Effect>)
        ensures
            collection_types::effect_views(r@) == seq![collection_model::export_aggregation(self@)],
    {
        if text::trim(self.aggregation_output.as_str()).as_str().is_empty() {
            one_effect(Effect::NotifyError(Failure::NothingToExport))
        } else {
            one_effect(
                Effect::Export {
                    kind: ExportKind::Aggregation,
                    content: self.aggregation_output.clone(),
                },
            )
        }
    }

    // -----------------------------------------------------------------------
    // The schema
    // -----------------------------------------------------------------------

    /// Draws the schema anew.
    pub fn load_schema(&mut self) -> (r: Vec<Effect>)
        ensures
            collection::makes(final(self)@, r@, collection_model::load_schema(old(self)@)),
    {
        let target = match self.target() {
            Some(t) => t,
            None => return no_effects(),
        };
        self.schema = Panel::fetching();
        one_effect(
            Effect::Send { target, request: Request::Sample { limit: SCHEMA_SAMPLE_LIMIT } },
        )
    }

    /// Shows a failure of the schema.
    fn fail_schema(&mut self, f: Failure) -> (r: Vec<Effect>)
        ensures
            collection::makes(final(self)@, r@, collection_model::schema_failed(old(self)@, f@)),
    {
        self.schema.break_off(&f);
        one_effect(Effect::NotifyError(f))
    }

    /// Takes over the sample for the schema.
    pub fn schema_loaded(&mut self, result: Result<Vec<Document>, String>) -> (r: Vec<Effect>)
        ensures
            collection::makes(
                final(self)@,
                r@,
                collection_model::schema_loaded(old(self)@, collection::documents_reply(result)),
            ),
    {
        let documents = match result {
            Ok(d) => d,
            Err(why) => return self.fail_schema(Failure::Reply(why)),
        };
        match schema::build_schema_payload(&documents) {
            Ok(shown) => {
                self.pending_schema_value = Some(shown);
                self.schema.arrive(documents.len());
                no_effects()
            },
            Err(e) => self.fail_schema(unwritable(e)),
        }
    }

    // -----------------------------------------------------------------------
    // Indexes
    // -----------------------------------------------------------------------

    /// Lists the indexes anew.
    pub fn load_indexes(&mut self) -> (r: Vec<Effect>)
        ensures
            collection::makes(final(self)@, r@, collection_model::load_indexes(old(self)@)),
    {
        let target = match self.target() {
            Some(t) => t,
            None => return no_effects(),
        };
        self.indexes = Panel::fetching();
        one_effect(Effect::Send { target, request: Request::ListIndexes })
    }

    /// Shows a failure of work on the indexes.
    fn fail_indexes(&mut self, f: Failure) -> (r: Vec<Effect>)
        ensures
            collection::makes(final(self)@, r@, collection_model::indexes_failed(old(self)@, f@)),
    {
        self.indexes.break_off(&f);
        one_effect(Effect::NotifyError(f))
    }

    /// Takes over the list of the indexes.
    pub fn indexes_loaded(&mut self, result: Result<Vec<Document>, String>) -> (r: Vec<Effect>)
        ensures
            collection::makes(
                final(self)@,
                r@,
                collection_model::indexes_loaded(old(self)@, collection::documents_reply(result)),
            ),
    {
        let documents = match result {
            Ok(d) => d,
            Err(why) => return self.fail_indexes(Failure::Reply(why)),
        };
        match schema::documents_to_pretty_json(&documents) {
            Ok(shown) => {
                self.pending_indexes_value = Some(shown);
                self.indexes.arrive(documents.len());
                no_effects()
            },
            Err(e) => self.fail_indexes(unwritable(e)),
        }
    }

    /// Makes an index.
    pub fn create_index(&mut self, keys_label: &str) -> (r: Vec<Effect>)
        ensures
            collection::makes(
                final(self)@,
                r@,
                collection_model::create_index(old(self)@, keys_label@),
            ),
    {
        let keys = match query_input::parse_required_document(
            self.index_keys.as_str(),
            keys_label,
        ) {
            Ok(keys) => keys,
            Err(e) => {
                let f = Failure::Input(e);
                self.indexes.refuse(&f);
                return one_effect(Effect::NotifyError(f));
            },
        };
        let trimmed = text::trim(self.index_name.as_str());
        let name = if trimmed.as_str().is_empty() {
            None
        } else {
            Some(trimmed)
        };
        let target = match self.target() {
            Some(t) => t,
            None => return no_effects(),
        };
        self.indexes.loading = true;
        self.indexes.error = None;
        one_effect(Effect::Send { target, request: Request::CreateIndex { keys, name } })
    }

    /// Drops an index.
    pub fn drop_index(&mut self) -> (r: Vec<Effect>)
        ensures
            collection::makes(final(self)@, r@, collection_model::drop_index(old(self)@)),
    {
        let name = text::trim(self.index_drop.as_str());
        if name.as_str().is_empty() {
            let f = Failure::IndexNameRequired;
            self.indexes.refuse(&f);
            return one_effect(Effect::NotifyError(f));
        }
        let target = match self.target() {
            Some(t) => t,
            None => return no_effects(),
        };
        self.indexes.loading = true;
        self.indexes.error = None;
        one_effect(Effect::Send { target, request: Request::DropIndex { name } })
    }

    /// Takes over the reply to making or dropping an index.
    fn index_changed(&mut self, result: Result<(), String>, done: Success) -> (r: Vec<Effect>)
        ensures
            collection::makes(
                final(self)@,
                r@,
                collection_model::index_changed(old(self)@, collection::bare_reply(result), done),
            ),
    {
        match result {
            Ok(_) => {
                self.indexes.loading = false;
                let listed = self.load_indexes();
                effect_before(Effect::NotifySuccess(done), listed)
            },
            Err(why) => self.fail_indexes(Failure::Reply(why)),
        }
    }

    /// Takes over the reply to making an index.
    pub fn index_created(&mut self, result: Result<(), String>) -> (r: Vec<Effect>)
        ensures
            collection::makes(
                final(self)@,
                r@,
                collection_model::index_changed(
                    old(self)@,
                    collection::bare_reply(result),
                    Success::IndexCreated,
                ),
            ),
    {
        self.index_changed(result, Success::IndexCreated)
    }

    /// Takes over the reply to dropping an index.
    pub fn index_dropped(&mut self, result: Result<(), String>) -> (r: Vec<Effect>)
        ensures
            collection::makes(
                final(self)@,
                r@,
                collection_model::index_changed(
                    old(self)@,
                    collection::bare_reply(result),
                    Success::IndexDeleted,
                ),
            ),
    {
        self.index_changed(result, Success::IndexDeleted)
    }

    // -----------------------------------------------------------------------
    // Validation
    // -----------------------------------------------------------------------

    /// Fetches the validation rules anew.
    pub fn load_validation(&mut self) -> (r: Vec<Effect>)
        ensures
            collection::makes(final(self)@, r@, collection_model::load_validation(old(self)@)),
    {
        let target = match self.target() {
            Some(t) => t,
            None => return no_effects(),
        };
        self.validation.loading = true;
        self.validation.error = None;
        one_effect(Effect::Send { target, request: Request::GetValidation })
    }

    /// Shows a failure of work on the validation rules.
    fn fail_validation(&mut self, f: Failure) -> (r: Vec<Effect>)
        ensures
            collection::makes(
                final(self)@,
                r@,
                collection_model::validation_failed(old(self)@, f@),
            ),
    {
        self.validation.break_off(&f);
        one_effect(Effect::NotifyError(f))
    }

    /// Takes over the validation rules.
    pub fn validation_loaded(&mut self, result: Result<Option<Document>, String>) -> (r: Vec<
        Effect,
    >)
        ensures
            collection::makes(
                final(self)@,
                r@,
                collection_model::validation_loaded(
                    old(self)@,
                    collection::opt_document_reply(result),
                ),
            ),
    {
        let rules = match result {
            Ok(d) => d,
            Err(why) => return self.fail_validation(Failure::Reply(why)),
        };
        let shown = match &rules {
            None => "{}".to_owned(),
            Some(d) => match mongo_types::document_to_pretty_json(d) {
                Ok(s) => s,
                Err(_) => "{}".to_owned(),
            },
        };
        self.validation.loading = false;
        self.pending_validation_value = Some(shown);
        no_effects()
    }

    /// Saves the validation rules in the editor.
    pub fn save_validation(&mut self, label: &str) -> (r: Vec<Effect>)
        ensures
            collection::makes(
                final(self)@,
                r@,
                collection_model::save_validation(old(self)@, label@),
            ),
    {
        let validator = match query_input::parse_optional_document(
            self.validation_text.as_str(),
            label,
        ) {
            Ok(d) => d,
            Err(e) => {
                let f = Failure::Input(e);
                self.validation.refuse(&f);
                return one_effect(Effect::NotifyError(f));
            },
        };
        let target = match self.target() {
            Some(t) => t,
            None => return no_effects(),
        };
        self.validation.loading = true;
        self.validation.error = None;
        one_effect(
            Effect::Send { target, request: Request::SetValidation { validator, clear: false } },
        )
    }

    /// Removes the validation rules.
    pub fn clear_validation(&mut self) -> (r: Vec<Effect>)
        ensures
            collection::makes(final(self)@, r@, collection_model::clear_validation(old(self)@)),
    {
        let target = match self.target() {
            Some(t) => t,
            None => return no_effects(),
        };
        self.validation.loading = true;
        self.validation.error = None;
        one_effect(
            Effect::Send { target, request: Request::SetValidation { validator: None, clear: true } },
        )
    }

    /// Takes over the reply to saving or removing the validation rules.
    pub fn validation_changed(&mut self, result: Result<(), String>, cleared: bool) -> (r: Vec<
        Effect,
    >)
        ensures
            collection::makes(
                final(self)@,
                r@,
                collection_model::validation_changed(
                    old(self)@,
                    collection::bare_reply(result),
                    cleared,
                ),
            ),
    {
        match result {
            Ok(_) => {
                self.validation.loading = false;
                if cleared {
                    self.pending_validation_value = Some("{}".to_owned());
                }
                let done = if cleared {
                    Success::ValidationCleared
                } else {
                    Success::ValidationUpdated
                };
                let loaded = self.load_validation();
                effect_before(Effect::NotifySuccess(done), loaded)
            },
            Err(why) => self.fail_validation(Failure::Reply(why)),
        }
    }

    // -----------------------------------------------------------------------
    // Tabs, toggles, texts that wait
    // -----------------------------------------------------------------------

    /// Shows another tab.
    pub fn set_active_tab(&mut self, index: usize) -> (r: Vec<Effect>)
        ensures
            collection::makes(final(self)@, r@, collection_model::tab_shown(old(self)@, index)),
    {
        if self.active_tab == index {
            return no_effects();
        }
        self.active_tab = index;
        if index == TAB_SCHEMA {
            self.load_schema()
        } else if index == TAB_INDEXES {
            self.load_indexes()
        } else if index == TAB_VALIDATION {
            self.load_validation()
        } else {
            no_effects()
        }
    }

    /// Folds the panel of the document in or out.
    pub fn toggle_detail_panel(&mut self)
        ensures
            final(self)@ == (Collection { collapsed: !old(self)@.collapsed, ..old(self)@ }),
    {
        self.detail_panel_collapsed = !self.detail_panel_collapsed;
    }

    /// Shows the options of the query or puts them away.
    pub fn toggle_options(&mut self)
        ensures
            final(self)@ == (Collection { show_options: !old(self)@.show_options, ..old(self)@ }),
    {
        self.show_options = !self.show_options;
    }

    /// Shows the texts that came meanwhile, and fetches the page again where
    /// that was put off.
    pub fn apply_pending(&mut self, labels: &QueryLabels) -> (r: Vec<Effect>)
        requires
            old(self)@.pending_reload ==> query_input::texts_fit(
                old(self)@.texts,
                old(self)@.page_index,
            ),
        ensures
            collection::makes(
                final(self)@,
                r@,
                collection_model::apply_pending(old(self)@, labels@),
            ),
    {
        take_over(&mut self.pending_editor_value, &mut self.editor_text);
        take_over(&mut self.pending_explain_value, &mut self.explain_text);
        take_over(&mut self.pending_aggregation_value, &mut self.aggregation_output);
        take_over(&mut self.pending_schema_value, &mut self.schema_output);
        take_over(&mut self.pending_indexes_value, &mut self.indexes_output);
        take_over(&mut self.pending_validation_value, &mut self.validation_text);
        if self.pending_reload {
            self.pending_reload = false;
            self.run_query(labels)
        } else {
            no_effects()
        }
    }

    // -----------------------------------------------------------------------
    // Exports
    // -----------------------------------------------------------------------

    /// The extended JSON of the documents of the list.
    pub fn build_export_data(&self) -> (r: Result<String, mongo_types::MongoError>)
        ensures
            match schema::list_text(schema::item_documents(self@.documents)) {
                Ok(s) => r matches Ok(t) && t@ == s,
                Err(why) => r matches Err(e) && mongo_types::is_unwritable(e, why),
            },
    {
        schema::documents_to_pretty_json(&self.listed_documents())
    }

    /// Hands the list out as text.
    pub fn export_data(&mut self) -> (r: Vec<Effect>)
        ensures
            collection::makes(final(self)@, r@, collection_model::export_data(old(self)@)),
    {
        match self.build_export_data() {
            Ok(content) => one_effect(Effect::Export { kind: ExportKind::Data, content }),
            Err(e) => self.fail(unwritable(e)),
        }
    }

    /// Hands the query out in the language of the shell.
    pub fn export_code(&mut self, labels: &QueryLabels) -> (r: Vec<Effect>)
        requires
            query_input::texts_fit(old(self)@.texts, old(self)@.page_index),
        ensures
            collection::makes(
                final(self)@,
                r@,
                collection_model::export_code(old(self)@, labels@),
            ),
    {
        let inputs = match query_input::read_query_inputs(&self.texts, labels) {
            Ok(inputs) => inputs,
            Err(e) => return self.fail(Failure::Input(e)),
        };
        let name = match &self.collection_name {
            Some(name) => name.clone(),
            None => return no_effects(),
        };
        proof {
            query_input::law_query_numbers(self@.texts, labels@, self.page_index);
        }
        let skip: i64 = inputs.skip(self.page_index);
        match query_input::build_query_code(name.as_str(), &inputs, skip) {
            Ok(content) => one_effect(Effect::Export { kind: ExportKind::Code, content }),
            Err(e) => self.fail(unwritable(e)),
        }
    }
}

// ---------------------------------------------------------------------------
// What is shown
// ---------------------------------------------------------------------------

/// The line below the table.
#[derive(Clone, Copy, Debug, PartialEq, Eq, Structural)]
pub struct PageBar {
    pub start: i64,
    pub end: i64,
    pub total: Option<i64>,
    pub page: i64,
    pub pages: i64,
    pub can_prev: bool,
    pub can_next: bool,
}

/// The quotient, rounded towards zero.
pub open spec fn quotient(a: int, b: int) -> int {
    if a >= 0 {
        a / b
    } else {
        -((-a) / b)
    }
}

/// The difference, held within 64 bits.
pub open spec fn held(n: int) -> int {
    if n < i64::MIN {
        i64::MIN as int
    } else if n > i64::MAX {
        i64::MAX as int
    } else {
        n
    }
}

/// How many pages there are when `remaining` documents are left to be shown.
pub open spec fn page_count(remaining: int, page_size: int) -> int {
    if remaining == 0 {
        0
    } else {
        quotient(held(remaining - 1), page_size) + 1
    }
}

/// The query that the pages are counted by.
pub open spec fn paged_query(s: Collection, labels: TextsView) -> query_input::QueryView {
    match query_input::query_read(s.texts, labels) {
        Ok(q) => q,
        Err(_) => query_input::default_query(),
    }
}

/// The line below the table.
pub open spec fn page_bar(s: Collection, labels: TextsView) -> PageBar {
    let q = paged_query(s, labels);
    let offset = query_input::page_start(q.skip_base, q.page_size, s.page_index);
    let total = match s.total_count {
        Some(n) => n as int,
        None => 0,
    };
    let pages = page_count(held(total - q.skip_base), q.page_size as int);
    PageBar {
        start: if s.documents.len() == 0 {
            0
        } else {
            (offset + 1) as i64
        },
        end: (offset + s.documents.len()) as i64,
        total: s.total_count,
        page: if pages == 0 {
            0
        } else {
            (s.page_index + 1) as i64
        },
        pages: pages as i64,
        can_prev: s.page_index > 0,
        can_next: match s.total_count {
            Some(_) => pages > 0 && s.page_index + 1 < pages,
            None => s.documents.len() == q.page_size,
        },
    }
}

/// The numbers of the page are numbers of 64 bits.
pub open spec fn page_bar_fits(s: Collection, labels: TextsView) -> bool {
    let q = paged_query(s, labels);
    &&& query_input::page_start_fits(q.skip_base, q.page_size, s.page_index)
    &&& query_input::page_start(q.skip_base, q.page_size, s.page_index) + s.documents.len()
        <= i64::MAX
    &&& s.documents.len() <= i64::MAX
    &&& s.page_index < i64::MAX
}

proof fn lemma_quotient_bounds(a: int, b: int)
    requires
        b >= 1,
        a >= 0,
    ensures
        0 <= a / b <= a,
{
    assert(0 <= a / b <= a) by (nonlinear_arith)
        requires
            b >= 1,
            a >= 0,
    ;
}

/// How many pages there are.
fn count_pages(remaining: i64, page_size: i64) -> (r: i64)
    requires
        page_size >= 1,
    ensures
        r == page_count(remaining as int, page_size as int),
        page_count(remaining as int, page_size as int) <= i64::MAX,
{
    if remaining == 0 {
        return 0;
    }
    let last: i64 = if remaining == i64::MIN {
        remaining
    } else {
        remaining - 1
    };
    if last >= 0 {
        proof {
            lemma_quotient_bounds(last as int, page_size as int);
        }
        last / page_size + 1
    } else {
        let size: i128 = page_size as i128;
        let below: i128 = -(last as i128);
        proof {
            lemma_quotient_bounds(below as int, size as int);
        }
        let q: i128 = below / size;
        (1 - q) as i64
    }
}

/// What stands over the document.
#[derive(Debug)]
pub enum DetailTitle {
    Explanation,
    NewDocument,
    EditDocument,
    EditField(String),
    Document(String),
    SelectDocument,
}

/// The mathematical value of a [`DetailTitle`].
pub ghost enum TitleView {
    Explanation,
    NewDocument,
    EditDocument,
    EditField(Seq<char>),
    Document(Seq<char>),
    SelectDocument,
}

impl DetailTitle {
    /// The mathematical value of the title.
    pub open spec fn view(&self) -> TitleView {
        match *self {
            DetailTitle::Explanation => TitleView::Explanation,
            DetailTitle::NewDocument => TitleView::NewDocument,
            DetailTitle::EditDocument => TitleView::EditDocument,
            DetailTitle::EditField(s) => TitleView::EditField(s@),
            DetailTitle::Document(s) => TitleView::Document(s@),
            DetailTitle::SelectDocument => TitleView::SelectDocument,
        }
    }
}

/// What stands in the panel of the document.
#[derive(Clone, Copy, Debug, PartialEq, Eq, Structural)]
pub enum DetailBody {
    Explanation,
    Editor { enabled: bool },
    SelectDocument,
}

/// What can be done in the panel of the document.
#[derive(Clone, Copy, Debug, PartialEq, Eq, Structural)]
pub enum DetailButtons {
    SaveAndCancel,
    Copy { enabled: bool },
}

/// The panel of the document.
#[derive(Debug)]
pub struct DetailPanel {
    pub title: DetailTitle,
    pub body: DetailBody,
    pub buttons: DetailButtons,
}

/// A document or a field is edited.
pub open spec fn is_editing(s: Collection) -> bool {
    s.mode != EditorMode::View
}

/// What stands over the document.
pub open spec fn detail_title(s: Collection) -> TitleView {
    if s.show_explain {
        TitleView::Explanation
    } else {
        match s.mode {
            EditorMode::Create => TitleView::NewDocument,
            EditorMode::Update => TitleView::EditDocument,
            EditorMode::FieldUpdate => match s.editing_field {
                Some((field, _)) => TitleView::EditField(field),
                None => TitleView::EditDocument,
            },
            EditorMode::View => match s.item(s.selected) {
                Some(item) => TitleView::Document(item.id),
                None => TitleView::SelectDocument,
            },
        }
    }
}

/// What stands in the panel of the document.
pub open spec fn detail_body(s: Collection) -> DetailBody {
    if s.show_explain {
        DetailBody::Explanation
    } else if is_editing(s) || s.selected is Some {
        DetailBody::Editor { enabled: is_editing(s) }
    } else {
        DetailBody::SelectDocument
    }
}

/// What can be done in the panel of the document.
pub open spec fn detail_buttons(s: Collection) -> DetailButtons {
    if is_editing(s) {
        DetailButtons::SaveAndCancel
    } else {
        DetailButtons::Copy { enabled: s.selected is Some }
    }
}

/// What stands where the documents are shown.
#[derive(Clone, Copy, Debug, PartialEq, Eq, Structural)]
pub enum DocumentsBody {
    Loading,
    Error,
    Empty,
    Table,
}

/// What stands where the documents are shown.
pub open spec fn documents_body(s: Collection) -> DocumentsBody {
    if s.is_loading {
        DocumentsBody::Loading
    } else if s.error is Some {
        DocumentsBody::Error
    } else if s.documents.len() == 0 {
        DocumentsBody::Empty
    } else {
        DocumentsBody::Table
    }
}

/// What stands in a panel.
#[derive(Clone, Copy, Debug, PartialEq, Eq, Structural)]
pub enum PanelBody {
    Loading,
    Error,
    Output,
}

/// The buttons over the documents, and whether each can be used.
#[derive(Clone, Copy, Debug, PartialEq, Eq, Structural)]
pub struct ActionBar {
    pub query: bool,
    pub add: bool,
    pub update: bool,
    pub delete: bool,
    pub save_changes: bool,
    pub revert_changes: bool,
    pub export: bool,
}

/// The buttons over the documents, and whether each can be used.
pub open spec fn action_bar(s: Collection) -> ActionBar {
    let ready = !s.is_loading;
    ActionBar {
        query: ready,
        add: ready,
        update: ready && s.selected is Some,
        delete: ready && s.selected is Some,
        save_changes: ready && s.table.changes.len() > 0,
        revert_changes: ready && s.table.changes.len() > 0,
        export: ready,
    }
}

/// The tab that is shown, where there is one.
#[derive(Clone, Copy, Debug, PartialEq, Eq, Structural)]
pub enum ShownTab {
    SelectCollection,
    Documents,
    Aggregations,
    Schema,
    Indexes,
    Validation,
}

/// The tab that is shown; one without a number of its own shows the documents.
pub open spec fn shown_tab(s: Collection) -> ShownTab {
    if s.collection_name is None {
        ShownTab::SelectCollection
    } else if s.active_tab == TAB_AGGREGATIONS {
        ShownTab::Aggregations
    } else if s.active_tab == TAB_SCHEMA {
        ShownTab::Schema
    } else if s.active_tab == TAB_INDEXES {
        ShownTab::Indexes
    } else if s.active_tab == TAB_VALIDATION {
        ShownTab::Validation
    } else {
        ShownTab::Documents
    }
}

impl Panel {
    /// What stands in the panel.
    pub fn body(&self) -> (r: PanelBody)
        ensures
            r == (if self@.loading {
                PanelBody::Loading
            } else if self@.error is Some {
                PanelBody::Error
            } else {
                PanelBody::Output
            }),
    {
        if self.loading {
            PanelBody::Loading
        } else if self.error.is_some() {
            PanelBody::Error
        } else {
            PanelBody::Output
        }
    }
}

impl CollectionView {
    /// The line below the table.
    pub fn page_bar(&self, labels: &QueryLabels) -> (r: PageBar)
        requires
            page_bar_fits(self@, labels@),
        ensures
            r == page_bar(self@, labels@),
    {
        let inputs = query_input::read_query_inputs_or_default(&self.texts, labels);
        proof {
            query_input::law_query_numbers(self@.texts, labels@, self.page_index);
        }
        let offset: i64 = inputs.skip(self.page_index);
        let shown: i64 = self.documents.len() as i64;
        let total: i64 = match self.total_count {
            Some(n) => n,
            None => 0,
        };
        let remaining: i64 = if total < i64::MIN + inputs.skip_base {
            i64::MIN
        } else {
            total - inputs.skip_base
        };
        let pages: i64 = count_pages(remaining, inputs.page_size);
        PageBar {
            start: if shown == 0 {
                0
            } else {
                offset + 1
            },
            end: offset + shown,
            total: self.total_count,
            page: if pages == 0 {
                0
            } else {
                self.page_index + 1
            },
            pages,
            can_prev: self.page_index > 0,
            can_next: if self.total_count.is_some() {
                pages > 0 && self.page_index + 1 < pages
            } else {
                shown == inputs.page_size
            },
        }
    }

    /// The line below the table, where its numbers are numbers of 64 bits.
    pub fn page_bar_within(&self, labels: &QueryLabels) -> (r: Option<PageBar>)
        ensures
            match r {
                Some(bar) => page_bar_fits(self@, labels@) && bar == page_bar(self@, labels@),
                None => !page_bar_fits(self@, labels@),
            },
    {
        let inputs = query_input::read_query_inputs_or_default(&self.texts, labels);
        let shown: usize = self.documents.len();
        if shown as u64 > i64::MAX as u64 || self.page_index == i64::MAX {
            return None;
        }
        match query_input::start_of_page(inputs.skip_base, inputs.page_size, self.page_index) {
            Some(start) if start <= i64::MAX - shown as i64 => Some(self.page_bar(labels)),
            _ => None,
        }
    }

    /// What stands over the document.
    pub fn detail_title(&self) -> (r: DetailTitle)
        ensures
            r@ == detail_title(self@),
    {
        if self.show_explain {
            return DetailTitle::Explanation;
        }
        match self.editor_mode {
            EditorMode::Create => DetailTitle::NewDocument,
            EditorMode::Update => DetailTitle::EditDocument,
            EditorMode::FieldUpdate => match &self.editing_field {
                Some(e) => DetailTitle::EditField(e.field.clone()),
                None => DetailTitle::EditDocument,
            },
            EditorMode::View => match self.selected_index {
                Some(i) if i < self.documents.len() => DetailTitle::Document(
                    self.documents[i].id.clone(),
                ),
                _ => DetailTitle::SelectDocument,
            },
        }
    }

    /// The panel of the document.
    pub fn detail_panel(&self) -> (r: DetailPanel)
        ensures
            r.title@ == detail_title(self@),
            r.body == detail_body(self@),
            r.buttons == detail_buttons(self@),
    {
        let editing = self.editor_mode != EditorMode::View;
        DetailPanel {
            title: self.detail_title(),
            body: if self.show_explain {
                DetailBody::Explanation
            } else if editing || self.selected_index.is_some() {
                DetailBody::Editor { enabled: editing }
            } else {
                DetailBody::SelectDocument
            },
            buttons: if editing {
                DetailButtons::SaveAndCancel
            } else {
                DetailButtons::Copy { enabled: self.selected_index.is_some() }
            },
        }
    }

    /// What stands where the documents are shown.
    pub fn documents_body(&self) -> (r: DocumentsBody)
        ensures
            r == documents_body(self@),
    {
        if self.is_loading {
            DocumentsBody::Loading
        } else if self.error_message.is_some() {
            DocumentsBody::Error
        } else if self.documents.len() == 0 {
            DocumentsBody::Empty
        } else {
            DocumentsBody::Table
        }
    }

    /// The buttons over the documents, and whether each can be used.
    pub fn action_bar(&self) -> (r: ActionBar)
        ensures
            r == action_bar(self@),
    {
        let ready = !self.is_loading;
        let selection = self.selected_index.is_some();
        let changes = self.table.has_changes();
        ActionBar {
            query: ready,
            add: ready,
            update: ready && selection,
            delete: ready && selection,
            save_changes: ready && changes,
            revert_changes: ready && changes,
            export: ready,
        }
    }

    /// The tab that is shown.
    pub fn shown_tab(&self) -> (r: ShownTab)
        ensures
            r == shown_tab(self@),
    {
        if self.collection_name.is_none() {
            ShownTab::SelectCollection
        } else if self.active_tab == TAB_AGGREGATIONS {
            ShownTab::Aggregations
        } else if self.active_tab == TAB_SCHEMA {
            ShownTab::Schema
        } else if self.active_tab == TAB_INDEXES {
            ShownTab::Indexes
        } else if self.active_tab == TAB_VALIDATION {
            ShownTab::Validation
        } else {
            ShownTab::Documents
        }
    }

    /// The title over the tabs: the database and the collection, where both
    /// are known.
    pub fn header_title(&self) -> (r: Option<String>)
        ensures
            text::opt_view(r) == (match (self@.database_name, self@.collection_name) {
                (Some(d), Some(c)) => Some(d + " / "@ + c),
                _ => None,
            }),
    {
        match (&self.database_name, &self.collection_name) {
            (Some(d), Some(c)) => {
                let mut s = d.clone();
                s.append(" / ");
                s.append(c.as_str());
                Some(s)
            },
            _ => None,
        }
    }
}

/// Which collection a tab shows.
#[derive(Clone, Debug)]
pub struct CollectionTabConfig {
    pub connection_id: String,
    pub database_name: String,
    pub collection_name: String,
}

impl CollectionTabConfig {
    /// The title of the tab.
    pub fn title(&self) -> (r: String)
        ensures
            r@ == self.database_name@ + "/"@ + self.collection_name@,
    {
        let mut s = self.database_name.clone();
        s.append("/");
        s.append(self.collection_name.as_str());
        s
    }

    /// The view of the tab, and what it asks for first.
    pub fn open(&self, labels: &QueryLabels) -> (r: (CollectionView, Vec<Effect>))
        ensures
            collection::makes(
                r.0@,
                r.1@,
                collection_model::load_collection(
                    collection_model::initial(),
                    collection_types::TargetView {
                        connection_id: self.connection_id@,
                        database_name: self.database_name@,
                        collection_name: self.collection_name@,
                    },
                    labels@,
                ),
            ),
    {
        let mut view = CollectionView::new();
        let effects = view.load_collection(
            collection_types::Target {
                connection_id: self.connection_id.clone(),
                database_name: self.database_name.clone(),
                collection_name: self.collection_name.clone(),
            },
            labels,
        );
        (view, effects)
    }
}

} // verus!
