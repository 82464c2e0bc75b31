//! What the user types to query a collection: documents in extended JSON,
//! pipelines and numbers, and the query that comes of them.
use vstd::prelude::*;

use mongodb::bson::{Bson, Document};

use crate::bson_ext;
use crate::bson_ext::{BsonView, JsonView};
use crate::mongo_types;
use crate::mongo_types::MongoError;
use crate::text;

verus! {

/// How many documents a page has unless the user says otherwise.
pub const DEFAULT_PAGE_SIZE: i64 = 25;

/// How many documents are left out unless the user says otherwise.
pub const DEFAULT_SKIP: i64 = 0;

/// What is wrong with an input. The places in a pipeline count from one.
#[derive(Debug)]
pub enum InputError {
    Required { label: String },
    MustBeJsonObject { label: String },
    ParseFailed { label: String, error: String },
    MustBeMinInt { label: String, min: i64 },
    PipelineParseFailed { error: String },
    PipelineMustBeArray,
    PipelineItemParseFailed { index: usize, error: String },
    PipelineItemMustBeObject { index: usize },
}

/// The mathematical value of an [`InputError`].
#[allow(inconsistent_fields)]
pub ghost enum InputErrorView {
    Required { label: Seq<char> },
    MustBeJsonObject { label: Seq<char> },
    ParseFailed { label: Seq<char>, error: Seq<char> },
    MustBeMinInt { label: Seq<char>, min: i64 },
    PipelineParseFailed { error: Seq<char> },
    PipelineMustBeArray,
    PipelineItemParseFailed { index: int, error: Seq<char> },
    PipelineItemMustBeObject { index: int },
}

impl InputError {
    /// The mathematical value of the error.
    pub open spec fn view(&self) -> InputErrorView {
        match *self {
            InputError::Required { label } => InputErrorView::Required { label: label@ },
            InputError::MustBeJsonObject { label } => InputErrorView::MustBeJsonObject {
                label: label@,
            },
            InputError::ParseFailed { label, error } => InputErrorView::ParseFailed {
                label: label@,
                error: error@,
            },
            InputError::MustBeMinInt { label, min } => InputErrorView::MustBeMinInt {
                label: label@,
                min,
            },
            InputError::PipelineParseFailed { error } => InputErrorView::PipelineParseFailed {
                error: error@,
            },
            InputError::PipelineMustBeArray => InputErrorView::PipelineMustBeArray,
            InputError::PipelineItemParseFailed { index, error } => {
                InputErrorView::PipelineItemParseFailed { index: index as int, error: error@ }
            },
            InputError::PipelineItemMustBeObject { index } => {
                InputErrorView::PipelineItemMustBeObject { index: index as int }
            },
        }
    }
}

// ---------------------------------------------------------------------------
// Values
// ---------------------------------------------------------------------------

/// The value that a text in extended JSON stands for.
pub open spec fn value_read(s: Seq<char>, label: Seq<char>) -> Result<BsonView, InputErrorView> {
    let t = text::trimmed(s);
    if t.len() == 0 {
        Err(InputErrorView::Required { label })
    } else {
        match bson_ext::parsed_json(t) {
            Err(error) => Err(InputErrorView::ParseFailed { label, error }),
            Ok(json) => match bson_ext::bson_of_json(json) {
                Err(error) => Err(InputErrorView::ParseFailed { label, error }),
                Ok(v) => Ok(v),
            },
        }
    }
}

/// The value as a document.
pub open spec fn as_document(v: BsonView, label: Seq<char>) -> Result<
    Seq<(Seq<char>, BsonView)>,
    InputErrorView,
> {
    match v {
        BsonView::Document(d) => Ok(d),
        _ => Err(InputErrorView::MustBeJsonObject { label }),
    }
}

/// The document that a text in extended JSON stands for.
pub open spec fn document_read(s: Seq<char>, label: Seq<char>) -> Result<
    Seq<(Seq<char>, BsonView)>,
    InputErrorView,
> {
    match value_read(s, label) {
        Err(e) => Err(e),
        Ok(v) => as_document(v, label),
    }
}

/// The document that a text stands for; of a blank text none.
pub open spec fn optional_document_read(s: Seq<char>, label: Seq<char>) -> Result<
    Option<Seq<(Seq<char>, BsonView)>>,
    InputErrorView,
> {
    if text::trimmed(s).len() == 0 {
        Ok(None)
    } else {
        match document_read(s, label) {
            Err(e) => Err(e),
            Ok(d) => Ok(Some(d)),
        }
    }
}

/// The number of at least `min` that a text stands for; of a blank text
/// `default`.
pub open spec fn number_read(s: Seq<char>, label: Seq<char>, default: i64, min: i64) -> Result<
    i64,
    InputErrorView,
> {
    let t = text::trimmed(s);
    if t.len() == 0 {
        Ok(default)
    } else {
        match text::int_within(t, min as int, i64::MAX as int) {
            Some(v) => Ok(v as i64),
            None => Err(InputErrorView::MustBeMinInt { label, min }),
        }
    }
}

/// Reads a value in extended JSON.
pub fn parse_required_bson_value(text: &str, label: &str) -> (r: Result<Bson, InputError>)
    ensures
        match r {
            Ok(v) => value_read(text@, label@) == Ok::<BsonView, InputErrorView>(
                bson_ext::bson_view(v),
            ),
            Err(e) => value_read(text@, label@) == Err::<BsonView, InputErrorView>(e@),
        },
{
    let trimmed = text::trim(text);
    if trimmed.as_str().is_empty() {
        return Err(InputError::Required { label: label.to_owned() });
    }
    match bson_ext::parse_json(trimmed.as_str()) {
        Err(error) => Err(InputError::ParseFailed { label: label.to_owned(), error }),
        Ok(json) => read_json_value(json, label),
    }
}

/// Takes a JSON value for a value in extended JSON.
pub fn read_json_value(json: serde_json::Value, label: &str) -> (r: Result<Bson, InputError>)
    ensures
        match bson_ext::bson_of_json(bson_ext::json_view(json)) {
            Ok(v) => r matches Ok(b) && bson_ext::bson_view(b) == v,
            Err(error) => r matches Err(e) && e@ == (InputErrorView::ParseFailed {
                label: label@,
                error,
            }),
        },
{
    match bson_ext::bson_from_json(json) {
        Ok(v) => Ok(v),
        Err(error) => Err(InputError::ParseFailed { label: label.to_owned(), error }),
    }
}

/// Takes a value for a document.
pub fn document_from_bson(value: &Bson, label: &str) -> (r: Result<Document, InputError>)
    ensures
        match r {
            Ok(d) => bson_ext::bson_view(*value) == BsonView::Document(bson_ext::document_view(d)),
            Err(e) => !(bson_ext::bson_view(*value) is Document) && e@
                == (InputErrorView::MustBeJsonObject { label: label@ }),
        },
{
    match bson_ext::document_of(value) {
        Some(d) => Ok(d),
        None => Err(InputError::MustBeJsonObject { label: label.to_owned() }),
    }
}

/// Reads a document in extended JSON.
pub fn parse_required_document(text: &str, label: &str) -> (r: Result<Document, InputError>)
    ensures
        match r {
            Ok(d) => document_read(text@, label@) == Ok::<
                Seq<(Seq<char>, BsonView)>,
                InputErrorView,
            >(bson_ext::document_view(d)),
            Err(e) => document_read(text@, label@) == Err::<
                Seq<(Seq<char>, BsonView)>,
                InputErrorView,
            >(e@),
        },
{
    match parse_required_bson_value(text, label) {
        Err(e) => Err(e),
        Ok(value) => document_from_bson(&value, label),
    }
}

/// The fields of an optional document.
pub open spec fn opt_document_view(d: Option<Document>) -> Option<Seq<(Seq<char>, BsonView)>> {
    match d {
        Some(d) => Some(bson_ext::document_view(d)),
        None => None,
    }
}

/// Reads a document in extended JSON; a blank text stands for none.
pub fn parse_optional_document(text: &str, label: &str) -> (r: Result<
    Option<Document>,
    InputError,
>)
    ensures
        match r {
            Ok(d) => optional_document_read(text@, label@) == Ok::<
                Option<Seq<(Seq<char>, BsonView)>>,
                InputErrorView,
            >(opt_document_view(d)),
            Err(e) => optional_document_read(text@, label@) == Err::<
                Option<Seq<(Seq<char>, BsonView)>>,
                InputErrorView,
            >(e@),
        },
{
    let trimmed = text::trim(text);
    if trimmed.as_str().is_empty() {
        return Ok(None);
    }
    match parse_required_document(text, label) {
        Err(e) => Err(e),
        Ok(d) => Ok(Some(d)),
    }
}

/// Reads a number of at least `min`; a blank text stands for `default`.
pub fn parse_i64_input(text: &str, label: &str, default: i64, min: i64) -> (r: Result<
    i64,
    InputError,
>)
    ensures
        match r {
            Ok(v) => number_read(text@, label@, default, min) == Ok::<i64, InputErrorView>(v),
            Err(e) => number_read(text@, label@, default, min) == Err::<i64, InputErrorView>(e@),
        },
{
    let trimmed = text::trim(text);
    if trimmed.as_str().is_empty() {
        return Ok(default);
    }
    match text::parse_i64(trimmed.as_str()) {
        Some(value) if value >= min => Ok(value),
        _ => Err(InputError::MustBeMinInt { label: label.to_owned(), min }),
    }
}

// ---------------------------------------------------------------------------
// Pipelines
// ---------------------------------------------------------------------------

/// The stages that a list of JSON values stands for; the first value that
/// stands for none decides what is wrong.
pub open spec fn stages_of(items: Seq<JsonView>) -> Result<
    Seq<Seq<(Seq<char>, BsonView)>>,
    InputErrorView,
>
    decreases items.len(),
{
    if items.len() == 0 {
        Ok(Seq::empty())
    } else {
        match stages_of(items.drop_last()) {
            Err(e) => Err(e),
            Ok(stages) => match bson_ext::bson_of_json(items.last()) {
                Err(error) => Err(
                    InputErrorView::PipelineItemParseFailed { index: items.len() as int, error },
                ),
                Ok(BsonView::Document(d)) => Ok(stages.push(d)),
                Ok(_) => Err(
                    InputErrorView::PipelineItemMustBeObject { index: items.len() as int },
                ),
            },
        }
    }
}

/// The pipeline that a text stands for; a blank text is an empty one.
pub open spec fn pipeline_read(s: Seq<char>) -> Result<
    Seq<Seq<(Seq<char>, BsonView)>>,
    InputErrorView,
> {
    let t = text::trimmed(s);
    if t.len() == 0 {
        Ok(Seq::empty())
    } else {
        match bson_ext::parsed_json(t) {
            Err(error) => Err(InputErrorView::PipelineParseFailed { error }),
            Ok(JsonView::Array(items)) => stages_of(items),
            Ok(_) => Err(InputErrorView::PipelineMustBeArray),
        }
    }
}

proof fn lemma_stages_fail(items: Seq<JsonView>, n: int)
    requires
        0 <= n <= items.len(),
        stages_of(items.take(n)) is Err,
    ensures
        stages_of(items) == stages_of(items.take(n)),
    decreases items.len() - n,
{
    if n == items.len() {
        assert(items.take(n) =~= items);
    } else {
        assert(items.take(n + 1).drop_last() =~= items.take(n));
        lemma_stages_fail(items, n + 1);
    }
}

/// Takes JSON values for the stages of a pipeline.
pub fn stages_from_json(items: Vec<serde_json::Value>) -> (r: Result<Vec<Document>, InputError>)
    ensures
        match r {
            Ok(v) => stages_of(bson_ext::json_views(items@)) == Ok::<
                Seq<Seq<(Seq<char>, BsonView)>>,
                InputErrorView,
            >(bson_ext::document_views(v@)),
            Err(e) => stages_of(bson_ext::json_views(items@)) == Err::<
                Seq<Seq<(Seq<char>, BsonView)>>,
                InputErrorView,
            >(e@),
        },
{
    let ghost js = bson_ext::json_views(items@);
    let ghost all = items@;
    let mut pipeline: Vec<Document> = Vec::new();
    let mut n: usize = 0;
    let total: usize = items.len();
    assert(js.take(0) =~= Seq::empty());
    assert(bson_ext::document_views(pipeline@) =~= Seq::empty());
    for item in it: items
        invariant
            it.seq() == all,
            js == bson_ext::json_views(all),
            total == all.len(),
            n == it.index(),
            stages_of(js.take(n as int)) == Ok::<Seq<Seq<(Seq<char>, BsonView)>>, InputErrorView>(
                bson_ext::document_views(pipeline@),
            ),
    {
        let ghost before = pipeline@;
        assert(js.take(n as int + 1).drop_last() =~= js.take(n as int));
        assert(js.take(n as int + 1).last() == bson_ext::json_view(item));
        match bson_ext::bson_from_json(item) {
            Err(error) => {
                proof {
                    lemma_stages_fail(js, n as int + 1);
                }
                return Err(InputError::PipelineItemParseFailed { index: n + 1, error });
            },
            Ok(bson) => match bson_ext::document_of(&bson) {
                Some(document) => {
                    pipeline.push(document);
                    assert(bson_ext::document_views(pipeline@) =~= bson_ext::document_views(
                        before,
                    ).push(bson_ext::document_view(document)));
                },
                None => {
                    proof {
                        lemma_stages_fail(js, n as int + 1);
                    }
                    return Err(InputError::PipelineItemMustBeObject { index: n + 1 });
                },
            },
        }
        n = n + 1;
    }
    assert(js.take(js.len() as int) =~= js);
    Ok(pipeline)
}

/// Reads an aggregation pipeline.
pub fn parse_pipeline(text: &str) -> (r: Result<Vec<Document>, InputError>)
    ensures
        match r {
            Ok(v) => pipeline_read(text@) == Ok::<Seq<Seq<(Seq<char>, BsonView)>>, InputErrorView>(
                bson_ext::document_views(v@),
            ),
            Err(e) => pipeline_read(text@) == Err::<
                Seq<Seq<(Seq<char>, BsonView)>>,
                InputErrorView,
            >(e@),
        },
{
    let trimmed = text::trim(text);
    if trimmed.as_str().is_empty() {
        let empty: Vec<Document> = Vec::new();
        assert(bson_ext::document_views(empty@) =~= Seq::empty());
        return Ok(empty);
    }
    match bson_ext::parse_json(trimmed.as_str()) {
        Err(error) => Err(InputError::PipelineParseFailed { error }),
        Ok(value) => match bson_ext::json_items(value) {
            None => Err(InputError::PipelineMustBeArray),
            Some(items) => stages_from_json(items),
        },
    }
}

// ---------------------------------------------------------------------------
// Queries
// ---------------------------------------------------------------------------

/// The texts of the five inputs of a query.
#[derive(Debug)]
pub struct QueryTexts {
    pub filter: String,
    pub sort: String,
    pub projection: String,
    pub page_size: String,
    pub skip: String,
}

/// The mathematical value of [`QueryTexts`].
pub ghost struct TextsView {
    pub filter: Seq<char>,
    pub sort: Seq<char>,
    pub projection: Seq<char>,
    pub page_size: Seq<char>,
    pub skip: Seq<char>,
}

impl QueryTexts {
    /// The mathematical value of the texts.
    pub open spec fn view(&self) -> TextsView {
        TextsView {
            filter: self.filter@,
            sort: self.sort@,
            projection: self.projection@,
            page_size: self.page_size@,
            skip: self.skip@,
        }
    }

    /// The texts that the inputs start with.
    pub fn initial() -> (r: QueryTexts)
        ensures
            r@ == initial_texts(),
    {
        QueryTexts {
            filter: String::new(),
            sort: String::new(),
            projection: String::new(),
            page_size: text::signed_number(DEFAULT_PAGE_SIZE),
            skip: text::signed_number(DEFAULT_SKIP),
        }
    }
}

/// The texts that the inputs start with: all documents, by the default page.
pub open spec fn initial_texts() -> TextsView {
    TextsView {
        filter: Seq::empty(),
        sort: Seq::empty(),
        projection: Seq::empty(),
        page_size: text::signed_decimal(DEFAULT_PAGE_SIZE as int),
        skip: text::signed_decimal(DEFAULT_SKIP as int),
    }
}

/// What the inputs of a query are called when one of them is wrong.
#[derive(Debug)]
pub struct QueryLabels {
    pub filter: String,
    pub sort: String,
    pub projection: String,
    pub page_size: String,
    pub skip: String,
}

impl QueryLabels {
    /// The mathematical value of the labels.
    pub open spec fn view(&self) -> TextsView {
        TextsView {
            filter: self.filter@,
            sort: self.sort@,
            projection: self.projection@,
            page_size: self.page_size@,
            skip: self.skip@,
        }
    }
}

/// A query as the user wants it, whatever the page.
#[derive(Debug)]
pub struct QueryInputs {
    pub filter: Option<Document>,
    pub sort: Option<Document>,
    pub projection: Option<Document>,
    pub page_size: i64,
    pub skip_base: i64,
}

/// The mathematical value of [`QueryInputs`].
pub ghost struct QueryView {
    pub filter: Option<Seq<(Seq<char>, BsonView)>>,
    pub sort: Option<Seq<(Seq<char>, BsonView)>>,
    pub projection: Option<Seq<(Seq<char>, BsonView)>>,
    pub page_size: i64,
    pub skip_base: i64,
}

/// How many documents come before a page.
pub open spec fn page_start(skip_base: i64, page_size: i64, page_index: i64) -> int {
    skip_base + page_index * page_size
}

/// The number of documents before a page is one of 64 bits.
pub open spec fn page_start_fits(skip_base: i64, page_size: i64, page_index: i64) -> bool {
    i64::MIN <= page_index * page_size <= i64::MAX && i64::MIN <= page_start(
        skip_base,
        page_size,
        page_index,
    ) <= i64::MAX
}

/// The query that the texts stand for; the inputs are read from the filter on,
/// and the first that is wrong decides.
pub open spec fn query_read(t: TextsView, labels: TextsView) -> Result<QueryView, InputErrorView> {
    match optional_document_read(t.filter, labels.filter) {
        Err(e) => Err(e),
        Ok(filter) => match optional_document_read(t.sort, labels.sort) {
            Err(e) => Err(e),
            Ok(sort) => match optional_document_read(t.projection, labels.projection) {
                Err(e) => Err(e),
                Ok(projection) => match number_read(
                    t.page_size,
                    labels.page_size,
                    DEFAULT_PAGE_SIZE,
                    1,
                ) {
                    Err(e) => Err(e),
                    Ok(page_size) => match number_read(t.skip, labels.skip, DEFAULT_SKIP, 0) {
                        Err(e) => Err(e),
                        Ok(skip_base) => Ok(
                            QueryView { filter, sort, projection, page_size, skip_base },
                        ),
                    },
                },
            },
        },
    }
}

/// The query of all documents, by the default page.
pub open spec fn default_query() -> QueryView {
    QueryView {
        filter: None,
        sort: None,
        projection: None,
        page_size: DEFAULT_PAGE_SIZE,
        skip_base: DEFAULT_SKIP,
    }
}

/// Where the numbers in the texts stand for a page size and a number of
/// documents to leave out, the start of the page is a number of 64 bits.
pub open spec fn texts_fit(t: TextsView, page_index: i64) -> bool {
    match (
        number_read(t.page_size, Seq::empty(), DEFAULT_PAGE_SIZE, 1),
        number_read(t.skip, Seq::empty(), DEFAULT_SKIP, 0),
    ) {
        (Ok(page_size), Ok(skip_base)) => page_start_fits(skip_base, page_size, page_index),
        _ => true,
    }
}

/// How many documents come before a page, where that is a number of 64 bits.
pub fn start_of_page(skip_base: i64, page_size: i64, page_index: i64) -> (r: Option<i64>)
    ensures
        match r {
            Some(n) => page_start_fits(skip_base, page_size, page_index) && n == page_start(
                skip_base,
                page_size,
                page_index,
            ),
            None => !page_start_fits(skip_base, page_size, page_index),
        },
{
    match page_index.checked_mul(page_size) {
        Some(before) => skip_base.checked_add(before),
        None => None,
    }
}

/// Whether the start of the page is a number of 64 bits where the texts stand
/// for numbers.
pub fn query_fits(texts: &QueryTexts, page_index: i64) -> (r: bool)
    ensures
        r == texts_fit(texts@, page_index),
{
    proof {
        reveal_strlit("");
        assert(""@ =~= Seq::<char>::empty());
    }
    let page_size = parse_i64_input(texts.page_size.as_str(), "", DEFAULT_PAGE_SIZE, 1);
    let skip_base = parse_i64_input(texts.skip.as_str(), "", DEFAULT_SKIP, 0);
    match (page_size, skip_base) {
        (Ok(size), Ok(base)) => start_of_page(base, size, page_index).is_some(),
        _ => true,
    }
}

impl QueryInputs {
    /// The mathematical value of the query.
    pub open spec fn view(&self) -> QueryView {
        QueryView {
            filter: opt_document_view(self.filter),
            sort: opt_document_view(self.sort),
            projection: opt_document_view(self.projection),
            page_size: self.page_size,
            skip_base: self.skip_base,
        }
    }

    /// How many documents come before the page.
    pub fn skip(&self, page_index: i64) -> (r: i64)
        requires
            page_start_fits(self.skip_base, self.page_size, page_index),
        ensures
            r == page_start(self.skip_base, self.page_size, page_index),
    {
        self.skip_base + page_index * self.page_size
    }
}

/// Reads the query that the texts stand for.
pub fn read_query_inputs(texts: &QueryTexts, labels: &QueryLabels) -> (r: Result<
    QueryInputs,
    InputError,
>)
    ensures
        match r {
            Ok(q) => query_read(texts@, labels@) == Ok::<QueryView, InputErrorView>(q@),
            Err(e) => query_read(texts@, labels@) == Err::<QueryView, InputErrorView>(e@),
        },
{
    let filter = match parse_optional_document(texts.filter.as_str(), labels.filter.as_str()) {
        Ok(v) => v,
        Err(e) => return Err(e),
    };
    let sort = match parse_optional_document(texts.sort.as_str(), labels.sort.as_str()) {
        Ok(v) => v,
        Err(e) => return Err(e),
    };
    let projection = match parse_optional_document(
        texts.projection.as_str(),
        labels.projection.as_str(),
    ) {
        Ok(v) => v,
        Err(e) => return Err(e),
    };
    let page_size: i64 = match parse_i64_input(
        texts.page_size.as_str(),
        labels.page_size.as_str(),
        DEFAULT_PAGE_SIZE,
        1,
    ) {
        Ok(v) => v,
        Err(e) => return Err(e),
    };
    let skip_base: i64 = match parse_i64_input(
        texts.skip.as_str(),
        labels.skip.as_str(),
        DEFAULT_SKIP,
        0,
    ) {
        Ok(v) => v,
        Err(e) => return Err(e),
    };
    Ok(QueryInputs { filter, sort, projection, page_size, skip_base })
}

/// Reads the query that the texts stand for; where they stand for none, that
/// of all documents.
pub fn read_query_inputs_or_default(texts: &QueryTexts, labels: &QueryLabels) -> (r: QueryInputs)
    ensures
        r@ == (match query_read(texts@, labels@) {
            Ok(q) => q,
            Err(_) => default_query(),
        }),
{
    match read_query_inputs(texts, labels) {
        Ok(q) => q,
        Err(_) => QueryInputs {
            filter: None,
            sort: None,
            projection: None,
            page_size: DEFAULT_PAGE_SIZE,
            skip_base: DEFAULT_SKIP,
        },
    }
}

/// Which documents are fetched, and how.
#[derive(Debug)]
pub struct FindPlan {
    pub limit: Option<i64>,
    pub skip: Option<u64>,
    pub sort: Option<Document>,
    pub projection: Option<Document>,
}

/// The mathematical value of a [`FindPlan`].
pub ghost struct PlanView {
    pub limit: Option<i64>,
    pub skip: Option<u64>,
    pub sort: Option<Seq<(Seq<char>, BsonView)>>,
    pub projection: Option<Seq<(Seq<char>, BsonView)>>,
}

impl FindPlan {
    /// The mathematical value of the plan.
    pub open spec fn view(&self) -> PlanView {
        PlanView {
            limit: self.limit,
            skip: self.skip,
            sort: opt_document_view(self.sort),
            projection: opt_document_view(self.projection),
        }
    }
}

/// The page of a query that starts after `skip` documents.
pub open spec fn plan_of(q: QueryView, skip: int) -> PlanView {
    PlanView {
        limit: Some(q.page_size),
        skip: if skip > 0 {
            Some(skip as u64)
        } else {
            None
        },
        sort: q.sort,
        projection: q.projection,
    }
}

/// A copy of an optional document.
pub fn copy_opt_document(d: &Option<Document>) -> (r: Option<Document>)
    ensures
        opt_document_view(r) == opt_document_view(*d),
{
    match d {
        Some(d) => Some(bson_ext::copy_document(d)),
        None => None,
    }
}

/// How the page of a query that starts after `skip` documents is fetched.
pub fn build_find_options(inputs: &QueryInputs, skip: i64) -> (r: FindPlan)
    ensures
        r@ == plan_of(inputs@, skip as int),
{
    FindPlan {
        limit: Some(inputs.page_size),
        skip: if skip > 0 {
            Some(skip as u64)
        } else {
            None
        },
        sort: copy_opt_document(&inputs.sort),
        projection: copy_opt_document(&inputs.projection),
    }
}

// ---------------------------------------------------------------------------
// Texts of queries
// ---------------------------------------------------------------------------

/// The extended JSON of a document on one line, or why there is none.
pub open spec fn compact_text(d: Seq<(Seq<char>, BsonView)>) -> Result<Seq<char>, Seq<char>> {
    bson_ext::json_text(bson_ext::relaxed_json(BsonView::Document(d)))
}

/// The extended JSON of a document on one line.
pub fn document_to_compact_json(document: &Document) -> (r: Result<String, MongoError>)
    ensures
        match compact_text(bson_ext::document_view(*document)) {
            Ok(s) => r matches Ok(t) && t@ == s,
            Err(why) => r matches Err(e) && mongo_types::is_unwritable(e, why),
        },
{
    mongo_types::bson_to_compact_json(&bson_ext::bson_document(bson_ext::copy_document(document)))
}

/// A query in the language of the shell, from the texts of its documents.
pub open spec fn code_text(
    collection: Seq<char>,
    filter: Seq<char>,
    projection: Option<Seq<char>>,
    sort: Option<Seq<char>>,
    skip: i64,
    page_size: i64,
) -> Seq<char> {
    "db."@ + collection + ".find("@ + filter + (match projection {
        Some(p) => ", "@ + p + ")"@,
        None => ")"@,
    }) + (match sort {
        Some(s) => ".sort("@ + s + ")"@,
        None => Seq::empty(),
    }) + (if skip > 0 {
        ".skip("@ + text::signed_decimal(skip as int) + ")"@
    } else {
        Seq::empty()
    }) + ".limit("@ + text::signed_decimal(page_size as int) + ")"@
}

/// The text of an optional document on one line.
pub open spec fn opt_compact_text(d: Option<Seq<(Seq<char>, BsonView)>>) -> Result<
    Option<Seq<char>>,
    Seq<char>,
> {
    match d {
        None => Ok(None),
        Some(d) => match compact_text(d) {
            Ok(s) => Ok(Some(s)),
            Err(e) => Err(e),
        },
    }
}

/// A query in the language of the shell, or why one of its documents has no
/// text: the filter is asked first, then the projection and the order.
pub open spec fn query_code(collection: Seq<char>, q: QueryView, skip: i64) -> Result<
    Seq<char>,
    Seq<char>,
> {
    match opt_compact_text(q.filter) {
        Err(e) => Err(e),
        Ok(filter) => match opt_compact_text(q.projection) {
            Err(e) => Err(e),
            Ok(projection) => match opt_compact_text(q.sort) {
                Err(e) => Err(e),
                Ok(sort) => Ok(
                    code_text(
                        collection,
                        match filter {
                            Some(f) => f,
                            None => "{}"@,
                        },
                        projection,
                        sort,
                        skip,
                        q.page_size,
                    ),
                ),
            },
        },
    }
}

/// A query in the language of the shell, from the texts of its documents.
pub fn compose_query_code(
    collection_name: &str,
    filter: &str,
    projection: &Option<String>,
    sort: &Option<String>,
    skip: i64,
    page_size: i64,
) -> (r: String)
    ensures
        r@ == code_text(
            collection_name@,
            filter@,
            text::opt_view(*projection),
            text::opt_view(*sort),
            skip,
            page_size,
        ),
{
    let mut code = "db.".to_owned();
    code.append(collection_name);
    code.append(".find(");
    code.append(filter);
    let ghost head = code@;
    let mut tail = String::new();
    match projection {
        Some(p) => {
            tail.append(", ");
            tail.append(p.as_str());
            tail.append(")");
            assert(tail@ =~= ", "@ + p@ + ")"@);
        },
        None => {
            tail.append(")");
            assert(tail@ =~= ")"@);
        },
    }
    code.append(tail.as_str());
    let mut order = String::new();
    if let Some(s) = sort {
        order.append(".sort(");
        order.append(s.as_str());
        order.append(")");
        assert(order@ =~= ".sort("@ + s@ + ")"@);
    }
    code.append(order.as_str());
    let mut rest = String::new();
    if skip > 0 {
        rest.append(".skip(");
        rest.append(text::signed_number(skip).as_str());
        rest.append(")");
        assert(rest@ =~= ".skip("@ + text::signed_decimal(skip as int) + ")"@);
    }
    code.append(rest.as_str());
    code.append(".limit(");
    code.append(text::signed_number(page_size).as_str());
    code.append(")");
    code
}

/// The text of an optional document on one line.
fn opt_document_text(d: &Option<Document>) -> (r: Result<Option<String>, MongoError>)
    ensures
        match opt_compact_text(opt_document_view(*d)) {
            Ok(s) => r matches Ok(t) && text::opt_view(t) == s,
            Err(why) => r matches Err(e) && mongo_types::is_unwritable(e, why),
        },
{
    match d {
        None => Ok(None),
        Some(d) => match document_to_compact_json(d) {
            Ok(s) => Ok(Some(s)),
            Err(e) => Err(e),
        },
    }
}

/// A query in the language of the shell.
pub fn build_query_code(collection_name: &str, inputs: &QueryInputs, skip: i64) -> (r: Result<
    String,
    MongoError,
>)
    ensures
        match query_code(collection_name@, inputs@, skip) {
            Ok(s) => r matches Ok(t) && t@ == s,
            Err(why) => r matches Err(e) && mongo_types::is_unwritable(e, why),
        },
{
    let filter = match opt_document_text(&inputs.filter) {
        Err(e) => return Err(e),
        Ok(Some(f)) => f,
        Ok(None) => "{}".to_owned(),
    };
    let projection = match opt_document_text(&inputs.projection) {
        Err(e) => return Err(e),
        Ok(p) => p,
    };
    let sort = match opt_document_text(&inputs.sort) {
        Err(e) => return Err(e),
        Ok(s) => s,
    };
    Ok(
        compose_query_code(
            collection_name,
            filter.as_str(),
            &projection,
            &sort,
            skip,
            inputs.page_size,
        ),
    )
}

// ---------------------------------------------------------------------------
// Laws
// ---------------------------------------------------------------------------

/// A query that could be read has pages of at least one document and leaves
/// out no negative number of them; what the inputs are called does not matter.
pub proof fn law_query_numbers(t: TextsView, labels: TextsView, page_index: i64)
    ensures
        query_read(t, labels) matches Ok(q) ==> q.page_size >= 1 && q.skip_base >= 0 && (texts_fit(
            t,
            page_index,
        ) ==> page_start_fits(q.skip_base, q.page_size, page_index)),
{
}

/// The texts that the inputs start with stand for the query of all documents.
pub proof fn law_initial_query(labels: TextsView)
    ensures
        query_read(initial_texts(), labels) == Ok::<QueryView, InputErrorView>(default_query()),
{
    assert(text::trimmed(Seq::<char>::empty()).len() == 0) by {
        reveal_with_fuel(text::trim_front, 2);
        reveal_with_fuel(text::trim_back, 2);
    }
    reveal_with_fuel(text::decimal, 3);
    let five_and_twenty = text::signed_decimal(25);
    assert(five_and_twenty =~= seq!['2', '5']);
    assert(text::signed_decimal(0) =~= seq!['0']);
    lemma_digits_are_trimmed(25);
    lemma_digits_are_trimmed(0);
    text::law_number_reads_back(25);
    text::law_number_reads_back(0);
}

proof fn lemma_digits_are_trimmed(n: nat)
    ensures
        text::trimmed(text::decimal(n)) == text::decimal(n),
        text::decimal(n).len() > 0,
{
    text::lemma_digits_of_decimal(n);
    let d = text::decimal(n);
    assert('0' <= d[0] <= '9');
    assert('0' <= d[d.len() - 1] <= '9');
    reveal_with_fuel(text::trim_front, 2);
    reveal_with_fuel(text::trim_back, 2);
}

/// Pages follow each other without a gap and without overlap: the start of
/// the next page is the end of this one.
pub proof fn law_pages_follow(skip_base: i64, page_size: i64, page_index: i64)
    requires
        page_index < i64::MAX,
    ensures
        page_start(skip_base, page_size, 0) == skip_base,
        page_start(skip_base, page_size, (page_index + 1) as i64) == page_start(
            skip_base,
            page_size,
            page_index,
        ) + page_size,
{
    assert((page_index + 1) * page_size == page_index * page_size + page_size) by (nonlinear_arith);
}

/// A pipeline that could be read has one stage per item of the text.
pub proof fn law_pipeline_keeps_items(items: Seq<JsonView>)
    ensures
        stages_of(items) matches Ok(stages) ==> stages.len() == items.len() && forall|i: int|
            0 <= i < items.len() ==> bson_ext::bson_of_json(#[trigger] items[i]) == Ok::<
                BsonView,
                Seq<char>,
            >(BsonView::Document(stages[i])),
    decreases items.len(),
{
    if items.len() > 0 {
        law_pipeline_keeps_items(items.drop_last());
        if stages_of(items) is Ok {
            let stages = stages_of(items)->Ok_0;
            let rest = stages_of(items.drop_last())->Ok_0;
            assert forall|i: int| 0 <= i < items.len() implies bson_ext::bson_of_json(
                #[trigger] items[i],
            ) == Ok::<BsonView, Seq<char>>(BsonView::Document(stages[i])) by {
                if i < items.len() - 1 {
                    assert(items.drop_last()[i] == items[i]);
                    assert(stages[i] == rest[i]);
                }
            }
        }
    }
}

} // verus!
