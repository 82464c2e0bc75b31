//! What the view of a collection asks for and reports: the requests to the
//! server, the notices, and what can fail.
use vstd::prelude::*;

use mongodb::bson::{Bson, Document};

use crate::bson_ext;
use crate::bson_ext::BsonView;
use crate::document_table::MongoDocumentFieldChange;
use crate::query_input;
use crate::query_input::{FindPlan, InputError, InputErrorView, PlanView};
use crate::text;

verus! {

/// What the editor beside the table does.
#[derive(Clone, Copy, Debug, PartialEq, Eq, Structural)]
pub enum EditorMode {
    View,
    Create,
    Update,
    FieldUpdate,
}

/// Why something could not be done. An input error reads `Invalid filter: `
/// and what is wrong with the input; a reply is shown as it is.
#[derive(Debug)]
pub enum Failure {
    Input(InputError),
    Reply(String),
    SaveOrRevertChangesFirst,
    IdRequiredForUpdate,
    IdRequiredForDelete,
    IndexNameRequired,
    NothingToExport,
}

/// The mathematical value of a [`Failure`].
pub ghost enum FailureView {
    Input(InputErrorView),
    Reply(Seq<char>),
    SaveOrRevertChangesFirst,
    IdRequiredForUpdate,
    IdRequiredForDelete,
    IndexNameRequired,
    NothingToExport,
}

/// What was done.
#[derive(Clone, Copy, Debug, PartialEq, Eq, Structural)]
pub enum Success {
    DocumentCreated,
    DocumentUpdated,
    FieldUpdated,
    OperationDone,
    DocumentDeleted,
    DocumentCopied,
    TableChangesSaved(usize),
    IndexCreated,
    IndexDeleted,
    ValidationUpdated,
    ValidationCleared,
}

/// The collection that is shown.
#[derive(Debug)]
pub struct Target {
    pub connection_id: String,
    pub database_name: String,
    pub collection_name: String,
}

/// The mathematical value of a [`Target`].
pub ghost struct TargetView {
    pub connection_id: Seq<char>,
    pub database_name: Seq<char>,
    pub collection_name: Seq<char>,
}

/// What saving the editor comes to.
#[derive(Debug)]
pub enum EditWork {
    Idle,
    Insert(Document),
    Replace { id: Bson, document: Document },
    SetFields { id: Bson, fields: Document },
}

/// The mathematical value of an [`EditWork`].
pub ghost enum WorkView {
    Idle,
    Insert(Seq<(Seq<char>, BsonView)>),
    Replace { id: BsonView, document: Seq<(Seq<char>, BsonView)> },
    SetFields { id: BsonView, fields: Seq<(Seq<char>, BsonView)> },
}

/// The fields to be set in one document.
pub ghost struct UpdateView {
    pub row: usize,
    pub id: BsonView,
    pub fields: Seq<(Seq<char>, BsonView)>,
}

/// What is asked of the server.
#[allow(inconsistent_fields)]
#[derive(Debug)]
pub enum Request {
    Find { filter: Option<Document>, plan: FindPlan },
    Explain { filter: Option<Document>, plan: FindPlan },
    Aggregate { pipeline: Vec<Document> },
    Sample { limit: i64 },
    ListIndexes,
    CreateIndex { keys: Document, name: Option<String> },
    DropIndex { name: String },
    GetValidation,
    SetValidation { validator: Option<Document>, clear: bool },
    Edit { work: EditWork, done: Success },
    SaveChanges { changes: Vec<MongoDocumentFieldChange>, count: usize },
    Delete { id: Bson },
}

/// The mathematical value of a [`Request`].
#[allow(inconsistent_fields)]
pub ghost enum RequestView {
    Find { filter: Option<Seq<(Seq<char>, BsonView)>>, plan: PlanView },
    Explain { filter: Option<Seq<(Seq<char>, BsonView)>>, plan: PlanView },
    Aggregate { pipeline: Seq<Seq<(Seq<char>, BsonView)>> },
    Sample { limit: i64 },
    ListIndexes,
    CreateIndex { keys: Seq<(Seq<char>, BsonView)>, name: Option<Seq<char>> },
    DropIndex { name: Seq<char> },
    GetValidation,
    SetValidation { validator: Option<Seq<(Seq<char>, BsonView)>>, clear: bool },
    Edit { work: WorkView, done: Success },
    SaveChanges { changes: Seq<UpdateView>, count: int },
    Delete { id: BsonView },
}

/// What is shown for the user to take away.
#[derive(Clone, Copy, Debug, PartialEq, Eq, Structural)]
pub enum ExportKind {
    Data,
    Code,
    Aggregation,
}

/// What follows from an operation outside the view.
#[derive(Debug)]
pub enum Effect {
    NotifyError(Failure),
    NotifySuccess(Success),
    Send { target: Target, request: Request },
    Copy(String),
    Export { kind: ExportKind, content: String },
}

/// The mathematical value of an [`Effect`].
pub ghost enum EffectView {
    NotifyError(FailureView),
    NotifySuccess(Success),
    Send { target: TargetView, request: RequestView },
    Copy(Seq<char>),
    Export { kind: ExportKind, content: Seq<char> },
}

impl Failure {
    /// The mathematical value of the failure.
    pub open spec fn view(&self) -> FailureView {
        match *self {
            Failure::Input(e) => FailureView::Input(e@),
            Failure::Reply(s) => FailureView::Reply(s@),
            Failure::SaveOrRevertChangesFirst => FailureView::SaveOrRevertChangesFirst,
            Failure::IdRequiredForUpdate => FailureView::IdRequiredForUpdate,
            Failure::IdRequiredForDelete => FailureView::IdRequiredForDelete,
            Failure::IndexNameRequired => FailureView::IndexNameRequired,
            Failure::NothingToExport => FailureView::NothingToExport,
        }
    }

    /// A failure with the same value.
    pub fn copy(&self) -> (r: Failure)
        ensures
            r@ == self@,
    {
        match self {
            Failure::Input(e) => Failure::Input(copy_input_error(e)),
            Failure::Reply(s) => Failure::Reply(s.clone()),
            Failure::SaveOrRevertChangesFirst => Failure::SaveOrRevertChangesFirst,
            Failure::IdRequiredForUpdate => Failure::IdRequiredForUpdate,
            Failure::IdRequiredForDelete => Failure::IdRequiredForDelete,
            Failure::IndexNameRequired => Failure::IndexNameRequired,
            Failure::NothingToExport => Failure::NothingToExport,
        }
    }
}

/// An error with the same value.
fn copy_input_error(e: &InputError) -> (r: InputError)
    ensures
        r@ == e@,
{
    match e {
        InputError::Required { label } => InputError::Required { label: label.clone() },
        InputError::MustBeJsonObject { label } => InputError::MustBeJsonObject {
            label: label.clone(),
        },
        InputError::ParseFailed { label, error } => InputError::ParseFailed {
            label: label.clone(),
            error: error.clone(),
        },
        InputError::MustBeMinInt { label, min } => InputError::MustBeMinInt {
            label: label.clone(),
            min: *min,
        },
        InputError::PipelineParseFailed { error } => InputError::PipelineParseFailed {
            error: error.clone(),
        },
        InputError::PipelineMustBeArray => InputError::PipelineMustBeArray,
        InputError::PipelineItemParseFailed { index, error } => {
            InputError::PipelineItemParseFailed { index: *index, error: error.clone() }
        },
        InputError::PipelineItemMustBeObject { index } => InputError::PipelineItemMustBeObject {
            index: *index,
        },
    }
}

impl Target {
    /// The mathematical value of the target.
    pub open spec fn view(&self) -> TargetView {
        TargetView {
            connection_id: self.connection_id@,
            database_name: self.database_name@,
            collection_name: self.collection_name@,
        }
    }
}

impl EditWork {
    /// The mathematical value of the work.
    pub open spec fn view(&self) -> WorkView {
        match *self {
            EditWork::Idle => WorkView::Idle,
            EditWork::Insert(d) => WorkView::Insert(bson_ext::document_view(d)),
            EditWork::Replace { id, document } => WorkView::Replace {
                id: bson_ext::bson_view(id),
                document: bson_ext::document_view(document),
            },
            EditWork::SetFields { id, fields } => WorkView::SetFields {
                id: bson_ext::bson_view(id),
                fields: bson_ext::document_view(fields),
            },
        }
    }
}

/// The mathematical values of a list of updates.
pub open spec fn update_views(v: Seq<MongoDocumentFieldChange>) -> Seq<UpdateView> {
    Seq::new(
        v.len(),
        |i: int|
            UpdateView {
                row: v[i].row_index,
                id: bson_ext::bson_view(v[i].id),
                fields: bson_ext::document_view(v[i].set_fields),
            },
    )
}

impl Request {
    /// The mathematical value of the request.
    pub open spec fn view(&self) -> RequestView {
        match *self {
            Request::Find { filter, plan } => RequestView::Find {
                filter: query_input::opt_document_view(filter),
                plan: plan@,
            },
            Request::Explain { filter, plan } => RequestView::Explain {
                filter: query_input::opt_document_view(filter),
                plan: plan@,
            },
            Request::Aggregate { pipeline } => RequestView::Aggregate {
                pipeline: bson_ext::document_views(pipeline@),
            },
            Request::Sample { limit } => RequestView::Sample { limit },
            Request::ListIndexes => RequestView::ListIndexes,
            Request::CreateIndex { keys, name } => RequestView::CreateIndex {
                keys: bson_ext::document_view(keys),
                name: text::opt_view(name),
            },
            Request::DropIndex { name } => RequestView::DropIndex { name: name@ },
            Request::GetValidation => RequestView::GetValidation,
            Request::SetValidation { validator, clear } => RequestView::SetValidation {
                validator: query_input::opt_document_view(validator),
                clear,
            },
            Request::Edit { work, done } => RequestView::Edit { work: work@, done },
            Request::SaveChanges { changes, count } => RequestView::SaveChanges {
                changes: update_views(changes@),
                count: count as int,
            },
            Request::Delete { id } => RequestView::Delete { id: bson_ext::bson_view(id) },
        }
    }
}

impl Effect {
    /// The mathematical value of the effect.
    pub open spec fn view(&self) -> EffectView {
        match *self {
            Effect::NotifyError(f) => EffectView::NotifyError(f@),
            Effect::NotifySuccess(s) => EffectView::NotifySuccess(s),
            Effect::Send { target, request } => EffectView::Send {
                target: target@,
                request: request@,
            },
            Effect::Copy(s) => EffectView::Copy(s@),
            Effect::Export { kind, content } => EffectView::Export { kind, content: content@ },
        }
    }
}

/// The mathematical values of a list of effects.
pub open spec fn effect_views(v: Seq<Effect>) -> Seq<EffectView> {
    Seq::new(v.len(), |i: int| v[i]@)
}

/// No effects.
pub(crate) fn no_effects() -> (r: Vec<Effect>)
    ensures
        effect_views(r@) == Seq::<EffectView>::empty(),
{
    let r: Vec<Effect> = Vec::new();
    assert(effect_views(r@) =~= Seq::<EffectView>::empty());
    r
}

/// One effect.
pub(crate) fn one_effect(e: Effect) -> (r: Vec<Effect>)
    ensures
        effect_views(r@) == seq![e@],
{
    let mut r: Vec<Effect> = Vec::new();
    r.push(e);
    assert(effect_views(r@) =~= seq![e@]);
    r
}

/// An effect, and then others.
pub(crate) fn effect_before(e: Effect, rest: Vec<Effect>) -> (r: Vec<Effect>)
    ensures
        effect_views(r@) == seq![e@] + effect_views(rest@),
{
    let mut r: Vec<Effect> = Vec::new();
    r.push(e);
    let mut tail = rest;
    r.append(&mut tail);
    assert(effect_views(r@) =~= seq![e@] + effect_views(rest@));
    r
}

} // verus!
