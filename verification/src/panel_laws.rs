//! What the panels of a collection show, what a summary of documents says, and
//! how values of the program stand for what the laws speak of.
use vstd::prelude::*;

use mongodb::bson::{Bson, Document};

use crate::bson_ext;
use crate::bson_ext::{BsonView, JsonView};
use crate::collection;
use crate::collection::TableEvent;
use crate::collection_model;
use crate::collection_model::{Collection, Step};
use crate::collection_panels;
use crate::collection_panels::{DetailBody, DetailButtons, DocumentsBody, ShownTab, TitleView};
use crate::collection_types::{
    EditWork, EditorMode, Effect, EffectView, Failure, FailureView, Request, RequestView, Target,
    WorkView,
};
use crate::document_table;
use crate::document_table::{ChangeView, TableColumn, TableView};
use crate::mongo_types;
use crate::mongo_types::MongoError;
use crate::query_input;
use crate::query_input::{FindPlan, QueryInputs, TextsView};
use crate::schema;
use crate::schema::ItemView;
use crate::terminal;
use crate::terminal_types::TerminalEffect;
use crate::text;

verus! {

// ---------------------------------------------------------------------------
// Documents
// ---------------------------------------------------------------------------

/// A field has the value of the first pair with its key.
pub proof fn law_field(d: Seq<(Seq<char>, BsonView)>, key: Seq<char>, i: int)
    requires
        0 <= i <= d.len(),
        forall|j: int| 0 <= j < i ==> (#[trigger] d[j]).0 != key,
        i < d.len() ==> d[i].0 == key,
    ensures
        i < d.len() ==> bson_ext::field(d, key) == Some(d[i].1),
        i == d.len() ==> bson_ext::field(d, key) is None,
    decreases d.len(),
{
    if i > 0 {
        let rest = d.drop_first();
        assert(d[0].0 != key);
        assert forall|j: int| 0 <= j < i - 1 implies (#[trigger] rest[j]).0 != key by {
            assert(rest[j] == d[j + 1]);
        }
        if i < d.len() {
            assert(rest[i - 1] == d[i]);
        }
        law_field(rest, key, i - 1);
    }
}

/// A field that is set keeps its place where it is there, and stands last where
/// it is new; all other fields stay where they are.
pub proof fn law_field_keeps_place(
    a: Seq<(Seq<char>, BsonView)>,
    key: Seq<char>,
    old: BsonView,
    b: Seq<(Seq<char>, BsonView)>,
    value: BsonView,
)
    requires
        forall|i: int| 0 <= i < a.len() ==> (#[trigger] a[i]).0 != key,
        forall|i: int| 0 <= i < b.len() ==> (#[trigger] b[i]).0 != key,
    ensures
        bson_ext::with_field(a.push((key, old)) + b, key, value) == a.push((key, value)) + b,
        bson_ext::with_field(a + b, key, value) == (a + b).push((key, value)),
{
    let d = a.push((key, old)) + b;
    assert(bson_ext::keys(d)[a.len() as int] == key);
    assert(bson_ext::keys(d).contains(key));
    let w = bson_ext::with_field(d, key, value);
    assert forall|i: int| 0 <= i < d.len() implies w[i] == (a.push((key, value)) + b)[i] by {
        if i < a.len() {
            assert(d[i] == a[i]);
        } else if i > a.len() {
            assert(d[i] == b[i - a.len() - 1]);
        }
    }
    assert(w =~= a.push((key, value)) + b);
    let e = a + b;
    assert(!bson_ext::keys(e).contains(key)) by {
        if bson_ext::keys(e).contains(key) {
            let i = choose|i: int|
                0 <= i < bson_ext::keys(e).len() && bson_ext::keys(e)[i] == key;
            if i < a.len() {
                assert(e[i] == a[i]);
            } else {
                assert(e[i] == b[i - a.len()]);
            }
        }
    }
}

/// The keys of a document are those of its pairs, in their order.
pub proof fn law_keys(d: Seq<(Seq<char>, BsonView)>, i: int)
    ensures
        bson_ext::keys(d).len() == d.len(),
        0 <= i < d.len() ==> bson_ext::keys(d)[i] == d[i].0,
{
}

/// An error says what kind it is, and then what went wrong.
pub proof fn law_error_text(e: MongoError)
    ensures
        match e {
            MongoError::Connection { message, .. } => mongo_types::error_text(e)
                == "Connection error: "@ + message@,
            MongoError::Command { message, .. } => mongo_types::error_text(e) == "Command error: "@
                + message@,
            MongoError::Serialization(message) => mongo_types::error_text(e)
                == "Serialization error: "@ + message@,
            MongoError::InvalidFilter(message) => mongo_types::error_text(e) == "Invalid filter: "@
                + message@,
            MongoError::NotConnected => mongo_types::error_text(e) == "Not connected to MongoDB"@,
            MongoError::Internal(message) => mongo_types::error_text(e) == "Internal error: "@
                + message@,
        },
{
}

/// A refused input and a value that cannot be written are told as such, with
/// the reason.
pub proof fn law_error_kinds(e: MongoError, why: Seq<char>)
    ensures
        mongo_types::is_invalid(e, why) ==> mongo_types::error_text(e) == "Invalid filter: "@ + why
            && e is InvalidFilter,
        mongo_types::is_unwritable(e, why) ==> mongo_types::error_text(e) == "Serialization error: "@
            + why && e is Serialization,
{
}

// ---------------------------------------------------------------------------
// The list
// ---------------------------------------------------------------------------

/// A document is listed under its id where it has one, and under its place
/// otherwise, counting from one; its text is that of the document.
pub proof fn law_listed(
    documents: Seq<Seq<(Seq<char>, BsonView)>>,
    d: Seq<(Seq<char>, BsonView)>,
    shown: Seq<char>,
    items: Seq<ItemView>,
)
    requires
        schema::items_of(documents) == Ok::<_, Seq<char>>(items),
        bson_ext::json_pretty_text(bson_ext::relaxed_json(BsonView::Document(d))) == Ok::<
            _,
            Seq<char>,
        >(shown),
    ensures
        ({
            let all = schema::items_of(documents.push(d));
            let id = bson_ext::field(d, "_id"@);
            &&& all matches Ok(v) && v.len() == items.len() + 1 && v.drop_last() == items && v.last()
                == (ItemView {
                id: if id is Some {
                    mongo_types::plain_text(id->0)
                } else {
                    "#"@ + text::decimal(documents.len() + 1)
                },
                id_bson: id,
                document: d,
                pretty_json: shown,
            })
        }),
{
    assert(documents.push(d).drop_last() =~= documents);
}

/// A document that cannot be written keeps the list from being shown, with the
/// reason.
pub proof fn law_not_listed(
    documents: Seq<Seq<(Seq<char>, BsonView)>>,
    d: Seq<(Seq<char>, BsonView)>,
    why: Seq<char>,
)
    ensures
        schema::items_of(Seq::empty()) == Ok::<Seq<ItemView>, Seq<char>>(Seq::empty()),
        schema::items_of(documents) == Err::<Seq<ItemView>, _>(why) ==> schema::items_of(
            documents.push(d),
        ) == Err::<Seq<ItemView>, _>(why),
        schema::items_of(documents) is Ok && bson_ext::json_pretty_text(
            bson_ext::relaxed_json(BsonView::Document(d)),
        ) == Err::<Seq<char>, _>(why) ==> schema::items_of(documents.push(d)) == Err::<
            Seq<ItemView>,
            _,
        >(why),
{
    assert(documents.push(d).drop_last() =~= documents);
}

/// A list of documents is written as one array, in its order, and a document as
/// an object.
pub proof fn law_list_text(documents: Seq<Seq<(Seq<char>, BsonView)>>, values: Seq<BsonView>)
    requires
        values.len() == documents.len(),
        forall|i: int|
            0 <= i < values.len() ==> #[trigger] values[i] == BsonView::Document(documents[i]),
    ensures
        schema::list_text(documents) == bson_ext::json_pretty_text(
            bson_ext::relaxed_json(BsonView::Array(values)),
        ),
        documents.len() > 0 ==> schema::pretty_text(documents[0]) == bson_ext::json_pretty_text(
            bson_ext::relaxed_json(values[0]),
        ),
{
    assert(schema::as_values(documents) =~= values);
}

/// The documents of a list are those of its items.
pub proof fn law_item_documents(items: Seq<ItemView>, i: int)
    ensures
        schema::item_documents(items).len() == items.len(),
        0 <= i < items.len() ==> schema::item_documents(items)[i] == items[i].document,
{
}

// ---------------------------------------------------------------------------
// The summary of documents
// ---------------------------------------------------------------------------

/// The kind of a value has its name in the summary.
pub proof fn law_kind_names(v: BsonView)
    ensures
        match v {
            BsonView::Double(_) => schema::kind_of(v) == "double"@,
            BsonView::Text(_) => schema::kind_of(v) == "string"@,
            BsonView::Document(_) => schema::kind_of(v) == "document"@,
            BsonView::Array(_) => schema::kind_of(v) == "array"@,
            BsonView::ObjectId(_) => schema::kind_of(v) == "objectId"@,
            BsonView::Boolean(_) => schema::kind_of(v) == "bool"@,
            BsonView::DateTime(_) => schema::kind_of(v) == "date"@,
            BsonView::Null => schema::kind_of(v) == "null"@,
            BsonView::Int32(_) => schema::kind_of(v) == "int32"@,
            BsonView::Int64(_) => schema::kind_of(v) == "int64"@,
            BsonView::Other(tag, _) => {
                &&& tag == 5 ==> schema::kind_of(v) == "binary"@
                &&& tag == 6 ==> schema::kind_of(v) == "undefined"@
                &&& tag == 11 ==> schema::kind_of(v) == "regex"@
                &&& tag == 12 ==> schema::kind_of(v) == "dbPointer"@
                &&& tag == 13 ==> schema::kind_of(v) == "javascript"@
                &&& tag == 14 ==> schema::kind_of(v) == "symbol"@
                &&& tag == 15 ==> schema::kind_of(v) == "javascriptScope"@
                &&& tag == 17 ==> schema::kind_of(v) == "timestamp"@
                &&& tag == 19 ==> schema::kind_of(v) == "decimal128"@
                &&& tag == 127 ==> schema::kind_of(v) == "maxKey"@
                &&& tag == 255 ==> schema::kind_of(v) == "minKey"@
            },
        },
{
}

/// An example of a value is its text, or how it is written for a programmer
/// where it has none.
pub proof fn law_preview(v: BsonView)
    ensures
        bson_ext::serialised(v) matches Ok(s) ==> schema::preview(v) == s,
        bson_ext::serialised(v) is Err ==> schema::preview(v) == bson_ext::debug_text(v),
{
}

/// Distinct texts are listed once each, in the order in which they come first.
pub proof fn law_distinct(v: Seq<Seq<char>>, s: Seq<char>)
    ensures
        schema::distinct(Seq::empty()) == Seq::<Seq<char>>::empty(),
        v.contains(s) ==> schema::distinct(v.push(s)) == schema::distinct(v),
        !v.contains(s) ==> schema::distinct(v.push(s)) == schema::distinct(v).push(s),
{
    assert(v.push(s).drop_last() =~= v);
    schema::lemma_distinct(v);
}

/// A text is counted each time it occurs.
pub proof fn law_occurrences(v: Seq<Seq<char>>, s: Seq<char>, other: Seq<char>)
    requires
        other != s,
    ensures
        schema::occurrences(Seq::empty(), s) == 0,
        schema::occurrences(v.push(s), s) == schema::occurrences(v, s) + 1,
        schema::occurrences(v.push(other), s) == schema::occurrences(v, s),
{
    assert(v.push(s).drop_last() =~= v);
    assert(v.push(other).drop_last() =~= v);
}

/// The keys of documents are those of each in turn, and the values under a key
/// those of the documents that have it, in their order.
pub proof fn law_keys_and_values(
    documents: Seq<Seq<(Seq<char>, BsonView)>>,
    d: Seq<(Seq<char>, BsonView)>,
    key: Seq<char>,
)
    ensures
        schema::all_keys(Seq::empty()) == Seq::<Seq<char>>::empty(),
        schema::all_keys(documents.push(d)) == schema::all_keys(documents) + bson_ext::keys(d),
        schema::values_under(Seq::empty(), key) == Seq::<BsonView>::empty(),
        bson_ext::field(d, key) matches Some(v) ==> schema::values_under(documents.push(d), key)
            == schema::values_under(documents, key).push(v),
        bson_ext::field(d, key) is None ==> schema::values_under(documents.push(d), key)
            == schema::values_under(documents, key),
{
    assert(documents.push(d).drop_last() =~= documents);
}

/// A summary says how many documents it is of, and for each field, in the order
/// in which they come first, in how many documents it is, of what kinds its
/// values are and how often, and gives up to three of them.
pub proof fn law_summary(documents: Seq<Seq<(Seq<char>, BsonView)>>, i: int, k: int, e: int)
    requires
        0 <= i < schema::distinct(schema::all_keys(documents)).len(),
    ensures
        ({
            let names = schema::distinct(schema::all_keys(documents));
            let values = schema::values_under(documents, names[i]);
            let kinds = schema::distinct(schema::kinds_of(values));
            let number = |n: nat| JsonView::Number(text::decimal(n));
            &&& schema::schema_json(documents) matches JsonView::Object(top)
            &&& top.len() == 2
            &&& top[0] == ("samples"@, number(documents.len()))
            &&& top[1].0 == "fields"@
            &&& top[1].1 matches JsonView::Object(fields)
            &&& fields.len() == names.len()
            &&& fields[i].0 == names[i]
            &&& fields[i].1 matches JsonView::Object(of_field)
            &&& of_field.len() == 3
            &&& of_field[0] == ("count"@, number(values.len()))
            &&& of_field[1].0 == "types"@
            &&& of_field[1].1 matches JsonView::Object(types)
            &&& types.len() == kinds.len()
            &&& 0 <= k < kinds.len() ==> types[k] == (
                kinds[k],
                number(schema::occurrences(schema::kinds_of(values), kinds[k])),
            )
            &&& of_field[2].0 == "examples"@
            &&& of_field[2].1 matches JsonView::Array(examples)
            &&& examples.len() == (if values.len() < 3 {
                values.len()
            } else {
                3
            })
            &&& 0 <= e < examples.len() ==> examples[e] == JsonView::Text(
                schema::preview(values[e]),
            )
        }),
{
}

/// The kinds of values are those of each, in their order.
pub proof fn law_kinds(values: Seq<BsonView>, i: int)
    ensures
        schema::kinds_of(values).len() == values.len(),
        0 <= i < values.len() ==> schema::kinds_of(values)[i] == schema::kind_of(values[i]),
{
}

// ---------------------------------------------------------------------------
// Panels
// ---------------------------------------------------------------------------

/// The bar of pages shows which documents of how many stand on the page, and
/// which page of how many it is.
pub proof fn law_page_bar(s: Collection, labels: TextsView, q: query_input::QueryView)
    requires
        query_input::query_read(s.texts, labels) == Ok::<_, query_input::InputErrorView>(q),
        collection_panels::page_bar_fits(s, labels),
        s.page_index >= 0,
        q.skip_base >= 0,
        q.page_size >= 1,
    ensures
        ({
            let bar = collection_panels::page_bar(s, labels);
            let first = q.skip_base + s.page_index * q.page_size;
            &&& s.documents.len() > 0 ==> bar.start == first + 1
            &&& s.documents.len() == 0 ==> bar.start == 0
            &&& bar.end == first + s.documents.len()
            &&& bar.total == s.total_count
            &&& bar.can_prev <==> s.page_index > 0
            &&& s.total_count is None ==> (bar.can_next <==> s.documents.len() == q.page_size)
            &&& s.total_count matches Some(n) ==> n > q.skip_base ==> bar.page == s.page_index + 1
                && bar.pages >= 1 && (bar.pages - 1) * q.page_size < n - q.skip_base <= bar.pages
                * q.page_size
            &&& s.total_count matches Some(n) ==> n == q.skip_base ==> bar.page == 0 && bar.pages
                == 0 && !bar.can_next
        }),
{
    if let Some(n) = s.total_count {
        if n > q.skip_base {
            let size = q.page_size as int;
            let left = n - q.skip_base;
            crate::collection_laws::law_pages_cover(left, size);
            let pages = collection_panels::page_count(left, size);
            assert(pages <= left) by (nonlinear_arith)
                requires
                    (pages - 1) * size < left,
                    size >= 1,
                    pages >= 1,
            ;
        }
    }
}

/// The panel of the document says what it shows: the explanation, what is
/// edited, or the document that is selected, by its name.
pub proof fn law_detail_panel(s: Collection)
    ensures
        s.show_explain ==> collection_panels::detail_title(s) == TitleView::Explanation
            && collection_panels::detail_body(s) == DetailBody::Explanation,
        !s.show_explain && s.mode == EditorMode::Create ==> collection_panels::detail_title(s)
            == TitleView::NewDocument,
        !s.show_explain && s.mode == EditorMode::Update ==> collection_panels::detail_title(s)
            == TitleView::EditDocument,
        !s.show_explain && s.mode == EditorMode::FieldUpdate && s.editing_field is Some
            ==> collection_panels::detail_title(s) == TitleView::EditField((s.editing_field->0).0),
        !s.show_explain && s.mode == EditorMode::View && s.item(s.selected) is Some
            ==> collection_panels::detail_title(s) == TitleView::Document(
            (s.item(s.selected)->0).id,
        ),
        !s.show_explain && s.mode == EditorMode::View && s.item(s.selected) is None
            ==> collection_panels::detail_title(s) == TitleView::SelectDocument,
        !s.show_explain && s.mode != EditorMode::View ==> collection_panels::detail_body(s) == (
        DetailBody::Editor { enabled: true }),
        !s.show_explain && s.mode == EditorMode::View && s.selected is Some
            ==> collection_panels::detail_body(s) == (DetailBody::Editor { enabled: false }),
        !s.show_explain && s.mode == EditorMode::View && s.selected is None
            ==> collection_panels::detail_body(s) == DetailBody::SelectDocument,
        s.mode != EditorMode::View ==> collection_panels::detail_buttons(s)
            == DetailButtons::SaveAndCancel,
        s.mode == EditorMode::View ==> collection_panels::detail_buttons(s) == (
        DetailButtons::Copy { enabled: s.selected is Some }),
{
}

/// Where the documents stand, loading is shown first, then an error, then that
/// there are none.
pub proof fn law_documents_body(s: Collection)
    ensures
        s.is_loading ==> collection_panels::documents_body(s) == DocumentsBody::Loading,
        !s.is_loading && s.error is Some ==> collection_panels::documents_body(s)
            == DocumentsBody::Error,
        !s.is_loading && s.error is None && s.documents.len() == 0
            ==> collection_panels::documents_body(s) == DocumentsBody::Empty,
        !s.is_loading && s.error is None && s.documents.len() > 0
            ==> collection_panels::documents_body(s) == DocumentsBody::Table,
{
}

/// Nothing can be done while the view is loading; what needs a selection needs
/// one, and what needs edits needs some.
pub proof fn law_action_bar(s: Collection)
    ensures
        ({
            let bar = collection_panels::action_bar(s);
            &&& bar.query == !s.is_loading && bar.add == !s.is_loading && bar.export
                == !s.is_loading
            &&& bar.update <==> !s.is_loading && s.selected is Some
            &&& bar.delete <==> !s.is_loading && s.selected is Some
            &&& bar.save_changes <==> !s.is_loading && s.table.changes.len() > 0
            &&& bar.revert_changes <==> !s.is_loading && s.table.changes.len() > 0
        }),
{
}

/// Each tab shows its own panel, and without a collection none does.
pub proof fn law_shown_tab(s: Collection)
    ensures
        s.collection_name is None ==> collection_panels::shown_tab(s) == ShownTab::SelectCollection,
        s.collection_name is Some ==> collection_panels::shown_tab(s) == (if s.active_tab == 1 {
            ShownTab::Aggregations
        } else if s.active_tab == 2 {
            ShownTab::Schema
        } else if s.active_tab == 3 {
            ShownTab::Indexes
        } else if s.active_tab == 4 {
            ShownTab::Validation
        } else {
            ShownTab::Documents
        }),
{
}

/// A click in the table selects the document, an edit is taken over, and a
/// double click edits a field beside the table.
pub proof fn law_table_events(s: Collection, row: usize, col: usize)
    ensures
        collection::table_event(s, TableEvent::SelectCell(row, col)).state
            == collection_model::document_selected(s, row),
        collection::table_event(s, TableEvent::SelectCell(row, col)).effects.len() == 0,
        collection::table_event(s, TableEvent::SelectRow(row)).state
            == collection_model::document_selected(s, row),
        collection::table_event(s, TableEvent::SelectRow(row)).effects.len() == 0,
        collection::table_event(s, TableEvent::CellEdited(row, col))
            == collection_model::cell_edited(s, row),
        collection::table_event(s, TableEvent::DoubleClickedCell(row, col))
            == collection_model::field_update_started(s, row, col),
        collection::table_event(s, TableEvent::Other).state == s,
        collection::table_event(s, TableEvent::Other).effects.len() == 0,
{
}

// ---------------------------------------------------------------------------
// The table
// ---------------------------------------------------------------------------

/// A column bears the name of its field; that of the id is wider and stays in
/// sight.
pub proof fn law_column(name: Seq<char>, c: TableColumn)
    requires
        document_table::is_column(name, c),
    ensures
        c.key@ == name,
        c.title@ == name,
        name == "_id"@ ==> c.width == 220 && c.fixed_left,
        name != "_id"@ ==> c.width == 160 && !c.fixed_left,
{
}

/// A new table shows the documents as they are, can be edited, and has no edits.
pub proof fn law_new_table(documents: Seq<Seq<(Seq<char>, BsonView)>>)
    ensures
        ({
            let t = document_table::fresh_table(documents);
            &&& t.documents == documents && t.originals == documents
            &&& t.columns == document_table::columns_of(documents)
            &&& t.changes.len() == 0 && t.modified == Set::<(usize, usize)>::empty()
            &&& t.editable && !t.loading
        }),
{
}

/// Giving the edits up shows the documents as they came; all else stays.
pub proof fn law_reverted(t: TableView)
    ensures
        t.reverted().documents == t.originals,
        t.reverted().originals == t.originals,
        t.reverted().changes.len() == 0,
        t.reverted().modified == Set::<(usize, usize)>::empty(),
        t.reverted().columns == t.columns && t.reverted().editable == t.editable
            && t.reverted().loading == t.loading,
{
}

/// Edits are made one after the other.
pub proof fn law_edits_in_turn(
    t: TableView,
    edits: Seq<(usize, usize, Seq<char>)>,
    row: usize,
    col: usize,
    input: Seq<char>,
)
    ensures
        t.edited_all(Seq::empty()) == t,
        !t.takes_any(Seq::empty()),
        t.edited_all(edits.push((row, col, input))) == t.edited_all(edits).edited_at(
            row,
            col,
            input,
        ),
        t.takes_any(edits.push((row, col, input))) <==> t.takes_any(edits) || t.edited_all(
            edits,
        ).takes_edit(row, col, input),
        col < t.columns.len() ==> t.edited_at(row, col, input) == t.edited(
            row,
            t.columns[col as int],
            input,
        ),
        col >= t.columns.len() ==> t.edited_at(row, col, input) == t && !t.takes_edit(
            row,
            col,
            input,
        ),
{
    assert(edits.push((row, col, input)).drop_last() =~= edits);
}

/// An edit that is noted replaces the one of its cell and leaves all others.
pub proof fn law_change_put(
    changes: Seq<ChangeView>,
    c: ChangeView,
    row: usize,
    field: Seq<char>,
)
    requires
        row != c.row || field != c.field,
    ensures
        document_table::change_at(document_table::change_put(changes, c), c.row, c.field) == Some(
            c,
        ),
        document_table::change_at(document_table::change_put(changes, c), row, field)
            == document_table::change_at(changes, row, field),
    decreases changes.len(),
{
    reveal_with_fuel(document_table::change_at, 2);
    if changes.len() > 0 {
        let rest = changes.drop_last();
        let last = changes.last();
        let all = document_table::change_put(changes, c);
        if document_table::is_at(last, c.row, c.field) {
            assert(all.drop_last() =~= rest);
        } else if document_table::stands_before(c.row, c.field, last) {
            law_change_put(rest, c, row, field);
            assert(all.drop_last() =~= document_table::change_put(rest, c));
        } else {
            assert(all.drop_last() =~= changes);
        }
    } else {
        assert(seq![c].drop_last() =~= Seq::<ChangeView>::empty());
    }
}

/// An edit that is dropped is gone, and all others stay.
pub proof fn law_change_dropped(
    changes: Seq<ChangeView>,
    row: usize,
    field: Seq<char>,
    other_row: usize,
    other: Seq<char>,
)
    requires
        other_row != row || other != field,
    ensures
        document_table::change_at(
            document_table::change_dropped(changes, row, field),
            row,
            field,
        ) is None,
        document_table::change_at(
            document_table::change_dropped(changes, row, field),
            other_row,
            other,
        ) == document_table::change_at(changes, other_row, other),
    decreases changes.len(),
{
    if changes.len() > 0 {
        let rest = changes.drop_last();
        law_change_dropped(rest, row, field, other_row, other);
        let less = document_table::change_dropped(rest, row, field);
        assert(less.push(changes.last()).drop_last() =~= less);
    }
}

/// An edit is found by its row and field: the last that was noted there.
pub proof fn law_change_at(changes: Seq<ChangeView>, c: ChangeView, row: usize, field: Seq<char>)
    ensures
        document_table::change_at(Seq::empty(), row, field) is None,
        c.row == row && c.field == field ==> document_table::change_at(
            changes.push(c),
            row,
            field,
        ) == Some(c),
        c.row != row || c.field != field ==> document_table::change_at(changes.push(c), row, field)
            == document_table::change_at(changes, row, field),
{
    assert(changes.push(c).drop_last() =~= changes);
}

// ---------------------------------------------------------------------------
// Values of the program
// ---------------------------------------------------------------------------

/// The state and the effects of an operation are those of its step, one for
/// one.
pub proof fn law_step_is_made(state: Collection, effects: Seq<Effect>, step: Step, i: int)
    requires
        collection::makes(state, effects, step),
    ensures
        state == step.state,
        effects.len() == step.effects.len(),
        0 <= i < effects.len() ==> effects[i]@ == step.effects[i],
{
}

/// The same holds of a terminal.
pub proof fn law_terminal_step_is_made(
    state: terminal::TerminalView,
    effects: Seq<TerminalEffect>,
    step: terminal::Step,
    i: int,
)
    requires
        terminal::makes(state, effects, step),
    ensures
        state == step.state,
        effects.len() == step.effects.len(),
        0 <= i < effects.len() ==> effects[i]@ == step.effects[i],
{
}

/// A find that is planned keeps the sort and the projection that were typed,
/// document for document, and the size of the page.
pub proof fn law_plan_holds_documents(q: QueryInputs, plan: FindPlan, skip: int)
    requires
        plan@ == query_input::plan_of(q@, skip),
        0 <= skip <= u64::MAX,
    ensures
        plan.limit == Some(q.page_size),
        skip > 0 ==> plan.skip == Some(skip as u64),
        skip == 0 ==> plan.skip is None,
        q.sort is Some <==> plan.sort is Some,
        q.projection is Some <==> plan.projection is Some,
        q.sort matches Some(d) ==> bson_ext::document_view(plan.sort->0) == bson_ext::document_view(
            d,
        ),
        q.projection matches Some(d) ==> bson_ext::document_view(plan.projection->0)
            == bson_ext::document_view(d),
{
}

/// The inputs of a query are what they hold.
pub proof fn law_query_view(q: QueryInputs)
    ensures
        q@.page_size == q.page_size,
        q@.skip_base == q.skip_base,
        q.filter is Some <==> q@.filter is Some,
        q.sort is Some <==> q@.sort is Some,
        q.projection is Some <==> q@.projection is Some,
        q.filter matches Some(d) ==> q@.filter == Some(bson_ext::document_view(d)),
        q.sort matches Some(d) ==> q@.sort == Some(bson_ext::document_view(d)),
        q.projection matches Some(d) ==> q@.projection == Some(bson_ext::document_view(d)),
{
}

/// A request asks for what it holds.
pub proof fn law_request_view(r: Request, i: int)
    ensures
        match r {
            Request::Find { filter, plan } => r@ matches RequestView::Find { filter: f, plan: p }
                && p == plan@ && (filter is Some <==> f is Some) && (filter is Some ==> f == Some(
                bson_ext::document_view(filter->0),
            )),
            Request::Explain { filter, plan } => r@ matches RequestView::Explain {
                filter: f,
                plan: p,
            } && p == plan@ && (filter is Some <==> f is Some) && (filter is Some ==> f == Some(
                bson_ext::document_view(filter->0),
            )),
            Request::Aggregate { pipeline } => r@ matches RequestView::Aggregate { pipeline: p }
                && p.len() == pipeline@.len() && (0 <= i < p.len() ==> p[i]
                == bson_ext::document_view(pipeline@[i])),
            Request::Sample { limit } => r@ == (RequestView::Sample { limit }),
            Request::ListIndexes => r@ == RequestView::ListIndexes,
            Request::CreateIndex { keys, name } => r@ == (RequestView::CreateIndex {
                keys: bson_ext::document_view(keys),
                name: text::opt_view(name),
            }),
            Request::DropIndex { name } => r@ == (RequestView::DropIndex { name: name@ }),
            Request::GetValidation => r@ == RequestView::GetValidation,
            Request::SetValidation { validator, clear } => r@ matches RequestView::SetValidation {
                validator: v,
                clear: c,
            } && c == clear && (validator is Some <==> v is Some) && (validator is Some ==> v
                == Some(bson_ext::document_view(validator->0))),
            Request::Edit { work, done } => r@ == (RequestView::Edit { work: work@, done }),
            Request::SaveChanges { changes, count } => r@ matches RequestView::SaveChanges {
                changes: c,
                count: n,
            } && n == count && c.len() == changes@.len() && (0 <= i < c.len() ==> c[i].row
                == changes@[i].row_index && c[i].id == bson_ext::bson_view(changes@[i].id)
                && c[i].fields == bson_ext::document_view(changes@[i].set_fields)),
            Request::Delete { id } => r@ == (RequestView::Delete { id: bson_ext::bson_view(id) }),
        },
{
}

/// Work on a document is what it holds.
pub proof fn law_work_view(w: EditWork)
    ensures
        match w {
            EditWork::Idle => w@ == WorkView::Idle,
            EditWork::Insert(d) => w@ == WorkView::Insert(bson_ext::document_view(d)),
            EditWork::Replace { id, document } => w@ == (WorkView::Replace {
                id: bson_ext::bson_view(id),
                document: bson_ext::document_view(document),
            }),
            EditWork::SetFields { id, fields } => w@ == (WorkView::SetFields {
                id: bson_ext::bson_view(id),
                fields: bson_ext::document_view(fields),
            }),
        },
{
}

/// An effect, a failure and a target are what they hold.
pub proof fn law_effect_view(e: Effect, f: Failure, t: Target)
    ensures
        match e {
            Effect::NotifyError(f) => e@ == EffectView::NotifyError(f@),
            Effect::NotifySuccess(s) => e@ == EffectView::NotifySuccess(s),
            Effect::Send { target, request } => e@ == (EffectView::Send {
                target: target@,
                request: request@,
            }),
            Effect::Copy(s) => e@ == EffectView::Copy(s@),
            Effect::Export { kind, content } => e@ == (EffectView::Export {
                kind,
                content: content@,
            }),
        },
        match f {
            Failure::Input(i) => f@ == FailureView::Input(i@),
            Failure::Reply(s) => f@ == FailureView::Reply(s@),
            Failure::SaveOrRevertChangesFirst => f@ == FailureView::SaveOrRevertChangesFirst,
            Failure::IdRequiredForUpdate => f@ == FailureView::IdRequiredForUpdate,
            Failure::IdRequiredForDelete => f@ == FailureView::IdRequiredForDelete,
            Failure::IndexNameRequired => f@ == FailureView::IndexNameRequired,
            Failure::NothingToExport => f@ == FailureView::NothingToExport,
        },
        t@.connection_id == t.connection_id@,
        t@.database_name == t.database_name@,
        t@.collection_name == t.collection_name@,
{
}

/// The views of lists are those of their parts, in their order.
pub proof fn law_list_views(documents: Seq<Document>, values: Seq<Bson>, i: int)
    ensures
        bson_ext::document_views(documents).len() == documents.len(),
        0 <= i < documents.len() ==> bson_ext::document_views(documents)[i]
            == bson_ext::document_view(documents[i]),
        bson_ext::bson_views(values).len() == values.len(),
        0 <= i < values.len() ==> bson_ext::bson_views(values)[i] == bson_ext::bson_view(values[i]),
{
}

/// A reply of the server is what it holds, or the error in its words.
pub proof fn law_reply_views(d: Document, v: Vec<Document>, e: String)
    ensures
        collection::documents_reply(Ok(v)) == Ok::<_, Seq<char>>(bson_ext::document_views(v@)),
        collection::documents_reply(Err(e)) == Err::<Seq<Seq<(Seq<char>, BsonView)>>, _>(e@),
        collection::document_reply(Ok(d)) == Ok::<_, Seq<char>>(bson_ext::document_view(d)),
        collection::document_reply(Err(e)) == Err::<Seq<(Seq<char>, BsonView)>, _>(e@),
        collection::opt_document_reply(Ok(Some(d))) == Ok::<_, Seq<char>>(
            Some(bson_ext::document_view(d)),
        ),
        collection::opt_document_reply(Ok(None)) == Ok::<
            Option<Seq<(Seq<char>, BsonView)>>,
            Seq<char>,
        >(None),
        collection::opt_document_reply(Err(e)) == Err::<Option<Seq<(Seq<char>, BsonView)>>, _>(e@),
        collection::bare_reply(Ok(())) == Ok::<(), Seq<char>>(()),
        collection::bare_reply(Err(e)) == Err::<(), _>(e@),
{
}

/// Updates are saved one by one, until one fails or all are saved.
pub proof fn law_saving_goes_on(total: int, done: int, why: Seq<char>)
    ensures
        done < total ==> collection::save_after(total, done, Ok(()))
            == collection::SaveStepView::Update(done),
        done >= total ==> collection::save_after(total, done, Ok(()))
            == collection::SaveStepView::End(Ok(())),
        collection::save_after(total, done, Err(why)) == collection::SaveStepView::End(Err(why)),
{
}

/// Where the inputs cannot be read, pages are counted as with the inputs of the
/// first view.
pub proof fn law_pages_of_wrong_query(s: Collection, labels: TextsView)
    requires
        query_input::query_read(s.texts, labels) is Err,
    ensures
        ({
            let q = collection_panels::paged_query(s, labels);
            &&& q.page_size == 25 && q.skip_base == 0
            &&& q.filter is None && q.sort is None && q.projection is None
        }),
{
}

} // verus!
