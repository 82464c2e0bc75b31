//! Laws of the view of a collection.
use vstd::prelude::*;

use crate::bson_ext;
use crate::bson_ext::BsonView;
use crate::collection_model;
use crate::collection_model::Collection;
use crate::collection_panels;
use crate::collection_types::{EditorMode, EffectView, FailureView, RequestView, Success, WorkView};
use crate::query_input;
use crate::query_input::TextsView;
use crate::schema;
use crate::schema::ItemView;

verus! {

/// The item has the id.
pub open spec fn has_id(item: ItemView, id: BsonView) -> bool {
    item.id_bson matches Some(v) && bson_ext::same_value(v, id)
}

/// The place of an id is that of the first document that has it; there is none
/// just where no document has it.
pub proof fn law_place_of(items: Seq<ItemView>, id: BsonView)
    requires
        items.len() <= usize::MAX,
    ensures
        match collection_model::place_of(items, id) {
            Some(i) => i < items.len() && has_id(items[i as int], id) && forall|j: int|
                0 <= j < i ==> !has_id(#[trigger] items[j], id),
            None => forall|j: int| 0 <= j < items.len() ==> !has_id(#[trigger] items[j], id),
        },
    decreases items.len(),
{
    if items.len() > 0 {
        let rest = items.drop_last();
        law_place_of(rest, id);
        assert forall|j: int| 0 <= j < rest.len() implies rest[j] == #[trigger] items[j] by {}
        assert(items.last() == items[items.len() - 1]);
    }
}

/// The query of the view can be run: its inputs can be read, and a collection
/// is shown.
pub open spec fn can_query(s: Collection, labels: TextsView) -> bool {
    query_input::query_read(s.texts, labels) is Ok && s.target() is Some
}

/// A page that is fetched again keeps its selection: the document with the id
/// that was selected is selected, wherever it now stands. Where it is gone,
/// nothing is.
pub proof fn law_reload_keeps_selection(
    s: Collection,
    labels: TextsView,
    documents: Seq<Seq<(Seq<char>, BsonView)>>,
    total: Option<i64>,
)
    requires
        can_query(s, labels),
        s.pending_select is None,
        s.selected_id() is Some,
        schema::items_of(documents) is Ok,
    ensures
        ({
            let id = s.selected_id()->0;
            let items = schema::items_of(documents)->Ok_0;
            let running = collection_model::run_query(s, labels).state;
            let shown = collection_model::query_finished(
                running,
                Ok::<Seq<Seq<(Seq<char>, BsonView)>>, Seq<char>>(documents),
                total,
            ).state;
            &&& running.documents.len() == 0
            &&& running.selected is None
            &&& shown.documents == items
            &&& shown.selected == collection_model::place_of(items, id)
            &&& shown.pending_select is None
            &&& !shown.is_loading
        }),
{
}

/// The document that was saved is selected again once its page came back, and
/// the text in the editor is then the one that came.
pub proof fn law_saved_document_is_selected(
    s: Collection,
    label: Seq<char>,
    labels: TextsView,
    documents: Seq<Seq<(Seq<char>, BsonView)>>,
    total: Option<i64>,
)
    requires
        s.mode == EditorMode::Update,
        can_query(s, labels),
        query_input::document_read(s.editor_text, label) is Ok,
        collection_model::edited_id(s) is Some,
        schema::items_of(documents) is Ok,
        documents.len() <= usize::MAX,
    ensures
        ({
            let id = collection_model::edited_id(s)->0;
            let items = schema::items_of(documents)->Ok_0;
            let saving = collection_model::save_edit(s, label).state;
            let saved = collection_model::edit_finished(
                saving,
                Ok::<(), Seq<char>>(()),
                Success::DocumentUpdated,
            ).state;
            let running = collection_model::apply_pending(saved, labels).state;
            let shown = collection_model::query_finished(
                running,
                Ok::<Seq<Seq<(Seq<char>, BsonView)>>, Seq<char>>(documents),
                total,
            ).state;
            &&& shown.selected == collection_model::place_of(items, id)
            &&& shown.mode == EditorMode::View
            &&& !shown.pending_reload
            &&& shown.selected matches Some(i) ==> shown.pending_editor == Some(
                items[i as int].pretty_json,
            )
        }),
{
}

/// After a deletion the neighbour of the document is selected.
pub proof fn law_neighbour_is_selected(
    s: Collection,
    labels: TextsView,
    documents: Seq<Seq<(Seq<char>, BsonView)>>,
    total: Option<i64>,
)
    requires
        can_query(s, labels),
        s.item(s.selected) is Some,
        s.selected_id() is Some,
        collection_model::neighbour_id(s.documents, s.selected->0 as int) is Some,
        schema::items_of(documents) is Ok,
    ensures
        ({
            let id = collection_model::neighbour_id(s.documents, s.selected->0 as int)->0;
            let items = schema::items_of(documents)->Ok_0;
            let deleting = collection_model::delete_selected(s).state;
            let deleted = collection_model::delete_finished(
                deleting,
                Ok::<(), Seq<char>>(()),
            ).state;
            let running = collection_model::apply_pending(deleted, labels).state;
            let shown = collection_model::query_finished(
                running,
                Ok::<Seq<Seq<(Seq<char>, BsonView)>>, Seq<char>>(documents),
                total,
            ).state;
            shown.selected == collection_model::place_of(items, id)
        }),
{
}

/// Saving an edited document replaces the one it was read from: the new
/// document has the id of the old one, whatever the text says, and all other
/// fields are those of the text.
pub proof fn law_update_keeps_id(s: Collection, label: Seq<char>, other: Seq<char>)
    requires
        s.mode == EditorMode::Update,
        s.target() is Some,
        query_input::document_read(s.editor_text, label) is Ok,
        collection_model::edited_id(s) is Some,
        other != "_id"@,
    ensures
        ({
            let id = collection_model::edited_id(s)->0;
            let typed = query_input::document_read(s.editor_text, label)->Ok_0;
            exists|document: Seq<(Seq<char>, BsonView)>|
                {
                    &&& collection_model::save_edit(s, label).effects == seq![
                        EffectView::Send {
                            target: s.target()->0,
                            request: RequestView::Edit {
                                work: WorkView::Replace { id, document },
                                done: Success::DocumentUpdated,
                            },
                        },
                    ]
                    &&& #[trigger] bson_ext::field(document, "_id"@) == Some(id)
                    &&& bson_ext::field(document, other) == bson_ext::field(typed, other)
                }
        }),
{
    let id = collection_model::edited_id(s)->0;
    let typed = query_input::document_read(s.editor_text, label)->Ok_0;
    let document = bson_ext::with_field(typed, "_id"@, id);
    bson_ext::law_set_field_reads_back(typed, "_id"@, id, other);
    assert(bson_ext::field(document, "_id"@) == Some(id));
}

/// Editing that is given up leaves the list as it was and shows the selected
/// document again.
pub proof fn law_cancel_restores(s: Collection)
    requires
        s.item(s.selected) is Some,
    ensures
        ({
            let back = collection_model::edit_cancelled(collection_model::update_started(s));
            &&& back.mode == EditorMode::View
            &&& back.documents == s.documents
            &&& back.table == s.table
            &&& back.selected == s.selected
            &&& back.editor_text == s.documents[s.selected->0 as int].pretty_json
        }),
{
}

/// What the server refuses changes nothing that was shown: the list, the
/// table, the selection and the text in the editor stay, only the failure is
/// reported, and nothing is under way any more.
pub proof fn law_refusal_keeps_work(s: Collection, why: Seq<char>, done: Success, count: usize)
    ensures
        ({
            let refused = s.failed(FailureView::Reply(why));
            let reply = Err::<(), Seq<char>>(why);
            &&& collection_model::edit_finished(s, reply, done) == refused
            &&& collection_model::delete_finished(s, reply) == refused
            &&& collection_model::changes_saved(s, reply, count) == refused
            &&& refused.state == (Collection {
                error: Some(FailureView::Reply(why)),
                is_loading: false,
                ..s
            })
            &&& refused.effects == seq![EffectView::NotifyError(FailureView::Reply(why))]
        }),
{
}

/// Nothing is asked of a server while no collection is shown.
pub proof fn law_nothing_without_collection(s: Collection, labels: TextsView, label: Seq<char>)
    requires
        s.target() is None,
    ensures
        ({
            let steps = seq![
                collection_model::run_query(s, labels),
                collection_model::run_explain(s, labels),
                collection_model::run_aggregation(s),
                collection_model::load_schema(s),
                collection_model::load_indexes(s),
                collection_model::create_index(s, label),
                collection_model::drop_index(s),
                collection_model::load_validation(s),
                collection_model::save_validation(s, label),
                collection_model::clear_validation(s),
                collection_model::save_edit(s, label),
                collection_model::delete_selected(s),
                collection_model::save_table_changes(s),
            ];
            forall|i: int, j: int|
                0 <= i < steps.len() && 0 <= j < steps[i].effects.len() ==> !(#[trigger] (
                steps[i].effects[j]) is Send)
        }),
{
}

/// The pages of a query hold all its documents: the pages that are counted
/// cover what is left after the documents that are skipped, and the last of
/// them is not empty.
pub proof fn law_pages_cover(remaining: int, page_size: int)
    requires
        0 < remaining <= i64::MAX,
        page_size >= 1,
    ensures
        ({
            let pages = collection_panels::page_count(remaining, page_size);
            pages >= 1 && (pages - 1) * page_size < remaining <= pages * page_size
        }),
{
    let q = (remaining - 1) / page_size;
    assert(q * page_size <= remaining - 1 < (q + 1) * page_size && q >= 0) by (nonlinear_arith)
        requires
            q == (remaining - 1) / page_size,
            page_size >= 1,
            remaining >= 1,
    ;
}

/// There is a next page just where documents follow the page that is shown,
/// as far as the total is known and goes beyond what is skipped.
pub proof fn law_next_page_has_documents(s: Collection, labels: TextsView)
    requires
        collection_panels::page_bar_fits(s, labels),
        s.page_index >= 0,
        s.total_count is Some,
        s.total_count->0 > collection_panels::paged_query(s, labels).skip_base,
    ensures
        ({
            let q = collection_panels::paged_query(s, labels);
            collection_panels::page_bar(s, labels).can_next <==> query_input::page_start(
                q.skip_base,
                q.page_size,
                (s.page_index + 1) as i64,
            ) < s.total_count->0
        }),
{
    query_input::law_query_numbers(s.texts, labels, s.page_index);
    let q = collection_panels::paged_query(s, labels);
    let remaining = s.total_count->0 - q.skip_base;
    let pages = collection_panels::page_count(remaining, q.page_size as int);
    law_pages_cover(remaining, q.page_size as int);
    let p = s.page_index + 1;
    let size = q.page_size as int;
    assert(p < pages ==> p * size < remaining) by (nonlinear_arith)
        requires
            (pages - 1) * size < remaining,
            size >= 1,
    ;
    assert(p >= pages ==> p * size >= remaining) by (nonlinear_arith)
        requires
            remaining <= pages * size,
            size >= 1,
    ;
}

/// What the table shows and what is listed stay the same documents.
pub open spec fn in_step(s: Collection) -> bool {
    schema::item_documents(s.documents) == s.table.documents
}

/// Whatever is done in the view, the table shows the documents of the list, as
/// far as they can be written as text.
pub proof fn law_table_in_step(
    s: Collection,
    labels: TextsView,
    label: Seq<char>,
    documents: Seq<Seq<(Seq<char>, BsonView)>>,
    total: Option<i64>,
    row: usize,
    col: usize,
)
    requires
        in_step(s),
    ensures
        in_step(collection_model::initial()),
        in_step(collection_model::run_query(s, labels).state),
        in_step(
            collection_model::query_finished(
                s,
                Ok::<Seq<Seq<(Seq<char>, BsonView)>>, Seq<char>>(documents),
                total,
            ).state,
        ),
        in_step(collection_model::document_selected(s, row)),
        in_step(collection_model::field_update_started(s, row, col).state),
        in_step(collection_model::save_edit(s, label).state),
        in_step(collection_model::delete_selected(s).state),
        in_step(collection_model::save_table_changes(s).state),
        in_step(collection_model::apply_pending(s, labels).state),
{
    assert(schema::item_documents(Seq::<ItemView>::empty()) =~= Seq::empty());
}

/// An edit in the table, or giving the edits up, brings the list in step with
/// the table, as far as the documents of the table can be written as text.
pub proof fn law_edits_reach_list(s: Collection, row: usize)
    requires
        schema::items_of(s.table.documents) is Ok,
    ensures
        in_step(collection_model::cell_edited(s, row).state),
        schema::items_of(s.table.originals) is Ok ==> in_step(
            collection_model::changes_reverted(s).state,
        ),
{
    schema::law_items_keep_documents(s.table.documents);
    schema::law_items_keep_documents(s.table.originals);
}

} // verus!
