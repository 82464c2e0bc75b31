//! What holds between what the user types, the query that is sent, and what is
//! read from the replies.
use vstd::prelude::*;

use crate::bson_ext;
use crate::bson_ext::BsonView;
use crate::collection_model;
use crate::collection_model::Collection;
use crate::collection_types::{EffectView, FailureView, RequestView};
use crate::mongo_connection;
use crate::query_input;
use crate::query_input::{InputErrorView, PlanView, QueryView, TextsView};
use crate::text;
use crate::text_laws;

verus! {

// ---------------------------------------------------------------------------
// What is typed
// ---------------------------------------------------------------------------

/// The text stands for the document: a blank text for none, and a text in
/// extended JSON for the document that it writes.
pub open spec fn is_document_text(s: Seq<char>, d: Option<Seq<(Seq<char>, BsonView)>>) -> bool {
    match d {
        None => text_laws::is_blank(s),
        Some(x) => !text_laws::is_blank(s) && (bson_ext::parsed_json(
            text::trimmed(s),
        ) matches Ok(json) && bson_ext::bson_of_json(json) == Ok::<BsonView, Seq<char>>(
            BsonView::Document(x),
        )),
    }
}

/// The text stands for the number: a blank text for the one that counts where
/// nothing is said, and any other for the number that it writes.
pub open spec fn is_number_text(s: Seq<char>, unsaid: int, n: int) -> bool {
    if text_laws::is_blank(s) {
        n == unsaid
    } else {
        text::int_value(text::trimmed(s)) == Some(n)
    }
}

/// The texts stand for the query: a page has 25 documents and none is left out
/// where nothing is said, a page has at least one, and no negative number is
/// left out.
pub open spec fn is_query_text(t: TextsView, q: QueryView) -> bool {
    &&& is_document_text(t.filter, q.filter)
    &&& is_document_text(t.sort, q.sort)
    &&& is_document_text(t.projection, q.projection)
    &&& is_number_text(t.page_size, 25, q.page_size as int)
    &&& q.page_size >= 1
    &&& is_number_text(t.skip, 0, q.skip_base as int)
    &&& q.skip_base >= 0
}

proof fn lemma_document_text(
    s: Seq<char>,
    d: Option<Seq<(Seq<char>, BsonView)>>,
    label: Seq<char>,
)
    ensures
        is_document_text(s, d) <==> query_input::optional_document_read(s, label) == Ok::<
            Option<Seq<(Seq<char>, BsonView)>>,
            InputErrorView,
        >(d),
{
    text_laws::law_trimmed_is_part(s);
}

/// A document is read just where the text stands for it; for an input that has
/// to be filled a blank text is refused.
pub proof fn law_document_read(s: Seq<char>, d: Seq<(Seq<char>, BsonView)>, label: Seq<char>)
    ensures
        is_document_text(s, Some(d)) <==> query_input::document_read(s, label) == Ok::<
            Seq<(Seq<char>, BsonView)>,
            InputErrorView,
        >(d),
        is_document_text(s, Some(d)) <==> query_input::optional_document_read(s, label) == Ok::<
            Option<Seq<(Seq<char>, BsonView)>>,
            InputErrorView,
        >(Some(d)),
        text_laws::is_blank(s) ==> query_input::document_read(s, label) is Err
            && query_input::optional_document_read(s, label) == Ok::<
            Option<Seq<(Seq<char>, BsonView)>>,
            InputErrorView,
        >(None),
{
    text_laws::law_trimmed_is_part(s);
    lemma_document_text(s, Some(d), label);
}

/// A value is read just where the text is extended JSON for it, whatever white
/// space stands around it.
pub proof fn law_value_read(s: Seq<char>, v: BsonView, label: Seq<char>)
    ensures
        query_input::value_read(s, label) == Ok::<BsonView, InputErrorView>(v)
            <==> !text_laws::is_blank(s) && (bson_ext::parsed_json(
            text::trimmed(s),
        ) matches Ok(json) && bson_ext::bson_of_json(json) == Ok::<BsonView, Seq<char>>(v)),
{
    text_laws::law_trimmed_is_part(s);
}

/// Wrong inputs are refused by their name: a blank one that is required, one
/// that is no extended JSON, and one that is something else than an object.
pub proof fn law_wrong_document(s: Seq<char>, label: Seq<char>)
    ensures
        text_laws::is_blank(s) ==> query_input::document_read(s, label) == Err::<
            Seq<(Seq<char>, BsonView)>,
            InputErrorView,
        >(InputErrorView::Required { label }),
        !text_laws::is_blank(s) ==> match bson_ext::parsed_json(text::trimmed(s)) {
            Err(error) => query_input::document_read(s, label) == Err::<
                Seq<(Seq<char>, BsonView)>,
                InputErrorView,
            >(InputErrorView::ParseFailed { label, error }),
            Ok(json) => match bson_ext::bson_of_json(json) {
                Err(error) => query_input::document_read(s, label) == Err::<
                    Seq<(Seq<char>, BsonView)>,
                    InputErrorView,
                >(InputErrorView::ParseFailed { label, error }),
                Ok(v) => !(v is Document) ==> query_input::document_read(s, label) == Err::<
                    Seq<(Seq<char>, BsonView)>,
                    InputErrorView,
                >(InputErrorView::MustBeJsonObject { label }),
            },
        },
{
    text_laws::law_trimmed_is_part(s);
}

/// A number is read just where the text stands for one that is not too small.
pub proof fn law_number_read(s: Seq<char>, label: Seq<char>, default: i64, min: i64, n: i64)
    ensures
        text_laws::is_blank(s) ==> query_input::number_read(s, label, default, min) == Ok::<
            i64,
            InputErrorView,
        >(default),
        !text_laws::is_blank(s) ==> (query_input::number_read(s, label, default, min) == Ok::<
            i64,
            InputErrorView,
        >(n) <==> text::int_value(text::trimmed(s)) == Some(n as int) && n >= min),
        query_input::number_read(s, label, default, min) matches Err(e) ==> e
            == (InputErrorView::MustBeMinInt { label, min }),
{
    text_laws::law_trimmed_is_part(s);
}

/// The query that is read is the one that was typed, and every query that can
/// be typed is read: filter, sort and projection are the documents that their
/// texts stand for, the page size and the skip the numbers.
pub proof fn law_query_is_what_was_typed(t: TextsView, labels: TextsView, q: QueryView)
    ensures
        is_query_text(t, q) <==> query_input::query_read(t, labels) == Ok::<
            QueryView,
            InputErrorView,
        >(q),
{
    lemma_document_text(t.filter, q.filter, labels.filter);
    lemma_document_text(t.sort, q.sort, labels.sort);
    lemma_document_text(t.projection, q.projection, labels.projection);
    law_number_read(t.page_size, labels.page_size, query_input::DEFAULT_PAGE_SIZE, 1, q.page_size);
    law_number_read(t.skip, labels.skip, query_input::DEFAULT_SKIP, 0, q.skip_base);
    if let Ok(r) = query_input::query_read(t, labels) {
        lemma_document_text(t.filter, r.filter, labels.filter);
        lemma_document_text(t.sort, r.sort, labels.sort);
        lemma_document_text(t.projection, r.projection, labels.projection);
        law_number_read(
            t.page_size,
            labels.page_size,
            query_input::DEFAULT_PAGE_SIZE,
            1,
            r.page_size,
        );
        law_number_read(t.skip, labels.skip, query_input::DEFAULT_SKIP, 0, r.skip_base);
    }
}

/// A wrong input refuses the query, and the first wrong one is named: filter,
/// sort, projection, page size, skip.
pub proof fn law_wrong_query_is_named(t: TextsView, labels: TextsView)
    ensures
        query_input::query_read(t, labels) matches Err(e) ==> {
            let filter = query_input::optional_document_read(t.filter, labels.filter);
            let sort = query_input::optional_document_read(t.sort, labels.sort);
            let projection = query_input::optional_document_read(t.projection, labels.projection);
            let size = query_input::number_read(t.page_size, labels.page_size, 25, 1);
            let skip = query_input::number_read(t.skip, labels.skip, 0, 0);
            ||| filter == Err::<Option<Seq<(Seq<char>, BsonView)>>, InputErrorView>(e)
            ||| filter is Ok && sort == Err::<Option<Seq<(Seq<char>, BsonView)>>, InputErrorView>(e)
            ||| filter is Ok && sort is Ok && projection == Err::<
                Option<Seq<(Seq<char>, BsonView)>>,
                InputErrorView,
            >(e)
            ||| filter is Ok && sort is Ok && projection is Ok && size == Err::<
                i64,
                InputErrorView,
            >(e)
            ||| filter is Ok && sort is Ok && projection is Ok && size is Ok && skip == Err::<
                i64,
                InputErrorView,
            >(e)
        },
{
}

/// A pipeline is read just where its text is blank, which stands for no stage,
/// or is an array of objects in extended JSON.
pub proof fn law_pipeline_read(s: Seq<char>)
    ensures
        text_laws::is_blank(s) ==> (query_input::pipeline_read(s) matches Ok(p) && p.len() == 0),
        !text_laws::is_blank(s) ==> match bson_ext::parsed_json(text::trimmed(s)) {
            Err(error) => query_input::pipeline_read(s) == Err::<
                Seq<Seq<(Seq<char>, BsonView)>>,
                InputErrorView,
            >(InputErrorView::PipelineParseFailed { error }),
            Ok(bson_ext::JsonView::Array(items)) => match query_input::pipeline_read(s) {
                Ok(stages) => stages.len() == items.len() && forall|i: int|
                    0 <= i < items.len() ==> bson_ext::bson_of_json(#[trigger] items[i]) == Ok::<
                        BsonView,
                        Seq<char>,
                    >(BsonView::Document(stages[i])),
                Err(_) => exists|i: int|
                    0 <= i < items.len() && !(bson_ext::bson_of_json(#[trigger] items[i]) matches Ok(
                        v,
                    ) && v is Document),
            },
            Ok(_) => query_input::pipeline_read(s) == Err::<
                Seq<Seq<(Seq<char>, BsonView)>>,
                InputErrorView,
            >(InputErrorView::PipelineMustBeArray),
        },
{
    text_laws::law_trimmed_is_part(s);
    if let Ok(bson_ext::JsonView::Array(items)) = bson_ext::parsed_json(text::trimmed(s)) {
        query_input::law_pipeline_keeps_items(items);
        if query_input::stages_of(items) is Err {
            lemma_wrong_item(items);
        }
    }
}

/// The first wrong stage of a pipeline is named by its place, counting from one:
/// one that cannot be read with the reason, and one that is no object as such.
pub proof fn law_wrong_stage(items: Seq<bson_ext::JsonView>, i: int)
    requires
        0 <= i < items.len(),
        forall|j: int|
            0 <= j < i ==> (bson_ext::bson_of_json(#[trigger] items[j]) matches Ok(v) && v
                is Document),
    ensures
        match bson_ext::bson_of_json(items[i]) {
            Err(error) => query_input::stages_of(items) == Err::<
                Seq<Seq<(Seq<char>, BsonView)>>,
                InputErrorView,
            >(InputErrorView::PipelineItemParseFailed { index: i + 1, error }),
            Ok(v) => !(v is Document) ==> query_input::stages_of(items) == Err::<
                Seq<Seq<(Seq<char>, BsonView)>>,
                InputErrorView,
            >(InputErrorView::PipelineItemMustBeObject { index: i + 1 }),
        },
    decreases items.len(),
{
    let rest = items.drop_last();
    assert forall|j: int| 0 <= j < i implies (bson_ext::bson_of_json(
        #[trigger] rest[j],
    ) matches Ok(v) && v is Document) by {
        assert(rest[j] == items[j]);
    }
    if i < rest.len() {
        assert(rest[i] == items[i]);
        law_wrong_stage(rest, i);
    } else {
        lemma_right_items(rest);
    }
}

proof fn lemma_right_items(items: Seq<bson_ext::JsonView>)
    requires
        forall|j: int|
            0 <= j < items.len() ==> (bson_ext::bson_of_json(#[trigger] items[j]) matches Ok(v) && v
                is Document),
    ensures
        query_input::stages_of(items) is Ok,
{
    if query_input::stages_of(items) is Err {
        lemma_wrong_item(items);
    }
}

proof fn lemma_wrong_item(items: Seq<bson_ext::JsonView>)
    requires
        query_input::stages_of(items) is Err,
    ensures
        exists|i: int|
            0 <= i < items.len() && !(bson_ext::bson_of_json(#[trigger] items[i]) matches Ok(v)
                && v is Document),
    decreases items.len(),
{
    if items.len() > 0 {
        let t = items.drop_last();
        if query_input::stages_of(t) is Err {
            lemma_wrong_item(t);
            let i = choose|i: int|
                0 <= i < t.len() && !(bson_ext::bson_of_json(#[trigger] t[i]) matches Ok(v)
                    && v is Document);
            assert(t[i] == items[i]);
        } else {
            assert(items[items.len() - 1] == items.last());
        }
    }
}

// ---------------------------------------------------------------------------
// What is sent
// ---------------------------------------------------------------------------

/// The plan fetches the page of the query: as many documents as a page has,
/// after those that are left out and those of the pages before, in the order
/// and with the fields that were typed.
pub open spec fn fetches_page(plan: PlanView, q: QueryView, page: int) -> bool {
    let before = q.skip_base + page * q.page_size;
    &&& plan.limit == Some(q.page_size)
    &&& plan.sort == q.sort
    &&& plan.projection == q.projection
    &&& before > 0 ==> plan.skip == Some(before as u64)
    &&& before <= 0 ==> plan.skip is None
}

/// The one effect is a request to the collection that is shown.
pub open spec fn is_sent_to(
    effects: Seq<EffectView>,
    connection: Seq<char>,
    database: Seq<char>,
    collection: Seq<char>,
) -> bool {
    effects.len() == 1 && (effects[0] matches EffectView::Send { target, request }
        && target.connection_id == connection && target.database_name == database
        && target.collection_name == collection)
}

/// The request that is sent.
pub open spec fn sent(effects: Seq<EffectView>) -> RequestView {
    effects[0]->request
}

/// The collection is shown.
pub open spec fn shows(
    s: Collection,
    connection: Seq<char>,
    database: Seq<char>,
    collection: Seq<char>,
) -> bool {
    s.connection_id == Some(connection) && s.database_name == Some(database) && s.collection_name
        == Some(collection)
}

/// The query that was typed is sent to the collection that is shown: its
/// filter, and the plan of the page that is shown.
pub proof fn law_query_is_sent(
    s: Collection,
    labels: TextsView,
    q: QueryView,
    connection: Seq<char>,
    database: Seq<char>,
    collection: Seq<char>,
)
    requires
        is_query_text(s.texts, q),
        shows(s, connection, database, collection),
    ensures
        ({
            let e = collection_model::run_query(s, labels).effects;
            &&& is_sent_to(e, connection, database, collection)
            &&& sent(e) is Find
            &&& sent(e)->Find_filter == q.filter
            &&& fetches_page(sent(e)->Find_plan, q, s.page_index as int)
        }),
        ({
            let e = collection_model::run_explain(s, labels).effects;
            &&& is_sent_to(e, connection, database, collection)
            &&& sent(e) is Explain
            &&& sent(e)->Explain_filter == q.filter
            &&& fetches_page(sent(e)->Explain_plan, q, s.page_index as int)
        }),
{
    law_query_is_what_was_typed(s.texts, labels, q);
}

/// Turning pages fetches the page before or behind the one that is shown, and
/// searching anew the first one.
pub proof fn law_pages_are_turned(
    s: Collection,
    labels: TextsView,
    q: QueryView,
    connection: Seq<char>,
    database: Seq<char>,
    collection: Seq<char>,
)
    requires
        is_query_text(s.texts, q),
        shows(s, connection, database, collection),
        0 <= s.page_index < i64::MAX,
    ensures
        ({
            let step = collection_model::next_page(s, labels);
            &&& step.state.page_index == s.page_index + 1
            &&& is_sent_to(step.effects, connection, database, collection)
            &&& sent(step.effects) is Find
            &&& fetches_page(sent(step.effects)->Find_plan, q, s.page_index + 1)
        }),
        s.page_index > 0 ==> {
            let step = collection_model::previous_page(s, labels);
            &&& step.state.page_index == s.page_index - 1
            &&& is_sent_to(step.effects, connection, database, collection)
            &&& sent(step.effects) is Find
            &&& fetches_page(sent(step.effects)->Find_plan, q, s.page_index - 1)
        },
        s.page_index == 0 ==> {
            let step = collection_model::previous_page(s, labels);
            step.state == s && step.effects.len() == 0
        },
        ({
            let step = collection_model::find_first_page(s, labels);
            &&& step.state.page_index == 0
            &&& is_sent_to(step.effects, connection, database, collection)
            &&& sent(step.effects) is Find
            &&& fetches_page(sent(step.effects)->Find_plan, q, 0)
        }),
{
    law_query_is_what_was_typed(s.texts, labels, q);
}

/// Showing a collection fetches its first page with the query that is typed.
pub proof fn law_shown_collection_is_fetched(
    s: Collection,
    labels: TextsView,
    q: QueryView,
    target: crate::collection_types::TargetView,
)
    requires
        is_query_text(s.texts, q),
    ensures
        ({
            let step = collection_model::load_collection(s, target, labels);
            &&& shows(
                step.state,
                target.connection_id,
                target.database_name,
                target.collection_name,
            )
            &&& step.state.page_index == 0
            &&& step.state.documents.len() == 0
            &&& step.state.is_loading
            &&& step.state.texts == s.texts
            &&& is_sent_to(
                step.effects,
                target.connection_id,
                target.database_name,
                target.collection_name,
            )
            &&& sent(step.effects) is Find
            &&& sent(step.effects)->Find_filter == q.filter
            &&& fetches_page(sent(step.effects)->Find_plan, q, 0)
        }),
{
    law_query_is_what_was_typed(s.texts, labels, q);
}

/// A query with a wrong input is not sent; the input is shown as wrong, and
/// all that is shown stays.
pub proof fn law_wrong_query_is_not_sent(s: Collection, labels: TextsView, e: InputErrorView)
    requires
        query_input::query_read(s.texts, labels) == Err::<QueryView, InputErrorView>(e),
    ensures
        ({
            let step = collection_model::run_query(s, labels);
            &&& step.effects == seq![EffectView::NotifyError(FailureView::Input(e))]
            &&& step.state.error == Some(FailureView::Input(e))
            &&& step.state.documents == s.documents
            &&& step.state.table == s.table
            &&& step.state.selected == s.selected
            &&& !step.state.is_loading
        }),
        collection_model::run_explain(s, labels).effects == seq![
            EffectView::NotifyError(FailureView::Input(e)),
        ],
{
}

// ---------------------------------------------------------------------------
// Commands
// ---------------------------------------------------------------------------

proof fn lemma_field_names()
    ensures
        "find"@ != "filter"@,
        "find"@ != "sort"@,
        "find"@ != "projection"@,
        "find"@ != "skip"@,
        "find"@ != "limit"@,
        "filter"@ != "sort"@,
        "filter"@ != "projection"@,
        "filter"@ != "skip"@,
        "filter"@ != "limit"@,
        "sort"@ != "projection"@,
        "sort"@ != "skip"@,
        "sort"@ != "limit"@,
        "projection"@ != "skip"@,
        "projection"@ != "limit"@,
        "skip"@ != "limit"@,
{
    reveal_strlit("find");
    reveal_strlit("filter");
    reveal_strlit("sort");
    reveal_strlit("projection");
    reveal_strlit("skip");
    reveal_strlit("limit");
    assert("find"@.len() == 4 && "find"@[0] == 'f');
    assert("sort"@.len() == 4 && "sort"@[0] == 's' && "sort"@[1] == 'o');
    assert("skip"@.len() == 4 && "skip"@[0] == 's' && "skip"@[1] == 'k');
    assert("filter"@.len() == 6);
    assert("projection"@.len() == 10);
    assert("limit"@.len() == 5);
}

proof fn lemma_field_of_parts(
    a: Seq<(Seq<char>, BsonView)>,
    b: Seq<(Seq<char>, BsonView)>,
    key: Seq<char>,
)
    ensures
        bson_ext::field(a + b, key) == (match bson_ext::field(a, key) {
            Some(v) => Some(v),
            None => bson_ext::field(b, key),
        }),
    decreases a.len(),
{
    if a.len() == 0 {
        assert(a + b =~= b);
    } else {
        assert((a + b)[0] == a[0]);
        assert((a + b).drop_first() =~= a.drop_first() + b);
        lemma_field_of_parts(a.drop_first(), b, key);
    }
}

/// A document that holds at most one field.
spec fn one(key: Seq<char>, v: Option<BsonView>) -> Seq<(Seq<char>, BsonView)> {
    match v {
        Some(x) => seq![(key, x)],
        None => Seq::empty(),
    }
}

proof fn lemma_field_of_one(name: Seq<char>, v: Option<BsonView>, key: Seq<char>)
    ensures
        bson_ext::field(one(name, v), key) == (if name == key {
            v
        } else {
            None
        }),
{
    if let Some(x) = v {
        assert(seq![(name, x)].drop_first() =~= Seq::<(Seq<char>, BsonView)>::empty());
        assert(bson_ext::field(Seq::<(Seq<char>, BsonView)>::empty(), key) is None);
    }
}

/// A document as a value.
pub open spec fn as_value(d: Option<Seq<(Seq<char>, BsonView)>>) -> Option<BsonView> {
    match d {
        Some(x) => Some(BsonView::Document(x)),
        None => None,
    }
}

/// The search that is explained is the one that is planned: it names the
/// collection, the filter, and each of sort, projection, skip and limit just
/// where the plan has it.
pub proof fn law_explained_find(
    collection: Seq<char>,
    filter: Option<Seq<(Seq<char>, BsonView)>>,
    plan: PlanView,
)
    ensures
        ({
            let d = mongo_connection::explained_find(collection, filter, plan);
            &&& bson_ext::field(d, "find"@) == Some(BsonView::Text(collection))
            &&& filter matches Some(f) ==> bson_ext::field(d, "filter"@) == Some(
                BsonView::Document(f),
            )
            &&& filter is None ==> bson_ext::field(d, "filter"@) == Some(
                BsonView::Document(Seq::empty()),
            )
            &&& bson_ext::field(d, "sort"@) == as_value(plan.sort)
            &&& bson_ext::field(d, "projection"@) == as_value(plan.projection)
            &&& plan.skip matches Some(n) ==> bson_ext::field(d, "skip"@) == Some(
                BsonView::Int64(n as i64),
            )
            &&& plan.skip is None ==> bson_ext::field(d, "skip"@) is None
            &&& plan.limit matches Some(n) ==> bson_ext::field(d, "limit"@) == Some(
                BsonView::Int64(n),
            )
            &&& plan.limit is None ==> bson_ext::field(d, "limit"@) is None
        }),
{
    lemma_field_names();
    let d = mongo_connection::explained_find(collection, filter, plan);
    let f = BsonView::Document(
        match filter {
            Some(f) => f,
            None => Seq::empty(),
        },
    );
    let skip = match plan.skip {
        Some(n) => Some(BsonView::Int64(n as i64)),
        None => None,
    };
    let limit = match plan.limit {
        Some(n) => Some(BsonView::Int64(n)),
        None => None,
    };
    let p1 = one("find"@, Some(BsonView::Text(collection)));
    let p2 = one("filter"@, Some(f));
    let p3 = one("sort"@, as_value(plan.sort));
    let p4 = one("projection"@, as_value(plan.projection));
    let p5 = one("skip"@, skip);
    let p6 = one("limit"@, limit);
    assert(d =~= p1 + p2 + p3 + p4 + p5 + p6);
    assert forall|key: Seq<char>| true implies #[trigger] bson_ext::field(d, key) == (if key
        == "find"@ {
        Some(BsonView::Text(collection))
    } else if key == "filter"@ {
        Some(f)
    } else if key == "sort"@ {
        as_value(plan.sort)
    } else if key == "projection"@ {
        as_value(plan.projection)
    } else if key == "skip"@ {
        skip
    } else if key == "limit"@ {
        limit
    } else {
        None
    }) by {
        lemma_field_of_parts(p1 + p2 + p3 + p4 + p5, p6, key);
        lemma_field_of_parts(p1 + p2 + p3 + p4, p5, key);
        lemma_field_of_parts(p1 + p2 + p3, p4, key);
        lemma_field_of_parts(p1 + p2, p3, key);
        lemma_field_of_parts(p1, p2, key);
        lemma_field_of_one("find"@, Some(BsonView::Text(collection)), key);
        lemma_field_of_one("filter"@, Some(f), key);
        lemma_field_of_one("sort"@, as_value(plan.sort), key);
        lemma_field_of_one("projection"@, as_value(plan.projection), key);
        lemma_field_of_one("skip"@, skip, key);
        lemma_field_of_one("limit"@, limit, key);
    }
}

/// The one field of the stage.
pub open spec fn is_stage(stage: Seq<(Seq<char>, BsonView)>, name: Seq<char>, v: BsonView) -> bool {
    stage.len() == 1 && stage[0].0 == name && stage[0].1 == v
}

/// Sessions are listed by a first stage that asks for those of all users or of
/// one's own; stages for the filter, the skip and the limit follow in this
/// order, each just where there is one.
pub proof fn law_session_stages(
    all_users: bool,
    filter: Option<Seq<(Seq<char>, BsonView)>>,
    plan: PlanView,
)
    ensures
        ({
            let p = mongo_connection::session_stages(all_users, filter, plan);
            let filtered = filter matches Some(f) && f.len() > 0;
            let second: int = 1 + if filtered {
                1int
            } else {
                0int
            };
            let third: int = second + if plan.skip is Some {
                1int
            } else {
                0int
            };
            &&& is_stage(
                p[0],
                "$listSessions"@,
                BsonView::Document(
                    if all_users {
                        seq![("allUsers"@, BsonView::Boolean(true))]
                    } else {
                        Seq::empty()
                    },
                ),
            )
            &&& filtered ==> is_stage(p[1], "$match"@, BsonView::Document(filter->0))
            &&& plan.skip matches Some(n) ==> is_stage(
                p[second],
                "$skip"@,
                BsonView::Int64(n as i64),
            )
            &&& plan.limit matches Some(n) ==> is_stage(p[third], "$limit"@, BsonView::Int64(n))
            &&& p.len() == third + if plan.limit is Some {
                1int
            } else {
                0int
            }
        }),
{
}

/// Only the sessions are listed by stages; every other collection is searched
/// with the filter, and without one for all documents.
pub proof fn law_what_is_searched(
    collection: Seq<char>,
    filter: Option<Seq<(Seq<char>, BsonView)>>,
    plan: PlanView,
)
    ensures
        ({
            let step = mongo_connection::find_first(collection, filter, plan);
            &&& collection == "system.sessions"@ ==> step is List && step->all_users
                && step->pipeline == mongo_connection::session_stages(true, filter, plan)
            &&& collection != "system.sessions"@ ==> step is Search && step->filter == (
            match filter {
                Some(f) => f,
                None => Seq::empty(),
            })
        }),
{
}

// ---------------------------------------------------------------------------
// The query in the language of the shell
// ---------------------------------------------------------------------------

/// The text of a query begins with the collection and the filter, ends with
/// the limit, and holds the projection, the sort and the skip where there are
/// such; nothing else stands in it.
pub proof fn law_code_text(
    collection: Seq<char>,
    filter: Seq<char>,
    projection: Option<Seq<char>>,
    sort: Option<Seq<char>>,
    skip: i64,
    page_size: i64,
)
    ensures
        ({
            let code = query_input::code_text(
                collection,
                filter,
                projection,
                sort,
                skip,
                page_size,
            );
            let limit = ".limit("@ + text::signed_decimal(page_size as int) + ")"@;
            let found = "db."@ + collection + ".find("@ + filter;
            let shown = match projection {
                Some(p) => ", "@ + p + ")"@,
                None => ")"@,
            };
            let ordered = match sort {
                Some(s) => ".sort("@ + s + ")"@,
                None => Seq::empty(),
            };
            let skipped = if skip > 0 {
                ".skip("@ + text::signed_decimal(skip as int) + ")"@
            } else {
                Seq::empty()
            };
            &&& code.len() == found.len() + shown.len() + ordered.len() + skipped.len()
                + limit.len()
            &&& code.take(found.len() as int) == found
            &&& code.skip(found.len() as int).take(shown.len() as int) == shown
            &&& code.skip((found.len() + shown.len()) as int).take(ordered.len() as int) == ordered
            &&& code.skip((found.len() + shown.len() + ordered.len()) as int).take(
                skipped.len() as int,
            ) == skipped
            &&& code.skip(code.len() - limit.len()) == limit
        }),
{
    let code = query_input::code_text(collection, filter, projection, sort, skip, page_size);
    let limit = ".limit("@ + text::signed_decimal(page_size as int) + ")"@;
    let found = "db."@ + collection + ".find("@ + filter;
    let shown = match projection {
        Some(p) => ", "@ + p + ")"@,
        None => ")"@,
    };
    let ordered = match sort {
        Some(s) => ".sort("@ + s + ")"@,
        None => Seq::empty(),
    };
    let skipped = if skip > 0 {
        ".skip("@ + text::signed_decimal(skip as int) + ")"@
    } else {
        Seq::empty()
    };
    lemma_five_parts(found, shown, ordered, skipped, limit);
    assert(found + shown + ordered + skipped + ".limit("@ + text::signed_decimal(page_size as int)
        + ")"@ =~= found + shown + ordered + skipped + limit);
    assert(code == found + shown + ordered + skipped + ".limit("@ + text::signed_decimal(
        page_size as int,
    ) + ")"@);
}

proof fn lemma_five_parts(
    a: Seq<char>,
    b: Seq<char>,
    c: Seq<char>,
    d: Seq<char>,
    e: Seq<char>,
)
    ensures
        ({
            let all = a + b + c + d + e;
            &&& all.len() == a.len() + b.len() + c.len() + d.len() + e.len()
            &&& all.take(a.len() as int) == a
            &&& all.skip(a.len() as int).take(b.len() as int) == b
            &&& all.skip((a.len() + b.len()) as int).take(c.len() as int) == c
            &&& all.skip((a.len() + b.len() + c.len()) as int).take(d.len() as int) == d
            &&& all.skip(all.len() - e.len()) == e
        }),
{
    let all = a + b + c + d + e;
    assert(all.take(a.len() as int) =~= a);
    assert(all.skip(a.len() as int).take(b.len() as int) =~= b);
    assert(all.skip((a.len() + b.len()) as int).take(c.len() as int) =~= c);
    assert(all.skip((a.len() + b.len() + c.len()) as int).take(d.len() as int) =~= d);
    assert(all.skip(all.len() - e.len()) =~= e);
}

/// The query that is handed out is the one that was typed: the texts in it are
/// those of its filter, projection and sort in extended JSON, and the numbers
/// those of the page that is shown.
pub proof fn law_code_of_query(
    s: Collection,
    labels: TextsView,
    q: QueryView,
    name: Seq<char>,
    filter: Seq<char>,
    projection: Option<Seq<char>>,
    sort: Option<Seq<char>>,
)
    requires
        is_query_text(s.texts, q),
        s.collection_name == Some(name),
        is_json_of(q.filter, Some(filter)) || (q.filter is None && filter == "{}"@),
        is_json_of(q.projection, projection),
        is_json_of(q.sort, sort),
        0 <= s.page_index,
        q.skip_base + s.page_index * q.page_size <= i64::MAX,
    ensures
        collection_model::export_code(s, labels).effects == seq![
            EffectView::Export {
                kind: crate::collection_types::ExportKind::Code,
                content: query_input::code_text(
                    name,
                    filter,
                    projection,
                    sort,
                    (q.skip_base + s.page_index * q.page_size) as i64,
                    q.page_size,
                ),
            },
        ],
        collection_model::export_code(s, labels).state == s,
{
    law_query_is_what_was_typed(s.texts, labels, q);
}

/// The text is the extended JSON of the document; of none there is none.
pub open spec fn is_json_of(
    d: Option<Seq<(Seq<char>, BsonView)>>,
    s: Option<Seq<char>>,
) -> bool {
    match (d, s) {
        (Some(d), Some(s)) => bson_ext::json_text(
            bson_ext::relaxed_json(BsonView::Document(d)),
        ) == Ok::<Seq<char>, Seq<char>>(s),
        (None, None) => true,
        _ => false,
    }
}

// ---------------------------------------------------------------------------
// Connecting
// ---------------------------------------------------------------------------

/// The text with the option to be known by the database for administration:
/// it is put behind the options that are there, behind the path, or behind the
/// hosts with a slash before it.
pub proof fn law_admin_source(scheme: Seq<char>, hosts: Seq<char>, path: Seq<char>, s: Seq<char>)
    requires
        !scheme.contains('/'),
        !scheme.contains('?'),
        !hosts.contains('/'),
        !hosts.contains('?'),
        !path.contains('?'),
        s.contains('?'),
    ensures
        mongo_connection::with_admin_source(scheme + "://"@ + hosts) == scheme + "://"@ + hosts
            + "/?authSource=admin"@,
        mongo_connection::with_admin_source(scheme + "://"@ + hosts + "/"@ + path) == scheme
            + "://"@ + hosts + "/"@ + path + "?authSource=admin"@,
        s.last() == '?' || s.last() == '&' ==> mongo_connection::with_admin_source(s) == s
            + "authSource=admin"@,
        s.last() != '?' && s.last() != '&' ==> mongo_connection::with_admin_source(s) == s
            + "&authSource=admin"@,
{
    reveal_strlit("://");
    reveal_strlit("/?authSource=admin");
    reveal_strlit("?authSource=admin");
    reveal_strlit("&authSource=admin");
    reveal_strlit("authSource=admin");
    reveal_strlit("/?");
    reveal_strlit("?");
    reveal_strlit("&");
    reveal_strlit("/");
    let bare = scheme + "://"@ + hosts;
    let full = bare + "/"@ + path;
    assert forall|i: int| 0 <= i < bare.len() implies bare[i] != '?' && (bare[i] == '/' ==> i
        == scheme.len() + 1 || i == scheme.len() + 2) by {
        if i < scheme.len() {
            assert(bare[i] == scheme[i]);
        } else if i >= scheme.len() + 3 {
            assert(bare[i] == hosts[i - scheme.len() - 3]);
        }
    }
    assert(!bare.contains('?'));
    assert(!mongo_connection::names_path(bare)) by {
        if mongo_connection::names_path(bare) {
            let (i, j) = choose|i: int, j: int|
                #[trigger] text::occurs_at(bare, "://"@, i) && i + 3 <= j < bare.len()
                    && #[trigger] bare[j] == '/';
            assert(bare.subrange(i, i + 3)[1] == bare[i + 1]);
            assert(bare.subrange(i, i + 3)[2] == bare[i + 2]);
        }
    }
    assert(bare + "/?"@ + "authSource=admin"@ =~= bare + "/?authSource=admin"@);
    assert(!full.contains('?')) by {
        if full.contains('?') {
            let i = choose|i: int| 0 <= i < full.len() && full[i] == '?';
            if i < bare.len() {
                assert(full[i] == bare[i]);
            } else if i > bare.len() {
                assert(full[i] == path[i - bare.len() - 1]);
            }
        }
    }
    assert(mongo_connection::names_path(full)) by {
        assert(full.subrange(scheme.len() as int, (scheme.len() + 3) as int) =~= "://"@);
        assert(text::occurs_at(full, "://"@, scheme.len() as int));
        assert(full[bare.len() as int] == '/');
    }
    assert(full + "?"@ + "authSource=admin"@ =~= full + "?authSource=admin"@);
    assert(s + Seq::<char>::empty() + "authSource=admin"@ =~= s + "authSource=admin"@);
    assert(s + "&"@ + "authSource=admin"@ =~= s + "&authSource=admin"@);
}

/// A server that refuses the user is tried once more with that option, just
/// where the text names a user and not what they are known by.
pub proof fn law_refused_user(s: Seq<char>, message: Seq<char>, a: Seq<char>, b: Seq<char>)
    requires
        message == a + "SCRAM failure"@ + b || message == a + "AuthenticationFailed"@ + b || message
            == a + "code 18"@ + b,
    ensures
        s.contains('@') && !text::occurs(text::ascii_lowered(s), "authsource="@)
            ==> mongo_connection::connect_next(s, false, true, Some(message)) == (
        mongo_connection::ConnectView::Open {
            connection_string: mongo_connection::with_admin_source(s),
            retry: true,
        }),
        !s.contains('@') || text::occurs(text::ascii_lowered(s), "authsource="@)
            ==> mongo_connection::connect_next(s, false, true, Some(message)) is PingFailed,
        mongo_connection::connect_next(s, true, true, Some(message)) is PingFailed,
{
    text_laws::law_occurs(message, a, "SCRAM failure"@, b);
    text_laws::law_occurs(message, a, "AuthenticationFailed"@, b);
    text_laws::law_occurs(message, a, "code 18"@, b);
}

/// A server that answers is kept under the text it was reached with; one that
/// could not be opened is no connection, and any other failure is final.
pub proof fn law_connection_is_kept(
    s: Seq<char>,
    retry: bool,
    refusal: Option<Seq<char>>,
    message: Seq<char>,
)
    ensures
        mongo_connection::connect_first(false, s) == (mongo_connection::ConnectView::Open {
            connection_string: s,
            retry: false,
        }),
        mongo_connection::connect_first(true, s) is Done,
        mongo_connection::connect_next(s, retry, true, None) == (
        mongo_connection::ConnectView::Keep { connection_string: s }),
        mongo_connection::connect_next(s, retry, false, refusal) is ConnectFailed,
        !text::occurs(message, "SCRAM failure"@) && !text::occurs(message, "AuthenticationFailed"@)
            && !text::occurs(message, "code 18"@) ==> mongo_connection::connect_next(
            s,
            retry,
            true,
            Some(message),
        ) is PingFailed,
{
}

// ---------------------------------------------------------------------------
// Replies
// ---------------------------------------------------------------------------

/// The documents of a list are taken in their order; what is no document is
/// left out.
pub proof fn law_documents_among(a: Seq<BsonView>, v: BsonView)
    ensures
        mongo_connection::documents_among(Seq::empty()).len() == 0,
        v matches BsonView::Document(d) ==> mongo_connection::documents_among(a.push(v))
            == mongo_connection::documents_among(a).push(d),
        !(v is Document) ==> mongo_connection::documents_among(a.push(v))
            == mongo_connection::documents_among(a),
{
    assert(a.push(v).drop_last() =~= a);
}

/// What a reply lists stands in its cursor, under the first batch.
pub proof fn law_first_batch(
    reply: Seq<(Seq<char>, BsonView)>,
    cursor: Seq<(Seq<char>, BsonView)>,
    batch: Seq<BsonView>,
)
    ensures
        bson_ext::field(reply, "cursor"@) == Some(BsonView::Document(cursor)) && bson_ext::field(
            cursor,
            "firstBatch"@,
        ) == Some(BsonView::Array(batch)) ==> mongo_connection::first_batch(reply) == Ok::<
            Seq<BsonView>,
            mongo_connection::FaultView,
        >(batch),
        bson_ext::field(reply, "cursor"@) is None ==> mongo_connection::first_batch(reply) == Err::<
            Seq<BsonView>,
            mongo_connection::FaultView,
        >(mongo_connection::FaultView::NotPresent("cursor"@)),
        bson_ext::field(reply, "cursor"@) matches Some(v) && !(v is Document)
            ==> mongo_connection::first_batch(reply) == Err::<
            Seq<BsonView>,
            mongo_connection::FaultView,
        >(mongo_connection::FaultView::UnexpectedKind("cursor"@)),
{
}

/// The rules of a collection stand in the options of the first collection that
/// is listed, under the validator; without them there are none.
pub proof fn law_rules(
    v: Seq<BsonView>,
    d: Seq<(Seq<char>, BsonView)>,
    options: Seq<(Seq<char>, BsonView)>,
    rules: Seq<(Seq<char>, BsonView)>,
)
    ensures
        v.len() > 0 && v[0] == BsonView::Document(d) && bson_ext::field(d, "options"@) == Some(
            BsonView::Document(options),
        ) && bson_ext::field(options, "validator"@) == Some(BsonView::Document(rules))
            ==> mongo_connection::rules_in(v) == Some(rules),
        v.len() == 0 ==> mongo_connection::rules_in(v) is None,
        mongo_connection::rules_in(v) matches Some(r) ==> exists|
            e: Seq<(Seq<char>, BsonView)>,
            o: Seq<(Seq<char>, BsonView)>,
        |
            #![trigger bson_ext::field(e, "options"@), bson_ext::field(o, "validator"@)]
            v[0] == BsonView::Document(e) && bson_ext::field(e, "options"@) == Some(
                BsonView::Document(o),
            ) && bson_ext::field(o, "validator"@) == Some(BsonView::Document(r)),
{
    if let Some(r) = mongo_connection::rules_in(v) {
        let e = v[0]->Document_0;
        let o = (bson_ext::field(e, "options"@)->0)->Document_0;
        assert(bson_ext::field(e, "options"@) == Some(BsonView::Document(o)));
        assert(bson_ext::field(o, "validator"@) == Some(BsonView::Document(r)));
    }
}

} // verus!
