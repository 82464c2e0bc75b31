//! Documents as they are listed and summed up: the list of a result, its
//! texts, and which fields a sample has.
use vstd::prelude::*;

use mongodb::bson::{Bson, Document};

use crate::bson_ext;
use crate::bson_ext::{BsonView, JsonView};
use crate::mongo_types;
use crate::mongo_types::MongoError;
use crate::text;

verus! {

// ---------------------------------------------------------------------------
// Lists of documents
// ---------------------------------------------------------------------------

/// The documents as the values of an array.
pub open spec fn as_values(documents: Seq<Seq<(Seq<char>, BsonView)>>) -> Seq<BsonView> {
    Seq::new(documents.len(), |i: int| BsonView::Document(documents[i]))
}

/// The extended JSON of a list of documents, or why there is none.
pub open spec fn list_text(documents: Seq<Seq<(Seq<char>, BsonView)>>) -> Result<
    Seq<char>,
    Seq<char>,
> {
    bson_ext::json_pretty_text(bson_ext::relaxed_json(BsonView::Array(as_values(documents))))
}

/// The extended JSON of a document, or why there is none.
pub open spec fn pretty_text(document: Seq<(Seq<char>, BsonView)>) -> Result<Seq<char>, Seq<char>> {
    bson_ext::json_pretty_text(bson_ext::relaxed_json(BsonView::Document(document)))
}

/// The extended JSON of a list of documents over several lines.
pub fn documents_to_pretty_json(documents: &Vec<Document>) -> (r: Result<String, MongoError>)
    ensures
        match list_text(bson_ext::document_views(documents@)) {
            Ok(s) => r matches Ok(t) && t@ == s,
            Err(why) => r matches Err(e) && mongo_types::is_unwritable(e, why),
        },
{
    let ghost all = as_values(bson_ext::document_views(documents@));
    let mut array: Vec<Bson> = Vec::new();
    let mut i: usize = 0;
    assert(bson_ext::bson_views(array@) =~= all.take(0));
    while i < documents.len()
        invariant
            i <= documents@.len(),
            all == as_values(bson_ext::document_views(documents@)),
            bson_ext::bson_views(array@) == all.take(i as int),
        decreases documents@.len() - i,
    {
        let ghost before = array@;
        array.push(bson_ext::bson_document(bson_ext::copy_document(&documents[i])));
        assert(bson_ext::bson_views(array@) =~= bson_ext::bson_views(before).push(all[i as int]));
        assert(all.take(i as int + 1) =~= all.take(i as int).push(all[i as int]));
        i = i + 1;
    }
    assert(all.take(all.len() as int) =~= all);
    mongo_types::bson_to_pretty_json(&bson_ext::bson_array(array))
}

/// A document of a result, as it is listed.
#[derive(Debug)]
pub struct DocumentItem {
    pub id: String,
    pub id_bson: Option<Bson>,
    pub document: Document,
    pub pretty_json: String,
}

/// The mathematical value of a [`DocumentItem`].
pub ghost struct ItemView {
    pub id: Seq<char>,
    pub id_bson: Option<BsonView>,
    pub document: Seq<(Seq<char>, BsonView)>,
    pub pretty_json: Seq<char>,
}

/// What an optional value holds.
pub open spec fn opt_bson_view(v: Option<Bson>) -> Option<BsonView> {
    match v {
        Some(v) => Some(bson_ext::bson_view(v)),
        None => None,
    }
}

/// A copy of an optional value.
pub fn copy_opt_bson(v: &Option<Bson>) -> (r: Option<Bson>)
    ensures
        opt_bson_view(r) == opt_bson_view(*v),
{
    match v {
        Some(v) => Some(bson_ext::copy_bson(v)),
        None => None,
    }
}

impl DocumentItem {
    /// The mathematical value of the item.
    pub open spec fn view(&self) -> ItemView {
        ItemView {
            id: self.id@,
            id_bson: opt_bson_view(self.id_bson),
            document: bson_ext::document_view(self.document),
            pretty_json: self.pretty_json@,
        }
    }
}

/// The mathematical values of a list of items.
pub open spec fn item_views(v: Seq<DocumentItem>) -> Seq<ItemView> {
    Seq::new(v.len(), |i: int| v[i]@)
}

/// The documents of a list of items.
pub open spec fn item_documents(v: Seq<ItemView>) -> Seq<Seq<(Seq<char>, BsonView)>> {
    Seq::new(v.len(), |i: int| v[i].document)
}

/// What a document is called in a list: by its id, or else by its place.
pub open spec fn item_name(index: int, id: Option<BsonView>) -> Seq<char> {
    match id {
        Some(v) => mongo_types::plain_text(v),
        None => "#"@ + text::decimal((index + 1) as nat),
    }
}

/// A document of a result, as it is listed.
pub open spec fn item_of(index: int, document: Seq<(Seq<char>, BsonView)>) -> Result<
    ItemView,
    Seq<char>,
> {
    match pretty_text(document) {
        Err(e) => Err(e),
        Ok(pretty_json) => Ok(
            ItemView {
                id: item_name(index, bson_ext::field(document, "_id"@)),
                id_bson: bson_ext::field(document, "_id"@),
                document,
                pretty_json,
            },
        ),
    }
}

/// A result as it is listed; the first document without a text decides why it
/// cannot be.
pub open spec fn items_of(documents: Seq<Seq<(Seq<char>, BsonView)>>) -> Result<
    Seq<ItemView>,
    Seq<char>,
>
    decreases documents.len(),
{
    if documents.len() == 0 {
        Ok(Seq::empty())
    } else {
        match items_of(documents.drop_last()) {
            Err(e) => Err(e),
            Ok(items) => match item_of(documents.len() - 1, documents.last()) {
                Err(e) => Err(e),
                Ok(item) => Ok(items.push(item)),
            },
        }
    }
}

/// A document of a result, as it is listed at the given place.
pub fn document_item_from_document(index: usize, document: Document) -> (r: Result<
    DocumentItem,
    MongoError,
>)
    requires
        index < usize::MAX,
    ensures
        match item_of(index as int, bson_ext::document_view(document)) {
            Ok(item) => r matches Ok(t) && t@ == item,
            Err(why) => r matches Err(e) && mongo_types::is_unwritable(e, why),
        },
{
    let id_bson = bson_ext::get_field(&document, "_id");
    let id = match &id_bson {
        Some(v) => mongo_types::bson_to_string(v),
        None => {
            let mut s = "#".to_owned();
            s.append(text::number((index + 1) as u64).as_str());
            s
        },
    };
    match mongo_types::document_to_pretty_json(&document) {
        Err(e) => Err(e),
        Ok(pretty_json) => Ok(DocumentItem { id, id_bson, document, pretty_json }),
    }
}

proof fn lemma_items_fail(documents: Seq<Seq<(Seq<char>, BsonView)>>, n: int)
    requires
        0 <= n <= documents.len(),
        items_of(documents.take(n)) is Err,
    ensures
        items_of(documents) == items_of(documents.take(n)),
    decreases documents.len() - n,
{
    if n == documents.len() {
        assert(documents.take(n) =~= documents);
    } else {
        assert(documents.take(n + 1).drop_last() =~= documents.take(n));
        lemma_items_fail(documents, n + 1);
    }
}

/// A result as it is listed.
pub fn document_items_from_documents(documents: Vec<Document>) -> (r: Result<
    Vec<DocumentItem>,
    MongoError,
>)
    ensures
        match items_of(bson_ext::document_views(documents@)) {
            Ok(items) => r matches Ok(t) && item_views(t@) == items,
            Err(why) => r matches Err(e) && mongo_types::is_unwritable(e, why),
        },
{
    let ghost all = documents@;
    let ghost ds = bson_ext::document_views(documents@);
    let mut items: Vec<DocumentItem> = Vec::new();
    let mut n: usize = 0;
    let total: usize = documents.len();
    assert(ds.take(0) =~= Seq::empty());
    assert(item_views(items@) =~= Seq::empty());
    for document in it: documents
        invariant
            it.seq() == all,
            ds == bson_ext::document_views(all),
            total == all.len(),
            n == it.index(),
            items_of(ds.take(n as int)) == Ok::<Seq<ItemView>, Seq<char>>(item_views(items@)),
    {
        let ghost before = items@;
        assert(ds.take(n as int + 1).drop_last() =~= ds.take(n as int));
        assert(ds.take(n as int + 1).last() == bson_ext::document_view(document));
        match document_item_from_document(n, document) {
            Ok(item) => {
                items.push(item);
                assert(item_views(items@) =~= item_views(before).push(item@));
            },
            Err(e) => {
                proof {
                    lemma_items_fail(ds, n as int + 1);
                }
                return Err(e);
            },
        }
        n = n + 1;
    }
    assert(ds.take(ds.len() as int) =~= ds);
    Ok(items)
}

/// Listing keeps every document, in its place, under its own id.
pub proof fn law_items_keep_documents(documents: Seq<Seq<(Seq<char>, BsonView)>>)
    ensures
        items_of(documents) matches Ok(items) ==> item_documents(items) == documents && forall|
            i: int,
        |
            0 <= i < items.len() ==> (#[trigger] items[i]).id_bson == bson_ext::field(
                documents[i],
                "_id"@,
            ),
    decreases documents.len(),
{
    if documents.len() > 0 {
        law_items_keep_documents(documents.drop_last());
        if items_of(documents) is Ok {
            let items = items_of(documents)->Ok_0;
            let rest = items_of(documents.drop_last())->Ok_0;
            assert(items.drop_last() =~= rest);
            assert forall|i: int| 0 <= i < items.len() implies item_documents(items)[i]
                == documents[i] && (#[trigger] items[i]).id_bson == bson_ext::field(
                documents[i],
                "_id"@,
            ) by {
                if i < rest.len() {
                    assert(rest[i] == items[i]);
                    assert(item_documents(rest)[i] == documents.drop_last()[i]);
                }
            }
            assert(item_documents(items) =~= documents);
        }
    } else {
        assert(item_documents(Seq::<ItemView>::empty()) =~= documents);
    }
}

// ---------------------------------------------------------------------------
// The fields of a sample
// ---------------------------------------------------------------------------

/// What the kind of a value with the given element type is called.
pub open spec fn kind_name(tag: u8) -> Seq<char> {
    if tag == 0x01 {
        "double"@
    } else if tag == 0x02 {
        "string"@
    } else if tag == 0x03 {
        "document"@
    } else if tag == 0x04 {
        "array"@
    } else if tag == 0x05 {
        "binary"@
    } else if tag == 0x06 {
        "undefined"@
    } else if tag == 0x07 {
        "objectId"@
    } else if tag == 0x08 {
        "bool"@
    } else if tag == 0x09 {
        "date"@
    } else if tag == 0x0a {
        "null"@
    } else if tag == 0x0b {
        "regex"@
    } else if tag == 0x0c {
        "dbPointer"@
    } else if tag == 0x0d {
        "javascript"@
    } else if tag == 0x0e {
        "symbol"@
    } else if tag == 0x0f {
        "javascriptScope"@
    } else if tag == 0x10 {
        "int32"@
    } else if tag == 0x11 {
        "timestamp"@
    } else if tag == 0x12 {
        "int64"@
    } else if tag == 0x13 {
        "decimal128"@
    } else if tag == 0x7f {
        "maxKey"@
    } else {
        "minKey"@
    }
}

/// What the kind of a value is called.
pub open spec fn kind_of(v: BsonView) -> Seq<char> {
    kind_name(bson_ext::element_tag(v))
}

/// What the kind of a value is called.
pub fn bson_type_name(value: &Bson) -> (r: &'static str)
    ensures
        r@ == kind_of(bson_ext::bson_view(*value)),
{
    let tag: u8 = bson_ext::tag_of(value);
    match tag {
        0x01 => "double",
        0x02 => "string",
        0x03 => "document",
        0x04 => "array",
        0x05 => "binary",
        0x06 => "undefined",
        0x07 => "objectId",
        0x08 => "bool",
        0x09 => "date",
        0x0a => "null",
        0x0b => "regex",
        0x0c => "dbPointer",
        0x0d => "javascript",
        0x0e => "symbol",
        0x0f => "javascriptScope",
        0x10 => "int32",
        0x11 => "timestamp",
        0x12 => "int64",
        0x13 => "decimal128",
        0x7f => "maxKey",
        _ => "minKey",
    }
}

/// How a value is shown as an example.
pub open spec fn preview(v: BsonView) -> Seq<char> {
    match bson_ext::serialised(v) {
        Ok(s) => s,
        Err(_) => bson_ext::debug_text(v),
    }
}

/// How a value is shown as an example.
pub fn bson_value_preview(value: &Bson) -> (r: String)
    ensures
        r@ == preview(bson_ext::bson_view(*value)),
{
    match bson_ext::serialise_bson(value) {
        Ok(s) => s,
        Err(_) => bson_ext::debug_of(value),
    }
}

/// The texts with repetitions left out: each where it comes first.
pub open spec fn distinct(v: Seq<Seq<char>>) -> Seq<Seq<char>>
    decreases v.len(),
{
    if v.len() == 0 {
        Seq::empty()
    } else {
        let rest = distinct(v.drop_last());
        if rest.contains(v.last()) {
            rest
        } else {
            rest.push(v.last())
        }
    }
}

/// How often a text occurs.
pub open spec fn occurrences(v: Seq<Seq<char>>, s: Seq<char>) -> nat
    decreases v.len(),
{
    if v.len() == 0 {
        0
    } else {
        occurrences(v.drop_last(), s) + (if v.last() == s {
            1nat
        } else {
            0nat
        })
    }
}

/// All keys of the documents, one document after the other.
pub open spec fn all_keys(documents: Seq<Seq<(Seq<char>, BsonView)>>) -> Seq<Seq<char>>
    decreases documents.len(),
{
    if documents.len() == 0 {
        Seq::empty()
    } else {
        all_keys(documents.drop_last()) + bson_ext::keys(documents.last())
    }
}

/// The values that the documents have under a key, in the order of the
/// documents.
pub open spec fn values_under(
    documents: Seq<Seq<(Seq<char>, BsonView)>>,
    key: Seq<char>,
) -> Seq<BsonView>
    decreases documents.len(),
{
    if documents.len() == 0 {
        Seq::empty()
    } else {
        let rest = values_under(documents.drop_last(), key);
        match bson_ext::field(documents.last(), key) {
            Some(v) => rest.push(v),
            None => rest,
        }
    }
}

/// The names of the kinds of the values.
pub open spec fn kinds_of(values: Seq<BsonView>) -> Seq<Seq<char>> {
    Seq::new(values.len(), |i: int| kind_of(values[i]))
}

/// A count in JSON.
pub open spec fn count_json(n: nat) -> JsonView {
    JsonView::Number(text::decimal(n))
}

/// How often each text occurs, as a JSON object.
pub open spec fn counts_json(names: Seq<Seq<char>>) -> JsonView {
    let kinds = distinct(names);
    JsonView::Object(
        Seq::new(kinds.len(), |i: int| (kinds[i], count_json(occurrences(names, kinds[i])))),
    )
}

/// The first three of the values, as they are shown.
pub open spec fn examples_json(values: Seq<BsonView>) -> JsonView {
    let n = if values.len() < 3 {
        values.len()
    } else {
        3
    };
    JsonView::Array(Seq::new(n, |i: int| JsonView::Text(preview(values[i]))))
}

/// What is said of a field that has these values: how many they are, how many
/// of each kind, and three examples.
pub open spec fn field_json(values: Seq<BsonView>) -> JsonView {
    JsonView::Object(
        seq![
            ("count"@, count_json(values.len())),
            ("types"@, counts_json(kinds_of(values))),
            ("examples"@, examples_json(values)),
        ],
    )
}

/// What is said of a sample: how many documents it has, and of each field
/// which values there are. The fields come in the order they are first seen
/// in.
pub open spec fn schema_json(documents: Seq<Seq<(Seq<char>, BsonView)>>) -> JsonView {
    let fields = distinct(all_keys(documents));
    JsonView::Object(
        seq![
            ("samples"@, count_json(documents.len())),
            (
                "fields"@,
                JsonView::Object(
                    Seq::new(
                        fields.len(),
                        |i: int| (fields[i], field_json(values_under(documents, fields[i]))),
                    ),
                ),
            ),
        ],
    )
}

/// The texts are all different, and none is missing.
pub proof fn lemma_distinct(v: Seq<Seq<char>>)
    ensures
        distinct(v).no_duplicates(),
        distinct(v).len() <= v.len(),
        forall|s: Seq<char>| distinct(v).contains(s) <==> v.contains(s),
    decreases v.len(),
{
    broadcast use vstd::seq_lib::lemma_seq_contains_after_push;

    if v.len() > 0 {
        lemma_distinct(v.drop_last());
        let rest = distinct(v.drop_last());
        assert(v =~= v.drop_last().push(v.last()));
        assert forall|s: Seq<char>| distinct(v).contains(s) <==> v.contains(s) by {
            assert(v.contains(s) <==> v.drop_last().contains(s) || s == v.last());
        }
    }
}

/// The texts without repetitions.
fn distinct_texts(v: &Vec<String>) -> (r: Vec<String>)
    ensures
        text::views(r@) == distinct(text::views(v@)),
{
    let ghost vs = text::views(v@);
    let mut out: Vec<String> = Vec::new();
    let mut i: usize = 0;
    assert(vs.take(0) =~= Seq::empty());
    assert(text::views(out@) =~= Seq::empty());
    while i < v.len()
        invariant
            i <= v@.len(),
            vs == text::views(v@),
            text::views(out@) == distinct(vs.take(i as int)),
        decreases v@.len() - i,
    {
        let ghost before = out@;
        assert(vs.take(i as int + 1).drop_last() =~= vs.take(i as int));
        assert(vs.take(i as int + 1).last() == v@[i as int]@);
        if !text::contains_text(&out, v[i].as_str()) {
            out.push(v[i].clone());
            assert(text::views(out@) =~= text::views(before).push(v@[i as int]@));
        }
        i = i + 1;
    }
    assert(vs.take(vs.len() as int) =~= vs);
    out
}

/// How often a text occurs.
fn count_text(v: &Vec<String>, s: &str) -> (r: usize)
    ensures
        r == occurrences(text::views(v@), s@),
{
    let ghost vs = text::views(v@);
    let mut n: usize = 0;
    let mut i: usize = 0;
    assert(vs.take(0) =~= Seq::empty());
    while i < v.len()
        invariant
            i <= v@.len(),
            n <= i,
            vs == text::views(v@),
            n == occurrences(vs.take(i as int), s@),
        decreases v@.len() - i,
    {
        assert(vs.take(i as int + 1).drop_last() =~= vs.take(i as int));
        assert(vs.take(i as int + 1).last() == v@[i as int]@);
        if text::same(v[i].as_str(), s) {
            n = n + 1;
        }
        i = i + 1;
    }
    assert(vs.take(vs.len() as int) =~= vs);
    n
}

/// How often each text occurs, as a JSON object.
fn counts_to_json(names: &Vec<String>) -> (r: serde_json::Value)
    ensures
        bson_ext::json_view(r) == counts_json(text::views(names@)),
{
    let ghost ns = text::views(names@);
    let kinds = distinct_texts(names);
    let ghost ks = distinct(ns);
    let mut entries: Vec<(String, serde_json::Value)> = Vec::new();
    let mut i: usize = 0;
    while i < kinds.len()
        invariant
            i <= kinds@.len(),
            ns == text::views(names@),
            ks == distinct(ns),
            text::views(kinds@) == ks,
            entries@.len() == i,
            forall|j: int|
                0 <= j < i ==> (#[trigger] entries@[j]).0@ == ks[j] && bson_ext::json_view(
                    entries@[j].1,
                ) == count_json(occurrences(ns, ks[j])),
        decreases kinds@.len() - i,
    {
        assert(ks[i as int] == kinds@[i as int]@);
        let n: usize = count_text(names, kinds[i].as_str());
        entries.push((kinds[i].clone(), bson_ext::json_count(n)));
        i = i + 1;
    }
    proof {
        lemma_distinct(ns);
        assert(Seq::new(entries@.len(), |i: int| entries@[i].0@) =~= ks);
        assert(bson_ext::json_entries(entries@) =~= Seq::new(
            ks.len(),
            |i: int| (ks[i], count_json(occurrences(ns, ks[i]))),
        ));
    }
    bson_ext::json_object(entries)
}

/// The values that the documents have under a key.
fn collect_values(documents: &Vec<Document>, key: &str) -> (r: Vec<Bson>)
    ensures
        bson_ext::bson_views(r@) == values_under(bson_ext::document_views(documents@), key@),
{
    let ghost ds = bson_ext::document_views(documents@);
    let mut out: Vec<Bson> = Vec::new();
    let mut i: usize = 0;
    assert(ds.take(0) =~= Seq::empty());
    assert(bson_ext::bson_views(out@) =~= Seq::empty());
    while i < documents.len()
        invariant
            i <= documents@.len(),
            ds == bson_ext::document_views(documents@),
            bson_ext::bson_views(out@) == values_under(ds.take(i as int), key@),
        decreases documents@.len() - i,
    {
        let ghost before = out@;
        assert(ds.take(i as int + 1).drop_last() =~= ds.take(i as int));
        assert(ds.take(i as int + 1).last() == bson_ext::document_view(documents@[i as int]));
        if let Some(v) = bson_ext::get_field(&documents[i], key) {
            out.push(v);
            assert(bson_ext::bson_views(out@) =~= bson_ext::bson_views(before).push(
                bson_ext::bson_view(v),
            ));
        }
        i = i + 1;
    }
    assert(ds.take(ds.len() as int) =~= ds);
    out
}

/// What is said of a field that has these values.
fn field_to_json(values: &Vec<Bson>) -> (r: serde_json::Value)
    ensures
        bson_ext::json_view(r) == field_json(bson_ext::bson_views(values@)),
{
    let ghost vs = bson_ext::bson_views(values@);
    let mut names: Vec<String> = Vec::new();
    let mut examples: Vec<serde_json::Value> = Vec::new();
    let mut i: usize = 0;
    while i < values.len()
        invariant
            i <= values@.len(),
            vs == bson_ext::bson_views(values@),
            names@.len() == i,
            forall|j: int| 0 <= j < i ==> (#[trigger] names@[j])@ == kind_of(vs[j]),
            examples@.len() == (if i < 3 {
                i as int
            } else {
                3
            }),
            forall|j: int|
                0 <= j < examples@.len() ==> bson_ext::json_view(#[trigger] examples@[j])
                    == JsonView::Text(preview(vs[j])),
        decreases values@.len() - i,
    {
        names.push(bson_type_name(&values[i]).to_owned());
        if examples.len() < 3 {
            examples.push(bson_ext::json_string(bson_value_preview(&values[i])));
        }
        i = i + 1;
    }
    assert(text::views(names@) =~= kinds_of(vs));
    let ghost shown = bson_ext::json_views(examples@);
    assert(examples_json(vs) is Array);
    assert(shown =~= examples_json(vs)->Array_0);
    let mut entries: Vec<(String, serde_json::Value)> = Vec::new();
    entries.push(("count".to_owned(), bson_ext::json_count(values.len())));
    entries.push(("types".to_owned(), counts_to_json(&names)));
    entries.push(("examples".to_owned(), bson_ext::json_array(examples)));
    proof {
        reveal_strlit("count");
        reveal_strlit("types");
        reveal_strlit("examples");
        let ks = Seq::new(entries@.len(), |i: int| entries@[i].0@);
        assert(ks =~= seq!["count"@, "types"@, "examples"@]);
        assert("count"@[0] != "types"@[0]);
        assert("count"@.len() != "examples"@.len());
        assert("types"@.len() != "examples"@.len());
        assert(bson_ext::json_entries(entries@) =~= field_json(vs)->Object_0);
    }
    bson_ext::json_object(entries)
}

/// All keys of the documents.
fn collect_keys(documents: &Vec<Document>) -> (r: Vec<String>)
    ensures
        text::views(r@) == all_keys(bson_ext::document_views(documents@)),
{
    let ghost ds = bson_ext::document_views(documents@);
    let mut out: Vec<String> = Vec::new();
    let mut i: usize = 0;
    assert(ds.take(0) =~= Seq::empty());
    assert(text::views(out@) =~= Seq::empty());
    while i < documents.len()
        invariant
            i <= documents@.len(),
            ds == bson_ext::document_views(documents@),
            text::views(out@) == all_keys(ds.take(i as int)),
        decreases documents@.len() - i,
    {
        let ghost before = out@;
        assert(ds.take(i as int + 1).drop_last() =~= ds.take(i as int));
        assert(ds.take(i as int + 1).last() == bson_ext::document_view(documents@[i as int]));
        let mut keys = bson_ext::document_keys(&documents[i]);
        let ghost added = keys@;
        out.append(&mut keys);
        assert(text::views(out@) =~= text::views(before) + text::views(added));
        i = i + 1;
    }
    assert(ds.take(ds.len() as int) =~= ds);
    out
}

/// What is said of a sample, in JSON.
pub fn schema_value(documents: &Vec<Document>) -> (r: serde_json::Value)
    ensures
        bson_ext::json_view(r) == schema_json(bson_ext::document_views(documents@)),
{
    let ghost ds = bson_ext::document_views(documents@);
    let keys = collect_keys(documents);
    let fields = distinct_texts(&keys);
    let ghost fs = distinct(all_keys(ds));
    let mut entries: Vec<(String, serde_json::Value)> = Vec::new();
    let mut i: usize = 0;
    while i < fields.len()
        invariant
            i <= fields@.len(),
            ds == bson_ext::document_views(documents@),
            text::views(fields@) == fs,
            entries@.len() == i,
            forall|j: int|
                0 <= j < i ==> (#[trigger] entries@[j]).0@ == fs[j] && bson_ext::json_view(
                    entries@[j].1,
                ) == field_json(values_under(ds, fs[j])),
        decreases fields@.len() - i,
    {
        assert(fs[i as int] == fields@[i as int]@);
        let values = collect_values(documents, fields[i].as_str());
        entries.push((fields[i].clone(), field_to_json(&values)));
        i = i + 1;
    }
    proof {
        lemma_distinct(all_keys(ds));
        assert(Seq::new(entries@.len(), |i: int| entries@[i].0@) =~= fs);
        assert(bson_ext::json_entries(entries@) =~= Seq::new(
            fs.len(),
            |i: int| (fs[i], field_json(values_under(ds, fs[i]))),
        ));
    }
    let mut all: Vec<(String, serde_json::Value)> = Vec::new();
    all.push(("samples".to_owned(), bson_ext::json_count(documents.len())));
    all.push(("fields".to_owned(), bson_ext::json_object(entries)));
    proof {
        reveal_strlit("samples");
        reveal_strlit("fields");
        assert(Seq::new(all@.len(), |i: int| all@[i].0@) =~= seq!["samples"@, "fields"@]);
        assert("samples"@.len() != "fields"@.len());
        assert(bson_ext::json_entries(all@) =~= schema_json(ds)->Object_0);
    }
    bson_ext::json_object(all)
}

/// What is said of a sample, as text.
pub fn build_schema_payload(documents: &Vec<Document>) -> (r: Result<String, MongoError>)
    ensures
        match bson_ext::json_pretty_text(schema_json(bson_ext::document_views(documents@))) {
            Ok(s) => r matches Ok(t) && t@ == s,
            Err(why) => r matches Err(e) && mongo_types::is_unwritable(e, why),
        },
{
    let value = schema_value(documents);
    match bson_ext::write_json_pretty(&value) {
        Ok(s) => Ok(s),
        Err(e) => Err(MongoError::Serialization(e)),
    }
}

/// How many of the documents have a key.
pub open spec fn documents_with(
    documents: Seq<Seq<(Seq<char>, BsonView)>>,
    key: Seq<char>,
) -> nat
    decreases documents.len(),
{
    if documents.len() == 0 {
        0
    } else {
        documents_with(documents.drop_last(), key) + (if bson_ext::keys(
            documents.last(),
        ).contains(key) {
            1nat
        } else {
            0nat
        })
    }
}

/// The sum of how often the texts of `kinds` occur in `names`.
pub open spec fn occurrence_sum(names: Seq<Seq<char>>, kinds: Seq<Seq<char>>) -> nat
    decreases kinds.len(),
{
    if kinds.len() == 0 {
        0
    } else {
        occurrence_sum(names, kinds.drop_last()) + occurrences(names, kinds.last())
    }
}

proof fn lemma_occurrence_sum_push(names: Seq<Seq<char>>, name: Seq<char>, kinds: Seq<Seq<char>>)
    requires
        kinds.no_duplicates(),
    ensures
        occurrence_sum(names.push(name), kinds) == occurrence_sum(names, kinds) + (
        if kinds.contains(name) {
            1nat
        } else {
            0nat
        }),
    decreases kinds.len(),
{
    if kinds.len() > 0 {
        let rest = kinds.drop_last();
        lemma_occurrence_sum_push(names, name, rest);
        assert(names.push(name).drop_last() =~= names);
        assert(kinds =~= rest.push(kinds.last()));
        assert(kinds.contains(name) <==> rest.contains(name) || name == kinds.last()) by {
            broadcast use vstd::seq_lib::lemma_seq_contains_after_push;

        }
        if rest.contains(name) {
            let j = choose|j: int| 0 <= j < rest.len() && rest[j] == name;
            assert(kinds[j] == name);
        }
    }
}

proof fn lemma_no_occurrence(names: Seq<Seq<char>>, name: Seq<char>)
    requires
        !names.contains(name),
    ensures
        occurrences(names, name) == 0,
    decreases names.len(),
{
    if names.len() > 0 {
        assert(names[names.len() - 1] == names.last());
        assert(!names.drop_last().contains(name)) by {
            if names.drop_last().contains(name) {
                let j = choose|j: int|
                    0 <= j < names.drop_last().len() && names.drop_last()[j] == name;
                assert(names[j] == name);
            }
        }
        lemma_no_occurrence(names.drop_last(), name);
    }
}

proof fn lemma_occurrences_add_up(names: Seq<Seq<char>>)
    ensures
        occurrence_sum(names, distinct(names)) == names.len(),
    decreases names.len(),
{
    if names.len() > 0 {
        let before = names.drop_last();
        let name = names.last();
        lemma_occurrences_add_up(before);
        lemma_distinct(before);
        assert(names =~= before.push(name));
        let kinds = distinct(before);
        lemma_occurrence_sum_push(before, name, kinds);
        if !kinds.contains(name) {
            assert(kinds.push(name).drop_last() =~= kinds);
            lemma_no_occurrence(before, name);
            assert(occurrences(names, name) == 1);
        }
    }
}

/// The numbers that a summary gives of a field fit together: it counts the
/// documents that have the field, never more than the sample has, and the
/// kinds of its values add up to that count.
pub proof fn law_schema_counts(documents: Seq<Seq<(Seq<char>, BsonView)>>, key: Seq<char>)
    ensures
        values_under(documents, key).len() == documents_with(documents, key),
        values_under(documents, key).len() <= documents.len(),
        ({
            let names = kinds_of(values_under(documents, key));
            occurrence_sum(names, distinct(names)) == values_under(documents, key).len()
        }),
    decreases documents.len(),
{
    lemma_occurrences_add_up(kinds_of(values_under(documents, key)));
    if documents.len() > 0 {
        law_schema_counts(documents.drop_last(), key);
        bson_ext::lemma_field_has_key(documents.last(), key);
    }
}

/// A summary names each field of the sample once, and no other.
pub proof fn law_schema_fields(documents: Seq<Seq<(Seq<char>, BsonView)>>, key: Seq<char>)
    ensures
        distinct(all_keys(documents)).no_duplicates(),
        distinct(all_keys(documents)).contains(key) <==> documents_with(documents, key) > 0,
    decreases documents.len(),
{
    lemma_distinct(all_keys(documents));
    if documents.len() > 0 {
        let rest = documents.drop_last();
        law_schema_fields(rest, key);
        lemma_distinct(all_keys(rest));
        let a = all_keys(rest);
        let b = bson_ext::keys(documents.last());
        if a.contains(key) {
            let j = choose|j: int| 0 <= j < a.len() && a[j] == key;
            assert((a + b)[j] == key);
        }
        if b.contains(key) {
            let j = choose|j: int| 0 <= j < b.len() && b[j] == key;
            assert((a + b)[a.len() + j] == key);
        }
        if (a + b).contains(key) {
            let j = choose|j: int| 0 <= j < (a + b).len() && (a + b)[j] == key;
            if j < a.len() {
                assert(a[j] == key);
            } else {
                assert(b[j - a.len()] == key);
            }
        }
    }
}

} // verus!
