//! BSON and JSON values of the `bson` and `serde_json` crates, and what is
//! relied on about them.
//!
//! A value is known by what it holds: [`bson_view`] and [`json_view`] name
//! that. The functions here call one function of those crates each; nothing in
//! this file is proved but [`field`], [`with_field`] and what is built on them.
use vstd::prelude::*;

use mongodb::bson::{Bson, Document};

use crate::text;

verus! {

#[verifier::external_type_specification]
#[verifier::external_body]
pub struct ExBson(mongodb::bson::Bson);

#[verifier::external_type_specification]
#[verifier::external_body]
pub struct ExDocument(mongodb::bson::Document);

#[verifier::external_type_specification]
#[verifier::external_body]
pub struct ExJsonValue(serde_json::Value);

/// What a BSON value holds.
///
/// A double is known by its bits, an object id by its digits and a date by its
/// milliseconds since 1970. The rarer kinds are `Other`: their element type in
/// the BSON format, and bytes that stand for all that the value holds.
pub ghost enum BsonView {
    Double(u64),
    Text(Seq<char>),
    Document(Seq<(Seq<char>, BsonView)>),
    Array(Seq<BsonView>),
    ObjectId(Seq<char>),
    Boolean(bool),
    DateTime(i64),
    Null,
    Int32(i32),
    Int64(i64),
    Other(u8, Seq<u8>),
}

/// What a JSON value holds; a number is known by its text.
pub ghost enum JsonView {
    Null,
    Bool(bool),
    Number(Seq<char>),
    Text(Seq<char>),
    Array(Seq<JsonView>),
    Object(Seq<(Seq<char>, JsonView)>),
}

/// What a value of the `bson` crate holds.
pub uninterp spec fn bson_view(value: mongodb::bson::Bson) -> BsonView;

/// The fields of a document of the `bson` crate, in their order.
pub uninterp spec fn document_view(document: mongodb::bson::Document) -> Seq<(Seq<char>, BsonView)>;

/// What a value of the `serde_json` crate holds.
pub uninterp spec fn json_view(value: serde_json::Value) -> JsonView;

/// What the values of a list hold.
pub open spec fn bson_views(v: Seq<Bson>) -> Seq<BsonView> {
    Seq::new(v.len(), |i: int| bson_view(v[i]))
}

/// The fields of a list of documents.
pub open spec fn document_views(v: Seq<Document>) -> Seq<Seq<(Seq<char>, BsonView)>> {
    Seq::new(v.len(), |i: int| document_view(v[i]))
}

/// What the values of a list hold.
pub open spec fn json_views(v: Seq<serde_json::Value>) -> Seq<JsonView> {
    Seq::new(v.len(), |i: int| json_view(v[i]))
}

/// The entries of a list of named JSON values.
pub open spec fn json_entries(v: Seq<(String, serde_json::Value)>) -> Seq<(Seq<char>, JsonView)> {
    Seq::new(v.len(), |i: int| (v[i].0@, json_view(v[i].1)))
}

/// The element type of a value in the BSON format.
pub open spec fn element_tag(v: BsonView) -> u8 {
    match v {
        BsonView::Double(_) => 0x01,
        BsonView::Text(_) => 0x02,
        BsonView::Document(_) => 0x03,
        BsonView::Array(_) => 0x04,
        BsonView::ObjectId(_) => 0x07,
        BsonView::Boolean(_) => 0x08,
        BsonView::DateTime(_) => 0x09,
        BsonView::Null => 0x0a,
        BsonView::Int32(_) => 0x10,
        BsonView::Int64(_) => 0x12,
        BsonView::Other(tag, _) => tag,
    }
}

/// The element types of the rarer kinds of values.
pub open spec fn is_other_tag(tag: u8) -> bool {
    tag == 0x05 || tag == 0x06 || 0x0b <= tag <= 0x0f || tag == 0x11 || tag == 0x13 || tag == 0x7f
        || tag == 0xff
}

// ---------------------------------------------------------------------------
// Reading a BSON value
// ---------------------------------------------------------------------------

/// `Bson::element_type`: the kind of the value, as the byte that the BSON
/// format gives it.
#[verifier::external_body]
pub(crate) fn tag_of(value: &Bson) -> (r: u8)
    ensures
        r == element_tag(bson_view(*value)),
        bson_view(*value) is Other ==> is_other_tag(r),
{
    value.element_type() as u8
}

/// `Bson::as_str`: the text, of a text.
#[verifier::external_body]
pub(crate) fn text_of(value: &Bson) -> (r: Option<String>)
    ensures
        match r {
            Some(s) => bson_view(*value) == BsonView::Text(s@),
            None => !(bson_view(*value) is Text),
        },
{
    value.as_str().map(|s| s.to_owned())
}

/// `Bson::as_i32`: the number, of a 32-bit integer.
#[verifier::external_body]
pub(crate) fn int32_of(value: &Bson) -> (r: Option<i32>)
    ensures
        match r {
            Some(v) => bson_view(*value) == BsonView::Int32(v),
            None => !(bson_view(*value) is Int32),
        },
{
    value.as_i32()
}

/// `Bson::as_i64`: the number, of a 64-bit integer.
#[verifier::external_body]
pub(crate) fn int64_of(value: &Bson) -> (r: Option<i64>)
    ensures
        match r {
            Some(v) => bson_view(*value) == BsonView::Int64(v),
            None => !(bson_view(*value) is Int64),
        },
{
    value.as_i64()
}

/// `Bson::as_bool`: the truth value, of a truth value.
#[verifier::external_body]
pub(crate) fn bool_of(value: &Bson) -> (r: Option<bool>)
    ensures
        match r {
            Some(v) => bson_view(*value) == BsonView::Boolean(v),
            None => !(bson_view(*value) is Boolean),
        },
{
    value.as_bool()
}

/// The decimal text of the double with these bits.
pub uninterp spec fn double_text(bits: u64) -> Seq<char>;

/// `Bson::as_f64`, and the text that `ToString` gives for the number: the
/// text, of a double.
#[verifier::external_body]
pub(crate) fn double_text_of(value: &Bson) -> (r: Option<String>)
    ensures
        match r {
            Some(s) => bson_view(*value) matches BsonView::Double(bits) && s@ == double_text(bits),
            None => !(bson_view(*value) is Double),
        },
{
    value.as_f64().map(|x| x.to_string())
}

/// `Bson::as_object_id` and `ObjectId::to_hex`: the digits, of an object id.
#[verifier::external_body]
pub(crate) fn object_id_of(value: &Bson) -> (r: Option<String>)
    ensures
        match r {
            Some(s) => bson_view(*value) == BsonView::ObjectId(s@),
            None => !(bson_view(*value) is ObjectId),
        },
{
    value.as_object_id().map(|id| id.to_hex())
}

/// `Bson::as_datetime` and `DateTime::timestamp_millis`: the milliseconds, of
/// a date.
#[verifier::external_body]
pub(crate) fn date_millis_of(value: &Bson) -> (r: Option<i64>)
    ensures
        match r {
            Some(v) => bson_view(*value) == BsonView::DateTime(v),
            None => !(bson_view(*value) is DateTime),
        },
{
    value.as_datetime().map(|date| date.timestamp_millis())
}

/// The RFC 3339 text of the date that many milliseconds after 1970; nothing
/// where it has none.
pub uninterp spec fn date_text(millis: i64) -> Option<Seq<char>>;

/// `DateTime::try_to_rfc3339_string`: the RFC 3339 text of a date, and of
/// nothing else.
#[verifier::external_body]
pub(crate) fn date_text_of(value: &Bson) -> (r: Option<String>)
    ensures
        text::opt_view(r) == match bson_view(*value) {
            BsonView::DateTime(millis) => date_text(millis),
            _ => None,
        },
{
    value.as_datetime().and_then(|date| date.try_to_rfc3339_string().ok())
}

/// `Bson::as_document`: the document, of a document.
#[verifier::external_body]
pub(crate) fn document_of(value: &Bson) -> (r: Option<Document>)
    ensures
        match r {
            Some(d) => bson_view(*value) == BsonView::Document(document_view(d)),
            None => !(bson_view(*value) is Document),
        },
{
    value.as_document().cloned()
}

/// `Bson::as_array`: the values, of an array.
#[verifier::external_body]
pub(crate) fn array_of(value: &Bson) -> (r: Option<Vec<Bson>>)
    ensures
        match r {
            Some(v) => bson_view(*value) == BsonView::Array(bson_views(v@)),
            None => !(bson_view(*value) is Array),
        },
{
    value.as_array().cloned()
}

/// The text that `Debug` writes for a BSON value.
pub uninterp spec fn debug_text(value: BsonView) -> Seq<char>;

/// The `Debug` text of the value.
#[verifier::external_body]
pub(crate) fn debug_of(value: &Bson) -> (r: String)
    ensures
        r@ == debug_text(bson_view(*value)),
{
    format!("{:?}", value)
}

/// `Bson::clone`: a value that holds the same.
#[verifier::external_body]
pub(crate) fn copy_bson(value: &Bson) -> (r: Bson)
    ensures
        bson_view(r) == bson_view(*value),
{
    value.clone()
}

/// The two kinds of values compare by what they hold: texts, integers, truth
/// values, object ids, dates and null.
pub open spec fn compares_by_contents(v: BsonView) -> bool {
    v is Text || v is Int32 || v is Int64 || v is Boolean || v is ObjectId || v is DateTime || v is Null
}

/// The values are equal as the `bson` crate compares them. It compares doubles
/// as numbers, and documents whatever the order of their fields.
pub uninterp spec fn same_value(a: BsonView, b: BsonView) -> bool;

/// `PartialEq` for `Bson`.
#[verifier::external_body]
pub(crate) fn same_bson(a: &Bson, b: &Bson) -> (r: bool)
    ensures
        r == same_value(bson_view(*a), bson_view(*b)),
        compares_by_contents(bson_view(*a)) || compares_by_contents(bson_view(*b)) ==> r == (bson_view(
            *a,
        ) == bson_view(*b)),
{
    a == b
}

// ---------------------------------------------------------------------------
// Making a BSON value
// ---------------------------------------------------------------------------

/// `Bson::String`.
#[verifier::external_body]
pub(crate) fn bson_text(s: String) -> (r: Bson)
    ensures
        bson_view(r) == BsonView::Text(s@),
{
    Bson::String(s)
}

/// `Bson::Int32`.
#[verifier::external_body]
pub(crate) fn bson_int32(v: i32) -> (r: Bson)
    ensures
        bson_view(r) == BsonView::Int32(v),
{
    Bson::Int32(v)
}

/// `Bson::Int64`.
#[verifier::external_body]
pub(crate) fn bson_int64(v: i64) -> (r: Bson)
    ensures
        bson_view(r) == BsonView::Int64(v),
{
    Bson::Int64(v)
}

/// `Bson::Boolean`.
#[verifier::external_body]
pub(crate) fn bson_bool(v: bool) -> (r: Bson)
    ensures
        bson_view(r) == BsonView::Boolean(v),
{
    Bson::Boolean(v)
}

/// `Bson::Null`.
#[verifier::external_body]
pub(crate) fn bson_null() -> (r: Bson)
    ensures
        bson_view(r) == BsonView::Null,
{
    Bson::Null
}

/// `Bson::Document`.
#[verifier::external_body]
pub(crate) fn bson_document(d: Document) -> (r: Bson)
    ensures
        bson_view(r) == BsonView::Document(document_view(d)),
{
    Bson::Document(d)
}

/// `Bson::Array`.
#[verifier::external_body]
pub(crate) fn bson_array(v: Vec<Bson>) -> (r: Bson)
    ensures
        bson_view(r) == BsonView::Array(bson_views(v@)),
{
    Bson::Array(v)
}

/// What reading a text as a double gives: its bits, or what is wrong with it.
pub uninterp spec fn parsed_double(s: Seq<char>) -> Result<u64, Seq<char>>;

/// `str::parse` into the number of a `Bson::Double`.
#[verifier::external_body]
pub(crate) fn parse_double(s: &str) -> (r: Result<Bson, String>)
    ensures
        match r {
            Ok(v) => parsed_double(s@) matches Ok(bits) && bson_view(v) == BsonView::Double(bits),
            Err(e) => parsed_double(s@) == Err::<u64, Seq<char>>(e@),
        },
{
    s.parse().map(Bson::Double).map_err(|e| e.to_string())
}

/// What reading an RFC 3339 text gives: the milliseconds since 1970, or what
/// is wrong with it.
pub uninterp spec fn parsed_date(s: Seq<char>) -> Result<i64, Seq<char>>;

/// `DateTime::parse_rfc3339_str`.
#[verifier::external_body]
pub(crate) fn parse_date(s: &str) -> (r: Result<Bson, String>)
    ensures
        match r {
            Ok(v) => parsed_date(s@) matches Ok(millis) && bson_view(v) == BsonView::DateTime(
                millis,
            ),
            Err(e) => parsed_date(s@) == Err::<i64, Seq<char>>(e@),
        },
{
    mongodb::bson::DateTime::parse_rfc3339_str(s).map(Bson::DateTime).map_err(|e| e.to_string())
}

/// What `str::parse` says of a text that is no 32-bit integer.
pub uninterp spec fn int32_error(s: Seq<char>) -> Seq<char>;

/// `str::parse` into a 32-bit integer: digits, with at most one sign before
/// them, that stand for a number in range.
#[verifier::external_body]
pub(crate) fn parse_int32(s: &str) -> (r: Result<i32, String>)
    ensures
        match r {
            Ok(v) => text::int_within(s@, i32::MIN as int, i32::MAX as int) == Some(v as int),
            Err(e) => text::int_within(s@, i32::MIN as int, i32::MAX as int) is None && e@
                == int32_error(s@),
        },
{
    s.parse::<i32>().map_err(|e| e.to_string())
}

/// What `str::parse` says of a text that is no 64-bit integer.
pub uninterp spec fn int64_error(s: Seq<char>) -> Seq<char>;

/// `str::parse` into a 64-bit integer: digits, with at most one sign before
/// them, that stand for a number in range.
#[verifier::external_body]
pub(crate) fn parse_int64(s: &str) -> (r: Result<i64, String>)
    ensures
        match r {
            Ok(v) => text::int_within(s@, i64::MIN as int, i64::MAX as int) == Some(v as int),
            Err(e) => text::int_within(s@, i64::MIN as int, i64::MAX as int) is None && e@
                == int64_error(s@),
        },
{
    s.parse::<i64>().map_err(|e| e.to_string())
}

/// What `str::parse` says of a text that is no truth value.
pub uninterp spec fn bool_error(s: Seq<char>) -> Seq<char>;

/// `str::parse` into a truth value: `true` and `false` alone are read.
#[verifier::external_body]
pub(crate) fn parse_bool(s: &str) -> (r: Result<bool, String>)
    ensures
        match r {
            Ok(v) => s@ == (if v {
                "true"@
            } else {
                "false"@
            }),
            Err(e) => s@ != "true"@ && s@ != "false"@ && e@ == bool_error(s@),
        },
{
    s.parse::<bool>().map_err(|e| e.to_string())
}

// ---------------------------------------------------------------------------
// Documents
// ---------------------------------------------------------------------------

/// The field with the given key.
pub open spec fn field(d: Seq<(Seq<char>, BsonView)>, key: Seq<char>) -> Option<BsonView>
    decreases d.len(),
{
    if d.len() == 0 {
        None
    } else if d[0].0 == key {
        Some(d[0].1)
    } else {
        field(d.drop_first(), key)
    }
}

/// The keys of a document, in their order.
pub open spec fn keys(d: Seq<(Seq<char>, BsonView)>) -> Seq<Seq<char>> {
    Seq::new(d.len(), |i: int| d[i].0)
}

/// The document with the given field: in its place where the key is there, at
/// the end where it is not.
pub open spec fn with_field(
    d: Seq<(Seq<char>, BsonView)>,
    key: Seq<char>,
    value: BsonView,
) -> Seq<(Seq<char>, BsonView)> {
    if keys(d).contains(key) {
        Seq::new(
            d.len(),
            |i: int|
                if d[i].0 == key {
                    (key, value)
                } else {
                    d[i]
                },
        )
    } else {
        d.push((key, value))
    }
}

/// `Document::new`: a document without fields.
#[verifier::external_body]
pub(crate) fn new_document() -> (r: Document)
    ensures
        document_view(r) == Seq::<(Seq<char>, BsonView)>::empty(),
{
    Document::new()
}

/// `Document::clone`: a document with the same fields.
#[verifier::external_body]
pub(crate) fn copy_document(d: &Document) -> (r: Document)
    ensures
        document_view(r) == document_view(*d),
{
    d.clone()
}

/// `Document::get`: the value under the key.
#[verifier::external_body]
pub(crate) fn get_field(d: &Document, key: &str) -> (r: Option<Bson>)
    ensures
        match r {
            Some(v) => field(document_view(*d), key@) == Some(bson_view(v)),
            None => field(document_view(*d), key@) is None,
        },
{
    d.get(key).cloned()
}

/// `Document::insert`: a key that is there keeps its place, a new one comes
/// last.
#[verifier::external_body]
pub(crate) fn set_field(d: &mut Document, key: String, value: Bson)
    ensures
        document_view(*final(d)) == with_field(document_view(*old(d)), key@, bson_view(value)),
{
    d.insert(key, value);
}

/// `Document::keys`: the keys in the order of the fields, each once.
#[verifier::external_body]
pub(crate) fn document_keys(d: &Document) -> (r: Vec<String>)
    ensures
        text::views(r@) == keys(document_view(*d)),
        text::views(r@).no_duplicates(),
{
    d.keys().cloned().collect()
}

// ---------------------------------------------------------------------------
// JSON
// ---------------------------------------------------------------------------

/// The relaxed extended JSON of a BSON value.
pub uninterp spec fn relaxed_json(value: BsonView) -> JsonView;

/// `Bson::into_relaxed_extjson`.
#[verifier::external_body]
pub(crate) fn to_relaxed_json(value: &Bson) -> (r: serde_json::Value)
    ensures
        json_view(r) == relaxed_json(bson_view(*value)),
{
    value.clone().into_relaxed_extjson()
}

/// What reading a JSON value as BSON gives: the value, or what is wrong.
pub uninterp spec fn bson_of_json(value: JsonView) -> Result<BsonView, Seq<char>>;

/// `Bson::try_from` for a JSON value.
#[verifier::external_body]
pub(crate) fn bson_from_json(value: serde_json::Value) -> (r: Result<Bson, String>)
    ensures
        match r {
            Ok(v) => bson_of_json(json_view(value)) == Ok::<BsonView, Seq<char>>(bson_view(v)),
            Err(e) => bson_of_json(json_view(value)) == Err::<BsonView, Seq<char>>(e@),
        },
{
    Bson::try_from(value).map_err(|e| e.to_string())
}

/// What reading a text as JSON gives: the value, or what is wrong.
pub uninterp spec fn parsed_json(s: Seq<char>) -> Result<JsonView, Seq<char>>;

/// `serde_json::from_str` for a JSON value.
#[verifier::external_body]
pub(crate) fn parse_json(s: &str) -> (r: Result<serde_json::Value, String>)
    ensures
        match r {
            Ok(v) => parsed_json(s@) == Ok::<JsonView, Seq<char>>(json_view(v)),
            Err(e) => parsed_json(s@) == Err::<JsonView, Seq<char>>(e@),
        },
{
    serde_json::from_str(s).map_err(|e| e.to_string())
}

/// The text of a JSON value on one line, or why there is none.
pub uninterp spec fn json_text(value: JsonView) -> Result<Seq<char>, Seq<char>>;

/// `serde_json::to_string` for a JSON value.
#[verifier::external_body]
pub(crate) fn write_json(value: &serde_json::Value) -> (r: Result<String, String>)
    ensures
        match r {
            Ok(s) => json_text(json_view(*value)) == Ok::<Seq<char>, Seq<char>>(s@),
            Err(e) => json_text(json_view(*value)) == Err::<Seq<char>, Seq<char>>(e@),
        },
{
    serde_json::to_string(value).map_err(|e| e.to_string())
}

/// The text of a JSON value over several lines, or why there is none.
pub uninterp spec fn json_pretty_text(value: JsonView) -> Result<Seq<char>, Seq<char>>;

/// `serde_json::to_string_pretty` for a JSON value.
#[verifier::external_body]
pub(crate) fn write_json_pretty(value: &serde_json::Value) -> (r: Result<String, String>)
    ensures
        match r {
            Ok(s) => json_pretty_text(json_view(*value)) == Ok::<Seq<char>, Seq<char>>(s@),
            Err(e) => json_pretty_text(json_view(*value)) == Err::<Seq<char>, Seq<char>>(e@),
        },
{
    serde_json::to_string_pretty(value).map_err(|e| e.to_string())
}

/// The JSON text that a BSON value serialises to, or why there is none.
pub uninterp spec fn serialised(value: BsonView) -> Result<Seq<char>, Seq<char>>;

/// `serde_json::to_string` for a BSON value.
#[verifier::external_body]
pub(crate) fn serialise_bson(value: &Bson) -> (r: Result<String, String>)
    ensures
        match r {
            Ok(s) => serialised(bson_view(*value)) == Ok::<Seq<char>, Seq<char>>(s@),
            Err(e) => serialised(bson_view(*value)) == Err::<Seq<char>, Seq<char>>(e@),
        },
{
    serde_json::to_string(value).map_err(|e| e.to_string())
}

/// The variant `Value::Array`: its values, of an array.
#[verifier::external_body]
pub(crate) fn json_items(value: serde_json::Value) -> (r: Option<Vec<serde_json::Value>>)
    ensures
        match r {
            Some(v) => json_view(value) == JsonView::Array(json_views(v@)),
            None => !(json_view(value) is Array),
        },
{
    match value {
        serde_json::Value::Array(items) => Some(items),
        _ => None,
    }
}

/// `Value::from` for a count: the number with that decimal text.
#[verifier::external_body]
pub(crate) fn json_count(n: usize) -> (r: serde_json::Value)
    ensures
        json_view(r) == JsonView::Number(text::decimal(n as nat)),
{
    serde_json::Value::from(n)
}

/// `Value::String`.
#[verifier::external_body]
pub(crate) fn json_string(s: String) -> (r: serde_json::Value)
    ensures
        json_view(r) == JsonView::Text(s@),
{
    serde_json::Value::String(s)
}

/// `Value::Array`.
#[verifier::external_body]
pub(crate) fn json_array(v: Vec<serde_json::Value>) -> (r: serde_json::Value)
    ensures
        json_view(r) == JsonView::Array(json_views(v@)),
{
    serde_json::Value::Array(v)
}

/// `Value::Object`, its map collected from entries with different keys. The map
/// keeps the entries in the order in which they come: the `bson` crate has
/// `serde_json` built so, with its feature `preserve_order`.
#[verifier::external_body]
pub(crate) fn json_object(v: Vec<(String, serde_json::Value)>) -> (r: serde_json::Value)
    requires
        Seq::new(v@.len(), |i: int| v@[i].0@).no_duplicates(),
    ensures
        json_view(r) == JsonView::Object(json_entries(v@)),
{
    serde_json::Value::Object(v.into_iter().collect())
}

// ---------------------------------------------------------------------------
// Facts about documents
// ---------------------------------------------------------------------------

/// A field that was set reads back, and all others are as before.
pub proof fn law_set_field_reads_back(
    d: Seq<(Seq<char>, BsonView)>,
    key: Seq<char>,
    value: BsonView,
    other: Seq<char>,
)
    ensures
        field(with_field(d, key, value), key) == Some(value),
        other != key ==> field(with_field(d, key, value), other) == field(d, other),
    decreases d.len(),
{
    let w = with_field(d, key, value);
    if d.len() == 0 {
        assert(w =~= seq![(key, value)]);
        assert(w.drop_first() =~= Seq::<(Seq<char>, BsonView)>::empty());
        assert(field(Seq::<(Seq<char>, BsonView)>::empty(), other) is None);
    } else {
        let t = d.drop_first();
        law_set_field_reads_back(t, key, value, other);
        if keys(d).contains(key) {
            let i = choose|i: int| 0 <= i < keys(d).len() && keys(d)[i] == key;
            assert(w[0] == if d[0].0 == key {
                (key, value)
            } else {
                d[0]
            });
            if keys(t).contains(key) {
                assert(w.drop_first() =~= with_field(t, key, value));
            } else {
                if i > 0 {
                    assert(keys(t)[i - 1] == key);
                }
                assert(d[0].0 == key);
                assert forall|j: int| 0 <= j < t.len() implies t[j].0 != key by {
                    assert(keys(t)[j] == t[j].0);
                }
                assert(w.drop_first() =~= t);
            }
        } else {
            assert(keys(d)[0] == d[0].0);
            assert forall|j: int| 0 <= j < t.len() implies t[j].0 != key by {
                assert(keys(d)[j + 1] == t[j].0);
            }
            assert(!keys(t).contains(key)) by {
                if keys(t).contains(key) {
                    let j = choose|j: int| 0 <= j < keys(t).len() && keys(t)[j] == key;
                    assert(t[j].0 == key);
                }
            }
            assert(w.drop_first() =~= with_field(t, key, value));
        }
    }
}

/// A field is there just where its key is.
pub proof fn lemma_field_has_key(d: Seq<(Seq<char>, BsonView)>, key: Seq<char>)
    ensures
        field(d, key) is Some <==> keys(d).contains(key),
    decreases d.len(),
{
    if d.len() > 0 {
        let t = d.drop_first();
        lemma_field_has_key(t, key);
        assert(keys(d)[0] == d[0].0);
        if keys(t).contains(key) {
            let j = choose|j: int| 0 <= j < keys(t).len() && keys(t)[j] == key;
            assert(keys(d)[j + 1] == key);
        }
        if keys(d).contains(key) && d[0].0 != key {
            let j = choose|j: int| 0 <= j < keys(d).len() && keys(d)[j] == key;
            assert(keys(t)[j - 1] == key);
        }
    }
}

} // verus!
