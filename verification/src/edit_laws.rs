//! What holds of the edits of cells: what a text stands for in a cell, which
//! cells can be edited, and what updates the edits lead to.
use vstd::prelude::*;

use crate::bson_ext;
use crate::bson_ext::BsonView;
use crate::document_laws;
use crate::document_table;
use crate::document_table::{ChangeView, TableView};
use crate::mongo_types;
use crate::text;
use crate::text_laws;

verus! {

// ---------------------------------------------------------------------------
// Texts of cells
// ---------------------------------------------------------------------------

/// A cell shows a text as it is, an integer in decimal, a truth value by its
/// name, an object id by its digits, a date in RFC 3339 where it has such a
/// text, and nothing where there is no value.
pub proof fn law_cell_text(s: Seq<char>, n: i32, m: i64, bits: u64, millis: i64)
    ensures
        document_table::cell_text(None).len() == 0,
        document_table::cell_text(Some(BsonView::Text(s))) == s,
        document_table::cell_text(Some(BsonView::ObjectId(s))) == s,
        document_table::cell_text(Some(BsonView::Int32(n))) == text::signed_decimal(n as int),
        document_table::cell_text(Some(BsonView::Int64(m))) == text::signed_decimal(m as int),
        document_table::cell_text(Some(BsonView::Double(bits))) == bson_ext::double_text(bits),
        document_table::cell_text(Some(BsonView::Boolean(true))) == "true"@,
        document_table::cell_text(Some(BsonView::Boolean(false))) == "false"@,
        bson_ext::date_text(millis) matches Some(d) ==> document_table::cell_text(
            Some(BsonView::DateTime(millis)),
        ) == d,
        bson_ext::date_text(millis) is None ==> document_table::cell_text(
            Some(BsonView::DateTime(millis)),
        ) == text::signed_decimal(millis as int),
{
}

/// A document and an array are shown in extended JSON, and so is null.
pub proof fn law_cell_json(v: BsonView, s: Seq<char>)
    requires
        v is Document || v is Array || v is Null || v is Other,
        bson_ext::json_text(bson_ext::relaxed_json(v)) == Ok::<Seq<char>, Seq<char>>(s),
    ensures
        document_table::cell_text(Some(v)) == s,
{
}

/// A value has the same plain text wherever it is written: its own for a text
/// and an object id, decimal for an integer, its name for a truth value.
pub proof fn law_plain_text(s: Seq<char>, n: i32, m: i64, bits: u64)
    ensures
        mongo_types::plain_text(BsonView::Text(s)) == s,
        mongo_types::plain_text(BsonView::ObjectId(s)) == s,
        mongo_types::plain_text(BsonView::Int32(n)) == text::signed_decimal(n as int),
        mongo_types::plain_text(BsonView::Int64(m)) == text::signed_decimal(m as int),
        mongo_types::plain_text(BsonView::Double(bits)) == bson_ext::double_text(bits),
        mongo_types::plain_text(BsonView::Boolean(true)) == "true"@,
        mongo_types::plain_text(BsonView::Boolean(false)) == "false"@,
{
}

// ---------------------------------------------------------------------------
// Edited texts
// ---------------------------------------------------------------------------

proof fn lemma_truth_names()
    ensures
        "true"@.len() == 4,
        "false"@.len() == 5,
        !text::is_space("true"@[0]),
        !text::is_space("true"@.last()),
        !text::is_space("false"@[0]),
        !text::is_space("false"@.last()),
{
    reveal_strlit("true");
    reveal_strlit("false");
}

/// `true` sets a truth value to true and `false` to false, whatever it was and
/// whatever white space stands around them. Nothing else can be entered.
pub proof fn law_edit_of_truth_value(old: bool, a: Seq<char>, s: Seq<char>, b: Seq<char>)
    requires
        text_laws::is_blank(a),
        text_laws::is_blank(b),
    ensures
        document_table::parsed_edit(Some(BsonView::Boolean(old)), a + "true"@ + b) == Ok::<
            BsonView,
            Seq<char>,
        >(BsonView::Boolean(true)),
        document_table::parsed_edit(Some(BsonView::Boolean(old)), a + "false"@ + b) == Ok::<
            BsonView,
            Seq<char>,
        >(BsonView::Boolean(false)),
        text::trimmed(s) != "true"@ && text::trimmed(s) != "false"@ ==> document_table::parsed_edit(
            Some(BsonView::Boolean(old)),
            s,
        ) is Err,
{
    lemma_truth_names();
    text_laws::law_trimmed(a, "true"@, b);
    text_laws::law_trimmed(a, "false"@, b);
    assert("true"@ != "false"@);
}

proof fn lemma_decimal_is_clean(n: int)
    ensures
        text::signed_decimal(n).len() > 0,
        !text::is_space(text::signed_decimal(n)[0]),
        !text::is_space(text::signed_decimal(n).last()),
{
    let m: nat = if n < 0 {
        (-n) as nat
    } else {
        n as nat
    };
    text::lemma_digits_of_decimal(m);
    let d = text::decimal(m);
    assert('0' <= d[0] <= '9');
    assert('0' <= d[d.len() - 1] <= '9');
    assert((seq!['-'] + d).last() == d.last());
}

/// The decimal text of a number sets an integer to that number, whatever it
/// was and whatever white space stands around it; a number that does not fit,
/// and a text that is none, is refused.
pub proof fn law_edit_of_integer(old32: i32, old64: i64, n: int, a: Seq<char>, b: Seq<char>)
    requires
        text_laws::is_blank(a),
        text_laws::is_blank(b),
    ensures
        i32::MIN <= n <= i32::MAX ==> document_table::parsed_edit(
            Some(BsonView::Int32(old32)),
            a + text::signed_decimal(n) + b,
        ) == Ok::<BsonView, Seq<char>>(BsonView::Int32(n as i32)),
        !(i32::MIN <= n <= i32::MAX) ==> document_table::parsed_edit(
            Some(BsonView::Int32(old32)),
            a + text::signed_decimal(n) + b,
        ) is Err,
        i64::MIN <= n <= i64::MAX ==> document_table::parsed_edit(
            Some(BsonView::Int64(old64)),
            a + text::signed_decimal(n) + b,
        ) == Ok::<BsonView, Seq<char>>(BsonView::Int64(n as i64)),
        !(i64::MIN <= n <= i64::MAX) ==> document_table::parsed_edit(
            Some(BsonView::Int64(old64)),
            a + text::signed_decimal(n) + b,
        ) is Err,
{
    lemma_decimal_is_clean(n);
    text_laws::law_trimmed(a, text::signed_decimal(n), b);
    text::law_number_reads_back(n);
}

/// What is no number is refused for an integer.
pub proof fn law_edit_of_integer_refused(old32: i32, old64: i64, s: Seq<char>, i: int)
    requires
        0 <= i < s.len(),
        !text::is_space(s[i]),
        !('0' <= s[i] <= '9'),
        s[i] != '+',
        s[i] != '-',
    ensures
        document_table::parsed_edit(Some(BsonView::Int32(old32)), s) is Err,
        document_table::parsed_edit(Some(BsonView::Int64(old64)), s) is Err,
{
    text_laws::law_trimmed_is_part(s);
    let t = text::trimmed(s);
    let (a, b) = choose|a: Seq<char>, b: Seq<char>|
        text_laws::is_blank(a) && text_laws::is_blank(b) && s == #[trigger] (a + t + b);
    if i < a.len() {
        assert(a[i] == s[i]);
    } else if i >= a.len() + t.len() {
        assert(b[i - a.len() - t.len()] == s[i]);
    } else {
        assert(t[i - a.len()] == s[i]);
        text_laws::law_no_int(t, i - a.len(), i32::MIN as int, i32::MAX as int);
        text_laws::law_no_int(t, i - a.len(), i64::MIN as int, i64::MAX as int);
    }
}

/// A text is set to what is entered, with all its white space. Null stays null
/// where nothing but white space is entered, and becomes a text otherwise.
pub proof fn law_edit_of_text(old: Seq<char>, s: Seq<char>)
    ensures
        document_table::parsed_edit(Some(BsonView::Text(old)), s) == Ok::<BsonView, Seq<char>>(
            BsonView::Text(s),
        ),
        text_laws::is_blank(s) ==> document_table::parsed_edit(Some(BsonView::Null), s) == Ok::<
            BsonView,
            Seq<char>,
        >(BsonView::Null),
        !text_laws::is_blank(s) ==> document_table::parsed_edit(Some(BsonView::Null), s) == Ok::<
            BsonView,
            Seq<char>,
        >(BsonView::Text(s)),
{
    text_laws::law_trimmed_is_part(s);
}

/// A double is set to the double that the text stands for, and a date to the
/// date, whatever white space stands around it; where it stands for none, the
/// edit is refused.
pub proof fn law_edit_of_double_and_date(
    bits: u64,
    millis: i64,
    a: Seq<char>,
    s: Seq<char>,
    b: Seq<char>,
)
    requires
        text_laws::is_blank(a),
        text_laws::is_blank(b),
        s.len() > 0,
        !text::is_space(s[0]),
        !text::is_space(s.last()),
    ensures
        match bson_ext::parsed_double(s) {
            Ok(x) => document_table::parsed_edit(Some(BsonView::Double(bits)), a + s + b) == Ok::<
                BsonView,
                Seq<char>,
            >(BsonView::Double(x)),
            Err(_) => document_table::parsed_edit(Some(BsonView::Double(bits)), a + s + b) is Err,
        },
        match bson_ext::parsed_date(s) {
            Ok(x) => document_table::parsed_edit(Some(BsonView::DateTime(millis)), a + s + b)
                == Ok::<BsonView, Seq<char>>(BsonView::DateTime(x)),
            Err(_) => document_table::parsed_edit(
                Some(BsonView::DateTime(millis)),
                a + s + b,
            ) is Err,
        },
{
    text_laws::law_trimmed(a, s, b);
}

/// The value is of a kind whose text in the cell says all of it.
pub open spec fn has_faithful_text(v: BsonView) -> bool {
    v is Text || v is Int32 || v is Int64 || v is Boolean
}

/// An edit reads back what the cell shows: the text of a value, entered over
/// any value of its kind, gives that value.
pub proof fn law_cell_text_reads_back(v: BsonView, w: BsonView)
    requires
        has_faithful_text(w),
        bson_ext::element_tag(v) == bson_ext::element_tag(w),
        !(v is Other),
    ensures
        document_table::parsed_edit(Some(v), document_table::cell_text(Some(w))) == Ok::<
            BsonView,
            Seq<char>,
        >(w),
{
    let none = Seq::<char>::empty();
    match (v, w) {
        (BsonView::Boolean(old), BsonView::Boolean(new)) => {
            law_edit_of_truth_value(old, none, none, none);
            assert(none + "true"@ + none =~= "true"@);
            assert(none + "false"@ + none =~= "false"@);
        },
        (BsonView::Int32(old), BsonView::Int32(new)) => {
            let s = text::signed_decimal(new as int);
            law_edit_of_integer(old, 0, new as int, none, none);
            assert(none + s + none =~= s);
        },
        (BsonView::Int64(old), BsonView::Int64(new)) => {
            let s = text::signed_decimal(new as int);
            law_edit_of_integer(0, old, new as int, none, none);
            assert(none + s + none =~= s);
        },
        _ => {},
    }
}

/// An edit keeps the kind of the value, but that a null may become a text.
/// What is not there, and what cannot be shown as a plain text, is not edited
/// in the cell.
pub proof fn law_edit_keeps_kind(original: Option<BsonView>, s: Seq<char>)
    ensures
        original is None ==> document_table::parsed_edit(original, s) is Err,
        original matches Some(v) ==> {
            &&& v is ObjectId || v is Document || v is Array || v is Other
                ==> document_table::parsed_edit(original, s) is Err
            &&& document_table::parsed_edit(original, s) matches Ok(w) ==> bson_ext::element_tag(v)
                == bson_ext::element_tag(w) || (v is Null && w is Text)
            &&& document_table::is_editable(v) <==> !(v is ObjectId || v is Document || v is Array
                || v is Other)
        },
{
}

// ---------------------------------------------------------------------------
// Cells that can be edited
// ---------------------------------------------------------------------------

/// Neither the id, nor a field with a dot in its name, nor one whose name
/// begins with a dollar sign can be set on its own; every other field can.
pub proof fn law_safe_fields(field: Seq<char>, a: Seq<char>, b: Seq<char>)
    ensures
        !document_table::is_safe_field("_id"@),
        !document_table::is_safe_field(a.push('.') + b),
        !document_table::is_safe_field(seq!['$'] + a),
        field != "_id"@ && (forall|i: int| 0 <= i < field.len() ==> #[trigger] field[i] != '.') && (
        field.len() == 0 || field[0] != '$') ==> document_table::is_safe_field(field),
{
    assert((a.push('.') + b)[a.len() as int] == '.');
    assert((seq!['$'] + a)[0] == '$');
}

/// An edit is taken over just where the column is there, its field can be set
/// on its own, and the text stands for a value; the document then has that
/// value under the field, and all its other fields are as before.
pub proof fn law_edit_is_taken(
    t: TableView,
    row: usize,
    field: Seq<char>,
    input: Seq<char>,
    w: BsonView,
    other: Seq<char>,
    r: int,
)
    requires
        document_laws::consistent(t),
        t.columns.contains(field),
        field != "_id"@,
        forall|i: int| 0 <= i < field.len() ==> #[trigger] field[i] != '.',
        field.len() == 0 || field[0] != '$',
        row < t.originals.len(),
        document_table::parsed_edit(bson_ext::field(t.originals[row as int], field), input) == Ok::<
            BsonView,
            Seq<char>,
        >(w),
        0 <= r < t.documents.len(),
    ensures
        ({
            let u = t.edited(row, field, input);
            &&& t.edit_answer(row, field, input) == Ok::<bool, Seq<char>>(true)
            &&& bson_ext::field(u.documents[row as int], field) == Some(w)
            &&& other != field ==> bson_ext::field(u.documents[row as int], other)
                == bson_ext::field(t.documents[row as int], other)
            &&& r != row ==> u.documents[r] == t.documents[r]
            &&& u.documents.len() == t.documents.len()
            &&& u.originals == t.originals
            &&& u.columns == t.columns
        }),
{
    law_safe_fields(field, Seq::empty(), Seq::empty());
    bson_ext::law_set_field_reads_back(t.documents[row as int], field, w, other);
}

/// An edit of a column that is not there, of the id, or of a field that cannot
/// be set on its own is refused, and so is a text that stands for no value.
pub proof fn law_edit_is_refused(t: TableView, row: usize, field: Seq<char>, input: Seq<char>)
    requires
        !t.columns.contains(field) || field == "_id"@ || field.contains('.') || (field.len() > 0
            && field[0] == '$') || document_table::parsed_edit(
            t.original(row, field),
            input,
        ) is Err,
    ensures
        t.edit_answer(row, field, input) is Err,
        t.edited(row, field, input) == t,
{
}

/// A cell can be edited in place just where the table can be edited, the field
/// can be set on its own, and the value is of a kind that has a plain text or
/// is null; a value of another kind is edited beside the table.
pub proof fn law_cells_to_edit(t: TableView, row: usize, col: usize)
    requires
        col < t.columns.len(),
        row < t.documents.len(),
    ensures
        ({
            let field = t.columns[col as int];
            let value = bson_ext::field(t.documents[row as int], field);
            &&& t.value(row, col) == value
            &&& t.can_edit(row, col) <==> t.editable && field != "_id"@ && !field.contains('.')
                && !(field.len() > 0 && field[0] == '$') && (value matches Some(v) && !(v is ObjectId
                || v is Document || v is Array || v is Other))
        }),
{
}

// ---------------------------------------------------------------------------
// Updates
// ---------------------------------------------------------------------------

/// An update sets the given fields under `$set`, and does nothing else.
pub proof fn law_update_sets_fields(fields: Seq<(Seq<char>, BsonView)>, key: Seq<char>)
    ensures
        bson_ext::field(document_table::set_update(fields), "$set"@) == Some(
            BsonView::Document(fields),
        ),
        key != "$set"@ ==> bson_ext::field(document_table::set_update(fields), key) is None,
{
    let u = document_table::set_update(fields);
    assert(u.drop_first() =~= Seq::<(Seq<char>, BsonView)>::empty());
    assert(bson_ext::field(u.drop_first(), key) is None);
}

/// Some update is of the row and sets the field to the value.
pub open spec fn is_sent(
    rows: Seq<document_table::RowView>,
    row: usize,
    field: Seq<char>,
    value: BsonView,
) -> bool {
    exists|i: int|
        0 <= i < rows.len() && (#[trigger] rows[i]).row == row && bson_ext::field(
            rows[i].fields,
            field,
        ) == Some(value)
}

proof fn lemma_sorted_front(changes: Seq<ChangeView>)
    requires
        document_laws::is_sorted(changes),
        changes.len() > 0,
    ensures
        document_laws::is_sorted(changes.drop_last()),
        forall|i: int|
            0 <= i < changes.len() - 1 ==> document_laws::in_order(
                #[trigger] changes[i],
                changes.last(),
            ),
{
    let front = changes.drop_last();
    assert forall|i: int, j: int| 0 <= i < j < front.len() implies document_laws::in_order(
        #[trigger] front[i],
        #[trigger] front[j],
    ) by {
        assert(front[i] == changes[i] && front[j] == changes[j]);
    }
    assert forall|i: int| 0 <= i < changes.len() - 1 implies document_laws::in_order(
        #[trigger] changes[i],
        changes.last(),
    ) by {
        assert(document_laws::in_order(changes[i], changes[changes.len() - 1]));
    }
}

/// Every edit is sent in the update of its row with its new value, and nothing
/// else is sent.
pub proof fn law_updates_carry_edits(
    changes: Seq<ChangeView>,
    row: usize,
    field: Seq<char>,
    value: BsonView,
)
    requires
        document_laws::is_sorted(changes),
    ensures
        is_sent(document_table::rows_set(changes), row, field, value) <==> exists|k: int|
            0 <= k < changes.len() && (#[trigger] changes[k]).row == row && changes[k].field
                == field && changes[k].new_value == value,
    decreases changes.len(),
{
    if changes.len() > 0 {
        lemma_sorted_front(changes);
        let front = changes.drop_last();
        let c = changes.last();
        law_updates_carry_edits(front, row, field, value);
        let rest = document_table::rows_set(front);
        let all = document_table::rows_set(changes);
        let joins = rest.len() > 0 && rest.last().row == c.row;
        let prior = if joins {
            rest.last().fields
        } else {
            Seq::empty()
        };
        bson_ext::law_set_field_reads_back(prior, c.field, c.new_value, field);
        assert(all.last().fields == bson_ext::with_field(prior, c.field, c.new_value));
        assert(!joins ==> bson_ext::field(prior, field) is None);
        crate::db_node::lemma_precedes_irreflexive(field);
        let last = all.len() - 1;
        let sent = is_sent(all, row, field, value);
        let had = is_sent(rest, row, field, value);
        let here = c.row == row && c.field == field && c.new_value == value;
        // No earlier edit is of the same cell.
        assert(c.row == row && c.field == field ==> !(exists|k: int|
            0 <= k < front.len() && (#[trigger] front[k]).row == row && front[k].field == field
                && front[k].new_value == value)) by {
            if c.row == row && c.field == field {
                assert forall|k: int| 0 <= k < front.len() implies !((#[trigger] front[k]).row
                    == row && front[k].field == field) by {
                    assert(document_laws::in_order(changes[k], changes.last()));
                    assert(front[k] == changes[k]);
                }
            }
        }
        if here {
            assert(all[last].row == row);
            assert(changes[changes.len() - 1].row == row);
        }
        if had {
            let i = choose|i: int|
                0 <= i < rest.len() && (#[trigger] rest[i]).row == row && bson_ext::field(
                    rest[i].fields,
                    field,
                ) == Some(value);
            if joins && i == rest.len() - 1 {
                assert(all[last].row == row);
                assert(c.field != field);
            } else {
                assert(all[i] == rest[i]);
            }
            let k = choose|k: int|
                0 <= k < front.len() && (#[trigger] front[k]).row == row && front[k].field == field
                    && front[k].new_value == value;
            assert(changes[k].row == row);
        }
        if sent {
            let i = choose|i: int|
                0 <= i < all.len() && (#[trigger] all[i]).row == row && bson_ext::field(
                    all[i].fields,
                    field,
                ) == Some(value);
            if i < last {
                assert(all[i] == rest[i]);
            } else if !here {
                assert(joins);
                assert(rest[rest.len() - 1].row == row);
            }
            if had {
                let k = choose|k: int|
                    0 <= k < front.len() && (#[trigger] front[k]).row == row && front[k].field
                        == field && front[k].new_value == value;
                assert(changes[k].row == row);
            }
        }
        if exists|k: int|
            0 <= k < changes.len() && (#[trigger] changes[k]).row == row && changes[k].field
                == field && changes[k].new_value == value {
            let k = choose|k: int|
                0 <= k < changes.len() && (#[trigger] changes[k]).row == row && changes[k].field
                    == field && changes[k].new_value == value;
            if k < front.len() {
                assert(front[k].row == row);
            }
        }
    } else {
        assert(document_table::rows_set(changes).len() == 0);
    }
}

// ---------------------------------------------------------------------------
// Columns
// ---------------------------------------------------------------------------

proof fn lemma_keys_added_extends(columns: Seq<Seq<char>>, keys: Seq<Seq<char>>)
    ensures
        columns.len() <= document_table::keys_added(columns, keys).len(),
        document_table::keys_added(columns, keys).take(columns.len() as int) == columns,
    decreases keys.len(),
{
    if keys.len() > 0 {
        lemma_keys_added_extends(columns, keys.drop_last());
        let rest = document_table::keys_added(columns, keys.drop_last());
        assert(document_table::keys_added(columns, keys).take(columns.len() as int) =~= rest.take(
            columns.len() as int,
        ));
    } else {
        assert(columns.take(columns.len() as int) =~= columns);
    }
}

proof fn lemma_keys_of_one(keys: Seq<Seq<char>>)
    requires
        keys.no_duplicates(),
        !keys.contains("_id"@),
    ensures
        document_table::keys_added(Seq::empty(), keys) == keys,
    decreases keys.len(),
{
    if keys.len() > 0 {
        let t = keys.drop_last();
        assert forall|i: int, j: int| 0 <= i < t.len() && 0 <= j < t.len() && i != j implies t[i]
            != t[j] by {
            assert(t[i] == keys[i] && t[j] == keys[j]);
        }
        assert(!t.contains("_id"@)) by {
            if t.contains("_id"@) {
                let i = choose|i: int| 0 <= i < t.len() && t[i] == "_id"@;
                assert(keys[i] == "_id"@);
            }
        }
        lemma_keys_of_one(t);
        assert(keys[keys.len() - 1] == keys.last());
        assert(!t.contains(keys.last())) by {
            if t.contains(keys.last()) {
                let i = choose|i: int| 0 <= i < t.len() && t[i] == keys.last();
                assert(keys[i] == keys[keys.len() - 1]);
            }
        }
        assert(t.push(keys.last()) =~= keys);
    }
}

/// The columns stand in the order in which their fields are first seen: those
/// of the first document in its order, and further documents only add columns
/// behind. A table has no more than 24.
pub proof fn law_columns_in_order(
    documents: Seq<Seq<(Seq<char>, BsonView)>>,
    d: Seq<(Seq<char>, BsonView)>,
)
    ensures
        document_table::columns_of(documents).len() <= 24,
        document_table::columns_of(documents).len() <= document_table::columns_of(
            documents.push(d),
        ).len(),
        document_table::columns_of(documents.push(d)).take(
            document_table::columns_of(documents).len() as int,
        ) == document_table::columns_of(documents),
        bson_ext::keys(d).no_duplicates() && !bson_ext::keys(d).contains("_id"@) && d.len() <= 23
            ==> document_table::columns_of(seq![d]) == seq!["_id"@] + bson_ext::keys(d),
{
    assert(documents.push(d).drop_last() =~= documents);
    lemma_keys_added_extends(document_table::keys_seen(documents), bson_ext::keys(d));
    let a = document_table::columns_of(documents);
    let b = document_table::columns_of(documents.push(d));
    let seen = document_table::keys_seen(documents);
    let more = document_table::keys_seen(documents.push(d));
    assert forall|i: int| 0 <= i < seen.len() implies more[i] == seen[i] by {
        assert(more.take(seen.len() as int)[i] == more[i]);
    }
    assert(b.take(a.len() as int) =~= a);
    if bson_ext::keys(d).no_duplicates() && !bson_ext::keys(d).contains("_id"@) {
        assert(seq![d].drop_last() =~= Seq::<Seq<(Seq<char>, BsonView)>>::empty());
        assert(document_table::keys_seen(Seq::<Seq<(Seq<char>, BsonView)>>::empty())
            =~= Seq::<Seq<char>>::empty());
        lemma_keys_of_one(bson_ext::keys(d));
    }
}

} // verus!
