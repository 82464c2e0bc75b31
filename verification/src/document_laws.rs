//! What holds of the table of documents as a whole.
use vstd::prelude::*;

use crate::bson_ext;
use crate::bson_ext::BsonView;
use crate::db_node;
use crate::document_table;
use crate::document_table::{ChangeView, RowView, TableView};

verus! {

// ---------------------------------------------------------------------------
// Columns
// ---------------------------------------------------------------------------

/// Some document has the key.
pub open spec fn is_key_of_some(
    documents: Seq<Seq<(Seq<char>, BsonView)>>,
    key: Seq<char>,
) -> bool {
    exists|i: int| 0 <= i < documents.len() && bson_ext::keys(#[trigger] documents[i]).contains(key)
}

proof fn lemma_keys_added(columns: Seq<Seq<char>>, keys: Seq<Seq<char>>)
    requires
        columns.no_duplicates(),
        !columns.contains("_id"@),
    ensures
        document_table::keys_added(columns, keys).no_duplicates(),
        !document_table::keys_added(columns, keys).contains("_id"@),
        forall|k: Seq<char>|
            document_table::keys_added(columns, keys).contains(k) <==> columns.contains(k) || (k
                != "_id"@ && keys.contains(k)),
    decreases keys.len(),
{
    broadcast use vstd::seq_lib::lemma_seq_contains_after_push;

    if keys.len() > 0 {
        let front = keys.drop_last();
        lemma_keys_added(columns, front);
        let rest = document_table::keys_added(columns, front);
        let key = keys.last();
        assert forall|k: Seq<char>| keys.contains(k) <==> front.contains(k) || k == key by {
            assert(keys =~= front.push(key));
        }
        if key != "_id"@ && !rest.contains(key) {
            assert(rest.push(key).no_duplicates());
        }
    }
}

proof fn lemma_keys_seen(documents: Seq<Seq<(Seq<char>, BsonView)>>)
    ensures
        document_table::keys_seen(documents).no_duplicates(),
        !document_table::keys_seen(documents).contains("_id"@),
        forall|k: Seq<char>|
            document_table::keys_seen(documents).contains(k) <==> k != "_id"@ && is_key_of_some(
                documents,
                k,
            ),
    decreases documents.len(),
{
    if documents.len() > 0 {
        let front = documents.drop_last();
        lemma_keys_seen(front);
        lemma_keys_added(document_table::keys_seen(front), bson_ext::keys(documents.last()));
        assert forall|k: Seq<char>|
            is_key_of_some(documents, k) <==> is_key_of_some(front, k) || bson_ext::keys(
                documents.last(),
            ).contains(k) by {
            if is_key_of_some(documents, k) {
                let i = choose|i: int|
                    0 <= i < documents.len() && bson_ext::keys(#[trigger] documents[i]).contains(k);
                if i < front.len() {
                    assert(bson_ext::keys(front[i]).contains(k));
                }
            }
            if is_key_of_some(front, k) {
                let i = choose|i: int|
                    0 <= i < front.len() && bson_ext::keys(#[trigger] front[i]).contains(k);
                assert(bson_ext::keys(documents[i]).contains(k));
            }
            if bson_ext::keys(documents.last()).contains(k) {
                assert(bson_ext::keys(documents[documents.len() - 1]).contains(k));
            }
        }
    }
}

/// The id is the first column, no column occurs twice, there are no more than
/// the limit, and every other column is a key of some document. Below the
/// limit every key has its column.
pub proof fn law_columns(documents: Seq<Seq<(Seq<char>, BsonView)>>)
    ensures
        ({
            let columns = document_table::columns_of(documents);
            &&& 1 <= columns.len() <= document_table::TABLE_MAX_COLUMNS
            &&& columns[0] == "_id"@
            &&& columns.no_duplicates()
            &&& forall|i: int|
                1 <= i < columns.len() ==> is_key_of_some(documents, #[trigger] columns[i])
            &&& columns.len() < document_table::TABLE_MAX_COLUMNS ==> forall|k: Seq<char>|
                is_key_of_some(documents, k) ==> columns.contains(k)
        }),
{
    lemma_keys_seen(documents);
    let seen = document_table::keys_seen(documents);
    let all = seq!["_id"@] + seen;
    let columns = document_table::columns_of(documents);
    assert(all[0] == "_id"@);
    assert forall|i: int| 1 <= i < all.len() implies all[i] == seen[i - 1] && seen.contains(all[i]) by {
        assert(all[i] == seen[i - 1]);
    }
    assert(all.no_duplicates()) by {
        assert forall|i: int, j: int|
            0 <= i < all.len() && 0 <= j < all.len() && i != j implies all[i] != all[j] by {
            if i > 0 && j > 0 {
                assert(seen[i - 1] != seen[j - 1]);
            } else if i > 0 {
                assert(seen.contains(all[i]));
            } else {
                assert(seen.contains(all[j]));
            }
        }
    }
    assert forall|i: int| 1 <= i < columns.len() implies is_key_of_some(
        documents,
        #[trigger] columns[i],
    ) by {
        assert(columns[i] == all[i]);
        assert(seen.contains(all[i]));
    }
    if columns.len() < document_table::TABLE_MAX_COLUMNS {
        assert(columns == all);
        assert forall|k: Seq<char>| is_key_of_some(documents, k) implies columns.contains(k) by {
            if k == "_id"@ {
                assert(columns[0] == k);
            } else {
                assert(seen.contains(k));
                let i = choose|i: int| 0 <= i < seen.len() && seen[i] == k;
                assert(columns[i + 1] == k);
            }
        }
    }
}

// ---------------------------------------------------------------------------
// The order of edits
// ---------------------------------------------------------------------------

/// The first edit stands before the second.
pub open spec fn in_order(a: ChangeView, b: ChangeView) -> bool {
    document_table::stands_before(a.row, a.field, b)
}

/// The edits stand in order, by row and then by field; no cell occurs twice.
pub open spec fn is_sorted(changes: Seq<ChangeView>) -> bool {
    forall|i: int, j: int|
        0 <= i < j < changes.len() ==> in_order(#[trigger] changes[i], #[trigger] changes[j])
}

proof fn lemma_order_transitive(a: ChangeView, b: ChangeView, c: ChangeView)
    requires
        in_order(a, b),
        in_order(b, c),
    ensures
        in_order(a, c),
{
    if a.row == b.row && b.row == c.row {
        db_node::lemma_precedes_transitive(a.field, b.field, c.field);
    }
}

proof fn lemma_put_sorted(changes: Seq<ChangeView>, c: ChangeView)
    requires
        is_sorted(changes),
    ensures
        is_sorted(document_table::change_put(changes, c)),
        forall|x: ChangeView|
            document_table::change_put(changes, c).contains(x) ==> x == c || changes.contains(x),
    decreases changes.len(),
{
    broadcast use vstd::seq_lib::lemma_seq_contains_after_push;

    let p = document_table::change_put(changes, c);
    if changes.len() == 0 {
        assert(p =~= seq![c]);
    } else {
        let last = changes.last();
        let front = changes.drop_last();
        assert(changes =~= front.push(last));
        assert(is_sorted(front)) by {
            assert forall|i: int, j: int| 0 <= i < j < front.len() implies in_order(
                #[trigger] front[i],
                #[trigger] front[j],
            ) by {
                assert(front[i] == changes[i] && front[j] == changes[j]);
            }
        }
        assert forall|x: ChangeView| front.contains(x) implies in_order(x, last) && changes.contains(
            x,
        ) by {
            let i = choose|i: int| 0 <= i < front.len() && front[i] == x;
            assert(in_order(changes[i], changes[changes.len() - 1]));
        }
        if document_table::is_at(last, c.row, c.field) {
            lemma_push_sorted(front, c);
        } else if document_table::stands_before(c.row, c.field, last) {
            lemma_put_sorted(front, c);
            let q = document_table::change_put(front, c);
            assert forall|x: ChangeView| q.contains(x) implies in_order(x, last) by {
                assert(x == c || front.contains(x));
            }
            lemma_push_sorted(q, last);
        } else {
            if last.field != c.field {
                db_node::lemma_precedes_total(c.field, last.field);
            }
            assert(in_order(last, c));
            assert forall|x: ChangeView| changes.contains(x) implies in_order(x, c) by {
                if x != last {
                    assert(front.contains(x));
                    lemma_order_transitive(x, last, c);
                }
            }
            lemma_push_sorted(changes, c);
        }
    }
}

proof fn lemma_push_sorted(front: Seq<ChangeView>, c: ChangeView)
    requires
        is_sorted(front),
        forall|x: ChangeView| front.contains(x) ==> in_order(x, c),
    ensures
        is_sorted(front.push(c)),
{
    let p = front.push(c);
    assert forall|i: int, j: int| 0 <= i < j < p.len() implies in_order(
        #[trigger] p[i],
        #[trigger] p[j],
    ) by {
        if j < front.len() {
            assert(in_order(front[i], front[j]));
        } else {
            assert(front.contains(front[i]));
        }
    }
}

proof fn lemma_dropped_sorted(changes: Seq<ChangeView>, row: usize, field: Seq<char>)
    requires
        is_sorted(changes),
    ensures
        is_sorted(document_table::change_dropped(changes, row, field)),
        forall|x: ChangeView|
            document_table::change_dropped(changes, row, field).contains(x) ==> changes.contains(x),
    decreases changes.len(),
{
    broadcast use vstd::seq_lib::lemma_seq_contains_after_push;

    if changes.len() > 0 {
        let last = changes.last();
        let front = changes.drop_last();
        assert(changes =~= front.push(last));
        assert(is_sorted(front)) by {
            assert forall|i: int, j: int| 0 <= i < j < front.len() implies in_order(
                #[trigger] front[i],
                #[trigger] front[j],
            ) by {
                assert(front[i] == changes[i] && front[j] == changes[j]);
            }
        }
        lemma_dropped_sorted(front, row, field);
        let d = document_table::change_dropped(front, row, field);
        assert forall|x: ChangeView| d.contains(x) implies in_order(x, last) by {
            assert(front.contains(x));
            let i = choose|i: int| 0 <= i < front.len() && front[i] == x;
            assert(in_order(changes[i], changes[changes.len() - 1]));
        }
        lemma_push_sorted(d, last);
    }
}

proof fn lemma_change_at_put(
    changes: Seq<ChangeView>,
    c: ChangeView,
    row: usize,
    field: Seq<char>,
)
    ensures
        document_table::change_at(document_table::change_put(changes, c), row, field) == (
        if document_table::is_at(c, row, field) {
            Some(c)
        } else {
            document_table::change_at(changes, row, field)
        }),
    decreases changes.len(),
{
    let p = document_table::change_put(changes, c);
    if changes.len() == 0 {
        assert(p.drop_last() =~= Seq::<ChangeView>::empty());
        assert(document_table::change_at(p.drop_last(), row, field) is None);
    } else {
        let last = changes.last();
        let front = changes.drop_last();
        if document_table::is_at(last, c.row, c.field) {
            assert(p.drop_last() =~= front);
        } else if document_table::stands_before(c.row, c.field, last) {
            lemma_change_at_put(front, c, row, field);
            assert(p.drop_last() =~= document_table::change_put(front, c));
        } else {
            assert(p.drop_last() =~= changes);
        }
    }
}

proof fn lemma_change_at_dropped(
    changes: Seq<ChangeView>,
    row: usize,
    field: Seq<char>,
    row2: usize,
    field2: Seq<char>,
)
    ensures
        document_table::change_at(document_table::change_dropped(changes, row, field), row2, field2)
            == (if row2 == row && field2 == field {
            None
        } else {
            document_table::change_at(changes, row2, field2)
        }),
    decreases changes.len(),
{
    if changes.len() > 0 {
        let front = changes.drop_last();
        lemma_change_at_dropped(front, row, field, row2, field2);
        let d = document_table::change_dropped(front, row, field);
        assert(d.push(changes.last()).drop_last() =~= d);
    }
}

// ---------------------------------------------------------------------------
// Consistency
// ---------------------------------------------------------------------------

/// The edit fits the table: it is of a field that can be set, in a row that is
/// there, and remembers the value that was there.
pub open spec fn fits(t: TableView, c: ChangeView) -> bool {
    &&& c.row < t.originals.len()
    &&& t.columns.contains(c.field)
    &&& document_table::is_safe_field(c.field)
    &&& t.original(c.row, c.field) == Some(c.old_value)
}

/// The parts of the table agree: edits are sorted and fit, and exactly the
/// edited cells are marked.
pub open spec fn consistent(t: TableView) -> bool {
    &&& t.columns.no_duplicates()
    &&& t.documents.len() == t.originals.len()
    &&& is_sorted(t.changes)
    &&& forall|c: ChangeView| t.changes.contains(c) ==> #[trigger] fits(t, c)
    &&& forall|row: usize, col: usize|
        #[trigger] t.modified.contains((row, col)) <==> (col < t.columns.len()
            && document_table::change_at(t.changes, row, t.columns[col as int]) is Some)
}

/// A table without edits is consistent.
pub proof fn law_fresh_table(documents: Seq<Seq<(Seq<char>, BsonView)>>)
    ensures
        consistent(document_table::fresh_table(documents)),
        document_table::fresh_table(documents).changes.len() == 0,
{
    law_columns(documents);
}

proof fn lemma_column_index_found(columns: Seq<Seq<char>>, name: Seq<char>)
    requires
        columns.contains(name),
    ensures
        0 <= document_table::column_index(columns, name) < columns.len(),
        columns[document_table::column_index(columns, name)] == name,
    decreases columns.len(),
{
    if columns[0] != name {
        let t = columns.drop_first();
        let i = choose|i: int| 0 <= i < columns.len() && columns[i] == name;
        assert(t[i - 1] == name);
        lemma_column_index_found(t, name);
    }
}

/// An edit keeps the table consistent.
pub proof fn law_edit_keeps_consistency(
    t: TableView,
    row: usize,
    field: Seq<char>,
    input: Seq<char>,
)
    requires
        consistent(t),
        t.columns.len() <= usize::MAX,
    ensures
        consistent(t.edited(row, field, input)),
{
    let u = t.edited(row, field, input);
    if t.edit_answer(row, field, input) == Ok::<bool, Seq<char>>(true) {
        let old_value = t.original(row, field)->0;
        let new_value = document_table::parsed_edit(t.original(row, field), input)->Ok_0;
        let c = ChangeView { row, field, old_value, new_value };
        let at = document_table::column_index(t.columns, field);
        lemma_column_index_found(t.columns, field);
        lemma_put_sorted(t.changes, c);
        lemma_dropped_sorted(t.changes, row, field);
        assert(fits(u, c));
        assert forall|x: ChangeView| u.changes.contains(x) implies #[trigger] fits(u, x) by {
            if x != c {
                assert(t.changes.contains(x));
                assert(fits(t, x));
            }
        }
        assert forall|r: usize, k: usize|
            #[trigger] u.modified.contains((r, k)) <==> (k < u.columns.len()
                && document_table::change_at(u.changes, r, u.columns[k as int]) is Some) by {
            if k < t.columns.len() {
                lemma_change_at_put(t.changes, c, r, t.columns[k as int]);
                lemma_change_at_dropped(t.changes, row, field, r, t.columns[k as int]);
                if k != at {
                    assert(t.columns[k as int] != t.columns[at]);
                }
            }
            assert(t.modified.contains((r, k)) <==> (k < t.columns.len()
                && document_table::change_at(t.changes, r, t.columns[k as int]) is Some));
        }
    }
}

/// An accepted edit reads back in its cell, and no other cell changes.
pub proof fn law_edit_reads_back(
    t: TableView,
    row: usize,
    col: usize,
    input: Seq<char>,
    row2: usize,
    col2: usize,
)
    requires
        consistent(t),
        t.takes_edit(row, col, input),
    ensures
        ({
            let u = t.edited_at(row, col, input);
            let field = t.columns[col as int];
            &&& u.value(row, col) == Some(
                document_table::parsed_edit(t.original(row, field), input)->Ok_0,
            )
            &&& (row2, col2) != (row, col) ==> u.value(row2, col2) == t.value(row2, col2)
        }),
{
    let field = t.columns[col as int];
    let new_value = document_table::parsed_edit(t.original(row, field), input)->Ok_0;
    let d = t.documents[row as int];
    bson_ext::law_set_field_reads_back(d, field, new_value, field);
    if row2 == row && col2 < t.columns.len() && col2 != col {
        bson_ext::law_set_field_reads_back(d, field, new_value, t.columns[col2 as int]);
    }
}

/// An edit that gives the value back that was there before leaves no edit of
/// the cell, whatever was entered in between; the others stay.
pub proof fn law_edit_back_is_no_change(
    t: TableView,
    row: usize,
    field: Seq<char>,
    input: Seq<char>,
    row2: usize,
    field2: Seq<char>,
)
    requires
        t.edit_answer(row, field, input) == Ok::<bool, Seq<char>>(true),
        bson_ext::same_value(
            t.original(row, field)->0,
            document_table::parsed_edit(t.original(row, field), input)->Ok_0,
        ),
    ensures
        document_table::change_at(t.edited(row, field, input).changes, row, field) is None,
        (row2, field2) != (row, field) ==> document_table::change_at(
            t.edited(row, field, input).changes,
            row2,
            field2,
        ) == document_table::change_at(t.changes, row2, field2),
{
    lemma_change_at_dropped(t.changes, row, field, row, field);
    lemma_change_at_dropped(t.changes, row, field, row2, field2);
}

/// Giving the edits up shows what was loaded, and leaves no edit.
pub proof fn law_revert(t: TableView, row: usize, col: usize)
    requires
        consistent(t),
    ensures
        consistent(t.reverted()),
        t.reverted().changes.len() == 0,
        !t.reverted().modified.contains((row, col)),
        col < t.columns.len() ==> t.reverted().value(row, col) == t.original(
            row,
            t.columns[col as int],
        ),
        t.reverted().reverted() == t.reverted(),
{
}

/// A refused edit leaves the table alone.
pub proof fn law_refused_edit(t: TableView, row: usize, field: Seq<char>, input: Seq<char>)
    requires
        t.edit_answer(row, field, input) is Err,
    ensures
        t.edited(row, field, input) == t,
{
}

// ---------------------------------------------------------------------------
// Edits and differences
// ---------------------------------------------------------------------------

/// Two cells hold the same: equal values, or both none.
pub open spec fn same_cell(a: Option<BsonView>, b: Option<BsonView>) -> bool {
    match (a, b) {
        (Some(x), Some(y)) => bson_ext::same_value(x, y),
        (None, None) => true,
        _ => false,
    }
}

/// The field of a row holds the same in both lists of documents.
pub open spec fn same_at(
    a: Seq<Seq<(Seq<char>, BsonView)>>,
    b: Seq<Seq<(Seq<char>, BsonView)>>,
    row: int,
    field: Seq<char>,
) -> bool {
    same_cell(bson_ext::field(a[row], field), bson_ext::field(b[row], field))
}

/// The lists of documents are equal: as many documents, and in each of them
/// every field holds the same.
pub open spec fn same_documents(
    a: Seq<Seq<(Seq<char>, BsonView)>>,
    b: Seq<Seq<(Seq<char>, BsonView)>>,
) -> bool {
    a.len() == b.len() && forall|row: int, field: Seq<char>|
        0 <= row < a.len() ==> #[trigger] same_at(a, b, row, field)
}

/// The table after several edits by row and field, one after the other.
pub open spec fn recorded_all(
    t: TableView,
    edits: Seq<(usize, Seq<char>, Seq<char>)>,
) -> TableView
    decreases edits.len(),
{
    if edits.len() == 0 {
        t
    } else {
        let e = edits.last();
        recorded_all(t, edits.drop_last()).edited(e.0, e.1, e.2)
    }
}

/// The edit of a cell, or its lack, is what shown and loaded documents say:
/// there is none where the cell holds the same in both, and otherwise there is
/// one that remembers both values.
pub open spec fn accounts_for(t: TableView, row: int, field: Seq<char>) -> bool {
    match document_table::change_at(t.changes, row as usize, field) {
        Some(c) => {
            &&& bson_ext::field(t.originals[row], field) == Some(c.old_value)
            &&& bson_ext::field(t.documents[row], field) == Some(c.new_value)
            &&& !bson_ext::same_value(c.old_value, c.new_value)
        },
        None => same_at(t.originals, t.documents, row, field),
    }
}

/// The edits are the differences between the loaded and the shown documents,
/// which have the same keys.
spec fn tracks_differences(t: TableView) -> bool {
    &&& t.documents.len() == t.originals.len()
    &&& forall|row: int|
        0 <= row < t.documents.len() ==> bson_ext::keys(#[trigger] t.documents[row])
            == bson_ext::keys(t.originals[row])
    &&& forall|row: int, field: Seq<char>|
        0 <= row < t.documents.len() ==> #[trigger] accounts_for(t, row, field)
}

proof fn lemma_with_field_keeps_keys(
    d: Seq<(Seq<char>, BsonView)>,
    key: Seq<char>,
    value: BsonView,
)
    requires
        bson_ext::keys(d).contains(key),
    ensures
        bson_ext::keys(bson_ext::with_field(d, key, value)) == bson_ext::keys(d),
{
    assert(bson_ext::keys(bson_ext::with_field(d, key, value)) =~= bson_ext::keys(d));
}

proof fn lemma_edit_tracks(t: TableView, row: usize, field: Seq<char>, input: Seq<char>)
    requires
        tracks_differences(t),
        t.documents.len() <= usize::MAX,
    ensures
        tracks_differences(t.edited(row, field, input)),
{
    let u = t.edited(row, field, input);
    if t.edit_answer(row, field, input) == Ok::<bool, Seq<char>>(true) {
        let old_value = t.original(row, field)->0;
        let new_value = document_table::parsed_edit(t.original(row, field), input)->Ok_0;
        let c = ChangeView { row, field, old_value, new_value };
        let at = row as int;
        let d = t.documents[at];
        assert(t.original(row, field) == Some(old_value));
        bson_ext::lemma_field_has_key(t.originals[at], field);
        assert(bson_ext::keys(d) == bson_ext::keys(t.originals[at]));
        lemma_with_field_keeps_keys(d, field, new_value);
        assert forall|r: int| 0 <= r < u.documents.len() implies bson_ext::keys(
            #[trigger] u.documents[r],
        ) == bson_ext::keys(u.originals[r]) by {
            assert(bson_ext::keys(t.documents[r]) == bson_ext::keys(t.originals[r]));
        }
        assert forall|r: int, f: Seq<char>|
            0 <= r < u.documents.len() implies #[trigger] accounts_for(u, r, f) by {
            assert(accounts_for(t, r, f));
            lemma_change_at_put(t.changes, c, r as usize, f);
            lemma_change_at_dropped(t.changes, row, field, r as usize, f);
            bson_ext::law_set_field_reads_back(d, field, new_value, f);
        }
    }
}

proof fn lemma_change_found(changes: Seq<ChangeView>, row: usize, field: Seq<char>)
    ensures
        document_table::change_at(changes, row, field) matches Some(c) ==> changes.contains(c)
            && document_table::is_at(c, row, field),
        document_table::change_at(changes, row, field) is None ==> forall|c: ChangeView|
            changes.contains(c) ==> !document_table::is_at(c, row, field),
    decreases changes.len(),
{
    if changes.len() > 0 {
        let last = changes.last();
        let front = changes.drop_last();
        lemma_change_found(front, row, field);
        assert(changes[changes.len() - 1] == last);
        assert forall|c: ChangeView| front.contains(c) implies changes.contains(c) by {
            let i = choose|i: int| 0 <= i < front.len() && front[i] == c;
            assert(changes[i] == c);
        }
        assert forall|c: ChangeView| changes.contains(c) implies c == last || front.contains(c) by {
            let i = choose|i: int| 0 <= i < changes.len() && changes[i] == c;
            if i < front.len() {
                assert(front[i] == c);
            }
        }
    }
}

proof fn lemma_change_in_order_found(changes: Seq<ChangeView>, c: ChangeView)
    requires
        is_sorted(changes),
        changes.contains(c),
    ensures
        document_table::change_at(changes, c.row, c.field) == Some(c),
{
    lemma_change_found(changes, c.row, c.field);
    let found = document_table::change_at(changes, c.row, c.field)->0;
    let i = choose|i: int| 0 <= i < changes.len() && changes[i] == c;
    let j = choose|j: int| 0 <= j < changes.len() && changes[j] == found;
    db_node::lemma_precedes_irreflexive(c.field);
    if i < j {
        assert(in_order(changes[i], changes[j]));
    } else if j < i {
        assert(in_order(changes[j], changes[i]));
    }
}

proof fn lemma_recorded(
    start: TableView,
    edits: Seq<(usize, Seq<char>, Seq<char>)>,
)
    requires
        consistent(start),
        tracks_differences(start),
        start.columns.len() <= usize::MAX,
        start.documents.len() <= usize::MAX,
    ensures
        ({
            let t = recorded_all(start, edits);
            &&& consistent(t)
            &&& tracks_differences(t)
            &&& t.originals == start.originals
            &&& t.columns == start.columns
        }),
    decreases edits.len(),
{
    if edits.len() > 0 {
        let e = edits.last();
        lemma_recorded(start, edits.drop_last());
        let t = recorded_all(start, edits.drop_last());
        law_edit_keeps_consistency(t, e.0, e.1, e.2);
        lemma_edit_tracks(t, e.0, e.1, e.2);
    }
}

/// Whatever edits a table went through since documents were loaded into it,
/// its edits are the differences between the loaded and the shown documents:
/// there are edits just where the documents differ, a cell has one just where
/// its values differ, and it remembers the loaded and the shown value. The
/// edits stand in order, by row and then by field, and no cell has two. No
/// key comes or goes.
///
/// It takes that every loaded value equals itself, as all values do but those
/// that hold a NaN.
pub proof fn law_edits_are_differences(
    documents: Seq<Seq<(Seq<char>, BsonView)>>,
    editable: bool,
    loading: bool,
    edits: Seq<(usize, Seq<char>, Seq<char>)>,
)
    requires
        documents.len() <= usize::MAX,
        same_documents(documents, documents),
    ensures
        ({
            let start = TableView { editable, loading, ..document_table::fresh_table(documents) };
            let t = recorded_all(start, edits);
            &&& t.originals == documents
            &&& t.documents.len() == documents.len()
            &&& is_sorted(t.changes)
            &&& t.changes.len() > 0 <==> !same_documents(documents, t.documents)
            &&& forall|row: int|
                0 <= row < documents.len() ==> bson_ext::keys(#[trigger] t.documents[row])
                    == bson_ext::keys(documents[row])
            &&& forall|row: int, field: Seq<char>|
                0 <= row < documents.len() ==> (document_table::change_at(
                    t.changes,
                    row as usize,
                    field,
                ) is Some <==> !#[trigger] same_at(documents, t.documents, row, field))
            &&& forall|c: ChangeView| #[trigger]
                t.changes.contains(c) ==> {
                    &&& c.row < documents.len()
                    &&& !same_at(documents, t.documents, c.row as int, c.field)
                    &&& bson_ext::field(documents[c.row as int], c.field) == Some(c.old_value)
                    &&& bson_ext::field(t.documents[c.row as int], c.field) == Some(c.new_value)
                }
        }),
{
    let fresh = document_table::fresh_table(documents);
    let start = TableView { editable, loading, ..fresh };
    law_fresh_table(documents);
    law_columns(documents);
    assert(consistent(start)) by {
        assert forall|c: ChangeView| start.changes.contains(c) implies #[trigger] fits(
            start,
            c,
        ) by {
            assert(fits(fresh, c));
        }
    }
    assert(tracks_differences(start)) by {
        assert forall|row: int, field: Seq<char>|
            0 <= row < documents.len() implies #[trigger] accounts_for(start, row, field) by {
            assert(same_at(documents, documents, row, field));
        }
    }
    lemma_recorded(start, edits);
    let t = recorded_all(start, edits);
    assert forall|row: int, field: Seq<char>| 0 <= row < documents.len() implies (
    document_table::change_at(t.changes, row as usize, field) is Some <==> !#[trigger] same_at(
        documents,
        t.documents,
        row,
        field,
    )) by {
        assert(accounts_for(t, row, field));
    }
    assert forall|c: ChangeView| #[trigger] t.changes.contains(c) implies {
        &&& c.row < documents.len()
        &&& !same_at(documents, t.documents, c.row as int, c.field)
        &&& bson_ext::field(documents[c.row as int], c.field) == Some(c.old_value)
        &&& bson_ext::field(t.documents[c.row as int], c.field) == Some(c.new_value)
    } by {
        assert(fits(t, c));
        lemma_change_in_order_found(t.changes, c);
        assert(accounts_for(t, c.row as int, c.field));
    }
    if t.changes.len() > 0 {
        assert(t.changes.contains(t.changes[0]));
    } else {
        assert forall|row: int, field: Seq<char>| 0 <= row < documents.len() implies #[trigger] same_at(
            documents,
            t.documents,
            row,
            field,
        ) by {
            assert(accounts_for(t, row, field));
        }
    }
}

/// The rows stand in order, and none occurs twice.
pub open spec fn rows_sorted(rows: Seq<RowView>) -> bool {
    forall|i: int, j: int|
        0 <= i < j < rows.len() ==> (#[trigger] rows[i]).row < (#[trigger] rows[j]).row
}

/// All keys of the fields can be set on their own.
pub open spec fn sets_safe_fields(r: RowView) -> bool {
    forall|k: Seq<char>|
        bson_ext::keys(r.fields).contains(k) ==> #[trigger] document_table::is_safe_field(k)
}

proof fn lemma_with_field_keys(
    d: Seq<(Seq<char>, BsonView)>,
    key: Seq<char>,
    value: BsonView,
    k: Seq<char>,
)
    ensures
        bson_ext::keys(bson_ext::with_field(d, key, value)).contains(k) ==> k == key
            || bson_ext::keys(d).contains(k),
{
    let w = bson_ext::with_field(d, key, value);
    if bson_ext::keys(w).contains(k) {
        let i = choose|i: int| 0 <= i < bson_ext::keys(w).len() && bson_ext::keys(w)[i] == k;
        assert(w[i].0 == k);
        if i < d.len() {
            assert(bson_ext::keys(d)[i] == d[i].0);
        }
    }
}

/// The updates that the edits lead to are one for each edited row, in the
/// order of the rows, and set no field that cannot be set: above all, no id.
pub proof fn law_updates_are_safe(t: TableView, changes: Seq<ChangeView>)
    requires
        is_sorted(changes),
        forall|c: ChangeView| changes.contains(c) ==> #[trigger] fits(t, c),
    ensures
        rows_sorted(document_table::rows_set(changes)),
        forall|i: int|
            0 <= i < document_table::rows_set(changes).len() ==> sets_safe_fields(
                #[trigger] document_table::rows_set(changes)[i],
            ),
        changes.len() > 0 ==> document_table::rows_set(changes).len() > 0
            && document_table::rows_set(changes).last().row == changes.last().row,
    decreases changes.len(),
{
    if changes.len() > 0 {
        let front = changes.drop_last();
        let c = changes.last();
        assert(is_sorted(front)) by {
            assert forall|i: int, j: int| 0 <= i < j < front.len() implies in_order(
                #[trigger] front[i],
                #[trigger] front[j],
            ) by {
                assert(front[i] == changes[i] && front[j] == changes[j]);
            }
        }
        assert forall|x: ChangeView| front.contains(x) implies #[trigger] fits(t, x) by {
            let i = choose|i: int| 0 <= i < front.len() && front[i] == x;
            assert(changes[i] == x);
            assert(changes.contains(x));
        }
        law_updates_are_safe(t, front);
        assert(changes[changes.len() - 1] == c);
        assert(changes.contains(c));
        assert(fits(t, c));
        let rest = document_table::rows_set(front);
        let all = document_table::rows_set(changes);
        if front.len() > 0 {
            assert(in_order(changes[front.len() - 1], changes[changes.len() - 1]));
            assert(front.last() == changes[front.len() - 1]);
        } else {
            assert(rest.len() == 0);
        }
        let fields = all.last().fields;
        let prior = if rest.len() > 0 && rest.last().row == c.row {
            rest.last().fields
        } else {
            Seq::empty()
        };
        assert(fields == bson_ext::with_field(prior, c.field, c.new_value));
        assert(sets_safe_fields(all.last())) by {
            assert forall|k: Seq<char>|
                bson_ext::keys(
                    fields,
                ).contains(k) implies #[trigger] document_table::is_safe_field(k) by {
                lemma_with_field_keys(prior, c.field, c.new_value, k);
                if k != c.field {
                    if rest.len() > 0 && rest.last().row == c.row {
                        assert(sets_safe_fields(rest[rest.len() - 1]));
                    } else {
                        assert(bson_ext::keys(prior).len() == 0);
                    }
                }
            }
        }
        assert forall|i: int| 0 <= i < all.len() implies sets_safe_fields(#[trigger] all[i]) by {
            if i < all.len() - 1 {
                assert(all[i] == rest[i]);
            }
        }
        assert forall|i: int, j: int| 0 <= i < j < all.len() implies (#[trigger] all[i]).row < (
        #[trigger] all[j]).row by {
            assert(all[i] == rest[i]);
            if j < all.len() - 1 {
                assert(all[j] == rest[j]);
            } else if i < rest.len() - 1 {
                assert(rest[i].row < rest[rest.len() - 1].row);
            }
        }
    }
}

} // verus!
