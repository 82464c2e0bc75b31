//! The table of documents: its columns, the text of its cells, and the edits
//! that are not saved yet.
use vstd::prelude::*;

use mongodb::bson::{Bson, Document};

use crate::bson_ext;
use crate::bson_ext::BsonView;
use crate::db_node;
use crate::mongo_types;
use crate::mongo_types::MongoError;
use crate::text;

verus! {

/// How many columns a table has at most.
pub const TABLE_MAX_COLUMNS: usize = 24;

/// The width of the column of the ids, in pixels.
pub const TABLE_ID_COLUMN_WIDTH: u32 = 220;

/// The width of every other column, in pixels.
pub const TABLE_FIELD_COLUMN_WIDTH: u32 = 160;

/// One column of the table.
#[derive(Debug)]
pub struct TableColumn {
    pub key: String,
    pub title: String,
    pub width: u32,
    pub fixed_left: bool,
}

/// An edit of one cell that is not saved yet.
#[derive(Debug, PartialEq)]
pub struct BsonCellValue {
    pub row_index: usize,
    pub field: String,
    pub old_value: Bson,
    pub new_value: Bson,
}

/// The edits of one document that are not saved yet.
#[derive(Debug)]
pub struct MongoDocumentFieldChange {
    pub row_index: usize,
    pub id: Bson,
    pub set_fields: Document,
}

/// The mathematical value of a [`BsonCellValue`].
pub ghost struct ChangeView {
    pub row: usize,
    pub field: Seq<char>,
    pub old_value: BsonView,
    pub new_value: BsonView,
}

/// The fields that the edits of one row set.
pub ghost struct RowView {
    pub row: usize,
    pub fields: Seq<(Seq<char>, BsonView)>,
}

/// The mathematical value of the table.
#[verifier::ext_equal]
pub ghost struct TableView {
    pub columns: Seq<Seq<char>>,
    pub documents: Seq<Seq<(Seq<char>, BsonView)>>,
    pub originals: Seq<Seq<(Seq<char>, BsonView)>>,
    pub changes: Seq<ChangeView>,
    pub modified: Set<(usize, usize)>,
    pub editable: bool,
    pub loading: bool,
}

// ---------------------------------------------------------------------------
// Columns
// ---------------------------------------------------------------------------

/// The columns with further keys: those that are not there yet, in their
/// order. The id has its own place.
pub open spec fn keys_added(columns: Seq<Seq<char>>, keys: Seq<Seq<char>>) -> Seq<Seq<char>>
    decreases keys.len(),
{
    if keys.len() == 0 {
        columns
    } else {
        let rest = keys_added(columns, keys.drop_last());
        let key = keys.last();
        if key == "_id"@ || rest.contains(key) {
            rest
        } else {
            rest.push(key)
        }
    }
}

/// The keys of all documents but the id, in the order they are first seen in.
pub open spec fn keys_seen(documents: Seq<Seq<(Seq<char>, BsonView)>>) -> Seq<Seq<char>>
    decreases documents.len(),
{
    if documents.len() == 0 {
        Seq::empty()
    } else {
        keys_added(keys_seen(documents.drop_last()), bson_ext::keys(documents.last()))
    }
}

/// The columns of a table: the id, then the other keys, up to the limit.
pub open spec fn columns_of(documents: Seq<Seq<(Seq<char>, BsonView)>>) -> Seq<Seq<char>> {
    let all = seq!["_id"@] + keys_seen(documents);
    if all.len() > TABLE_MAX_COLUMNS {
        all.take(TABLE_MAX_COLUMNS as int)
    } else {
        all
    }
}

/// The columns of a table of the documents.
pub fn collect_table_columns(documents: &Vec<Document>) -> (r: Vec<String>)
    ensures
        text::views(r@) == columns_of(bson_ext::document_views(documents@)),
{
    let ghost ds = bson_ext::document_views(documents@);
    let mut seen: Vec<String> = Vec::new();
    let mut i: usize = 0;
    assert(ds.take(0) =~= Seq::empty());
    assert(text::views(seen@) =~= Seq::empty());
    while i < documents.len()
        invariant
            i <= documents@.len(),
            ds == bson_ext::document_views(documents@),
            text::views(seen@) == keys_seen(ds.take(i as int)),
        decreases documents@.len() - i,
    {
        let keys = bson_ext::document_keys(&documents[i]);
        let ghost ks = text::views(keys@);
        let ghost start = text::views(seen@);
        let mut j: usize = 0;
        assert(ks.take(0) =~= Seq::empty());
        while j < keys.len()
            invariant
                j <= keys@.len(),
                ks == text::views(keys@),
                text::views(seen@) == keys_added(start, ks.take(j as int)),
            decreases keys@.len() - j,
        {
            let ghost before = seen@;
            assert(ks.take(j as int + 1).drop_last() =~= ks.take(j as int));
            assert(ks.take(j as int + 1).last() == keys@[j as int]@);
            if !text::same(keys[j].as_str(), "_id") && !text::contains_text(
                &seen,
                keys[j].as_str(),
            ) {
                seen.push(keys[j].clone());
                assert(text::views(seen@) =~= text::views(before).push(keys@[j as int]@));
            }
            j = j + 1;
        }
        assert(ks.take(ks.len() as int) =~= ks);
        assert(ds.take(i as int + 1).drop_last() =~= ds.take(i as int));
        assert(ds.take(i as int + 1).last() == bson_ext::document_view(documents@[i as int]));
        i = i + 1;
    }
    assert(ds.take(ds.len() as int) =~= ds);
    let mut columns: Vec<String> = Vec::new();
    columns.push("_id".to_owned());
    let ghost first = columns@;
    let ghost rest = seen@;
    columns.append(&mut seen);
    assert(text::views(columns@) =~= seq!["_id"@] + text::views(rest));
    if columns.len() > TABLE_MAX_COLUMNS {
        let ghost all = columns@;
        columns.truncate(TABLE_MAX_COLUMNS);
        assert(text::views(columns@) =~= text::views(all).take(TABLE_MAX_COLUMNS as int));
    }
    columns
}

/// The width of a column in pixels.
pub open spec fn column_width(column: Seq<char>) -> u32 {
    if column == "_id"@ {
        TABLE_ID_COLUMN_WIDTH
    } else {
        TABLE_FIELD_COLUMN_WIDTH
    }
}

/// The width of a column in pixels.
pub fn table_column_width(column: &str) -> (r: u32)
    ensures
        r == column_width(column@),
{
    if text::same(column, "_id") {
        TABLE_ID_COLUMN_WIDTH
    } else {
        TABLE_FIELD_COLUMN_WIDTH
    }
}

/// `c` is the column for the key `name`: only the id stays in view.
pub open spec fn is_column(name: Seq<char>, c: TableColumn) -> bool {
    c.key@ == name && c.title@ == name && c.width == column_width(name) && c.fixed_left == (name
        == "_id"@)
}

/// The columns for the given keys.
pub fn build_columns(column_names: &Vec<String>) -> (r: Vec<TableColumn>)
    ensures
        r@.len() == column_names@.len(),
        forall|i: int| 0 <= i < r@.len() ==> is_column(column_names@[i]@, #[trigger] r@[i]),
{
    let mut out: Vec<TableColumn> = Vec::new();
    let mut i: usize = 0;
    while i < column_names.len()
        invariant
            i <= column_names@.len(),
            out@.len() == i,
            forall|j: int| 0 <= j < i ==> is_column(column_names@[j]@, #[trigger] out@[j]),
        decreases column_names@.len() - i,
    {
        let name = &column_names[i];
        out.push(
            TableColumn {
                key: name.clone(),
                title: name.clone(),
                width: table_column_width(name.as_str()),
                fixed_left: text::same(name.as_str(), "_id"),
            },
        );
        i = i + 1;
    }
    out
}

// ---------------------------------------------------------------------------
// Cells
// ---------------------------------------------------------------------------

/// The text of a cell: plain where the value has a plain text, RFC 3339 for a
/// date, extended JSON for the rest.
pub open spec fn cell_text(value: Option<BsonView>) -> Seq<char> {
    match value {
        None => Seq::empty(),
        Some(v) => match v {
            BsonView::DateTime(millis) => match bson_ext::date_text(millis) {
                Some(s) => s,
                None => text::signed_decimal(millis as int),
            },
            BsonView::Text(_)
            | BsonView::Int32(_)
            | BsonView::Int64(_)
            | BsonView::Double(_)
            | BsonView::Boolean(_)
            | BsonView::ObjectId(_) => mongo_types::plain_text(v),
            _ => match bson_ext::json_text(bson_ext::relaxed_json(v)) {
                Ok(s) => s,
                Err(_) => bson_ext::debug_text(v),
            },
        },
    }
}

/// What an optional value holds.
pub open spec fn opt_view(v: Option<&Bson>) -> Option<BsonView> {
    match v {
        Some(b) => Some(bson_ext::bson_view(*b)),
        None => None,
    }
}

/// The text of a cell.
pub fn table_cell_text(value: Option<&Bson>) -> (r: String)
    ensures
        r@ == cell_text(opt_view(value)),
{
    let value = match value {
        Some(v) => v,
        None => {
            let r = String::new();
            assert(r@ =~= Seq::empty());
            return r;
        },
    };
    if let Some(millis) = bson_ext::date_millis_of(value) {
        return match bson_ext::date_text_of(value) {
            Some(s) => s,
            None => text::signed_number(millis),
        };
    }
    let tag: u8 = bson_ext::tag_of(value);
    if tag == 0x01 || tag == 0x02 || tag == 0x07 || tag == 0x08 || tag == 0x10 || tag == 0x12 {
        return mongo_types::bson_to_string(value);
    }
    match mongo_types::bson_to_compact_json(value) {
        Ok(s) => s,
        Err(_) => bson_ext::debug_of(value),
    }
}

/// The value can be edited in its cell.
pub open spec fn is_editable(v: BsonView) -> bool {
    v is Text || v is Int32 || v is Int64 || v is Double || v is Boolean || v is DateTime || v is Null
}

/// Whether the value can be edited in its cell.
pub fn is_editable_bson_value(value: &Bson) -> (r: bool)
    ensures
        r == is_editable(bson_ext::bson_view(*value)),
{
    let tag: u8 = bson_ext::tag_of(value);
    tag == 0x01 || tag == 0x02 || tag == 0x08 || tag == 0x09 || tag == 0x0a || tag == 0x10 || tag
        == 0x12
}

/// The field can be set on its own: it is not the id, and its name neither
/// holds a dot nor begins with a dollar sign.
pub open spec fn is_safe_field(field: Seq<char>) -> bool {
    field != "_id"@ && !field.contains('.') && !(field.len() > 0 && field[0] == '$')
}

/// Whether the field can be set on its own.
pub fn is_safe_update_field_name(field: &str) -> (r: bool)
    ensures
        r == is_safe_field(field@),
{
    let chars = text::to_chars(field);
    let dollar = chars.len() > 0 && chars[0] == '$';
    !text::same(field, "_id") && !text::contains_char(field, '.') && !dollar
}

/// What a cell is edited as: empty for null, else its text.
pub fn edit_input_text(value: &Bson) -> (r: String)
    ensures
        r@ == (if bson_ext::bson_view(*value) is Null {
            Seq::empty()
        } else {
            cell_text(Some(bson_ext::bson_view(*value)))
        }),
{
    if bson_ext::tag_of(value) == 0x0a {
        let r = String::new();
        assert(r@ =~= Seq::empty());
        r
    } else {
        table_cell_text(Some(value))
    }
}

/// The value that an edited text stands for, given the value before: of the
/// same kind, but that a null can become a text. Or why there is none.
pub open spec fn parsed_edit(original: Option<BsonView>, input: Seq<char>) -> Result<
    BsonView,
    Seq<char>,
> {
    let t = text::trimmed(input);
    match original {
        None => Err("Missing field cannot be edited inline."@),
        Some(v) => match v {
            BsonView::Text(_) => Ok(BsonView::Text(input)),
            BsonView::Int32(_) => match text::int_within(t, i32::MIN as int, i32::MAX as int) {
                Some(n) => Ok(BsonView::Int32(n as i32)),
                None => Err(bson_ext::int32_error(t)),
            },
            BsonView::Int64(_) => match text::int_within(t, i64::MIN as int, i64::MAX as int) {
                Some(n) => Ok(BsonView::Int64(n as i64)),
                None => Err(bson_ext::int64_error(t)),
            },
            BsonView::Double(_) => match bson_ext::parsed_double(t) {
                Ok(bits) => Ok(BsonView::Double(bits)),
                Err(why) => Err(why),
            },
            BsonView::Boolean(_) => if t == "true"@ {
                Ok(BsonView::Boolean(true))
            } else if t == "false"@ {
                Ok(BsonView::Boolean(false))
            } else {
                Err(bson_ext::bool_error(t))
            },
            BsonView::DateTime(_) => match bson_ext::parsed_date(t) {
                Ok(millis) => Ok(BsonView::DateTime(millis)),
                Err(why) => Err(why),
            },
            BsonView::Null => if t.len() == 0 {
                Ok(BsonView::Null)
            } else {
                Ok(BsonView::Text(input))
            },
            _ => Err("This BSON value cannot be edited inline."@),
        },
    }
}

/// The value that an edited text stands for, given the value before.
pub fn parse_edit_cell_value(original: Option<&Bson>, input: &str) -> (r: Result<Bson, MongoError>)
    ensures
        match parsed_edit(opt_view(original), input@) {
            Ok(v) => r matches Ok(b) && bson_ext::bson_view(b) == v,
            Err(why) => r matches Err(e) && mongo_types::is_invalid(e, why),
        },
{
    let original = match original {
        Some(v) => v,
        None => {
            return Err(
                MongoError::InvalidFilter("Missing field cannot be edited inline.".to_owned()),
            );
        },
    };
    let trimmed = text::trim(input);
    let tag: u8 = bson_ext::tag_of(original);
    if tag == 0x02 {
        return Ok(bson_ext::bson_text(input.to_owned()));
    }
    if tag == 0x10 {
        return match bson_ext::parse_int32(trimmed.as_str()) {
            Ok(n) => Ok(bson_ext::bson_int32(n)),
            Err(e) => Err(MongoError::InvalidFilter(e)),
        };
    }
    if tag == 0x12 {
        return match bson_ext::parse_int64(trimmed.as_str()) {
            Ok(n) => Ok(bson_ext::bson_int64(n)),
            Err(e) => Err(MongoError::InvalidFilter(e)),
        };
    }
    if tag == 0x01 {
        return match bson_ext::parse_double(trimmed.as_str()) {
            Ok(b) => Ok(b),
            Err(e) => Err(MongoError::InvalidFilter(e)),
        };
    }
    if tag == 0x08 {
        proof {
            reveal_strlit("true");
            reveal_strlit("false");
            assert("true"@.len() != "false"@.len());
        }
        return match bson_ext::parse_bool(trimmed.as_str()) {
            Ok(b) => Ok(bson_ext::bson_bool(b)),
            Err(e) => Err(MongoError::InvalidFilter(e)),
        };
    }
    if tag == 0x09 {
        return match bson_ext::parse_date(trimmed.as_str()) {
            Ok(b) => Ok(b),
            Err(e) => Err(MongoError::InvalidFilter(e)),
        };
    }
    if tag == 0x0a {
        return if trimmed.as_str().is_empty() {
            Ok(bson_ext::bson_null())
        } else {
            Ok(bson_ext::bson_text(input.to_owned()))
        };
    }
    Err(MongoError::InvalidFilter("This BSON value cannot be edited inline.".to_owned()))
}

/// The update that sets the given fields.
pub open spec fn set_update(fields: Seq<(Seq<char>, BsonView)>) -> Seq<(Seq<char>, BsonView)> {
    seq![("$set"@, BsonView::Document(fields))]
}

/// The update that sets one field.
pub fn build_set_update_document(field: &str, value: Bson) -> (r: Document)
    ensures
        bson_ext::document_view(r) == set_update(seq![(field@, bson_ext::bson_view(value))]),
{
    let mut fields = bson_ext::new_document();
    bson_ext::set_field(&mut fields, field.to_owned(), value);
    assert(bson_ext::document_view(fields) =~= seq![(field@, bson_ext::bson_view(value))]);
    build_set_update_document_from_fields(fields)
}

/// The update that sets the given fields.
pub fn build_set_update_document_from_fields(set_fields: Document) -> (r: Document)
    ensures
        bson_ext::document_view(r) == set_update(bson_ext::document_view(set_fields)),
{
    let mut update = bson_ext::new_document();
    let inner = bson_ext::bson_document(set_fields);
    bson_ext::set_field(&mut update, "$set".to_owned(), inner);
    assert(bson_ext::document_view(update) =~= set_update(bson_ext::document_view(set_fields)));
    update
}

// ---------------------------------------------------------------------------
// Edits
// ---------------------------------------------------------------------------

/// The edit stands at this cell.
pub open spec fn is_at(c: ChangeView, row: usize, field: Seq<char>) -> bool {
    c.row == row && c.field == field
}

/// The cell stands before that of the edit: rows count first, then the order
/// of the field names.
pub open spec fn stands_before(row: usize, field: Seq<char>, c: ChangeView) -> bool {
    row < c.row || (row == c.row && db_node::precedes(field, c.field))
}

/// The edits with `c` in its place; it takes the place of an edit of the same
/// cell.
pub open spec fn change_put(changes: Seq<ChangeView>, c: ChangeView) -> Seq<ChangeView>
    decreases changes.len(),
{
    if changes.len() == 0 {
        seq![c]
    } else if is_at(changes.last(), c.row, c.field) {
        changes.drop_last().push(c)
    } else if stands_before(c.row, c.field, changes.last()) {
        change_put(changes.drop_last(), c).push(changes.last())
    } else {
        changes.push(c)
    }
}

/// The edits without that of the cell.
pub open spec fn change_dropped(changes: Seq<ChangeView>, row: usize, field: Seq<char>) -> Seq<
    ChangeView,
>
    decreases changes.len(),
{
    if changes.len() == 0 {
        Seq::empty()
    } else if is_at(changes.last(), row, field) {
        change_dropped(changes.drop_last(), row, field)
    } else {
        change_dropped(changes.drop_last(), row, field).push(changes.last())
    }
}

/// The edit of the cell, if there is one.
pub open spec fn change_at(changes: Seq<ChangeView>, row: usize, field: Seq<char>) -> Option<
    ChangeView,
>
    decreases changes.len(),
{
    if changes.len() == 0 {
        None
    } else if is_at(changes.last(), row, field) {
        Some(changes.last())
    } else {
        change_at(changes.drop_last(), row, field)
    }
}

/// The position of the first column with the name.
pub open spec fn column_index(columns: Seq<Seq<char>>, name: Seq<char>) -> int
    decreases columns.len(),
{
    if columns.len() == 0 || columns[0] == name {
        0
    } else {
        1 + column_index(columns.drop_first(), name)
    }
}

/// The fields that the edits set, row by row.
pub open spec fn rows_set(changes: Seq<ChangeView>) -> Seq<RowView>
    decreases changes.len(),
{
    if changes.len() == 0 {
        Seq::empty()
    } else {
        let rest = rows_set(changes.drop_last());
        let c = changes.last();
        if rest.len() > 0 && rest.last().row == c.row {
            rest.drop_last().push(
                RowView {
                    row: c.row,
                    fields: bson_ext::with_field(rest.last().fields, c.field, c.new_value),
                },
            )
        } else {
            rest.push(
                RowView {
                    row: c.row,
                    fields: bson_ext::with_field(Seq::empty(), c.field, c.new_value),
                },
            )
        }
    }
}

impl TableView {
    /// The value that a field of a row had before any edit.
    pub open spec fn original(self, row: usize, field: Seq<char>) -> Option<BsonView> {
        if row < self.originals.len() {
            bson_ext::field(self.originals[row as int], field)
        } else {
            None
        }
    }

    /// The value that a cell shows.
    pub open spec fn value(self, row: usize, col: usize) -> Option<BsonView> {
        if col < self.columns.len() && row < self.documents.len() {
            bson_ext::field(self.documents[row as int], self.columns[col as int])
        } else {
            None
        }
    }

    /// What an edit of a cell is answered: whether it was taken over, or why
    /// not.
    pub open spec fn edit_answer(
        self,
        row: usize,
        field: Seq<char>,
        input: Seq<char>,
    ) -> Result<bool, Seq<char>> {
        if !self.columns.contains(field) {
            Err("Unknown field: "@ + field)
        } else if !is_safe_field(field) {
            Err("This field cannot be edited with $set."@)
        } else {
            match parsed_edit(self.original(row, field), input) {
                Err(why) => Err(why),
                Ok(_) => Ok(row < self.documents.len()),
            }
        }
    }

    /// The table after an edit of a cell. An edit that gives the value back
    /// that was there before is no change.
    pub open spec fn edited(self, row: usize, field: Seq<char>, input: Seq<char>) -> TableView {
        if self.edit_answer(row, field, input) != Ok::<bool, Seq<char>>(true) {
            self
        } else {
            let old_value = self.original(row, field)->0;
            let new_value = parsed_edit(self.original(row, field), input)->Ok_0;
            let cell = (row, column_index(self.columns, field) as usize);
            let same = bson_ext::same_value(old_value, new_value);
            TableView {
                documents: self.documents.update(
                    row as int,
                    bson_ext::with_field(self.documents[row as int], field, new_value),
                ),
                changes: if same {
                    change_dropped(self.changes, row, field)
                } else {
                    change_put(self.changes, ChangeView { row, field, old_value, new_value })
                },
                modified: if same {
                    self.modified.remove(cell)
                } else {
                    self.modified.insert(cell)
                },
                ..self
            }
        }
    }

    /// The table after an edit of the cell in a column, if there is one.
    pub open spec fn edited_at(self, row: usize, col: usize, input: Seq<char>) -> TableView {
        if col < self.columns.len() {
            self.edited(row, self.columns[col as int], input)
        } else {
            self
        }
    }

    /// An edit of the cell in a column is taken over.
    pub open spec fn takes_edit(self, row: usize, col: usize, input: Seq<char>) -> bool {
        col < self.columns.len() && self.edit_answer(row, self.columns[col as int], input) == Ok::<
            bool,
            Seq<char>,
        >(true)
    }

    /// The table after several edits, one after the other.
    pub open spec fn edited_all(self, edits: Seq<(usize, usize, Seq<char>)>) -> TableView
        decreases edits.len(),
    {
        if edits.len() == 0 {
            self
        } else {
            let e = edits.last();
            self.edited_all(edits.drop_last()).edited_at(e.0, e.1, e.2)
        }
    }

    /// One of several edits is taken over.
    pub open spec fn takes_any(self, edits: Seq<(usize, usize, Seq<char>)>) -> bool
        decreases edits.len(),
    {
        if edits.len() == 0 {
            false
        } else {
            let e = edits.last();
            self.takes_any(edits.drop_last()) || self.edited_all(edits.drop_last()).takes_edit(
                e.0,
                e.1,
                e.2,
            )
        }
    }

    /// The table with all edits given up.
    pub open spec fn reverted(self) -> TableView {
        TableView {
            documents: self.originals,
            changes: Seq::empty(),
            modified: Set::empty(),
            ..self
        }
    }

    /// The cell can be edited in place.
    pub open spec fn can_edit(self, row: usize, col: usize) -> bool {
        self.editable && col < self.columns.len() && is_safe_field(self.columns[col as int]) && (
        self.value(row, col) matches Some(v) && is_editable(v))
    }
}

/// A table of the documents, without edits.
pub open spec fn fresh_table(documents: Seq<Seq<(Seq<char>, BsonView)>>) -> TableView {
    TableView {
        columns: columns_of(documents),
        documents,
        originals: documents,
        changes: Seq::empty(),
        modified: Set::empty(),
        editable: true,
        loading: false,
    }
}

/// The edits of several cells: row, column and text.
pub open spec fn edit_views(v: Seq<(usize, usize, String)>) -> Seq<(usize, usize, Seq<char>)> {
    Seq::new(v.len(), |i: int| (v[i].0, v[i].1, v[i].2@))
}

impl BsonCellValue {
    /// The mathematical value of the edit.
    pub open spec fn view(&self) -> ChangeView {
        ChangeView {
            row: self.row_index,
            field: self.field@,
            old_value: bson_ext::bson_view(self.old_value),
            new_value: bson_ext::bson_view(self.new_value),
        }
    }

    /// A copy of the edit.
    pub fn copy(&self) -> (r: BsonCellValue)
        ensures
            r.view() == self.view(),
    {
        BsonCellValue {
            row_index: self.row_index,
            field: self.field.clone(),
            old_value: bson_ext::copy_bson(&self.old_value),
            new_value: bson_ext::copy_bson(&self.new_value),
        }
    }
}

/// The values of a list of edits.
pub open spec fn change_views(v: Seq<BsonCellValue>) -> Seq<ChangeView> {
    Seq::new(v.len(), |i: int| v[i].view())
}

/// A copy of a list of documents.
pub fn copy_documents(v: &Vec<Document>) -> (r: Vec<Document>)
    ensures
        bson_ext::document_views(r@) == bson_ext::document_views(v@),
{
    let ghost vs = bson_ext::document_views(v@);
    let mut out: Vec<Document> = Vec::new();
    let mut i: usize = 0;
    assert(bson_ext::document_views(out@) =~= vs.take(0));
    while i < v.len()
        invariant
            i <= v@.len(),
            vs == bson_ext::document_views(v@),
            bson_ext::document_views(out@) == vs.take(i as int),
        decreases v@.len() - i,
    {
        let ghost before = out@;
        out.push(bson_ext::copy_document(&v[i]));
        assert(bson_ext::document_views(out@) =~= bson_ext::document_views(before).push(
            vs[i as int],
        ));
        assert(vs.take(i as int + 1) =~= vs.take(i as int).push(vs[i as int]));
        i = i + 1;
    }
    assert(vs.take(vs.len() as int) =~= vs);
    out
}

proof fn lemma_change_put_at(changes: Seq<ChangeView>, c: ChangeView, at: int)
    requires
        0 <= at <= changes.len(),
        forall|j: int|
            at <= j < changes.len() ==> !is_at(#[trigger] changes[j], c.row, c.field)
                && stands_before(c.row, c.field, changes[j]),
        at > 0 ==> is_at(changes[at - 1], c.row, c.field) || !stands_before(
            c.row,
            c.field,
            changes[at - 1],
        ),
    ensures
        change_put(changes, c) == (if at > 0 && is_at(changes[at - 1], c.row, c.field) {
            changes.update(at - 1, c)
        } else {
            changes.insert(at, c)
        }),
    decreases changes.len(),
{
    if at < changes.len() {
        let t = changes.drop_last();
        assert(changes[changes.len() - 1] == changes.last());
        assert(at > 0 ==> t[at - 1] == changes[at - 1]);
        lemma_change_put_at(t, c, at);
        if at > 0 && is_at(changes[at - 1], c.row, c.field) {
            assert(t.update(at - 1, c).push(changes.last()) =~= changes.update(at - 1, c));
        } else {
            assert(t.insert(at, c).push(changes.last()) =~= changes.insert(at, c));
        }
    } else if changes.len() == 0 {
        assert(seq![c] =~= changes.insert(0, c));
    } else if is_at(changes.last(), c.row, c.field) {
        assert(changes.drop_last().push(c) =~= changes.update(at - 1, c));
    } else {
        assert(changes.push(c) =~= changes.insert(at, c));
    }
}

/// Puts the edit in its place.
fn put_change(v: &mut Vec<BsonCellValue>, c: BsonCellValue)
    ensures
        change_views(final(v)@) == change_put(change_views(old(v)@), c.view()),
{
    let ghost vs = change_views(v@);
    let ghost cv = c.view();
    let mut at: usize = v.len();
    while at > 0 && !(v[at - 1].row_index == c.row_index && text::same(
        v[at - 1].field.as_str(),
        c.field.as_str(),
    )) && (c.row_index < v[at - 1].row_index || (c.row_index == v[at - 1].row_index
        && db_node::text_precedes(c.field.as_str(), v[at - 1].field.as_str())))
        invariant
            at <= v@.len(),
            v@ == old(v)@,
            vs == change_views(v@),
            cv == c.view(),
            forall|j: int|
                at <= j < vs.len() ==> !is_at(#[trigger] vs[j], cv.row, cv.field) && stands_before(
                    cv.row,
                    cv.field,
                    vs[j],
                ),
        ensures
            at > 0 ==> is_at(vs[at - 1], cv.row, cv.field) || !stands_before(
                cv.row,
                cv.field,
                vs[at - 1],
            ),
        decreases at,
    {
        at = at - 1;
    }
    proof {
        lemma_change_put_at(vs, cv, at as int);
    }
    if at > 0 && v[at - 1].row_index == c.row_index && text::same(
        v[at - 1].field.as_str(),
        c.field.as_str(),
    ) {
        v.set(at - 1, c);
        assert(change_views(v@) =~= vs.update(at - 1, cv));
    } else {
        v.insert(at, c);
        assert(change_views(v@) =~= vs.insert(at as int, cv));
    }
}

/// Drops the edit of the cell.
fn drop_change(v: &Vec<BsonCellValue>, row: usize, field: &str) -> (r: Vec<BsonCellValue>)
    ensures
        change_views(r@) == change_dropped(change_views(v@), row, field@),
{
    let ghost vs = change_views(v@);
    let mut out: Vec<BsonCellValue> = Vec::new();
    let mut i: usize = 0;
    assert(vs.take(0) =~= Seq::empty());
    assert(change_views(out@) =~= Seq::empty());
    while i < v.len()
        invariant
            i <= v@.len(),
            vs == change_views(v@),
            change_views(out@) == change_dropped(vs.take(i as int), row, field@),
        decreases v@.len() - i,
    {
        let ghost before = out@;
        assert(vs.take(i as int + 1).drop_last() =~= vs.take(i as int));
        assert(vs.take(i as int + 1).last() == v@[i as int].view());
        if !(v[i].row_index == row && text::same(v[i].field.as_str(), field)) {
            out.push(v[i].copy());
            assert(change_views(out@) =~= change_views(before).push(vs[i as int]));
        }
        i = i + 1;
    }
    assert(vs.take(vs.len() as int) =~= vs);
    out
}

/// The cells of a list without one of them.
fn drop_cell(v: &Vec<(usize, usize)>, cell: (usize, usize)) -> (r: Vec<(usize, usize)>)
    ensures
        r@.to_set() == v@.to_set().remove(cell),
{
    let mut out: Vec<(usize, usize)> = Vec::new();
    let mut i: usize = 0;
    while i < v.len()
        invariant
            i <= v@.len(),
            forall|x: (usize, usize)|
                out@.contains(x) <==> x != cell && exists|j: int| 0 <= j < i && #[trigger] v@[j] == x,
        decreases v@.len() - i,
    {
        let ghost before = out@;
        if !(v[i].0 == cell.0 && v[i].1 == cell.1) {
            out.push(v[i]);
        }
        proof {
            broadcast use vstd::seq_lib::lemma_seq_contains_after_push;

            assert forall|x: (usize, usize)| out@.contains(x) implies x != cell && exists|j: int|
                0 <= j < i + 1 && #[trigger] v@[j] == x by {
                if before.contains(x) {
                    let j = choose|j: int| 0 <= j < i && #[trigger] v@[j] == x;
                    assert(v@[j] == x);
                } else {
                    assert(v@[i as int] == x);
                }
            }
            assert forall|x: (usize, usize)|
                x != cell && (exists|j: int| 0 <= j < i + 1 && #[trigger] v@[j] == x) implies out@.contains(
            x) by {
                let j = choose|j: int| 0 <= j < i + 1 && #[trigger] v@[j] == x;
                if j < i {
                    assert(before.contains(x));
                }
            }
        }
        i = i + 1;
    }
    assert(out@.to_set() =~= v@.to_set().remove(cell)) by {
        assert forall|x: (usize, usize)|
            out@.to_set().contains(x) == v@.to_set().remove(cell).contains(x) by {
            if v@.contains(x) {
                let j = choose|j: int| 0 <= j < v@.len() && v@[j] == x;
                assert(v@[j] == x);
            }
        }
    }
    out
}

/// Whether the list holds the cell.
fn has_cell(v: &Vec<(usize, usize)>, row: usize, col: usize) -> (r: bool)
    ensures
        r == v@.to_set().contains((row, col)),
{
    let mut i: usize = 0;
    while i < v.len()
        invariant
            i <= v@.len(),
            forall|j: int| 0 <= j < i ==> v@[j] != (row, col),
        decreases v@.len() - i,
    {
        if v[i].0 == row && v[i].1 == col {
            assert(v@[i as int] == (row, col));
            return true;
        }
        i = i + 1;
    }
    false
}

proof fn lemma_column_index(columns: Seq<Seq<char>>, name: Seq<char>, i: int)
    requires
        0 <= i < columns.len(),
        columns[i] == name,
        forall|j: int| 0 <= j < i ==> columns[j] != name,
    ensures
        column_index(columns, name) == i,
    decreases i,
{
    if i > 0 {
        let t = columns.drop_first();
        assert forall|j: int| 0 <= j < i - 1 implies t[j] != name by {
            assert(t[j] == columns[j + 1]);
        }
        lemma_column_index(t, name, i - 1);
    }
}

/// The table of documents with its edits.
#[derive(Debug)]
pub struct MongoDocumentTableDelegate {
    columns: Vec<TableColumn>,
    column_names: Vec<String>,
    documents: Vec<Document>,
    original_documents: Vec<Document>,
    cell_changes: Vec<BsonCellValue>,
    modified_cells: Vec<(usize, usize)>,
    editable: bool,
    loading: bool,
}

impl MongoDocumentTableDelegate {
    /// The mathematical value of the table.
    pub closed spec fn view(&self) -> TableView {
        TableView {
            columns: text::views(self.column_names@),
            documents: bson_ext::document_views(self.documents@),
            originals: bson_ext::document_views(self.original_documents@),
            changes: change_views(self.cell_changes@),
            modified: self.modified_cells@.to_set(),
            editable: self.editable,
            loading: self.loading,
        }
    }

    #[verifier::type_invariant]
    spec fn columns_are_built(self) -> bool {
        &&& self.columns@.len() == self.column_names@.len()
        &&& forall|i: int|
            0 <= i < self.columns@.len() ==> is_column(
                self.column_names@[i]@,
                #[trigger] self.columns@[i],
            )
    }

    /// A table of the documents, without edits.
    pub fn new(documents: Vec<Document>) -> (r: MongoDocumentTableDelegate)
        ensures
            r@ == fresh_table(bson_ext::document_views(documents@)),
    {
        let column_names = collect_table_columns(&documents);
        let columns = build_columns(&column_names);
        let original_documents = copy_documents(&documents);
        let r = MongoDocumentTableDelegate {
            columns,
            column_names,
            documents,
            original_documents,
            cell_changes: Vec::new(),
            modified_cells: Vec::new(),
            editable: true,
            loading: false,
        };
        assert(r@.changes =~= Seq::empty());
        assert(r@.modified =~= Set::empty());
        r
    }

    /// Shows other documents; edits are given up.
    pub fn set_documents(&mut self, documents: Vec<Document>)
        ensures
            final(self)@ == (TableView {
                editable: old(self)@.editable,
                loading: old(self)@.loading,
                ..fresh_table(bson_ext::document_views(documents@))
            }),
    {
        let mut next = MongoDocumentTableDelegate::new(documents);
        proof {
            use_type_invariant(&next);
        }
        next.editable = self.editable;
        next.loading = self.loading;
        *self = next;
    }

    /// The documents with the edits.
    pub fn documents(&self) -> (r: &Vec<Document>)
        ensures
            bson_ext::document_views(r@) == self@.documents,
    {
        &self.documents
    }

    /// Whether there are edits.
    pub fn has_changes(&self) -> (r: bool)
        ensures
            r == (self@.changes.len() > 0),
    {
        self.cell_changes.len() > 0
    }

    /// The edits, by row and field.
    pub fn cell_changes(&self) -> (r: Vec<BsonCellValue>)
        ensures
            change_views(r@) == self@.changes,
    {
        let ghost vs = change_views(self.cell_changes@);
        let mut out: Vec<BsonCellValue> = Vec::new();
        let mut i: usize = 0;
        assert(change_views(out@) =~= vs.take(0));
        while i < self.cell_changes.len()
            invariant
                i <= self.cell_changes@.len(),
                vs == change_views(self.cell_changes@),
                change_views(out@) == vs.take(i as int),
            decreases self.cell_changes@.len() - i,
        {
            let ghost before = out@;
            out.push(self.cell_changes[i].copy());
            assert(change_views(out@) =~= change_views(before).push(vs[i as int]));
            assert(vs.take(i as int + 1) =~= vs.take(i as int).push(vs[i as int]));
            i = i + 1;
        }
        assert(vs.take(vs.len() as int) =~= vs);
        out
    }

    /// The rows that the edits set, each with its fields.
    fn edited_rows(&self) -> (r: Vec<(usize, Document)>)
        ensures
            r@.len() == rows_set(self@.changes).len(),
            forall|i: int|
                0 <= i < r@.len() ==> (#[trigger] r@[i]).0 == rows_set(self@.changes)[i].row
                    && bson_ext::document_view(r@[i].1) == rows_set(self@.changes)[i].fields,
    {
        let ghost vs = self@.changes;
        let mut rows: Vec<(usize, Document)> = Vec::new();
        let mut i: usize = 0;
        assert(vs.take(0) =~= Seq::empty());
        while i < self.cell_changes.len()
            invariant
                i <= self.cell_changes@.len(),
                vs == change_views(self.cell_changes@),
                rows@.len() == rows_set(vs.take(i as int)).len(),
                forall|j: int|
                    0 <= j < rows@.len() ==> (#[trigger] rows@[j]).0 == rows_set(
                        vs.take(i as int),
                    )[j].row && bson_ext::document_view(rows@[j].1) == rows_set(
                        vs.take(i as int),
                    )[j].fields,
            decreases self.cell_changes@.len() - i,
        {
            let change = &self.cell_changes[i];
            let ghost rest = rows_set(vs.take(i as int));
            assert(vs.take(i as int + 1).drop_last() =~= vs.take(i as int));
            assert(vs.take(i as int + 1).last() == change.view());
            let n: usize = rows.len();
            let mut fields = bson_ext::new_document();
            let joins = n > 0 && rows[n - 1].0 == change.row_index;
            if joins {
                fields = bson_ext::copy_document(&rows[n - 1].1);
                assert(rest.last() == rest[n - 1]);
                let _last = rows.pop();
            }
            bson_ext::set_field(
                &mut fields,
                change.field.clone(),
                bson_ext::copy_bson(&change.new_value),
            );
            rows.push((change.row_index, fields));
            i = i + 1;
        }
        assert(vs.take(vs.len() as int) =~= vs);
        rows
    }

    /// The edits as updates: for every edited row its id and the fields to be
    /// set. Fails where an edited document has no id.
    pub fn field_changes(&self) -> (r: Result<Vec<MongoDocumentFieldChange>, MongoError>)
        ensures
            self@.changes.len() <= usize::MAX,
            ({
                let rows = rows_set(self@.changes);
                match r {
                    Ok(list) => list@.len() == rows.len() && forall|i: int|
                        0 <= i < rows.len() ==> (#[trigger] list@[i]).row_index == rows[i].row
                            && self@.original(rows[i].row, "_id"@) == Some(
                            bson_ext::bson_view(list@[i].id),
                        ) && bson_ext::document_view(list@[i].set_fields) == rows[i].fields,
                    Err(e) => mongo_types::is_invalid(e, "Missing _id for update."@) && exists|
                        i: int,
                    |
                        0 <= i < rows.len() && self@.original(
                            (#[trigger] rows[i]).row,
                            "_id"@,
                        ) is None,
                }
            }),
    {
        assert(self.cell_changes.len() == self@.changes.len());
        let rows = self.edited_rows();
        let ghost rs = rows_set(self@.changes);
        let mut result: Vec<MongoDocumentFieldChange> = Vec::new();
        let mut i: usize = 0;
        while i < rows.len()
            invariant
                i <= rows@.len(),
                rs == rows_set(self@.changes),
                rows@.len() == rs.len(),
                self@.changes.len() <= usize::MAX,
                forall|j: int|
                    0 <= j < rows@.len() ==> (#[trigger] rows@[j]).0 == rs[j].row
                        && bson_ext::document_view(rows@[j].1) == rs[j].fields,
                result@.len() == i,
                forall|j: int|
                    0 <= j < i ==> (#[trigger] result@[j]).row_index == rs[j].row && self@.original(
                        rs[j].row,
                        "_id"@,
                    ) == Some(bson_ext::bson_view(result@[j].id)) && bson_ext::document_view(
                        result@[j].set_fields,
                    ) == rs[j].fields,
            decreases rows@.len() - i,
        {
            let row: usize = rows[i].0;
            let id = self.original_value(row, "_id");
            match id {
                Some(id) => {
                    result.push(
                        MongoDocumentFieldChange {
                            row_index: row,
                            id,
                            set_fields: bson_ext::copy_document(&rows[i].1),
                        },
                    );
                },
                None => {
                    assert(self@.original(rs[i as int].row, "_id"@) is None);
                    return Err(MongoError::InvalidFilter("Missing _id for update.".to_owned()));
                },
            }
            i = i + 1;
        }
        Ok(result)
    }

    /// The value that a field of a row had before any edit.
    fn original_value(&self, row: usize, field: &str) -> (r: Option<Bson>)
        ensures
            match r {
                Some(v) => self@.original(row, field@) == Some(bson_ext::bson_view(v)),
                None => self@.original(row, field@) is None,
            },
    {
        if row < self.original_documents.len() {
            bson_ext::get_field(&self.original_documents[row], field)
        } else {
            None
        }
    }

    /// Gives all edits up.
    pub fn revert_changes(&mut self)
        ensures
            final(self)@ == old(self)@.reverted(),
    {
        proof {
            use_type_invariant(&*self);
        }
        self.documents = copy_documents(&self.original_documents);
        self.cell_changes = Vec::new();
        self.modified_cells = Vec::new();
        assert(self@.changes =~= Seq::empty());
        assert(self@.modified =~= Set::empty());
    }

    /// The name of the field in a column.
    pub fn field_name_at(&self, col_ix: usize) -> (r: Option<String>)
        ensures
            text::opt_view(r) == (if col_ix < self@.columns.len() {
                Some(self@.columns[col_ix as int])
            } else {
                None
            }),
    {
        if col_ix < self.column_names.len() {
            Some(self.column_names[col_ix].clone())
        } else {
            None
        }
    }

    /// The value that a cell shows.
    pub fn value_at(&self, row_ix: usize, col_ix: usize) -> (r: Option<Bson>)
        ensures
            match r {
                Some(v) => self@.value(row_ix, col_ix) == Some(bson_ext::bson_view(v)),
                None => self@.value(row_ix, col_ix) is None,
            },
    {
        if col_ix < self.column_names.len() && row_ix < self.documents.len() {
            bson_ext::get_field(&self.documents[row_ix], self.column_names[col_ix].as_str())
        } else {
            None
        }
    }

    /// Whether the cell is edited beside the table: its field can be set, but
    /// not its value in the cell.
    pub fn is_detail_editable_field(&self, row_ix: usize, col_ix: usize) -> (r: bool)
        ensures
            r == (col_ix < self@.columns.len() && is_safe_field(self@.columns[col_ix as int]) && (
            self@.value(row_ix, col_ix) matches Some(v) && !is_editable(v))),
    {
        if col_ix >= self.column_names.len() || !is_safe_update_field_name(
            self.column_names[col_ix].as_str(),
        ) {
            return false;
        }
        match self.value_at(row_ix, col_ix) {
            Some(v) => !is_editable_bson_value(&v),
            None => false,
        }
    }

    /// Whether the cell can be edited in place.
    pub fn is_cell_editable(&self, row_ix: usize, col_ix: usize) -> (r: bool)
        ensures
            r == self@.can_edit(row_ix, col_ix),
    {
        if !self.editable || col_ix >= self.column_names.len() || !is_safe_update_field_name(
            self.column_names[col_ix].as_str(),
        ) {
            return false;
        }
        match self.value_at(row_ix, col_ix) {
            Some(v) => is_editable_bson_value(&v),
            None => false,
        }
    }

    /// The text that the editor of a cell begins with, where it can be edited.
    pub fn build_input(&self, row_ix: usize, col_ix: usize) -> (r: Option<String>)
        ensures
            r is Some <==> self@.can_edit(row_ix, col_ix),
            r matches Some(s) ==> s@ == (match self@.value(row_ix, col_ix) {
                Some(BsonView::Null) => Seq::empty(),
                v => cell_text(v),
            }),
    {
        if !self.is_cell_editable(row_ix, col_ix) {
            return None;
        }
        match self.value_at(row_ix, col_ix) {
            Some(v) => Some(edit_input_text(&v)),
            None => None,
        }
    }

    /// Takes an edited text over; whether it was, or why not.
    pub fn record_cell_edit(&mut self, row_index: usize, field: &str, input: &str) -> (r: Result<
        bool,
        MongoError,
    >)
        ensures
            final(self)@ == old(self)@.edited(row_index, field@, input@),
            match old(self)@.edit_answer(row_index, field@, input@) {
                Ok(b) => r == Ok::<bool, MongoError>(b),
                Err(why) => r matches Err(e) && mongo_types::is_invalid(e, why),
            },
    {
        let ghost t = self@;
        let col = self.find_column(field);
        let col_index: usize = match col {
            Some(i) => i,
            None => {
                let mut why = "Unknown field: ".to_owned();
                why.append(field);
                return Err(MongoError::InvalidFilter(why));
            },
        };
        if !is_safe_update_field_name(field) {
            return Err(
                MongoError::InvalidFilter("This field cannot be edited with $set.".to_owned()),
            );
        }
        let original = self.original_value(row_index, field);
        let new_value = match &original {
            Some(v) => parse_edit_cell_value(Some(v), input),
            None => parse_edit_cell_value(None, input),
        };
        let new_value = match new_value {
            Ok(v) => v,
            Err(e) => {
                return Err(e);
            },
        };
        let original = match original {
            Some(v) => v,
            None => {
                return Ok(false);
            },
        };
        if row_index >= self.documents.len() {
            return Ok(false);
        }
        let mut documents = copy_documents(&self.documents);
        let mut document = bson_ext::copy_document(&documents[row_index]);
        bson_ext::set_field(&mut document, field.to_owned(), bson_ext::copy_bson(&new_value));
        let ghost before = documents@;
        documents.set(row_index, document);
        assert(bson_ext::document_views(documents@) =~= bson_ext::document_views(before).update(
            row_index as int,
            bson_ext::document_view(document),
        ));
        proof {
            use_type_invariant(&*self);
        }
        self.documents = documents;
        if bson_ext::same_bson(&original, &new_value) {
            self.cell_changes = drop_change(&self.cell_changes, row_index, field);
            self.modified_cells = drop_cell(&self.modified_cells, (row_index, col_index));
        } else {
            let change = BsonCellValue {
                row_index,
                field: field.to_owned(),
                old_value: original,
                new_value,
            };
            let mut changes = self.cell_changes();
            put_change(&mut changes, change);
            self.cell_changes = changes;
            let mut cells = drop_cell(&self.modified_cells, (row_index, col_index));
            let ghost others = cells@;
            cells.push((row_index, col_index));
            assert(cells@.to_set() =~= t.modified.insert((row_index, col_index))) by {
                others.lemma_push_to_set_commute((row_index, col_index));
                assert(t.modified.remove((row_index, col_index)).insert((row_index, col_index))
                    =~= t.modified.insert((row_index, col_index)));
            }
            self.modified_cells = cells;
        }
        Ok(true)
    }

    /// The position of the column with the name.
    fn find_column(&self, field: &str) -> (r: Option<usize>)
        ensures
            match r {
                Some(i) => self@.columns.contains(field@) && column_index(self@.columns, field@) == i,
                None => !self@.columns.contains(field@),
            },
    {
        let ghost cs = self@.columns;
        let mut i: usize = 0;
        while i < self.column_names.len()
            invariant
                i <= self.column_names@.len(),
                cs == text::views(self.column_names@),
                forall|j: int| 0 <= j < i ==> cs[j] != field@,
            decreases self.column_names@.len() - i,
        {
            if text::same(self.column_names[i].as_str(), field) {
                proof {
                    assert(cs[i as int] == field@);
                    lemma_column_index(cs, field@, i as int);
                }
                return Some(i);
            }
            i = i + 1;
        }
        None
    }

    /// Takes the edited text of a cell over; whether it was.
    pub fn on_cell_edited(&mut self, row_ix: usize, col_ix: usize, new_value: &str) -> (r: bool)
        ensures
            final(self)@ == old(self)@.edited_at(row_ix, col_ix, new_value@),
            r == old(self)@.takes_edit(row_ix, col_ix, new_value@),
    {
        let field = match self.field_name_at(col_ix) {
            Some(f) => f,
            None => {
                return false;
            },
        };
        match self.record_cell_edit(row_ix, field.as_str(), new_value) {
            Ok(b) => b,
            Err(_) => false,
        }
    }

    /// Takes several edited cells over; whether any was.
    pub fn set_cell_values(&mut self, changes: Vec<(usize, usize, String)>) -> (r: bool)
        ensures
            final(self)@ == old(self)@.edited_all(edit_views(changes@)),
            r == old(self)@.takes_any(edit_views(changes@)),
    {
        let ghost es = edit_views(changes@);
        let ghost start = self@;
        let mut changed = false;
        let mut i: usize = 0;
        assert(es.take(0) =~= Seq::empty());
        while i < changes.len()
            invariant
                i <= changes@.len(),
                es == edit_views(changes@),
                self@ == start.edited_all(es.take(i as int)),
                changed == start.takes_any(es.take(i as int)),
            decreases changes@.len() - i,
        {
            assert(es.take(i as int + 1).drop_last() =~= es.take(i as int));
            assert(es.take(i as int + 1).last() == es[i as int]);
            if self.on_cell_edited(changes[i].0, changes[i].1, changes[i].2.as_str()) {
                changed = true;
            }
            i = i + 1;
        }
        assert(es.take(es.len() as int) =~= es);
        changed
    }

    /// Whether the cell differs from what was loaded.
    pub fn is_cell_modified(&self, row_ix: usize, col_ix: usize) -> (r: bool)
        ensures
            r == self@.modified.contains((row_ix, col_ix)),
    {
        has_cell(&self.modified_cells, row_ix, col_ix)
    }

    /// The text of a cell.
    pub fn get_cell_value(&self, row_ix: usize, col_ix: usize) -> (r: String)
        ensures
            r@ == cell_text(self@.value(row_ix, col_ix)),
    {
        match self.value_at(row_ix, col_ix) {
            Some(v) => table_cell_text(Some(&v)),
            None => table_cell_text(None),
        }
    }

    /// How many columns there are.
    pub fn columns_count(&self) -> (r: usize)
        ensures
            r == self@.columns.len(),
    {
        proof {
            use_type_invariant(self);
        }
        self.columns.len()
    }

    /// How many rows there are.
    pub fn rows_count(&self) -> (r: usize)
        ensures
            r == self@.documents.len(),
    {
        self.documents.len()
    }

    /// The column at a position.
    pub fn column(&self, col_ix: usize) -> (r: &TableColumn)
        requires
            col_ix < self@.columns.len(),
        ensures
            is_column(self@.columns[col_ix as int], *r),
    {
        proof {
            use_type_invariant(self);
        }
        &self.columns[col_ix]
    }

    /// Whether the documents are being loaded.
    pub fn loading(&self) -> (r: bool)
        ensures
            r == self@.loading,
    {
        self.loading
    }

    /// Cells can be edited in place.
    pub fn cell_edit_enabled(&self) -> (r: bool)
        ensures
            r,
    {
        true
    }

    /// One click begins an edit.
    pub fn single_click_to_edit(&self) -> (r: bool)
        ensures
            r,
    {
        true
    }

    /// Rows are numbered.
    pub fn row_number_enabled(&self) -> (r: bool)
        ensures
            r,
    {
        true
    }
}

} // verus!
