//! What holds of SQL dumps: what is dumped, into which file, and what is
//! reported meanwhile.
use vstd::prelude::*;

use crate::db_node;
use crate::db_node::DbNodeType;
use crate::dump_target;
use crate::dump_target::TargetView;
use crate::sql_dump;
use crate::sql_dump::{ExportProgressEvent, ExportRequest, LogEntry, LogMessage, SqlDumpView};
use crate::text;
use crate::text_laws;
use crate::tree_types::SqlDumpMode;

verus! {

// ---------------------------------------------------------------------------
// What is dumped
// ---------------------------------------------------------------------------

/// Structure is asked for unless the dump is of data alone, and data unless it
/// is of structure alone; the tables are those that are named, in the database
/// and the schema of the dump.
pub proof fn law_request(d: SqlDumpView, tables: Seq<Seq<char>>, r: ExportRequest)
    requires
        sql_dump::is_request(d, tables, r),
    ensures
        r.include_schema <==> d.mode != SqlDumpMode::DataOnly,
        r.include_data <==> d.mode != SqlDumpMode::StructureOnly,
        r.include_schema || r.include_data,
        r.database@ == d.database@,
        r.schema is Some <==> d.schema is Some,
        r.schema matches Some(s) ==> s@ == (d.schema->0)@,
        r.tables@.len() == tables.len(),
        forall|i: int| 0 <= i < tables.len() ==> (#[trigger] r.tables@[i])@ == tables[i],
{
    assert forall|i: int| 0 <= i < tables.len() implies (#[trigger] r.tables@[i])@ == tables[i] by {
        assert(text::views(r.tables@)[i] == tables[i]);
    }
}

/// A dump of structure alone and a dump of data alone share nothing, and
/// together they are the dump of both.
pub proof fn law_modes_complement(
    a: SqlDumpView,
    b: SqlDumpView,
    c: SqlDumpView,
    tables: Seq<Seq<char>>,
    x: ExportRequest,
    y: ExportRequest,
    z: ExportRequest,
)
    requires
        a.mode == SqlDumpMode::StructureOnly,
        b.mode == SqlDumpMode::DataOnly,
        c.mode == SqlDumpMode::StructureAndData,
        sql_dump::is_request(a, tables, x),
        sql_dump::is_request(b, tables, y),
        sql_dump::is_request(c, tables, z),
    ensures
        x.include_schema && !y.include_schema && z.include_schema,
        !x.include_data && y.include_data && z.include_data,
{
}

/// A database is dumped by its name, with all its schemas and tables; a schema
/// within its database; a table within both. Nothing else can be dumped, and a
/// schema or a table whose database is not known cannot either.
pub proof fn law_dump_target(n: db_node::NodeView, database: Seq<char>)
    ensures
        n.node_type == DbNodeType::Database ==> dump_target::target_of(n) == Some(
            TargetView { database: n.name, schema: None, table: None },
        ),
        n.node_type == DbNodeType::Schema && n.database_name == Some(database)
            && !text_laws::is_blank(database) ==> {
            &&& dump_target::target_of(n) matches Some(t) && t.database == database
                && t.table is None
            &&& n.schema_name is Some && !text_laws::is_blank(n.schema_name->0)
                ==> dump_target::target_of(n)->0.schema == n.schema_name
            &&& n.schema_name is None || text_laws::is_blank(n.schema_name->0)
                ==> dump_target::target_of(n)->0.schema is None
        },
        n.node_type == DbNodeType::Table && n.database_name == Some(database)
            && !text_laws::is_blank(database) ==> {
            &&& dump_target::target_of(n) matches Some(t) && t.database == database && t.table
                == Some(n.name)
            &&& n.schema_name is Some && !text_laws::is_blank(n.schema_name->0)
                ==> dump_target::target_of(n)->0.schema == n.schema_name
            &&& n.schema_name is None || text_laws::is_blank(n.schema_name->0)
                ==> dump_target::target_of(n)->0.schema is None
        },
        n.node_type != DbNodeType::Database && (n.database_name is None || text_laws::is_blank(
            n.database_name->0,
        )) ==> dump_target::target_of(n) is None,
        n.node_type != DbNodeType::Database && n.node_type != DbNodeType::Schema && n.node_type
            != DbNodeType::Table ==> dump_target::target_of(n) is None,
{
    text_laws::law_trimmed_is_part(database);
    if let Some(s) = n.schema_name {
        text_laws::law_trimmed_is_part(s);
    }
    if let Some(s) = n.database_name {
        text_laws::law_trimmed_is_part(s);
    }
}

// ---------------------------------------------------------------------------
// The file
// ---------------------------------------------------------------------------

/// The character can stand in the name of a file everywhere.
pub open spec fn is_plain(c: char) -> bool {
    c >= ' ' && c != '\u{7f}' && !('\u{80}' <= c <= '\u{9f}') && c != '<' && c != '>' && c != ':'
        && c != '"' && c != '/' && c != '\\' && c != '|' && c != '?' && c != '*'
}

proof fn lemma_strip_nothing(s: Seq<char>)
    requires
        s.len() > 0,
        s[0] != '_',
        s.last() != '_',
    ensures
        dump_target::strip_back(dump_target::strip_front(s)) == s,
{
}

/// A name that can stand in the name of a file is kept as it is, but for white
/// space around it.
pub proof fn law_plain_name_is_kept(a: Seq<char>, name: Seq<char>, b: Seq<char>)
    requires
        text_laws::is_blank(a),
        text_laws::is_blank(b),
        0 < name.len() <= 120,
        forall|i: int| 0 <= i < name.len() ==> is_plain(#[trigger] name[i]),
        !text::is_space(name[0]),
        !text::is_space(name.last()),
        name[0] != '_',
        name.last() != '_',
    ensures
        dump_target::sanitized(a + name + b) == name,
{
    text_laws::law_trimmed(a, name, b);
    let start = dump_target::safe_start(a + name + b);
    assert(start =~= name);
    lemma_strip_nothing(name);
}

/// Whatever a database, schema or table is called, every character of its part
/// of the file name can stand in the name of a file.
pub proof fn law_part_is_plain(value: Seq<char>, i: int)
    requires
        0 <= i < dump_target::sanitized(value).len(),
    ensures
        is_plain(dump_target::sanitized(value)[i]),
        0 < dump_target::sanitized(value).len() <= 120,
{
    dump_target::law_sanitized(value);
    assert(!dump_target::is_invalid(dump_target::sanitized(value)[i]));
}

/// A character that cannot stand in the name of a file gives way to an
/// underscore, and the others stay where they are.
pub proof fn law_wrong_characters(value: Seq<char>, i: int)
    requires
        0 <= i < value.len() <= 120,
        !text::is_space(value[0]),
        !text::is_space(value.last()),
        is_plain(value[0]) && value[0] != '_',
        is_plain(value.last()) && value.last() != '_',
    ensures
        dump_target::sanitized(value).len() == value.len(),
        is_plain(value[i]) ==> dump_target::sanitized(value)[i] == value[i],
        !is_plain(value[i]) ==> dump_target::sanitized(value)[i] == '_',
{
    let none = Seq::<char>::empty();
    assert(none + value + none =~= value);
    text_laws::law_trimmed(none, value, none);
    let start = dump_target::safe_start(value);
    assert(start[0] == value[0]);
    assert(start.last() == value.last());
    lemma_strip_nothing(start);
}

/// What leaves nothing is called `dump`.
pub proof fn law_nothing_left(value: Seq<char>)
    requires
        text_laws::is_blank(value) || (value.len() <= 120 && forall|i: int|
            0 <= i < value.len() ==> #[trigger] value[i] == '_' || (!is_plain(value[i])
                && !text::is_space(value[i]))),
    ensures
        dump_target::sanitized(value) == "dump"@,
{
    text_laws::law_trimmed_is_part(value);
    let t = text::trimmed(value);
    let start = dump_target::safe_start(value);
    if text_laws::is_blank(value) {
        assert(start.len() == 0);
        assert(dump_target::strip_front(start) =~= start);
    } else {
        let (a, b) = choose|a: Seq<char>, b: Seq<char>|
            text_laws::is_blank(a) && text_laws::is_blank(b) && value == #[trigger] (a + t + b);
        assert forall|i: int| 0 <= i < start.len() implies start[i] == '_' by {
            assert(t[i] == value[a.len() + i]);
        }
        lemma_all_stripped(start);
    }
}

proof fn lemma_all_stripped(s: Seq<char>)
    requires
        forall|i: int| 0 <= i < s.len() ==> s[i] == '_',
    ensures
        dump_target::strip_front(s).len() == 0,
    decreases s.len(),
{
    if s.len() > 0 {
        let t = s.drop_first();
        assert forall|i: int| 0 <= i < t.len() implies t[i] == '_' by {
            assert(t[i] == s[i + 1]);
        }
        lemma_all_stripped(t);
    }
}

/// The name of the file names the database, the schema and the table where
/// there are such, and the time, in this order and with underscores between
/// them, and ends with `.sql`.
pub proof fn law_filename(
    database: Seq<char>,
    schema: Seq<char>,
    table: Seq<char>,
    timestamp: Seq<char>,
)
    ensures
        ({
            let d = dump_target::sanitized(database);
            let s = dump_target::sanitized(schema);
            let t = dump_target::sanitized(table);
            let z = dump_target::sanitized(timestamp);
            &&& dump_target::filename(database, None, None, timestamp) == d.push('_') + z
                + ".sql"@
            &&& dump_target::filename(database, Some(schema), None, timestamp) == d.push('_')
                + s.push('_') + z + ".sql"@
            &&& dump_target::filename(database, None, Some(table), timestamp) == d.push('_')
                + t.push('_') + z + ".sql"@
            &&& dump_target::filename(database, Some(schema), Some(table), timestamp) == d.push('_')
                + s.push('_') + t.push('_') + z + ".sql"@
        }),
{
    reveal_strlit("_");
    reveal_with_fuel(text::joined, 5);
    let sep = "_"@;
    let d = dump_target::sanitized(database);
    let s = dump_target::sanitized(schema);
    let t = dump_target::sanitized(table);
    let z = dump_target::sanitized(timestamp);
    assert(sep =~= seq!['_']);
    let p2 = dump_target::filename_parts(database, None, None, timestamp);
    assert(p2.drop_last() =~= seq![d]);
    assert(text::joined(p2, sep) =~= d.push('_') + z);
    let p3 = dump_target::filename_parts(database, Some(schema), None, timestamp);
    assert(p3.drop_last() =~= seq![d, s]);
    assert(p3.drop_last().drop_last() =~= seq![d]);
    assert(text::joined(p3, sep) =~= d.push('_') + s.push('_') + z);
    let q3 = dump_target::filename_parts(database, None, Some(table), timestamp);
    assert(q3.drop_last() =~= seq![d, t]);
    assert(q3.drop_last().drop_last() =~= seq![d]);
    assert(text::joined(q3, sep) =~= d.push('_') + t.push('_') + z);
    let p4 = dump_target::filename_parts(database, Some(schema), Some(table), timestamp);
    assert(p4.drop_last() =~= seq![d, s, t]);
    assert(p4.drop_last().drop_last() =~= seq![d, s]);
    assert(p4.drop_last().drop_last().drop_last() =~= seq![d]);
    assert(text::joined(p4, sep) =~= d.push('_') + s.push('_') + t.push('_') + z);
}

/// A piece is put behind what the file holds; the first that is not empty
/// makes the file, and an empty one changes nothing.
pub proof fn law_pieces_are_appended(pieces: Seq<Seq<char>>, piece: Seq<char>)
    ensures
        sql_dump::file_of(Seq::empty()) is None,
        piece.len() == 0 ==> sql_dump::file_of(pieces.push(piece)) == sql_dump::file_of(pieces),
        piece.len() > 0 ==> match sql_dump::file_of(pieces) {
            None => sql_dump::file_of(pieces.push(piece)) == Some(piece),
            Some(held) => sql_dump::file_of(pieces.push(piece)) == Some(held + piece),
        },
        sql_dump::together(pieces.push(piece)) == sql_dump::together(pieces) + piece,
{
    assert(pieces.push(piece).drop_last() =~= pieces);
}

// ---------------------------------------------------------------------------
// What is reported
// ---------------------------------------------------------------------------

/// An event is reported for its table, and in its words: the place of a table
/// counts from one, rows are counted as they come, and an error says what it
/// is.
pub proof fn law_events_are_reported(event: ExportProgressEvent, seconds: String)
    requires
        event is TableStart ==> event->table_index < u64::MAX,
    ensures
        ({
            let m = sql_dump::event_message(event, seconds).text_view();
            match event {
                ExportProgressEvent::TableStart { table, table_index, total_tables } => m == Some(
                    "Starting ("@ + text::decimal((table_index + 1) as nat) + "/"@ + text::decimal(
                        total_tables as nat,
                    ) + ")"@,
                ) && sql_dump::event_table(event) == table@,
                ExportProgressEvent::DataExported { table, rows, .. } => m == Some(
                    "Transferring records ("@ + text::decimal(rows as nat) + ")"@,
                ) && sql_dump::event_table(event) == table@ && sql_dump::rows_of(event) == rows,
                ExportProgressEvent::Error { table, message } => m == Some(
                    "Error: "@ + message@,
                ) && sql_dump::event_table(event) == table@,
                ExportProgressEvent::Finished { total_rows, elapsed_ms } => m == Some(
                    "Export completed: "@ + text::decimal(total_rows as nat) + " rows in "@
                        + text::decimal(elapsed_ms as nat) + "ms"@,
                ) && sql_dump::event_table(event).len() == 0,
                ExportProgressEvent::GettingStructure { table } => m == Some(
                    "Getting table structure"@,
                ) && sql_dump::event_table(event) == table@,
                ExportProgressEvent::StructureExported { table, .. } => m == Some(
                    "Create table"@,
                ) && sql_dump::event_table(event) == table@,
                ExportProgressEvent::FetchingData { table } => m == Some("Fetching records"@)
                    && sql_dump::event_table(event) == table@,
                ExportProgressEvent::TableFinished { table } => m == Some(
                    "Finished ("@ + seconds@ + " s)"@,
                ) && sql_dump::event_table(event) == table@,
            }
        }),
        !(event is DataExported) ==> sql_dump::rows_of(event) == 0,
{
}

/// What is written and what fails is told with its name.
pub proof fn law_files_are_reported(s: String)
    ensures
        LogMessage::WriteFailed(s).text_view() == Some("File write error: "@ + s@),
        LogMessage::Saved(s).text_view() == Some("File saved: "@ + s@),
        LogMessage::ExportFailed(s).text_view() == Some("Export error: "@ + s@),
{
}

/// Errors are counted one by one: tables that cannot be listed, a table that
/// fails, a file that cannot be written and an export that fails.
pub proof fn law_errors_are_counted(logs: Seq<LogEntry>, e: LogEntry)
    ensures
        sql_dump::errors_in(Seq::empty()) == 0,
        sql_dump::errors_in(logs.push(e)) == sql_dump::errors_in(logs) + (match e.message {
            LogMessage::FetchTablesFailed(_) => 1int,
            LogMessage::TableFailed(_) => 1int,
            LogMessage::WriteFailed(_) => 1int,
            LogMessage::ExportFailed(_) => 1int,
            _ => 0int,
        }),
{
    assert(logs.push(e).drop_last() =~= logs);
}

/// What a dump is of and where it goes stays as it was made.
pub proof fn law_settings_stay(a: SqlDumpView, b: SqlDumpView)
    requires
        sql_dump::same_settings(a, b),
    ensures
        b.connection_id == a.connection_id,
        b.server_info == a.server_info,
        b.database == a.database,
        b.schema == a.schema,
        b.table == a.table,
        b.output_path == a.output_path,
        b.mode == a.mode,
{
}

/// A log entry is put behind the others, which stay.
pub proof fn law_log_grows(
    a: Seq<LogEntry>,
    table: Seq<char>,
    message: LogMessage,
    b: Seq<LogEntry>,
    i: int,
)
    requires
        sql_dump::logged(a, table, message, b),
        0 <= i < a.len(),
    ensures
        b.len() == a.len() + 1,
        b[i] == a[i],
        b[a.len() as int].table@ == table,
        b[a.len() as int].message == message,
{
    assert(b.drop_last()[i] == a[i]);
}

/// The counts that are shown are those of the log and of the rows.
pub proof fn law_counts_agree(d: SqlDumpView)
    requires
        sql_dump::consistent(d),
    ensures
        d.error_count == sql_dump::errors_in(d.logs@),
        d.processed_records == d.transferred_records,
{
}

/// A line of the log names the table where there is one, and ends with the
/// message.
pub proof fn law_log_line(table: Seq<char>, message: Seq<char>)
    requires
        table.len() > 0,
    ensures
        sql_dump::log_line_view(Seq::empty(), message) == "[DMP] "@ + message,
        sql_dump::log_line_view(table, message) == "[DMP] "@ + table + "> "@ + message,
{
}

/// A line of the log is high enough for its text as long as that fits four
/// lines of a hundred bytes, and no higher than needed.
pub proof fn law_line_height(bytes: int)
    requires
        bytes >= 0,
    ensures
        sql_dump::line_height(bytes) % 20 == 0,
        20 <= sql_dump::line_height(bytes) <= 80,
        bytes <= 400 ==> sql_dump::line_height(bytes) * 5 >= bytes,
        sql_dump::line_height(bytes) > 20 ==> (sql_dump::line_height(bytes) - 20) * 5 < bytes,
{
}

/// The bytes of a line are those of its parts.
pub proof fn law_line_bytes(table: int, message: int)
    requires
        table > 0,
        message >= 0,
    ensures
        sql_dump::line_bytes(0, message) == 6 + message,
        sql_dump::line_bytes(table, message) == 6 + table + 2 + message,
{
}

/// Of a name that is too long the first characters are kept.
pub proof fn law_long_name_is_cut(name: Seq<char>, rest: Seq<char>)
    requires
        name.len() == 120,
        rest.len() > 0,
        forall|i: int| 0 <= i < name.len() ==> is_plain(#[trigger] name[i]),
        !text::is_space(name[0]),
        !text::is_space(rest.last()),
        name[0] != '_',
        name.last() != '_',
    ensures
        dump_target::sanitized(name + rest) == name,
{
    let none = Seq::<char>::empty();
    let all = name + rest;
    assert(none + all + none =~= all);
    text_laws::law_trimmed(none, all, none);
    assert(dump_target::safe_start(all) =~= name);
    lemma_strip_nothing(name);
}

/// Underscores around a name are left off.
pub proof fn law_underscores_left_off(a: Seq<char>, name: Seq<char>, b: Seq<char>)
    requires
        a.len() + name.len() + b.len() <= 120,
        name.len() > 0,
        forall|i: int| 0 <= i < a.len() ==> #[trigger] a[i] == '_',
        forall|i: int| 0 <= i < b.len() ==> #[trigger] b[i] == '_',
        forall|i: int| 0 <= i < name.len() ==> is_plain(#[trigger] name[i]),
        !text::is_space(name[0]),
        !text::is_space(name.last()),
        name[0] != '_',
        name.last() != '_',
    ensures
        dump_target::sanitized(a + name + b) == name,
{
    let none = Seq::<char>::empty();
    let all = a + name + b;
    assert(none + all + none =~= all);
    assert(!text::is_space('_'));
    assert(!text::is_space(all[0])) by {
        if a.len() > 0 {
            assert(all[0] == a[0]);
        } else {
            assert(all[0] == name[0]);
        }
    }
    assert(!text::is_space(all.last())) by {
        if b.len() > 0 {
            assert(all.last() == b[b.len() - 1]);
        } else {
            assert(all.last() == name[name.len() - 1]);
        }
    }
    text_laws::law_trimmed(none, all, none);
    assert(dump_target::safe_start(all) =~= all) by {
        assert forall|i: int| 0 <= i < all.len() implies #[trigger] dump_target::safe_char(all[i])
            == all[i] by {
            if i < a.len() {
                assert(all[i] == a[i]);
            } else if i < a.len() + name.len() {
                assert(is_plain(name[i - a.len()]));
            } else {
                assert(all[i] == b[i - a.len() - name.len()]);
            }
        }
    }
    lemma_front_stripped(a, name + b);
    assert(a + (name + b) =~= all);
    lemma_back_stripped(name, b);
}

proof fn lemma_front_stripped(a: Seq<char>, s: Seq<char>)
    requires
        forall|i: int| 0 <= i < a.len() ==> #[trigger] a[i] == '_',
        s.len() > 0,
        s[0] != '_',
    ensures
        dump_target::strip_front(a + s) == s,
    decreases a.len(),
{
    if a.len() == 0 {
        assert(a + s =~= s);
    } else {
        assert((a + s)[0] == a[0]);
        assert((a + s).drop_first() =~= a.drop_first() + s);
        assert forall|i: int| 0 <= i < a.drop_first().len() implies #[trigger] a.drop_first()[i]
            == '_' by {
            assert(a.drop_first()[i] == a[i + 1]);
        }
        lemma_front_stripped(a.drop_first(), s);
    }
}

proof fn lemma_back_stripped(s: Seq<char>, b: Seq<char>)
    requires
        forall|i: int| 0 <= i < b.len() ==> #[trigger] b[i] == '_',
        s.len() > 0,
        s.last() != '_',
    ensures
        dump_target::strip_back(s + b) == s,
    decreases b.len(),
{
    if b.len() == 0 {
        assert(s + b =~= s);
    } else {
        assert(b[b.len() - 1] == '_');
        assert((s + b).drop_last() =~= s + b.drop_last());
        lemma_back_stripped(s, b.drop_last());
    }
}

} // verus!
