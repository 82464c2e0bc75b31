//! The course of a SQL dump: what is asked for, written, logged and shown.
use vstd::prelude::*;

use crate::dump_target;
use crate::text;
use crate::tree_types::SqlDumpMode;

verus! {

/// What the log of a dump says.
#[derive(Debug)]
pub enum LogMessage {
    /// One table is dumped.
    ExportTable(String),
    /// The tables are being listed.
    FetchingTables,
    /// That many tables were found.
    FoundTables(usize),
    /// The tables could not be listed.
    FetchTablesFailed(String),
    Starting { position: u64, total: u64 },
    GettingStructure,
    CreateTable,
    FetchingRecords,
    Transferring { rows: u64 },
    /// A table is done, after that many seconds.
    TableDone { seconds: String },
    /// Something went wrong for a table.
    TableFailed(String),
    Completed { rows: u64, milliseconds: u64 },
    WriteFailed(String),
    Saved(String),
    ExportFailed(String),
}

/// The log message reports an error.
pub open spec fn is_error(m: LogMessage) -> bool {
    m is FetchTablesFailed || m is TableFailed || m is WriteFailed || m is ExportFailed
}

impl LogMessage {
    /// The text of a message that reads the same in every language.
    pub open spec fn text_view(self) -> Option<Seq<char>> {
        match self {
            LogMessage::Starting { position, total } => Some(
                "Starting ("@ + text::decimal(position as nat) + "/"@ + text::decimal(total as nat)
                    + ")"@,
            ),
            LogMessage::GettingStructure => Some("Getting table structure"@),
            LogMessage::CreateTable => Some("Create table"@),
            LogMessage::FetchingRecords => Some("Fetching records"@),
            LogMessage::Transferring { rows } => Some(
                "Transferring records ("@ + text::decimal(rows as nat) + ")"@,
            ),
            LogMessage::TableDone { seconds } => Some("Finished ("@ + seconds@ + " s)"@),
            LogMessage::TableFailed(message) => Some("Error: "@ + message@),
            LogMessage::Completed { rows, milliseconds } => Some(
                "Export completed: "@ + text::decimal(rows as nat) + " rows in "@ + text::decimal(
                    milliseconds as nat,
                ) + "ms"@,
            ),
            LogMessage::WriteFailed(error) => Some("File write error: "@ + error@),
            LogMessage::Saved(path) => Some("File saved: "@ + path@),
            LogMessage::ExportFailed(error) => Some("Export error: "@ + error@),
            _ => None,
        }
    }

    /// The text of a message that reads the same in every language; the others
    /// are for the front end to word.
    pub fn text(&self) -> (r: Option<String>)
        ensures
            text::opt_view(r) == self.text_view(),
    {
        match self {
            LogMessage::Starting { position, total } => {
                let mut s = "Starting (".to_owned();
                s.append(text::number(*position).as_str());
                s.append("/");
                s.append(text::number(*total).as_str());
                s.append(")");
                Some(s)
            },
            LogMessage::GettingStructure => Some("Getting table structure".to_owned()),
            LogMessage::CreateTable => Some("Create table".to_owned()),
            LogMessage::FetchingRecords => Some("Fetching records".to_owned()),
            LogMessage::Transferring { rows } => {
                let mut s = "Transferring records (".to_owned();
                s.append(text::number(*rows).as_str());
                s.append(")");
                Some(s)
            },
            LogMessage::TableDone { seconds } => {
                let mut s = "Finished (".to_owned();
                s.append(seconds.as_str());
                s.append(" s)");
                Some(s)
            },
            LogMessage::TableFailed(message) => {
                let mut s = "Error: ".to_owned();
                s.append(message.as_str());
                Some(s)
            },
            LogMessage::Completed { rows, milliseconds } => {
                let mut s = "Export completed: ".to_owned();
                s.append(text::number(*rows).as_str());
                s.append(" rows in ");
                s.append(text::number(*milliseconds).as_str());
                s.append("ms");
                Some(s)
            },
            LogMessage::WriteFailed(error) => {
                let mut s = "File write error: ".to_owned();
                s.append(error.as_str());
                Some(s)
            },
            LogMessage::Saved(path) => {
                let mut s = "File saved: ".to_owned();
                s.append(path.as_str());
                Some(s)
            },
            LogMessage::ExportFailed(error) => {
                let mut s = "Export error: ".to_owned();
                s.append(error.as_str());
                Some(s)
            },
            _ => None,
        }
    }
}

/// One line of the log. `table` is empty where the line is about no table.
#[derive(Debug)]
pub struct LogEntry {
    pub table: String,
    pub message: LogMessage,
}

/// What the exporter reports on its way.
#[derive(Debug)]
#[allow(inconsistent_fields)]
pub enum ExportProgressEvent {
    TableStart { table: String, table_index: u64, total_tables: u64 },
    GettingStructure { table: String },
    StructureExported { table: String, data: String },
    FetchingData { table: String },
    DataExported { table: String, rows: u64, data: String },
    TableFinished { table: String },
    Error { table: String, message: String },
    Finished { total_rows: u64, elapsed_ms: u64 },
}

/// How a piece of the dump is to be written.
#[derive(Debug, Clone, Copy, PartialEq, Eq, Structural)]
pub enum ChunkWrite {
    /// There is nothing to write.
    Nothing,
    /// The file is made, with the piece as its contents.
    Create,
    /// The piece is put at the end of the file.
    Append,
}

/// What the exporter is asked for.
#[derive(Debug)]
pub struct ExportRequest {
    pub database: String,
    pub schema: Option<String>,
    pub tables: Vec<String>,
    pub include_schema: bool,
    pub include_data: bool,
}

/// What a dump does first.
#[derive(Debug)]
pub enum DumpStart {
    /// A dump is running already.
    AlreadyRunning,
    /// The tables are listed first; then the file with this name is written.
    ListTables { filename: String },
    /// One table is exported to the file with this name.
    Export { filename: String, request: ExportRequest },
}

/// How many entries of the log report an error.
pub open spec fn errors_in(logs: Seq<LogEntry>) -> nat
    decreases logs.len(),
{
    if logs.len() == 0 {
        0
    } else {
        errors_in(logs.drop_last()) + (if is_error(logs.last().message) {
            1nat
        } else {
            0nat
        })
    }
}

/// The parts of a dump that the mode asks for: structure and data.
pub open spec fn mode_parts(mode: SqlDumpMode) -> (bool, bool) {
    match mode {
        SqlDumpMode::StructureOnly => (true, false),
        SqlDumpMode::DataOnly => (false, true),
        SqlDumpMode::StructureAndData => (true, true),
    }
}

/// How a piece of the dump is to be written: the first one that is not empty
/// makes the file.
pub fn append_dump_chunk(data: &str, file_created: bool) -> (r: ChunkWrite)
    ensures
        r == (if data@.len() == 0 {
            ChunkWrite::Nothing
        } else if file_created {
            ChunkWrite::Append
        } else {
            ChunkWrite::Create
        }),
{
    if data.is_empty() {
        ChunkWrite::Nothing
    } else if file_created {
        ChunkWrite::Append
    } else {
        ChunkWrite::Create
    }
}

/// A SQL dump and how far it is.
#[derive(Debug)]
pub struct SqlDumpView {
    pub connection_id: String,
    pub server_info: String,
    pub database: String,
    pub schema: Option<String>,
    pub table: Option<String>,
    pub output_path: String,
    pub mode: SqlDumpMode,
    pub logs: Vec<LogEntry>,
    pub processed_records: u64,
    pub error_count: u32,
    pub transferred_records: u64,
    pub elapsed_time: String,
    /// The progress, as a part of a whole.
    pub progress_done: u64,
    pub progress_total: u64,
    pub is_running: bool,
    pub is_finished: bool,
    pub file_created: bool,
}

/// The settings of the dump are the same in both.
pub open spec fn same_settings(a: SqlDumpView, b: SqlDumpView) -> bool {
    &&& a.connection_id == b.connection_id
    &&& a.server_info == b.server_info
    &&& a.database == b.database
    &&& a.schema == b.schema
    &&& a.table == b.table
    &&& a.output_path == b.output_path
    &&& a.mode == b.mode
}

/// `b` is `a` with further entries in the log.
pub open spec fn logged(a: Seq<LogEntry>, table: Seq<char>, message: LogMessage, b: Seq<
    LogEntry,
>) -> bool {
    &&& b.len() == a.len() + 1
    &&& b.drop_last() == a
    &&& b.last().table@ == table
    &&& b.last().message == message
}

/// The counts of the dump agree with its log: every error that is counted is
/// logged, and records that were processed were transferred.
pub open spec fn consistent(d: SqlDumpView) -> bool {
    &&& d.error_count == errors_in(d.logs@)
    &&& d.processed_records == d.transferred_records
}

/// The request for the given tables.
pub open spec fn is_request(d: SqlDumpView, tables: Seq<Seq<char>>, r: ExportRequest) -> bool {
    &&& r.database@ == d.database@
    &&& r.schema == d.schema
    &&& text::views(r.tables@) == tables
    &&& r.include_schema == mode_parts(d.mode).0
    &&& r.include_data == mode_parts(d.mode).1
}

impl SqlDumpView {
    /// A dump that has not begun.
    pub fn new(
        connection_id: String,
        server_info: String,
        database: String,
        schema: Option<String>,
        table: Option<String>,
        output_path: String,
        mode: SqlDumpMode,
    ) -> (r: SqlDumpView)
        ensures
            r.connection_id == connection_id,
            r.server_info == server_info,
            r.database == database,
            r.schema == schema,
            r.table == table,
            r.output_path == output_path,
            r.mode == mode,
            r.logs@.len() == 0,
            r.processed_records == 0,
            r.error_count == 0,
            r.transferred_records == 0,
            r.elapsed_time@ == "0.00s"@,
            r.progress_done == 0,
            r.progress_total == 1,
            !r.is_running,
            !r.is_finished,
            !r.file_created,
            consistent(r),
    {
        SqlDumpView {
            connection_id,
            server_info,
            database,
            schema,
            table,
            output_path,
            mode,
            logs: Vec::new(),
            processed_records: 0,
            error_count: 0,
            transferred_records: 0,
            elapsed_time: "0.00s".to_owned(),
            progress_done: 0,
            progress_total: 1,
            is_running: false,
            is_finished: false,
            file_created: false,
        }
    }

    /// Puts an entry at the end of the log.
    fn add_log(&mut self, table: String, message: LogMessage)
        ensures
            *final(self) == (SqlDumpView { logs: final(self).logs, ..*old(self) }),
            logged(old(self).logs@, table@, message, final(self).logs@),
            errors_in(final(self).logs@) == errors_in(old(self).logs@) + (if is_error(message) {
                1nat
            } else {
                0nat
            }),
    {
        let ghost before = self.logs@;
        self.logs.push(LogEntry { table, message });
        assert(self.logs@.drop_last() =~= before);
    }

    /// The request for the given tables.
    fn export_request(&self, tables: Vec<String>) -> (r: ExportRequest)
        ensures
            is_request(*self, text::views(tables@), r),
    {
        let (include_schema, include_data) = match self.mode {
            SqlDumpMode::StructureOnly => (true, false),
            SqlDumpMode::DataOnly => (false, true),
            SqlDumpMode::StructureAndData => (true, true),
        };
        ExportRequest {
            database: self.database.clone(),
            schema: text::copy_opt(&self.schema),
            tables,
            include_schema,
            include_data,
        }
    }

    /// Begins the dump, unless it is running.
    pub fn start_dump(&mut self, timestamp: &str) -> (r: DumpStart)
        ensures
            old(self).is_running ==> r is AlreadyRunning && *final(self) == *old(self),
            !old(self).is_running ==> {
                let name = dump_target::filename(
                    old(self).database@,
                    text::opt_view(old(self).schema),
                    text::opt_view(old(self).table),
                    timestamp@,
                );
                &&& *final(self) == (SqlDumpView {
                    is_running: true,
                    file_created: false,
                    logs: final(self).logs,
                    ..*old(self)
                })
                &&& match old(self).table {
                    Some(table) => {
                        &&& r matches DumpStart::Export { filename, request }
                        &&& filename@ == name
                        &&& is_request(*old(self), seq![table@], request)
                        &&& exists|t: String|
                            t@ == table@ && #[trigger] logged(
                                old(self).logs@,
                                Seq::empty(),
                                LogMessage::ExportTable(t),
                                final(self).logs@,
                            )
                    },
                    None => {
                        &&& r matches DumpStart::ListTables { filename }
                        &&& filename@ == name
                        &&& logged(
                            old(self).logs@,
                            Seq::empty(),
                            LogMessage::FetchingTables,
                            final(self).logs@,
                        )
                    },
                }
            },
            consistent(*old(self)) ==> consistent(*final(self)),
    {
        if self.is_running {
            return DumpStart::AlreadyRunning;
        }
        self.is_running = true;
        self.file_created = false;
        let schema = match &self.schema {
            Some(s) => Some(s.as_str()),
            None => None,
        };
        let single = match &self.table {
            Some(s) => Some(s.as_str()),
            None => None,
        };
        let filename = dump_target::sql_dump_filename(
            self.database.as_str(),
            schema,
            single,
            timestamp,
        );
        let table = text::copy_opt(&self.table);
        let nobody = String::new();
        assert(nobody@ =~= Seq::<char>::empty());
        match table {
            Some(table) => {
                let named = table.clone();
                self.add_log(nobody, LogMessage::ExportTable(named));
                let mut tables: Vec<String> = Vec::new();
                tables.push(table);
                assert(text::views(tables@) =~= seq![table@]);
                let request = self.export_request(tables);
                DumpStart::Export { filename, request }
            },
            None => {
                self.add_log(nobody, LogMessage::FetchingTables);
                DumpStart::ListTables { filename }
            },
        }
    }

    /// Goes on once the tables were listed; the request to be made, if the
    /// dump goes on.
    pub fn tables_listed(&mut self, tables: Result<Vec<String>, String>) -> (r: Option<
        ExportRequest,
    >)
        requires
            tables is Err ==> old(self).error_count < u32::MAX,
        ensures
            match tables {
                Ok(names) => {
                    &&& r matches Some(request)
                    &&& is_request(*old(self), text::views(names@), request)
                    &&& *final(self) == (SqlDumpView { logs: final(self).logs, ..*old(self) })
                    &&& logged(
                        old(self).logs@,
                        Seq::empty(),
                        LogMessage::FoundTables(names@.len() as usize),
                        final(self).logs@,
                    )
                },
                Err(error) => {
                    &&& r is None
                    &&& *final(self) == (SqlDumpView {
                        logs: final(self).logs,
                        error_count: (old(self).error_count + 1) as u32,
                        is_running: false,
                        is_finished: true,
                        ..*old(self)
                    })
                    &&& logged(
                        old(self).logs@,
                        Seq::empty(),
                        LogMessage::FetchTablesFailed(error),
                        final(self).logs@,
                    )
                },
            },
            consistent(*old(self)) ==> consistent(*final(self)),
    {
        let nobody = String::new();
        assert(nobody@ =~= Seq::<char>::empty());
        match tables {
            Ok(names) => {
                let count: usize = names.len();
                self.add_log(nobody, LogMessage::FoundTables(count));
                Some(self.export_request(names))
            },
            Err(error) => {
                self.add_log(nobody, LogMessage::FetchTablesFailed(error));
                self.error_count = self.error_count + 1;
                self.is_running = false;
                self.is_finished = true;
                None
            },
        }
    }

    /// How the piece of the dump that comes with an event is to be written.
    pub fn chunk_of(&self, event: &ExportProgressEvent) -> (r: ChunkWrite)
        ensures
            r == match event {
                ExportProgressEvent::StructureExported { data, .. } => chunk_write(
                    data@,
                    self.file_created,
                ),
                ExportProgressEvent::DataExported { data, .. } => chunk_write(
                    data@,
                    self.file_created,
                ),
                _ => ChunkWrite::Nothing,
            },
    {
        match event {
            ExportProgressEvent::StructureExported { data, .. } => append_dump_chunk(
                data.as_str(),
                self.file_created,
            ),
            ExportProgressEvent::DataExported { data, .. } => append_dump_chunk(
                data.as_str(),
                self.file_created,
            ),
            _ => ChunkWrite::Nothing,
        }
    }

    /// Takes over how writing a piece went: a file that was made is there from
    /// now on; an error is logged and counted.
    pub fn chunk_written(&mut self, write: ChunkWrite, error: Option<String>)
        requires
            error is Some ==> old(self).error_count < u32::MAX,
        ensures
            match error {
                Some(e) => {
                    &&& *final(self) == (SqlDumpView {
                        logs: final(self).logs,
                        error_count: (old(self).error_count + 1) as u32,
                        ..*old(self)
                    })
                    &&& logged(
                        old(self).logs@,
                        Seq::empty(),
                        LogMessage::WriteFailed(e),
                        final(self).logs@,
                    )
                },
                None => *final(self) == (SqlDumpView {
                    file_created: old(self).file_created || write == ChunkWrite::Create,
                    ..*old(self)
                }),
            },
            consistent(*old(self)) ==> consistent(*final(self)),
    {
        match error {
            Some(e) => {
                let nobody = String::new();
                assert(nobody@ =~= Seq::<char>::empty());
                self.add_log(nobody, LogMessage::WriteFailed(e));
                self.error_count = self.error_count + 1;
            },
            None => {
                if write == ChunkWrite::Create {
                    self.file_created = true;
                }
            },
        }
    }

    /// Takes over what the exporter reports. `elapsed` is the time since the
    /// start as it is shown, `seconds` the same as it is logged.
    pub fn take_event(&mut self, event: ExportProgressEvent, elapsed: String, seconds: String)
        requires
            event is Error ==> old(self).error_count < u32::MAX,
            event is TableStart ==> event->table_index < u64::MAX,
            event is DataExported ==> old(self).processed_records + event->rows <= u64::MAX
                && old(self).transferred_records + event->rows <= u64::MAX,
        ensures
            same_settings(*final(self), *old(self)),
            final(self).elapsed_time == elapsed,
            final(self).is_running == old(self).is_running,
            final(self).is_finished == old(self).is_finished,
            final(self).file_created == old(self).file_created,
            final(self).processed_records == old(self).processed_records + rows_of(event),
            final(self).transferred_records == old(self).transferred_records + rows_of(event),
            final(self).error_count == old(self).error_count + (if event is Error {
                1int
            } else {
                0int
            }),
            event is TableStart ==> final(self).progress_done == event->table_index
                && final(self).progress_total == event->total_tables,
            event is Finished ==> final(self).progress_done == 1 && final(self).progress_total == 1,
            !(event is TableStart) && !(event is Finished) ==> final(self).progress_done == old(
                self,
            ).progress_done && final(self).progress_total == old(self).progress_total,
            logged(
                old(self).logs@,
                event_table(event),
                event_message(event, seconds),
                final(self).logs@,
            ),
            consistent(*old(self)) ==> consistent(*final(self)),
    {
        self.elapsed_time = elapsed;
        match event {
            ExportProgressEvent::TableStart { table, table_index, total_tables } => {
                self.add_log(
                    table,
                    LogMessage::Starting { position: table_index + 1, total: total_tables },
                );
                self.progress_done = table_index;
                self.progress_total = total_tables;
            },
            ExportProgressEvent::GettingStructure { table } => {
                self.add_log(table, LogMessage::GettingStructure);
            },
            ExportProgressEvent::StructureExported { table, .. } => {
                self.add_log(table, LogMessage::CreateTable);
            },
            ExportProgressEvent::FetchingData { table } => {
                self.add_log(table, LogMessage::FetchingRecords);
            },
            ExportProgressEvent::DataExported { table, rows, .. } => {
                self.transferred_records = self.transferred_records + rows;
                self.processed_records = self.processed_records + rows;
                self.add_log(table, LogMessage::Transferring { rows });
            },
            ExportProgressEvent::TableFinished { table } => {
                self.add_log(table, LogMessage::TableDone { seconds });
            },
            ExportProgressEvent::Error { table, message } => {
                self.error_count = self.error_count + 1;
                self.add_log(table, LogMessage::TableFailed(message));
            },
            ExportProgressEvent::Finished { total_rows, elapsed_ms } => {
                self.progress_done = 1;
                self.progress_total = 1;
                let nobody = String::new();
                assert(nobody@ =~= Seq::<char>::empty());
                self.add_log(
                    nobody,
                    LogMessage::Completed { rows: total_rows, milliseconds: elapsed_ms },
                );
            },
        }
    }

    /// Ends the dump. `path` is the file as it is shown.
    pub fn finish(&mut self, result: Result<(), String>, path: &str)
        requires
            result is Err ==> old(self).error_count < u32::MAX,
        ensures
            *final(self) == (SqlDumpView {
                is_running: false,
                is_finished: true,
                logs: final(self).logs,
                error_count: final(self).error_count,
                ..*old(self)
            }),
            match result {
                Ok(_) => {
                    &&& final(self).error_count == old(self).error_count
                    &&& old(self).file_created ==> exists|p: String|
                        p@ == path@ && #[trigger] logged(
                            old(self).logs@,
                            Seq::empty(),
                            LogMessage::Saved(p),
                            final(self).logs@,
                        )
                    &&& !old(self).file_created ==> final(self).logs == old(self).logs
                },
                Err(e) => {
                    &&& final(self).error_count == old(self).error_count + 1
                    &&& logged(
                        old(self).logs@,
                        Seq::empty(),
                        LogMessage::ExportFailed(e),
                        final(self).logs@,
                    )
                },
            },
            consistent(*old(self)) ==> consistent(*final(self)),
    {
        self.is_running = false;
        self.is_finished = true;
        let nobody = String::new();
        assert(nobody@ =~= Seq::<char>::empty());
        match result {
            Ok(_) => {
                if self.file_created {
                    let p = path.to_owned();
                    self.add_log(nobody, LogMessage::Saved(p));
                }
            },
            Err(e) => {
                self.add_log(nobody, LogMessage::ExportFailed(e));
                self.error_count = self.error_count + 1;
            },
        }
    }

    /// The buttons that are shown.
    pub fn buttons(&self) -> (r: DumpButtons)
        ensures
            r == (DumpButtons {
                start: !self.is_running && !self.is_finished,
                running: self.is_running,
                close: self.is_finished,
            }),
    {
        DumpButtons {
            start: !self.is_running && !self.is_finished,
            running: self.is_running,
            close: self.is_finished,
        }
    }
}

/// How a piece of the dump is to be written.
pub open spec fn chunk_write(data: Seq<char>, file_created: bool) -> ChunkWrite {
    if data.len() == 0 {
        ChunkWrite::Nothing
    } else if file_created {
        ChunkWrite::Append
    } else {
        ChunkWrite::Create
    }
}

/// The file after a piece was written, where there was `file` before.
pub open spec fn file_after(file: Option<Seq<char>>, data: Seq<char>) -> Option<Seq<char>> {
    match chunk_write(data, file is Some) {
        ChunkWrite::Nothing => file,
        ChunkWrite::Create => Some(data),
        ChunkWrite::Append => Some(file->0 + data),
    }
}

/// The file after pieces were written one after the other, none before.
pub open spec fn file_of(pieces: Seq<Seq<char>>) -> Option<Seq<char>>
    decreases pieces.len(),
{
    if pieces.len() == 0 {
        None
    } else {
        file_after(file_of(pieces.drop_last()), pieces.last())
    }
}

/// Pieces one behind the other.
pub open spec fn together(pieces: Seq<Seq<char>>) -> Seq<char>
    decreases pieces.len(),
{
    if pieces.len() == 0 {
        Seq::empty()
    } else {
        together(pieces.drop_last()) + pieces.last()
    }
}

/// A dump holds all pieces in their order and nothing else; where there is
/// nothing to write, there is no file.
pub proof fn law_file_holds_pieces(pieces: Seq<Seq<char>>)
    ensures
        match file_of(pieces) {
            Some(contents) => contents == together(pieces) && contents.len() > 0,
            None => together(pieces).len() == 0,
        },
    decreases pieces.len(),
{
    if pieces.len() > 0 {
        let front = pieces.drop_last();
        law_file_holds_pieces(front);
        if pieces.last().len() == 0 {
            assert(together(pieces) =~= together(front));
        } else if file_of(front) is None {
            assert(together(pieces) =~= pieces.last());
        }
    }
}

/// The number of rows that an event reports as transferred.
pub open spec fn rows_of(event: ExportProgressEvent) -> int {
    match event {
        ExportProgressEvent::DataExported { rows, .. } => rows as int,
        _ => 0,
    }
}

/// The table that an event is about.
pub open spec fn event_table(event: ExportProgressEvent) -> Seq<char> {
    match event {
        ExportProgressEvent::TableStart { table, .. } => table@,
        ExportProgressEvent::GettingStructure { table } => table@,
        ExportProgressEvent::StructureExported { table, .. } => table@,
        ExportProgressEvent::FetchingData { table } => table@,
        ExportProgressEvent::DataExported { table, .. } => table@,
        ExportProgressEvent::TableFinished { table } => table@,
        ExportProgressEvent::Error { table, .. } => table@,
        ExportProgressEvent::Finished { .. } => Seq::empty(),
    }
}

/// What the log says about an event.
pub open spec fn event_message(event: ExportProgressEvent, seconds: String) -> LogMessage {
    match event {
        ExportProgressEvent::TableStart { table_index, total_tables, .. } => LogMessage::Starting {
            position: (table_index + 1) as u64,
            total: total_tables,
        },
        ExportProgressEvent::GettingStructure { .. } => LogMessage::GettingStructure,
        ExportProgressEvent::StructureExported { .. } => LogMessage::CreateTable,
        ExportProgressEvent::FetchingData { .. } => LogMessage::FetchingRecords,
        ExportProgressEvent::DataExported { rows, .. } => LogMessage::Transferring { rows },
        ExportProgressEvent::TableFinished { .. } => LogMessage::TableDone { seconds },
        ExportProgressEvent::Error { message, .. } => LogMessage::TableFailed(message),
        ExportProgressEvent::Finished { total_rows, elapsed_ms } => LogMessage::Completed {
            rows: total_rows,
            milliseconds: elapsed_ms,
        },
    }
}

/// The buttons of the dump window.
#[derive(Debug, Clone, Copy, PartialEq, Eq, Structural)]
pub struct DumpButtons {
    pub start: bool,
    pub running: bool,
    pub close: bool,
}

/// A line of the log as it is shown.
pub open spec fn log_line_view(table: Seq<char>, message: Seq<char>) -> Seq<char> {
    if table.len() == 0 {
        "[DMP] "@ + message
    } else {
        "[DMP] "@ + table + "> "@ + message
    }
}

/// A line of the log as it is shown. `message` is the worded message.
pub fn log_line(table: &str, message: &str) -> (r: String)
    ensures
        r@ == log_line_view(table@, message@),
{
    let mut line = "[DMP] ".to_owned();
    if !table.is_empty() {
        line.append(table);
        line.append("> ");
    }
    line.append(message);
    line
}

/// How many bytes of text a log line holds, `table` and `message` being those
/// many bytes long.
pub open spec fn line_bytes(table: int, message: int) -> int {
    if table == 0 {
        message + 6
    } else {
        table + message + 8
    }
}

/// The height of a log line in pixels: twenty for every hundred bytes begun,
/// and at most eighty.
pub open spec fn line_height(bytes: int) -> int {
    let lines = (bytes + 99) / 100;
    if lines < 1 {
        20
    } else if lines > 4 {
        80
    } else {
        20 * lines
    }
}

/// The height of a log line in pixels.
pub fn log_line_height(table: &str, message: &str) -> (r: u32)
    ensures
        r == line_height(line_bytes(text::byte_len(table@) as int, text::byte_len(message@) as int)),
{
    let t: u128 = text::byte_count(table) as u128;
    let m: u128 = text::byte_count(message) as u128;
    let bytes: u128 = if t == 0 {
        m + 6
    } else {
        t + m + 8
    };
    let lines: u128 = (bytes + 99) / 100;
    if lines < 1 {
        20
    } else if lines > 4 {
        80
    } else {
        20 * (lines as u32)
    }
}

} // verus!
