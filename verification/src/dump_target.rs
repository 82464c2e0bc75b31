//! What a SQL dump is about, and the name of the file it is written to.
use vstd::prelude::*;

use crate::db_node;
use crate::db_node::{DbNode, DbNodeType};
use crate::text;

verus! {

/// The name that stands for a part of which nothing is left.
pub const DUMP_FILENAME_FALLBACK: &'static str = "dump";

/// How many characters of each part a file name takes.
pub const MAX_DUMP_FILENAME_COMPONENT_CHARS: usize = 120;

/// The database, schema or table that is dumped.
#[derive(Debug)]
pub struct SqlDumpTarget {
    pub database: String,
    pub schema: Option<String>,
    pub table: Option<String>,
}

/// The mathematical value of a [`SqlDumpTarget`].
pub ghost struct TargetView {
    pub database: Seq<char>,
    pub schema: Option<Seq<char>>,
    pub table: Option<Seq<char>>,
}

impl SqlDumpTarget {
    /// The mathematical value of the target.
    pub open spec fn view(&self) -> TargetView {
        TargetView {
            database: self.database@,
            schema: text::opt_view(self.schema),
            table: text::opt_view(self.table),
        }
    }
}

/// The value, where it holds more than white space.
pub open spec fn if_not_blank(value: Option<Seq<char>>) -> Option<Seq<char>> {
    match value {
        Some(v) => if text::trimmed(v).len() > 0 {
            Some(v)
        } else {
            None
        },
        None => None,
    }
}

/// The value, where it holds more than white space.
pub fn non_empty(value: Option<String>) -> (r: Option<String>)
    ensures
        text::opt_view(r) == if_not_blank(text::opt_view(value)),
{
    match value {
        Some(v) => if text::trim(v.as_str()).as_str().is_empty() {
            None
        } else {
            Some(v)
        },
        None => None,
    }
}

/// What a dump of the node is about: a database as a whole, a schema or a
/// table of a database that is known. Nothing else can be dumped.
pub open spec fn target_of(n: db_node::NodeView) -> Option<TargetView> {
    match n.node_type {
        DbNodeType::Database => Some(
            TargetView { database: n.name, schema: None, table: None },
        ),
        DbNodeType::Schema => match if_not_blank(n.database_name) {
            Some(database) => Some(
                TargetView { database, schema: if_not_blank(n.schema_name), table: None },
            ),
            None => None,
        },
        DbNodeType::Table => match if_not_blank(n.database_name) {
            Some(database) => Some(
                TargetView {
                    database,
                    schema: if_not_blank(n.schema_name),
                    table: Some(n.name),
                },
            ),
            None => None,
        },
        _ => None,
    }
}

/// What a dump of the node is about.
pub fn resolve_sql_dump_target(node: &DbNode) -> (r: Option<SqlDumpTarget>)
    ensures
        match r {
            Some(t) => target_of(node.view()) == Some(t.view()),
            None => target_of(node.view()) is None,
        },
{
    match node.node_type {
        DbNodeType::Database => Some(
            SqlDumpTarget { database: node.name.clone(), schema: None, table: None },
        ),
        DbNodeType::Schema => match non_empty(text::copy_opt(&node.database_name)) {
            Some(database) => Some(
                SqlDumpTarget {
                    database,
                    schema: non_empty(text::copy_opt(&node.schema_name)),
                    table: None,
                },
            ),
            None => None,
        },
        DbNodeType::Table => match non_empty(text::copy_opt(&node.database_name)) {
            Some(database) => Some(
                SqlDumpTarget {
                    database,
                    schema: non_empty(text::copy_opt(&node.schema_name)),
                    table: Some(node.name.clone()),
                },
            ),
            None => None,
        },
        _ => None,
    }
}

/// The character may not stand in a file name.
pub open spec fn is_invalid(c: char) -> bool {
    text::is_control(c) || c == '<' || c == '>' || c == ':' || c == '"' || c == '/' || c == '\\'
        || c == '|' || c == '?' || c == '*'
}

/// Whether the character may not stand in a file name.
pub fn is_invalid_dump_filename_char(ch: char) -> (r: bool)
    ensures
        r == is_invalid(ch),
{
    text::char_is_control(ch) || ch == '<' || ch == '>' || ch == ':' || ch == '"' || ch == '/' || ch
        == '\\' || ch == '|' || ch == '?' || ch == '*'
}

/// `c`, or an underscore where it may not stand in a file name.
pub open spec fn safe_char(c: char) -> char {
    if is_invalid(c) {
        '_'
    } else {
        c
    }
}

/// `s` without the underscores it begins with.
pub open spec fn strip_front(s: Seq<char>) -> Seq<char>
    decreases s.len(),
{
    if s.len() > 0 && s[0] == '_' {
        strip_front(s.drop_first())
    } else {
        s
    }
}

/// `s` without the underscores it ends with.
pub open spec fn strip_back(s: Seq<char>) -> Seq<char>
    decreases s.len(),
{
    if s.len() > 0 && s.last() == '_' {
        strip_back(s.drop_last())
    } else {
        s
    }
}

/// The first characters of the trimmed text, each made safe.
pub open spec fn safe_start(value: Seq<char>) -> Seq<char> {
    let t = text::trimmed(value);
    let n = if t.len() < MAX_DUMP_FILENAME_COMPONENT_CHARS {
        t.len()
    } else {
        MAX_DUMP_FILENAME_COMPONENT_CHARS as nat
    };
    Seq::new(n, |i: int| safe_char(t[i]))
}

/// The text as a part of a file name: trimmed, made safe, cut off, and without
/// underscores at its ends.
pub open spec fn sanitized(value: Seq<char>) -> Seq<char> {
    let safe = strip_back(strip_front(safe_start(value)));
    if safe.len() == 0 {
        DUMP_FILENAME_FALLBACK@
    } else {
        safe
    }
}

proof fn lemma_strip_front(s: Seq<char>, from: int)
    requires
        0 <= from <= s.len(),
        forall|j: int| 0 <= j < from ==> s[j] == '_',
        from < s.len() ==> s[from] != '_',
    ensures
        strip_front(s) == s.subrange(from, s.len() as int),
    decreases from,
{
    if from > 0 {
        let t = s.drop_first();
        assert forall|j: int| 0 <= j < from - 1 implies t[j] == '_' by {
            assert(t[j] == s[j + 1]);
        }
        lemma_strip_front(t, from - 1);
        assert(t.subrange(from - 1, t.len() as int) =~= s.subrange(from, s.len() as int));
    } else {
        assert(s.subrange(0, s.len() as int) =~= s);
    }
}

proof fn lemma_strip_back(s: Seq<char>, to: int)
    requires
        0 <= to <= s.len(),
        forall|j: int| to <= j < s.len() ==> s[j] == '_',
        to > 0 ==> s[to - 1] != '_',
    ensures
        strip_back(s) == s.subrange(0, to),
    decreases s.len(),
{
    if to < s.len() {
        let t = s.drop_last();
        assert(to > 0 ==> t[to - 1] == s[to - 1]);
        lemma_strip_back(t, to);
        assert(t.subrange(0, to) =~= s.subrange(0, to));
    } else {
        assert(s.subrange(0, to) =~= s);
    }
}

/// The text as a part of a file name.
pub fn sanitize_dump_filename_component(value: &str) -> (r: String)
    ensures
        r@ == sanitized(value@),
{
    let trimmed = text::to_chars(text::trim(value).as_str());
    let mut safe: Vec<char> = Vec::new();
    let mut i: usize = 0;
    while i < trimmed.len() && i < MAX_DUMP_FILENAME_COMPONENT_CHARS
        invariant
            i <= trimmed@.len(),
            i <= MAX_DUMP_FILENAME_COMPONENT_CHARS,
            safe@.len() == i,
            forall|j: int| 0 <= j < i ==> safe@[j] == safe_char(trimmed@[j]),
        decreases trimmed@.len() - i,
    {
        if is_invalid_dump_filename_char(trimmed[i]) {
            safe.push('_');
        } else {
            safe.push(trimmed[i]);
        }
        i = i + 1;
    }
    assert(safe@ =~= safe_start(value@));
    let mut from: usize = 0;
    while from < safe.len() && safe[from] == '_'
        invariant
            from <= safe@.len(),
            forall|j: int| 0 <= j < from ==> safe@[j] == '_',
        ensures
            from < safe@.len() ==> safe@[from as int] != '_',
        decreases safe@.len() - from,
    {
        from = from + 1;
    }
    let mut to: usize = safe.len();
    while to > from && safe[to - 1] == '_'
        invariant
            from <= to <= safe@.len(),
            forall|j: int| to <= j < safe@.len() ==> safe@[j] == '_',
        ensures
            to > from ==> safe@[to - 1] != '_',
        decreases to,
    {
        to = to - 1;
    }
    proof {
        lemma_strip_front(safe@, from as int);
        let t = safe@.subrange(from as int, safe@.len() as int);
        assert forall|j: int| to - from <= j < t.len() implies t[j] == '_' by {
            assert(t[j] == safe@[j + from]);
        }
        assert(to > from ==> t[to - from - 1] == safe@[to - 1]);
        lemma_strip_back(t, to - from);
        assert(t.subrange(0, to - from) =~= safe@.subrange(from as int, to as int));
    }
    if from == to {
        DUMP_FILENAME_FALLBACK.to_owned()
    } else {
        text::from_range(&safe, from, to)
    }
}

/// The parts of the file name of a dump.
pub open spec fn filename_parts(
    database: Seq<char>,
    schema: Option<Seq<char>>,
    table: Option<Seq<char>>,
    timestamp: Seq<char>,
) -> Seq<Seq<char>> {
    let a = seq![sanitized(database)];
    let b = match schema {
        Some(s) => a.push(sanitized(s)),
        None => a,
    };
    let c = match table {
        Some(s) => b.push(sanitized(s)),
        None => b,
    };
    c.push(sanitized(timestamp))
}

/// The file name of a dump: its parts with underscores between them.
pub open spec fn filename(
    database: Seq<char>,
    schema: Option<Seq<char>>,
    table: Option<Seq<char>>,
    timestamp: Seq<char>,
) -> Seq<char> {
    text::joined(filename_parts(database, schema, table, timestamp), "_"@) + ".sql"@
}

/// The file name of a dump.
pub fn sql_dump_filename(
    database: &str,
    schema: Option<&str>,
    table: Option<&str>,
    timestamp: &str,
) -> (r: String)
    ensures
        r@ == filename(
            database@,
            match schema {
                Some(s) => Some(s@),
                None => None,
            },
            match table {
                Some(s) => Some(s@),
                None => None,
            },
            timestamp@,
        ),
{
    let mut parts: Vec<String> = Vec::new();
    parts.push(sanitize_dump_filename_component(database));
    if let Some(schema) = schema {
        parts.push(sanitize_dump_filename_component(schema));
    }
    if let Some(table) = table {
        parts.push(sanitize_dump_filename_component(table));
    }
    parts.push(sanitize_dump_filename_component(timestamp));
    assert(text::views(parts@) =~= filename_parts(
        database@,
        match schema {
            Some(s) => Some(s@),
            None => None,
        },
        match table {
            Some(s) => Some(s@),
            None => None,
        },
        timestamp@,
    ));
    let mut name = text::join(&parts, "_");
    name.append(".sql");
    name
}

// ---------------------------------------------------------------------------
// Laws
// ---------------------------------------------------------------------------

/// All characters of `s` may stand in a file name.
pub open spec fn is_path_safe(s: Seq<char>) -> bool {
    forall|i: int| 0 <= i < s.len() ==> !is_invalid(#[trigger] s[i])
}

proof fn lemma_strip_front_keeps(s: Seq<char>)
    requires
        is_path_safe(s),
    ensures
        is_path_safe(strip_front(s)),
        strip_front(s).len() <= s.len(),
        strip_front(s).len() > 0 ==> strip_front(s)[0] != '_',
    decreases s.len(),
{
    if s.len() > 0 && s[0] == '_' {
        lemma_strip_front_keeps(s.drop_first());
    }
}

proof fn lemma_strip_back_keeps(s: Seq<char>)
    requires
        is_path_safe(s),
    ensures
        is_path_safe(strip_back(s)),
        strip_back(s).len() <= s.len(),
        strip_back(s).len() > 0 ==> strip_back(s).last() != '_' && strip_back(s)[0] == s[0],
    decreases s.len(),
{
    if s.len() > 0 && s.last() == '_' {
        lemma_strip_back_keeps(s.drop_last());
    }
}

/// A part of a file name is never empty, no longer than the limit, safe in
/// every character, and neither begins nor ends with an underscore.
pub proof fn law_sanitized(value: Seq<char>)
    ensures
        0 < sanitized(value).len() <= MAX_DUMP_FILENAME_COMPONENT_CHARS,
        is_path_safe(sanitized(value)),
        sanitized(value)[0] != '_',
        sanitized(value).last() != '_',
{
    reveal_strlit("dump");
    let start = safe_start(value);
    assert(is_path_safe(start));
    lemma_strip_front_keeps(start);
    lemma_strip_back_keeps(strip_front(start));
}

proof fn lemma_joined_safe(v: Seq<Seq<char>>)
    requires
        forall|i: int| 0 <= i < v.len() ==> is_path_safe(#[trigger] v[i]),
    ensures
        is_path_safe(text::joined(v, "_"@)),
    decreases v.len(),
{
    reveal_strlit("_");
    if v.len() > 1 {
        let t = v.drop_last();
        assert forall|i: int| 0 <= i < t.len() implies is_path_safe(#[trigger] t[i]) by {
            assert(t[i] == v[i]);
        }
        lemma_joined_safe(t);
        let a = text::joined(t, "_"@);
        let s = a + "_"@ + v.last();
        assert(is_path_safe(v[v.len() - 1]));
        assert forall|i: int| 0 <= i < s.len() implies !is_invalid(#[trigger] s[i]) by {
            if i < a.len() {
                assert(s[i] == a[i]);
            } else if i == a.len() {
                assert(s[i] == '_');
            } else {
                assert(s[i] == v.last()[i - a.len() - 1]);
            }
        }
    } else if v.len() == 1 {
        assert(is_path_safe(v[0]));
    }
}

/// The file name of a dump is safe in every character, whatever the database,
/// schema and table are called: it names no other directory.
pub proof fn law_filename_is_path_safe(
    database: Seq<char>,
    schema: Option<Seq<char>>,
    table: Option<Seq<char>>,
    timestamp: Seq<char>,
)
    ensures
        is_path_safe(filename(database, schema, table, timestamp)),
        !filename(database, schema, table, timestamp).contains('/'),
        !filename(database, schema, table, timestamp).contains('\\'),
{
    let parts = filename_parts(database, schema, table, timestamp);
    law_sanitized(database);
    law_sanitized(timestamp);
    if let Some(s) = schema {
        law_sanitized(s);
    }
    if let Some(s) = table {
        law_sanitized(s);
    }
    lemma_joined_safe(parts);
    reveal_strlit(".sql");
    let a = text::joined(parts, "_"@);
    let s = a + ".sql"@;
    assert forall|i: int| 0 <= i < s.len() implies !is_invalid(#[trigger] s[i]) by {
        if i < a.len() {
            assert(s[i] == a[i]);
        } else {
            assert(s[i] == ".sql"@[i - a.len()]);
        }
    }
}

} // verus!
