//! The decisions of the database tab and its SQL editor: titles, file
//! names of saved queries, the database selected, what a run or an EXPLAIN
//! sends, and the completion data.
use vstd::prelude::*;
use crate::models::{DatabaseType, StoredConnection, Workspace, opt_view};
use crate::db_types::{ColumnInfo, TableInfo};
use crate::explain::{build_explain_sql, explain_sql};
use crate::sql_split::splits_cleanly;
use crate::text::{
    trim, is_blank, utf8_len, contains_seq, str_contains,
    chars_of, slice_starts_with, slice_ends_with, starts_with, ends_with, parse_u64,
    parse_u64_spec, str_eq, str_to_owned, push_str, u64_to_decimal, decimal, string_from_range,
};

verus! {

/// The number in a saved query's file name `<prefix><number>.sql`, if it
/// has that form and the number is a `u32`.
pub open spec fn query_number(name: Seq<char>, prefix: Seq<char>) -> Option<u32> {
    if starts_with(name, prefix) && ends_with(name, ".sql"@) {
        let rest = name.subrange(prefix.len() as int, name.len() as int);
        if ends_with(rest, ".sql"@) {
            match parse_u64_spec(rest.subrange(0, rest.len() - 4)) {
                Some(n) => if n <= u32::MAX {
                    Some(n as u32)
                } else {
                    None
                },
                None => None,
            }
        } else {
            None
        }
    } else {
        None
    }
}

/// The number of the next query file: one more than the largest number in
/// use, or 1.
pub open spec fn next_number(names: Seq<String>, prefix: Seq<char>) -> u32
    decreases names.len(),
{
    if names.len() == 0 {
        1
    } else {
        let m = next_number(names.drop_last(), prefix);
        match query_number(names.last()@, prefix) {
            Some(n) => if n + 1 > m {
                (n + 1) as u32
            } else {
                m
            },
            None => m,
        }
    }
}

fn query_number_exec(name: &str, prefix: &str) -> (r: Option<u32>)
    ensures
        r == query_number(name@, prefix@),
{
    let n = chars_of(name);
    let p = chars_of(prefix);
    let sql = chars_of(".sql");
    if !(slice_starts_with(n.as_slice(), p.as_slice()) && slice_ends_with(n.as_slice(), sql.as_slice())) {
        return None;
    }
    let rest = string_from_range(n.as_slice(), p.len(), n.len());
    let rc = chars_of(rest.as_str());
    if !slice_ends_with(rc.as_slice(), sql.as_slice()) {
        return None;
    }
    proof {
        reveal_strlit(".sql");
    }
    let digits = string_from_range(rc.as_slice(), 0, rc.len() - 4);
    match parse_u64(digits.as_str()) {
        Some(v) => if v <= 0xFFFF_FFFF {
            Some(v as u32)
        } else {
            None
        },
        None => None,
    }
}

/// The number for a new query file among the existing file names.
pub fn next_query_number(names: &Vec<String>, prefix: &str) -> (r: u32)
    requires
        forall|i: int| 0 <= i < names@.len() ==> query_number((#[trigger] names@[i])@, prefix@) != Some(u32::MAX),
    ensures
        r == next_number(names@, prefix@),
{
    let mut next: u32 = 1;
    let mut i: usize = 0;
    while i < names.len()
        invariant
            i <= names.len(),
            forall|j: int| 0 <= j < names@.len() ==> query_number((#[trigger] names@[j])@, prefix@) != Some(u32::MAX),
            next == next_number(names@.subrange(0, i as int), prefix@),
        decreases names.len() - i,
    {
        let ghost pre = names@.subrange(0, i as int);
        let ghost post = names@.subrange(0, i + 1);
        assert(post.drop_last() =~= pre);
        match query_number_exec(names[i].as_str(), prefix) {
            Some(num) => {
                if num + 1 > next {
                    next = num + 1;
                }
            },
            None => {},
        }
        i += 1;
    }
    assert(names@.subrange(0, names@.len() as int) =~= names@);
    next
}

/// The file name of a new query: the prefix, a space, the number, `.sql`.
pub fn new_query_file_name(prefix: &str, number: u32) -> (r: String)
    ensures
        r@ == prefix@ + " "@ + decimal(number as nat) + ".sql"@,
{
    let mut out = str_to_owned(prefix);
    push_str(&mut out, " ");
    let d = u64_to_decimal(number as u64);
    push_str(&mut out, d.as_str());
    push_str(&mut out, ".sql");
    out
}

/// Which entry of the database list the editor selects: the database it
/// was opened on, else the first in the list; `None` where that name is
/// not in the list (or the list is empty).
pub fn selected_database_index(initial: &Option<String>, databases: &Vec<String>) -> (r: Option<usize>)
    ensures
        match r {
            Some(i) => i < databases@.len() && match *initial {
                Some(d) => databases@[i as int]@ == d@ && forall|j: int| 0 <= j < i ==> (#[trigger] databases@[j])@ != d@,
                None => i == 0,
            },
            None => match *initial {
                Some(d) => forall|j: int| 0 <= j < databases@.len() ==> (#[trigger] databases@[j])@ != d@,
                None => databases@.len() == 0,
            },
        },
{
    match initial {
        None => if databases.len() == 0 {
            None
        } else {
            Some(0)
        },
        Some(d) => {
            let mut i: usize = 0;
            while i < databases.len()
                invariant
                    i <= databases@.len(),
                    *initial == Some(*d),
                    forall|j: int| 0 <= j < i ==> (#[trigger] databases@[j])@ != d@,
                decreases databases.len() - i,
            {
                if str_eq(databases[i].as_str(), d.as_str()) {
                    return Some(i);
                }
                i += 1;
            }
            None
        },
    }
}

// ---------------------------------------------------------------------------
// Running from the editor
// ---------------------------------------------------------------------------

/// Why the editor does not run what was asked.
#[derive(Debug, Clone, Copy, PartialEq, Eq, Structural)]
pub enum RunRefusal {
    /// No database is selected (where databases are listed).
    NoDatabase,
    /// There is nothing but whitespace to run.
    EmptyQuery,
    /// EXPLAIN was asked for text without a SELECT.
    NotSelect,
}

/// What the editor runs, and on which database and schema.
#[derive(Debug)]
pub struct RunTarget {
    pub sql: String,
    pub database: Option<String>,
    pub schema: Option<String>,
}

/// The database and schema a run goes to: where schemas stand for
/// databases the selection is a schema; else the selected database and,
/// where the database type has schemas, the selected schema.
pub open spec fn run_scope(
    selected: Option<String>,
    selected_schema: Option<String>,
    uses_schema_as_database: bool,
    supports_schema: bool,
) -> (Option<String>, Option<String>) {
    if uses_schema_as_database {
        (None, selected)
    } else if supports_schema {
        (selected, selected_schema)
    } else {
        (selected, None)
    }
}

fn scope_of(
    selected: Option<String>,
    selected_schema: Option<String>,
    uses_schema_as_database: bool,
    supports_schema: bool,
) -> (r: (Option<String>, Option<String>))
    ensures
        r == run_scope(selected, selected_schema, uses_schema_as_database, supports_schema),
{
    if uses_schema_as_database {
        (None, selected)
    } else if supports_schema {
        (selected, selected_schema)
    } else {
        (selected, None)
    }
}

/// What running `sql` from the editor does: refused without a selected
/// database (where databases are listed), then refused for blank text;
/// else `sql` runs on the selected scope.
pub fn run_target(
    sql: String,
    selected: Option<String>,
    selected_schema: Option<String>,
    uses_schema_as_database: bool,
    supports_schema: bool,
) -> (r: Result<RunTarget, RunRefusal>)
    ensures
        !uses_schema_as_database && selected is None ==> r == Err::<RunTarget, RunRefusal>(RunRefusal::NoDatabase),
        !(!uses_schema_as_database && selected is None) && trim(sql@).len() == 0 ==> r == Err::<RunTarget, RunRefusal>(
            RunRefusal::EmptyQuery,
        ),
        !(!uses_schema_as_database && selected is None) && trim(sql@).len() > 0 ==> (r matches Ok(t) && t.sql == sql
            && (t.database, t.schema) == run_scope(selected, selected_schema, uses_schema_as_database, supports_schema)),
{
    if !uses_schema_as_database && selected.is_none() {
        return Err(RunRefusal::NoDatabase);
    }
    if is_blank(sql.as_str()) {
        return Err(RunRefusal::EmptyQuery);
    }
    let (database, schema) = scope_of(selected, selected_schema, uses_schema_as_database, supports_schema);
    Ok(RunTarget { sql, database, schema })
}

/// The text EXPLAIN is asked for: the selection, or the whole editor where
/// nothing but whitespace is selected.
pub open spec fn explain_text(selected_text: Seq<char>, whole: Seq<char>) -> Seq<char> {
    if trim(selected_text).len() == 0 {
        whole
    } else {
        selected_text
    }
}

/// What EXPLAIN from the editor does: refused for blank text, then without
/// a selected database (where databases are listed), then where no
/// statement is a SELECT; else the EXPLAIN statements run on the selected
/// scope.
pub fn explain_target(
    database_type: DatabaseType,
    selected_text: &str,
    whole: &str,
    selected: Option<String>,
    selected_schema: Option<String>,
    uses_schema_as_database: bool,
    supports_schema: bool,
) -> (r: Result<RunTarget, RunRefusal>)
    requires
        splits_cleanly(trim(explain_text(selected_text@, whole@))),
        utf8_len(trim(explain_text(selected_text@, whole@))) < u64::MAX,
    ensures
        ({
            let text = explain_text(selected_text@, whole@);
            if trim(text).len() == 0 {
                r == Err::<RunTarget, RunRefusal>(RunRefusal::EmptyQuery)
            } else if !uses_schema_as_database && selected is None {
                r == Err::<RunTarget, RunRefusal>(RunRefusal::NoDatabase)
            } else {
                match explain_sql(text) {
                    None => r == Err::<RunTarget, RunRefusal>(RunRefusal::NotSelect),
                    Some(e) => (r matches Ok(t) && t.sql@ == e && (t.database, t.schema) == run_scope(
                        selected,
                        selected_schema,
                        uses_schema_as_database,
                        supports_schema,
                    )),
                }
            }
        }),
{
    let text = if is_blank(selected_text) {
        whole
    } else {
        selected_text
    };
    if is_blank(text) {
        return Err(RunRefusal::EmptyQuery);
    }
    if !uses_schema_as_database && selected.is_none() {
        return Err(RunRefusal::NoDatabase);
    }
    match build_explain_sql(database_type, text) {
        None => Err(RunRefusal::NotSelect),
        Some(sql) => {
            let (database, schema) = scope_of(selected, selected_schema, uses_schema_as_database, supports_schema);
            Ok(RunTarget { sql, database, schema })
        },
    }
}

// ---------------------------------------------------------------------------
// Completion data
// ---------------------------------------------------------------------------

/// The database and schema whose tables the editor offers for completion:
/// where schemas stand for databases the chosen name is a schema.
pub fn completion_scope(
    database: &str,
    selected_schema: Option<String>,
    uses_schema_as_database: bool,
    supports_schema: bool,
) -> (r: (String, Option<String>))
    ensures
        uses_schema_as_database ==> r.0@.len() == 0 && opt_view(r.1) == Some(database@),
        !uses_schema_as_database ==> r.0@ == database@ && r.1 == (if supports_schema {
            selected_schema
        } else {
            None
        }),
{
    if uses_schema_as_database {
        (String::new(), Some(str_to_owned(database)))
    } else if supports_schema {
        (str_to_owned(database), selected_schema)
    } else {
        (str_to_owned(database), None)
    }
}

/// How a table is described in completion: `Table: <name>`, followed by
/// ` - <comment>` where it has a comment.
pub open spec fn table_description(t: TableInfo) -> Seq<char> {
    match t.comment {
        Some(c) => "Table: "@ + t.name@ + " - "@ + c@,
        None => "Table: "@ + t.name@,
    }
}

/// The completion entries of the tables: each name with its description.
pub fn table_completion_items(tables: &Vec<TableInfo>) -> (r: Vec<(String, String)>)
    ensures
        r@.len() == tables@.len(),
        forall|i: int| 0 <= i < r@.len() ==> (#[trigger] r@[i]).0@ == tables@[i].name@ && r@[i].1@
            == table_description(tables@[i]),
{
    let mut out: Vec<(String, String)> = Vec::new();
    let mut i: usize = 0;
    while i < tables.len()
        invariant
            i <= tables@.len(),
            out@.len() == i,
            forall|j: int| 0 <= j < i ==> (#[trigger] out@[j]).0@ == tables@[j].name@ && out@[j].1@
                == table_description(tables@[j]),
        decreases tables.len() - i,
    {
        let t = &tables[i];
        let mut d = str_to_owned("Table: ");
        push_str(&mut d, t.name.as_str());
        match &t.comment {
            Some(c) => {
                push_str(&mut d, " - ");
                push_str(&mut d, c.as_str());
            },
            None => {},
        }
        proof {
            assert(d@ =~= table_description(tables@[i as int]));
        }
        out.push((t.name.clone(), d));
        i += 1;
    }
    out
}

/// The completion entries of a table's columns: name, type, and comment
/// (empty where there is none).
pub fn column_completion_items(columns: &Vec<ColumnInfo>) -> (r: Vec<(String, String, String)>)
    ensures
        r@.len() == columns@.len(),
        forall|i: int| 0 <= i < r@.len() ==> {
            let c = #[trigger] columns@[i];
            &&& r@[i].0@ == c.name@
            &&& r@[i].1@ == c.data_type@
            &&& r@[i].2@ == match c.comment {
                Some(x) => x@,
                None => Seq::empty(),
            }
        },
{
    let mut out: Vec<(String, String, String)> = Vec::new();
    let mut i: usize = 0;
    while i < columns.len()
        invariant
            i <= columns@.len(),
            out@.len() == i,
            forall|j: int| 0 <= j < i ==> {
                let c = #[trigger] columns@[j];
                &&& out@[j].0@ == c.name@
                &&& out@[j].1@ == c.data_type@
                &&& out@[j].2@ == match c.comment {
                    Some(x) => x@,
                    None => Seq::empty(),
                }
            },
        decreases columns.len() - i,
    {
        let c = &columns[i];
        let comment = match &c.comment {
            Some(x) => x.clone(),
            None => String::new(),
        };
        out.push((c.name.clone(), c.data_type.clone(), comment));
        i += 1;
    }
    out
}

/// Whether a connection status message reports a failure: it says
/// `Failed` or `failed` somewhere.
pub fn is_failure_status(status: &str) -> (r: bool)
    ensures
        r == (contains_seq(status@, "Failed"@) || contains_seq(status@, "failed"@)),
{
    str_contains(status, "Failed") || str_contains(status, "failed")
}

/// The title of a database tab: its workspace's name, else the name of
/// its first connection, else `Database`.
pub fn tab_title(workspace: &Option<Workspace>, connections: &Vec<StoredConnection>) -> (r: String)
    ensures
        r@ == match workspace {
            Some(w) => w.name@,
            None => if connections@.len() > 0 {
                connections@[0].name@
            } else {
                "Database"@
            },
        },
{
    match workspace {
        Some(w) => w.name.clone(),
        None => if connections.len() > 0 {
            connections[0].name.clone()
        } else {
            str_to_owned("Database")
        },
    }
}

} // verus!
