//! EXPLAIN for the SQL editor: the editor text is split into statements,
//! and every statement that parses as a single query made of SELECTs gets
//! an `EXPLAIN` in front.
use vstd::prelude::*;
use crate::models::DatabaseType;
use crate::sql_split::{split_statements, splits_cleanly};
use crate::streaming_parser::{SqlSource, StreamingSqlParser};
use crate::text::{trim, trim_string, str_to_owned, push_str, utf8_len};
use crate::filter::{join, push_joined};

verus! {

#[verifier::external_type_specification]
#[verifier::external_body]
pub struct ExStatement(sqlparser::ast::Statement);

#[verifier::external_type_specification]
#[verifier::external_body]
pub struct ExSetExpr(sqlparser::ast::SetExpr);

/// The shape of a query body, as far as EXPLAIN cares.
#[derive(Debug)]
pub enum QueryShape {
    /// A plain SELECT.
    Select,
    /// A parenthesized query with this body.
    Query(Box<QueryShape>),
    /// UNION, EXCEPT or INTERSECT of two bodies.
    SetOperation(Box<QueryShape>, Box<QueryShape>),
    /// VALUES, TABLE, or a data-changing statement used as a body.
    Other,
}

/// The shape of a parsed statement.
#[derive(Debug)]
pub enum StatementShape {
    /// A query with this body.
    Query(QueryShape),
    /// Any other statement.
    Other,
}

/// The statements `sqlparser` parses from the text with the PostgreSQL
/// dialect, by shape; `None` where it does not parse.
pub uninterp spec fn parsed_shapes(sql: Seq<char>) -> Option<Seq<StatementShape>>;

/// Converts a query body, one variant for one.
#[verifier::external_body]
fn set_expr_shape(e: &sqlparser::ast::SetExpr) -> QueryShape {
    match e {
        sqlparser::ast::SetExpr::Select(_) => QueryShape::Select,
        sqlparser::ast::SetExpr::Query(q) => QueryShape::Query(Box::new(set_expr_shape(&q.body))),
        sqlparser::ast::SetExpr::SetOperation { left, right, .. } => QueryShape::SetOperation(
            Box::new(set_expr_shape(left)),
            Box::new(set_expr_shape(right)),
        ),
        _ => QueryShape::Other,
    }
}

/// Converts a statement, one variant for one.
#[verifier::external_body]
fn statement_shape(s: &sqlparser::ast::Statement) -> StatementShape {
    match s {
        sqlparser::ast::Statement::Query(q) => StatementShape::Query(set_expr_shape(&q.body)),
        _ => StatementShape::Other,
    }
}

/// Parses with `sqlparser::parser::Parser::parse_sql` and the PostgreSQL
/// dialect; the statements are given by shape.
#[verifier::external_body]
fn parse_statement_shapes(sql: &str) -> (r: Option<Vec<StatementShape>>)
    ensures
        match r {
            Some(v) => parsed_shapes(sql@) == Some(v@),
            None => parsed_shapes(sql@) is None,
        },
{
    let dialect = sqlparser::dialect::PostgreSqlDialect {};
    match sqlparser::parser::Parser::parse_sql(&dialect, sql) {
        Ok(statements) => Some(statements.iter().map(statement_shape).collect()),
        Err(_) => None,
    }
}

/// A query body made only of SELECTs.
pub open spec fn is_select_shape(q: QueryShape) -> bool
    decreases q,
{
    match q {
        QueryShape::Select => true,
        QueryShape::Query(b) => is_select_shape(*b),
        QueryShape::SetOperation(l, r) => is_select_shape(*l) && is_select_shape(*r),
        QueryShape::Other => false,
    }
}

/// The parse gave exactly one statement, a query made only of SELECTs.
pub open spec fn shapes_are_one_select(parsed: Option<Seq<StatementShape>>) -> bool {
    match parsed {
        Some(s) => s.len() == 1 && match s[0] {
            StatementShape::Query(q) => is_select_shape(q),
            StatementShape::Other => false,
        },
        None => false,
    }
}

/// The text parses as exactly one query made only of SELECTs.
pub open spec fn is_select_sql(sql: Seq<char>) -> bool {
    shapes_are_one_select(parsed_shapes(sql))
}

fn select_shape(q: &QueryShape) -> (r: bool)
    ensures
        r == is_select_shape(*q),
    decreases q,
{
    match q {
        QueryShape::Select => true,
        QueryShape::Query(b) => select_shape(b),
        QueryShape::SetOperation(l, r) => select_shape(l) && select_shape(r),
        QueryShape::Other => false,
    }
}

/// Whether the text is a single SELECT query (possibly with set operations
/// and parentheses).
pub fn is_select_statement(database_type: DatabaseType, sql: &str) -> (r: bool)
    ensures
        r == is_select_sql(sql@),
{
    let _ = database_type;
    let parsed = parse_statement_shapes(sql);
    is_one_select(&parsed)
}

/// Whether a parse gave exactly one statement, and that a query made only
/// of SELECTs (possibly with set operations and parentheses).
pub fn is_one_select(parsed: &Option<Vec<StatementShape>>) -> (r: bool)
    ensures
        r == shapes_are_one_select(match parsed {
            Some(v) => Some(v@),
            None => None,
        }),
{
    match parsed {
        Some(shapes) => {
            if shapes.len() != 1 {
                return false;
            }
            match &shapes[0] {
                StatementShape::Query(q) => select_shape(q),
                StatementShape::Other => false,
            }
        },
        None => false,
    }
}

/// The statements of a script, each trimmed, the empty ones left out.
pub open spec fn script_statements_spec(script: Seq<char>) -> Seq<Seq<char>> {
    split_statements(script).map_values(|s: Seq<char>| trim(s)).filter(|s: Seq<char>| s.len() > 0)
}

/// The statements of the editor text: those of the trimmed text; the whole
/// trimmed text where that gives none.
pub open spec fn editor_statements(sql: Seq<char>) -> Seq<Seq<char>> {
    let parts = script_statements_spec(trim(sql));
    if parts.len() == 0 {
        seq![trim(sql)]
    } else {
        parts
    }
}

/// The statements of a script, each trimmed, the empty ones left out.
pub fn script_statements(script: String, database_type: DatabaseType) -> (r: Vec<String>)
    requires
        splits_cleanly(script@),
        utf8_len(script@) < u64::MAX,
    ensures
        r@.map_values(|s: String| s@) == script_statements_spec(script@),
{
    let ghost text = script@;
    let mut parser = match StreamingSqlParser::from_source(SqlSource::Script(script), database_type) {
        Some(p) => p,
        None => {
            return Vec::new();
        },
    };
    let ghost all = split_statements(text);
    let mut out: Vec<String> = Vec::new();
    let ghost mut seen: int = 0;
    loop
        invariant
            parser.wf(),
            parser.is_closed(),
            parser.fed() == text,
            all == split_statements(text),
            parser.spec_total_size() == utf8_len(parser.fed()),
            !parser.faults_ahead(),
            parser.remaining() == all.skip(seen),
            0 <= seen <= all.len(),
            out@.map_values(|s: String| s@) == all.take(seen).map_values(|s: Seq<char>| trim(s)).filter(
                |s: Seq<char>| s.len() > 0,
            ),
        ensures
            out@.map_values(|s: String| s@) == all.map_values(|s: Seq<char>| trim(s)).filter(
                |s: Seq<char>| s.len() > 0,
            ),
        decreases all.len() - seen,
    {
        match parser.next() {
            Some(stmt) => {
                let t = trim_string(stmt.as_str());
                let ghost before = out@;
                proof {
                    assert(all.skip(seen)[0] == all[seen]);
                    assert(all.take(seen + 1) =~= all.take(seen).push(all[seen]));
                    assert(all.take(seen + 1).map_values(|s: Seq<char>| trim(s)) =~= all.take(seen).map_values(
                        |s: Seq<char>| trim(s),
                    ).push(trim(all[seen])));
                    assert(all.skip(seen).drop_first() =~= all.skip(seen + 1));
                    all.take(seen).map_values(|s: Seq<char>| trim(s)).lemma_filter_push(
                        trim(all[seen]),
                        |s: Seq<char>| s.len() > 0,
                    );
                }
                if !t.as_str().is_empty() {
                    out.push(t);
                    proof {
                        assert(out@.map_values(|s: String| s@) =~= before.map_values(|s: String| s@).push(
                            trim(all[seen]),
                        ));
                    }
                }
                proof {
                    seen = seen + 1;
                }
            },
            None => {
                proof {
                    assert(all.take(seen) =~= all);
                }
                break;
            },
        }
    }
    out
}

pub fn split_sql_statements(database_type: DatabaseType, sql: &str) -> (r: Vec<String>)
    requires
        splits_cleanly(trim(sql@)),
        utf8_len(trim(sql@)) < u64::MAX,
    ensures
        r@.map_values(|s: String| s@) == editor_statements(sql@),
{
    let trimmed = trim_string(sql);
    let out = script_statements(trimmed.clone(), database_type);
    if out.len() == 0 {
        let r = vec![trimmed];
        assert(r@.map_values(|s: String| s@) =~= seq![trim(sql@)]);
        return r;
    }
    out
}

/// `EXPLAIN` followed by the trimmed statement.
pub open spec fn explain_of(s: Seq<char>) -> Seq<char> {
    "EXPLAIN "@ + trim(s)
}

/// The EXPLAIN script for the editor text: an `EXPLAIN` for each SELECT
/// statement, joined by `;` and a newline; `None` where there is no SELECT.
pub open spec fn explain_sql(sql: Seq<char>) -> Option<Seq<char>> {
    let picked = editor_statements(sql).filter(|s: Seq<char>| is_select_sql(s)).map_values(
        |s: Seq<char>| explain_of(s),
    );
    if picked.len() == 0 {
        None
    } else {
        Some(join(picked, ";\n"@))
    }
}

pub fn build_explain_statement(sql: &str) -> (r: String)
    ensures
        r@ == explain_of(sql@),
{
    let mut out = str_to_owned("EXPLAIN ");
    let t = trim_string(sql);
    push_str(&mut out, t.as_str());
    out
}

pub fn build_explain_sql(database_type: DatabaseType, sql: &str) -> (r: Option<String>)
    requires
        splits_cleanly(trim(sql@)),
        utf8_len(trim(sql@)) < u64::MAX,
    ensures
        crate::models::opt_view(r) == explain_sql(sql@),
{
    let statements = split_sql_statements(database_type, sql);
    let ghost st = statements@.map_values(|s: String| s@);
    let mut picked: Vec<String> = Vec::new();
    let mut i: usize = 0;
    while i < statements.len()
        invariant
            i <= statements.len(),
            st == statements@.map_values(|s: String| s@),
            st == editor_statements(sql@),
            picked@.map_values(|s: String| s@) == st.take(i as int).filter(|s: Seq<char>| is_select_sql(s)).map_values(
                |s: Seq<char>| explain_of(s),
            ),
        decreases statements.len() - i,
    {
        let ghost before = picked@;
        proof {
            assert(st.take(i + 1) =~= st.take(i as int).push(st[i as int]));
            st.take(i as int).lemma_filter_push(st[i as int], |s: Seq<char>| is_select_sql(s));
        }
        if is_select_statement(database_type, statements[i].as_str()) {
            let e = build_explain_statement(statements[i].as_str());
            picked.push(e);
            proof {
                let f = st.take(i as int).filter(|s: Seq<char>| is_select_sql(s));
                assert(f.push(st[i as int]).map_values(|s: Seq<char>| explain_of(s)) =~= f.map_values(
                    |s: Seq<char>| explain_of(s),
                ).push(explain_of(st[i as int])));
                assert(picked@.map_values(|s: String| s@) =~= before.map_values(|s: String| s@).push(
                    explain_of(st[i as int]),
                ));
            }
        }
        i += 1;
    }
    proof {
        assert(st.take(statements@.len() as int) =~= st);
    }
    if picked.len() == 0 {
        return None;
    }
    let mut out = String::new();
    push_joined(&mut out, &picked, ";\n");
    Some(out)
}

} // verus!
