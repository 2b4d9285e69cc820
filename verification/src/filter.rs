//! The visual WHERE-clause builder of the table view: which operators a
//! column offers, how values are quoted, and the clause the rows make.
use vstd::prelude::*;
use crate::db_types::{ColumnInfo, FieldType, FilterOperator};
use crate::text::{
    push_str, push_char, str_to_owned, to_uppercase, unicode_uppercase, str_eq, chars_of, trim,
    trim_range, string_from_range, to_lowercase, unicode_lowercase, contains_seq, str_contains,
};

verus! {

// ---------------------------------------------------------------------------
// Value input modes and operator lists
// ---------------------------------------------------------------------------

/// How many values an operator takes.
#[derive(Debug, Clone, Copy, PartialEq, Eq, Structural)]
pub enum ValueInputMode {
    /// `=`, `!=`, `>`, `<`, `>=`, `<=`, `LIKE`, `NOT LIKE`.
    SingleValue,
    /// `BETWEEN`: two values.
    DualValue,
    /// `IN`, `NOT IN`: a comma-separated list.
    ListValue,
    /// `IS NULL`, `IS NOT NULL`, `TRUE`, `FALSE`.
    NoValue,
}

impl ValueInputMode {
    pub open spec fn of(op: FilterOperator) -> ValueInputMode {
        match op {
            FilterOperator::In | FilterOperator::NotIn => ValueInputMode::ListValue,
            FilterOperator::IsNull | FilterOperator::IsNotNull => ValueInputMode::NoValue,
            FilterOperator::Between => ValueInputMode::DualValue,
            FilterOperator::IsTrue | FilterOperator::IsFalse => ValueInputMode::NoValue,
            _ => ValueInputMode::SingleValue,
        }
    }

    pub fn from_operator(op: FilterOperator) -> (r: ValueInputMode)
        ensures
            r == Self::of(op),
    {
        match op {
            FilterOperator::In | FilterOperator::NotIn => ValueInputMode::ListValue,
            FilterOperator::IsNull | FilterOperator::IsNotNull => ValueInputMode::NoValue,
            FilterOperator::Between => ValueInputMode::DualValue,
            FilterOperator::IsTrue | FilterOperator::IsFalse => ValueInputMode::NoValue,
            _ => ValueInputMode::SingleValue,
        }
    }
}

/// An operator offered in the operator picker, with its label.
#[derive(Debug, Clone, Copy)]
pub struct OperatorSelectItem {
    pub operator: FilterOperator,
    pub label: &'static str,
}

/// The operators offered for a field type, in picker order.
pub open spec fn operators_for(field_type: FieldType) -> Seq<FilterOperator> {
    match field_type {
        FieldType::Text | FieldType::LongText => seq![
            FilterOperator::Like,
            FilterOperator::NotLike,
            FilterOperator::Equal,
            FilterOperator::NotEqual,
            FilterOperator::In,
            FilterOperator::NotIn,
            FilterOperator::IsNull,
            FilterOperator::IsNotNull,
        ],
        FieldType::Integer | FieldType::Decimal => seq![
            FilterOperator::Equal,
            FilterOperator::NotEqual,
            FilterOperator::GreaterThan,
            FilterOperator::LessThan,
            FilterOperator::GreaterOrEqual,
            FilterOperator::LessOrEqual,
            FilterOperator::Between,
            FilterOperator::In,
            FilterOperator::NotIn,
            FilterOperator::IsNull,
            FilterOperator::IsNotNull,
        ],
        FieldType::Date | FieldType::Time | FieldType::DateTime => seq![
            FilterOperator::Equal,
            FilterOperator::NotEqual,
            FilterOperator::GreaterThan,
            FilterOperator::LessThan,
            FilterOperator::GreaterOrEqual,
            FilterOperator::LessOrEqual,
            FilterOperator::Between,
            FilterOperator::IsNull,
            FilterOperator::IsNotNull,
        ],
        FieldType::Boolean => seq![
            FilterOperator::IsTrue,
            FilterOperator::IsFalse,
            FilterOperator::IsNull,
            FilterOperator::IsNotNull,
        ],
        _ => seq![
            FilterOperator::Equal,
            FilterOperator::NotEqual,
            FilterOperator::IsNull,
            FilterOperator::IsNotNull,
        ],
    }
}

/// The label an operator has in the picker: its SQL, except `TRUE` and
/// `FALSE` for the boolean tests.
pub open spec fn operator_label(op: FilterOperator) -> Seq<char> {
    match op {
        FilterOperator::IsTrue => "TRUE"@,
        FilterOperator::IsFalse => "FALSE"@,
        _ => op.sql_spec(),
    }
}

fn item(op: FilterOperator) -> (r: OperatorSelectItem)
    ensures
        r.operator == op,
        r.label@ == operator_label(op),
{
    let label = match op {
        FilterOperator::IsTrue => "TRUE",
        FilterOperator::IsFalse => "FALSE",
        _ => op.to_sql(),
    };
    OperatorSelectItem { operator: op, label }
}

/// The operator picker's items for a field type.
pub fn get_operators_for_field_type(field_type: FieldType) -> (r: Vec<OperatorSelectItem>)
    ensures
        r@.len() == operators_for(field_type).len(),
        forall|i: int| 0 <= i < r@.len() ==> (#[trigger] r@[i]).operator == operators_for(field_type)[i]
            && r@[i].label@ == operator_label(r@[i].operator),
{
    let ops: Vec<FilterOperator> = match field_type {
        FieldType::Text | FieldType::LongText => vec![
            FilterOperator::Like,
            FilterOperator::NotLike,
            FilterOperator::Equal,
            FilterOperator::NotEqual,
            FilterOperator::In,
            FilterOperator::NotIn,
            FilterOperator::IsNull,
            FilterOperator::IsNotNull,
        ],
        FieldType::Integer | FieldType::Decimal => vec![
            FilterOperator::Equal,
            FilterOperator::NotEqual,
            FilterOperator::GreaterThan,
            FilterOperator::LessThan,
            FilterOperator::GreaterOrEqual,
            FilterOperator::LessOrEqual,
            FilterOperator::Between,
            FilterOperator::In,
            FilterOperator::NotIn,
            FilterOperator::IsNull,
            FilterOperator::IsNotNull,
        ],
        FieldType::Date | FieldType::Time | FieldType::DateTime => vec![
            FilterOperator::Equal,
            FilterOperator::NotEqual,
            FilterOperator::GreaterThan,
            FilterOperator::LessThan,
            FilterOperator::GreaterOrEqual,
            FilterOperator::LessOrEqual,
            FilterOperator::Between,
            FilterOperator::IsNull,
            FilterOperator::IsNotNull,
        ],
        FieldType::Boolean => vec![
            FilterOperator::IsTrue,
            FilterOperator::IsFalse,
            FilterOperator::IsNull,
            FilterOperator::IsNotNull,
        ],
        _ => vec![
            FilterOperator::Equal,
            FilterOperator::NotEqual,
            FilterOperator::IsNull,
            FilterOperator::IsNotNull,
        ],
    };
    assert(ops@ =~= operators_for(field_type));
    let mut out: Vec<OperatorSelectItem> = Vec::new();
    let mut i: usize = 0;
    while i < ops.len()
        invariant
            i <= ops.len(),
            ops@ == operators_for(field_type),
            out@.len() == i,
            forall|j: int| 0 <= j < i ==> (#[trigger] out@[j]).operator == ops@[j] && out@[j].label@
                == operator_label(out@[j].operator),
        decreases ops.len() - i,
    {
        out.push(item(ops[i]));
        i += 1;
    }
    out
}

/// Every field type offers a null test both ways, and only operators whose
/// value mode its values can be typed in.
pub proof fn law_operators_offer_null_tests(field_type: FieldType)
    ensures
        operators_for(field_type).contains(FilterOperator::IsNull),
        operators_for(field_type).contains(FilterOperator::IsNotNull),
        field_type == FieldType::Boolean ==> forall|i: int| 0 <= i < operators_for(field_type).len()
            ==> ValueInputMode::of(#[trigger] operators_for(field_type)[i]) == ValueInputMode::NoValue,
{
    let ops = operators_for(field_type);
    let n = ops.len() as int;
    assert(ops[n - 2] == FilterOperator::IsNull);
    assert(ops[n - 1] == FilterOperator::IsNotNull);
}

// ---------------------------------------------------------------------------
// Values
// ---------------------------------------------------------------------------

/// `v` with each `'` doubled.
pub open spec fn double_quotes(v: Seq<char>) -> Seq<char>
    decreases v.len(),
{
    if v.len() == 0 {
        v
    } else if v.last() == '\'' {
        double_quotes(v.drop_last()) + seq!['\'', '\'']
    } else {
        double_quotes(v.drop_last()).push(v.last())
    }
}

/// How a typed value enters the clause: `TRUE`/`FALSE` for the boolean
/// tests, as typed for `BETWEEN`, `NULL` for any casing of null, else a
/// quoted string literal.
pub open spec fn sql_value(v: Seq<char>, op: FilterOperator) -> Seq<char> {
    match op {
        FilterOperator::IsTrue => "TRUE"@,
        FilterOperator::IsFalse => "FALSE"@,
        FilterOperator::Between => v,
        _ => if unicode_uppercase(v) == "NULL"@ {
            "NULL"@
        } else {
            seq!['\''] + double_quotes(v) + seq!['\'']
        },
    }
}

pub fn format_sql_value(value: &str, operator: FilterOperator) -> (r: String)
    ensures
        r@ == sql_value(value@, operator),
{
    match operator {
        FilterOperator::IsTrue => str_to_owned("TRUE"),
        FilterOperator::IsFalse => str_to_owned("FALSE"),
        FilterOperator::Between => str_to_owned(value),
        _ => {
            let upper = to_uppercase(value);
            if str_eq(upper.as_str(), "NULL") {
                str_to_owned("NULL")
            } else {
                let cs = chars_of(value);
                let mut out = String::new();
                push_char(&mut out, '\'');
                let ghost head = out@;
                let mut i: usize = 0;
                while i < cs.len()
                    invariant
                        i <= cs.len(),
                        cs@ == value@,
                        out@ == head + double_quotes(cs@.subrange(0, i as int)),
                    decreases cs.len() - i,
                {
                    let ghost pre = cs@.subrange(0, i as int);
                    assert(cs@.subrange(0, i + 1).drop_last() =~= pre);
                    if cs[i] == '\'' {
                        push_char(&mut out, '\'');
                        push_char(&mut out, '\'');
                        assert(out@ =~= head + double_quotes(cs@.subrange(0, i + 1)));
                    } else {
                        push_char(&mut out, cs[i]);
                        assert(out@ =~= head + double_quotes(cs@.subrange(0, i + 1)));
                    }
                    i += 1;
                }
                push_char(&mut out, '\'');
                assert(cs@.subrange(0, cs@.len() as int) =~= value@);
                assert(out@ =~= sql_value(value@, operator));
                out
            }
        },
    }
}

// ---------------------------------------------------------------------------
// The WHERE clause
// ---------------------------------------------------------------------------

/// The pieces of `s` between commas (`"a,,b"` gives `a`, ``, `b`).
pub open spec fn split_commas(s: Seq<char>) -> Seq<Seq<char>>
    decreases s.len(),
{
    if s.len() == 0 {
        seq![Seq::empty()]
    } else if s.last() == ',' {
        split_commas(s.drop_last()).push(Seq::empty())
    } else {
        let p = split_commas(s.drop_last());
        p.update(p.len() - 1, p.last().push(s.last()))
    }
}

proof fn lemma_split_commas_nonempty(s: Seq<char>)
    ensures
        split_commas(s).len() >= 1,
    decreases s.len(),
{
    if s.len() > 0 {
        lemma_split_commas_nonempty(s.drop_last());
    }
}

/// The parts joined with `sep` between them.
pub open spec fn join(parts: Seq<Seq<char>>, sep: Seq<char>) -> Seq<char>
    decreases parts.len(),
{
    if parts.len() == 0 {
        Seq::empty()
    } else if parts.len() == 1 {
        parts[0]
    } else {
        join(parts.drop_last(), sep) + sep + parts.last()
    }
}

/// One row of the filter editor as the user left it.
#[derive(Debug)]
pub struct FilterRow {
    /// The chosen column, if any.
    pub column: Option<String>,
    /// The chosen operator, if any.
    pub operator: Option<FilterOperator>,
    pub value: String,
    pub value2: String,
}

/// The list items of an `IN` value: each comma-separated piece, trimmed
/// and formatted.
pub open spec fn list_items(v: Seq<char>, op: FilterOperator) -> Seq<Seq<char>> {
    split_commas(v).map_values(|p: Seq<char>| sql_value(trim(p), op))
}

/// The condition a row contributes, if it is complete.
pub open spec fn row_condition(r: FilterRow) -> Option<Seq<char>> {
    match (r.column, r.operator) {
        (Some(c), Some(op)) => {
            let sql = op.sql_spec();
            match ValueInputMode::of(op) {
                ValueInputMode::NoValue => Some(c@ + " "@ + sql),
                ValueInputMode::SingleValue => if r.value@.len() == 0 {
                    None
                } else {
                    Some(c@ + " "@ + sql + " "@ + sql_value(r.value@, op))
                },
                ValueInputMode::DualValue => if r.value@.len() == 0 || r.value2@.len() == 0 {
                    None
                } else {
                    Some(c@ + " "@ + sql + " "@ + sql_value(r.value@, op) + " AND "@ + sql_value(r.value2@, op))
                },
                ValueInputMode::ListValue => if r.value@.len() == 0 {
                    None
                } else {
                    Some(c@ + " "@ + sql + " ("@ + join(list_items(r.value@, op), ", "@) + ")"@)
                },
            }
        },
        _ => None,
    }
}

/// The conditions of the complete rows, in order.
pub open spec fn conditions(rows: Seq<FilterRow>) -> Seq<Seq<char>>
    decreases rows.len(),
{
    if rows.len() == 0 {
        Seq::empty()
    } else {
        match row_condition(rows.last()) {
            Some(c) => conditions(rows.drop_last()).push(c),
            None => conditions(rows.drop_last()),
        }
    }
}

/// Appends `parts` joined by `sep`.
pub(crate) fn push_joined(out: &mut String, parts: &Vec<String>, sep: &str)
    ensures
        final(out)@ == old(out)@ + join(parts@.map_values(|p: String| p@), sep@),
{
    let ghost head = out@;
    let mut i: usize = 0;
    while i < parts.len()
        invariant
            i <= parts.len(),
            out@ == head + join(parts@.subrange(0, i as int).map_values(|p: String| p@), sep@),
        decreases parts.len() - i,
    {
        let ghost pre = parts@.subrange(0, i as int).map_values(|p: String| p@);
        let ghost post = parts@.subrange(0, i + 1).map_values(|p: String| p@);
        assert(post.drop_last() =~= pre);
        assert(post.last() == parts@[i as int]@);
        if i > 0 {
            push_str(out, sep);
        }
        push_str(out, parts[i].as_str());
        assert(out@ =~= head + join(post, sep@));
        i += 1;
    }
    assert(parts@.subrange(0, parts@.len() as int) =~= parts@);
}

/// The formatted items of an `IN` list.
fn list_values(value: &str, op: FilterOperator) -> (r: Vec<String>)
    ensures
        r@.map_values(|p: String| p@) == list_items(value@, op),
{
    let cs = chars_of(value);
    let mut done: Vec<String> = Vec::new();
    let ghost mut pieces: Seq<Seq<char>> = Seq::empty();
    let mut start: usize = 0;
    let mut i: usize = 0;
    assert(cs@.subrange(0, 0) =~= Seq::<char>::empty());
    assert(split_commas(cs@.subrange(0, 0)) =~= pieces.push(cs@.subrange(0, 0)));
    while i < cs.len()
        invariant
            start <= i <= cs.len(),
            cs@ == value@,
            split_commas(cs@.subrange(0, i as int)) == pieces.push(cs@.subrange(start as int, i as int)),
            done@.map_values(|p: String| p@) == pieces.map_values(|p: Seq<char>| sql_value(trim(p), op)),
        decreases cs.len() - i,
    {
        let ghost pre = cs@.subrange(0, i as int);
        let ghost post = cs@.subrange(0, i + 1);
        assert(post.drop_last() =~= pre);
        if cs[i] == ',' {
            let (a, e) = trim_range(cs.as_slice(), start, i);
            let piece = string_from_range(cs.as_slice(), a, e);
            let f = format_sql_value(piece.as_str(), op);
            let ghost before = done@;
            done.push(f);
            proof {
                let cur = cs@.subrange(start as int, i as int);
                assert(done@.map_values(|p: String| p@) =~= before.map_values(|p: String| p@).push(
                    sql_value(trim(cur), op),
                ));
                pieces = pieces.push(cur);
                assert(done@.map_values(|p: String| p@) =~= pieces.map_values(|p: Seq<char>| sql_value(trim(p), op)));
                assert(cs@.subrange(i + 1, i + 1) =~= Seq::<char>::empty());
                assert(split_commas(post) =~= pieces.push(cs@.subrange(i + 1, i + 1)));
            }
            start = i + 1;
        } else {
            proof {
                let p = split_commas(pre);
                assert(cs@.subrange(start as int, i + 1) =~= cs@.subrange(start as int, i as int).push(
                    cs@[i as int],
                ));
                assert(split_commas(post) =~= pieces.push(cs@.subrange(start as int, i + 1)));
            }
        }
        i += 1;
    }
    let (a, e) = trim_range(cs.as_slice(), start, cs.len());
    let piece = string_from_range(cs.as_slice(), a, e);
    let f = format_sql_value(piece.as_str(), op);
    let ghost before = done@;
    done.push(f);
    proof {
        let cur = cs@.subrange(start as int, i as int);
        assert(cs@.subrange(0, i as int) =~= value@);
        assert(done@.map_values(|p: String| p@) =~= before.map_values(|p: String| p@).push(
            sql_value(trim(cur), op),
        ));
        assert(done@.map_values(|p: String| p@) =~= list_items(value@, op));
    }
    done
}

/// The condition of one row, if it is complete.
pub fn row_where_condition(row: &FilterRow) -> (r: Option<String>)
    ensures
        crate::models::opt_view(r) == row_condition(*row),
{
    let column = match &row.column {
        Some(c) => c,
        None => return None,
    };
    let op = match row.operator {
        Some(o) => o,
        None => return None,
    };
    let sql = op.to_sql();
    let mut out = column.clone();
    push_str(&mut out, " ");
    push_str(&mut out, sql);
    match ValueInputMode::from_operator(op) {
        ValueInputMode::NoValue => Some(out),
        ValueInputMode::SingleValue => {
            if row.value.as_str().is_empty() {
                return None;
            }
            push_str(&mut out, " ");
            let v = format_sql_value(row.value.as_str(), op);
            push_str(&mut out, v.as_str());
            Some(out)
        },
        ValueInputMode::DualValue => {
            if row.value.as_str().is_empty() || row.value2.as_str().is_empty() {
                return None;
            }
            push_str(&mut out, " ");
            let v1 = format_sql_value(row.value.as_str(), op);
            push_str(&mut out, v1.as_str());
            push_str(&mut out, " AND ");
            let v2 = format_sql_value(row.value2.as_str(), op);
            push_str(&mut out, v2.as_str());
            Some(out)
        },
        ValueInputMode::ListValue => {
            if row.value.as_str().is_empty() {
                return None;
            }
            push_str(&mut out, " (");
            let items = list_values(row.value.as_str(), op);
            push_joined(&mut out, &items, ", ");
            push_str(&mut out, ")");
            Some(out)
        },
    }
}

/// The WHERE clause of the editor's rows: the complete rows' conditions
/// joined by `AND` (empty where none is complete).
pub fn get_where_clause(rows: &Vec<FilterRow>) -> (r: String)
    ensures
        r@ == join(conditions(rows@), " AND "@),
{
    let mut conds: Vec<String> = Vec::new();
    let mut i: usize = 0;
    while i < rows.len()
        invariant
            i <= rows.len(),
            conds@.map_values(|p: String| p@) == conditions(rows@.subrange(0, i as int)),
        decreases rows.len() - i,
    {
        let ghost pre = rows@.subrange(0, i as int);
        let ghost post = rows@.subrange(0, i + 1);
        assert(post.drop_last() =~= pre);
        match row_where_condition(&rows[i]) {
            Some(c) => {
                let ghost before = conds@;
                conds.push(c);
                assert(conds@.map_values(|p: String| p@) =~= before.map_values(|p: String| p@).push(
                    conds@.last()@,
                ));
            },
            None => {},
        }
        i += 1;
    }
    assert(rows@.subrange(0, rows@.len() as int) =~= rows@);
    let mut out = String::new();
    push_joined(&mut out, &conds, " AND ");
    out
}


// ---------------------------------------------------------------------------
// Searching the pickers
// ---------------------------------------------------------------------------

/// A picker item matches a query when its text, lower-cased, contains the
/// query, lower-cased.
pub open spec fn item_matches(text: Seq<char>, query: Seq<char>) -> bool {
    contains_seq(unicode_lowercase(text), unicode_lowercase(query))
}

/// The columns of the table a filter is edited for.
#[derive(Debug)]
pub struct TableSchema {
    pub columns: Vec<ColumnInfo>,
}

/// A column offered in the column picker.
#[derive(Debug)]
pub struct ColumnSelectItem {
    pub column: ColumnInfo,
}

impl ColumnSelectItem {
    pub fn matches(&self, query: &str) -> (r: bool)
        ensures
            r == item_matches(self.column.name@, query@),
    {
        let a = to_lowercase(self.column.name.as_str());
        let b = to_lowercase(query);
        str_contains(a.as_str(), b.as_str())
    }
}

impl OperatorSelectItem {
    pub fn matches(&self, query: &str) -> (r: bool)
        ensures
            r == item_matches(self.label@, query@),
    {
        let a = to_lowercase(self.label);
        let b = to_lowercase(query);
        str_contains(a.as_str(), b.as_str())
    }
}

/// In a complete BETWEEN row the first value is the lower bound and comes
/// first: the condition is the column, `BETWEEN`, the first value, `AND`
/// and the second value.
pub proof fn law_between_bounds_in_order(r: FilterRow)
    requires
        r.column is Some,
        r.operator == Some(FilterOperator::Between),
        r.value@.len() > 0,
        r.value2@.len() > 0,
    ensures
        row_condition(r) == Some(r.column.unwrap()@ + " BETWEEN "@ + r.value@ + " AND "@ + r.value2@),
{
    reveal_strlit(" ");
    reveal_strlit("BETWEEN");
    reveal_strlit(" BETWEEN ");
    let c = r.column.unwrap()@;
    assert(c + " "@ + "BETWEEN"@ + " "@ + r.value@ + " AND "@ + r.value2@ =~= c + " BETWEEN "@ + r.value@ + " AND "@
        + r.value2@);
}

} // verus!
