use onetcli::db_types::{FieldType, FilterOperator};
use onetcli::filter::{
    format_sql_value, get_operators_for_field_type, get_where_clause, FilterRow, ValueInputMode,
};

fn row(column: &str, op: FilterOperator, value: &str, value2: &str) -> FilterRow {
    FilterRow {
        column: Some(column.to_string()),
        operator: Some(op),
        value: value.to_string(),
        value2: value2.to_string(),
    }
}

#[test]
fn input_modes_follow_operators() {
    assert_eq!(ValueInputMode::from_operator(FilterOperator::In), ValueInputMode::ListValue);
    assert_eq!(ValueInputMode::from_operator(FilterOperator::Between), ValueInputMode::DualValue);
    assert_eq!(ValueInputMode::from_operator(FilterOperator::IsTrue), ValueInputMode::NoValue);
    assert_eq!(ValueInputMode::from_operator(FilterOperator::Like), ValueInputMode::SingleValue);
}

#[test]
fn operator_lists_per_field_type() {
    let text: Vec<&str> = get_operators_for_field_type(FieldType::Text).iter().map(|i| i.label).collect();
    assert_eq!(text, vec!["LIKE", "NOT LIKE", "=", "!=", "IN", "NOT IN", "IS NULL", "IS NOT NULL"]);
    let boolean: Vec<&str> = get_operators_for_field_type(FieldType::Boolean).iter().map(|i| i.label).collect();
    assert_eq!(boolean, vec!["TRUE", "FALSE", "IS NULL", "IS NOT NULL"]);
    assert_eq!(get_operators_for_field_type(FieldType::Integer).len(), 11);
    assert_eq!(get_operators_for_field_type(FieldType::DateTime).len(), 9);
    assert_eq!(get_operators_for_field_type(FieldType::Json).len(), 4);
}

#[test]
fn values_are_quoted() {
    assert_eq!(format_sql_value("O'Reilly", FilterOperator::Equal), "'O''Reilly'");
    assert_eq!(format_sql_value("null", FilterOperator::Equal), "NULL");
    assert_eq!(format_sql_value("5", FilterOperator::Between), "5");
    assert_eq!(format_sql_value("x", FilterOperator::IsTrue), "TRUE");
}

#[test]
fn where_clause_joins_complete_rows() {
    let rows = vec![
        row("name", FilterOperator::Like, "%a%", ""),
        row("age", FilterOperator::Between, "1", ""),
        row("id", FilterOperator::In, "1, 2 ,3", ""),
        row("deleted", FilterOperator::IsNull, "", ""),
        FilterRow { column: None, operator: Some(FilterOperator::Equal), value: "x".to_string(), value2: String::new() },
    ];
    assert_eq!(get_where_clause(&rows), "name LIKE '%a%' AND id IN ('1', '2', '3') AND deleted IS NULL");
    assert_eq!(get_where_clause(&Vec::new()), "");
}
