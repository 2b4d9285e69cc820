use onetcli::explain::{build_explain_sql, is_select_statement, split_sql_statements};
use onetcli::models::DatabaseType;

#[test]
fn test_build_explain_sql_postgresql() {
    assert_eq!(
        build_explain_sql(DatabaseType::PostgreSQL, " SELECT * FROM users "),
        Some("EXPLAIN SELECT * FROM users".to_string())
    );
}

#[test]
fn test_build_explain_sql_postgresql_multiple_statements() {
    assert_eq!(
        build_explain_sql(
            DatabaseType::PostgreSQL,
            "select * from users; select * from posts;"
        ),
        Some("EXPLAIN select * from users;\nEXPLAIN select * from posts".to_string())
    );
}

#[test]
fn test_build_explain_sql_postgresql_preserves_semicolon_in_string() {
    assert_eq!(
        build_explain_sql(
            DatabaseType::PostgreSQL,
            "select ';' as semi; select 2 as id;"
        ),
        Some("EXPLAIN select ';' as semi;\nEXPLAIN select 2 as id".to_string())
    );
}

#[test]
fn test_build_explain_sql_skips_non_select_statements() {
    assert_eq!(
        build_explain_sql(
            DatabaseType::PostgreSQL,
            "insert into users values (1); select * from users; update users set id = 2;"
        ),
        Some("EXPLAIN select * from users".to_string())
    );
}

#[test]
fn test_build_explain_sql_returns_none_for_non_select_only() {
    assert_eq!(
        build_explain_sql(
            DatabaseType::PostgreSQL,
            "insert into users values (1); update users set id = 2;"
        ),
        None
    );
}

#[test]
fn select_statements_include_set_operations_and_parentheses() {
    assert!(is_select_statement(DatabaseType::PostgreSQL, "SELECT 1 UNION SELECT 2"));
    assert!(is_select_statement(DatabaseType::PostgreSQL, "(SELECT 1)"));
    assert!(!is_select_statement(DatabaseType::PostgreSQL, "VALUES (1)"));
    assert!(!is_select_statement(DatabaseType::PostgreSQL, "SELECT 1; SELECT 2"));
    assert!(!is_select_statement(DatabaseType::PostgreSQL, "SELEC 1"));
}

#[test]
fn split_sql_statements_falls_back_to_whole_text() {
    assert_eq!(
        split_sql_statements(DatabaseType::PostgreSQL, "  -- only a comment  "),
        vec!["-- only a comment".to_string()]
    );
    assert_eq!(
        split_sql_statements(DatabaseType::PostgreSQL, "SELECT 1; SELECT 2"),
        vec!["SELECT 1".to_string(), "SELECT 2".to_string()]
    );
}

#[test]
fn one_select_decides_on_parsed_shapes() {
    let select = onetcli::explain::StatementShape::Query(onetcli::explain::QueryShape::Select);
    let union = onetcli::explain::StatementShape::Query(onetcli::explain::QueryShape::SetOperation(
        Box::new(onetcli::explain::QueryShape::Select),
        Box::new(onetcli::explain::QueryShape::Query(Box::new(onetcli::explain::QueryShape::Select))),
    ));
    let values = onetcli::explain::StatementShape::Query(onetcli::explain::QueryShape::Other);
    assert!(onetcli::explain::is_one_select(&Some(vec![select])));
    assert!(onetcli::explain::is_one_select(&Some(vec![union])));
    assert!(!onetcli::explain::is_one_select(&Some(vec![values])));
    assert!(!onetcli::explain::is_one_select(&Some(vec![onetcli::explain::StatementShape::Other])));
    assert!(!onetcli::explain::is_one_select(&Some(Vec::new())));
    assert!(!onetcli::explain::is_one_select(&None));
    let two = vec![
        onetcli::explain::StatementShape::Query(onetcli::explain::QueryShape::Select),
        onetcli::explain::StatementShape::Query(onetcli::explain::QueryShape::Select),
    ];
    assert!(!onetcli::explain::is_one_select(&Some(two)));
}
