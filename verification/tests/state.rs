use onetcli::db_types::{DbNode, DbNodeType};
use onetcli::models::DatabaseType;
use onetcli::state::{object_view_request, DbError, DbManager, GlobalDbState, ObjectListing};

#[test]
fn test_cached_children_ready_allows_empty_children() {
    let node = DbNode::new(
        "node-id".to_string(),
        "node".to_string(),
        DbNodeType::Table,
        "conn-id".to_string(),
        DatabaseType::PostgreSQL,
    )
    .with_children_loaded(true);

    assert!(GlobalDbState::cached_children_ready(&node));
}

#[test]
fn test_cached_children_ready_blocks_unloaded_children() {
    let node = DbNode::new(
        "node-id".to_string(),
        "node".to_string(),
        DbNodeType::Table,
        "conn-id".to_string(),
        DatabaseType::PostgreSQL,
    );

    assert!(!GlobalDbState::cached_children_ready(&node));
}

#[test]
fn plugin_registry_knows_postgresql() {
    let m = DbManager::new();
    assert_eq!(m.get_plugin(&DatabaseType::PostgreSQL), Ok(DatabaseType::PostgreSQL));
    let _ = DbError::ConnectionNotFound;
}

#[test]
fn node_names_come_from_type_or_metadata() {
    let node = DbNode::new(
        "n".to_string(),
        "users".to_string(),
        DbNodeType::Table,
        "c".to_string(),
        DatabaseType::PostgreSQL,
    )
    .with_metadata(vec![
        ("database".to_string(), "app".to_string()),
        ("schema".to_string(), "public".to_string()),
        ("database".to_string(), "ignored".to_string()),
    ]);
    assert_eq!(node.get_table_name(), Some("users".to_string()));
    assert_eq!(node.get_database_name(), Some("app".to_string()));
    assert_eq!(node.get_schema_name(), Some("public".to_string()));
    let mut folder = DbNode::new(
        "f".to_string(),
        "Tables".to_string(),
        DbNodeType::TablesFolder,
        "c".to_string(),
        DatabaseType::PostgreSQL,
    );
    assert_eq!(folder.get_table_name(), None);
    folder.set_children(Vec::new());
    assert!(GlobalDbState::cached_children_ready(&folder));
}

fn registered_state() -> GlobalDbState {
    let mut s = GlobalDbState::new();
    s.register_connection(onetcli::models::DbConnectionConfig {
        id: "c".to_string(),
        database_type: DatabaseType::PostgreSQL,
        name: "pg".to_string(),
        host: "h".to_string(),
        port: 5432,
        username: "u".to_string(),
        password: "p".to_string(),
        database: Some("postgres".to_string()),
        schema: None,
        service_name: None,
        sid: None,
        workspace_id: None,
        extra_params: Vec::new(),
    });
    s
}

#[test]
fn session_config_switches_database() {
    let s = registered_state();
    let c = s.session_config("c", Some("app".to_string())).unwrap();
    assert_eq!(c.database, Some("app".to_string()));
    assert_eq!(c.host, "h");
    let d = s.session_config("c", None).unwrap();
    assert_eq!(d.database, Some("postgres".to_string()));
    assert_eq!(s.session_config("missing", None).err(), Some(DbError::ConnectionNotFound));
}

#[test]
fn node_config_uses_node_database() {
    let s = registered_state();
    let node = DbNode::new(
        "n".to_string(),
        "users".to_string(),
        DbNodeType::Table,
        "c".to_string(),
        DatabaseType::PostgreSQL,
    )
    .with_metadata(vec![("database".to_string(), "sales".to_string())]);
    assert_eq!(s.node_config("c", &node).unwrap().database, Some("sales".to_string()));
    let conn = DbNode::new(
        "c".to_string(),
        "pg".to_string(),
        DbNodeType::Connection,
        "c".to_string(),
        DatabaseType::PostgreSQL,
    );
    assert_eq!(s.node_config("c", &conn).unwrap().database, Some("postgres".to_string()));
    assert!(s.node_config("x", &conn).is_err());
}

#[test]
fn wrapper_result_takes_the_first_result() {
    let first = onetcli::execution::SqlResult::Exec(onetcli::execution::ExecResult {
        sql: "UPDATE t SET a = 1".to_string(),
        rows_affected: 2,
        elapsed_ms: 5,
        message: None,
    });
    let second = onetcli::execution::SqlResult::Exec(onetcli::execution::ExecResult {
        sql: "DELETE FROM t".to_string(),
        rows_affected: 7,
        elapsed_ms: 1,
        message: None,
    });
    match GlobalDbState::wrapper_result(vec![first, second]) {
        Ok(onetcli::execution::SqlResult::Exec(e)) => {
            assert_eq!(e.rows_affected, 2);
            assert_eq!(e.sql, "UPDATE t SET a = 1");
        }
        _ => panic!("expected the first result"),
    }
    assert_eq!(GlobalDbState::wrapper_result(Vec::new()).err(), Some(DbError::NoResult));
}

#[test]
fn object_view_follows_node_type() {
    let table = DbNode::new(
        "t".to_string(),
        "orders".to_string(),
        DbNodeType::Table,
        "c".to_string(),
        DatabaseType::PostgreSQL,
    )
    .with_metadata(vec![("schema".to_string(), "sales".to_string())]);
    let q = object_view_request(&table, &Some("app".to_string()), true, false).unwrap();
    assert_eq!(q.listing, ObjectListing::Columns);
    assert_eq!(q.database, "app");
    assert_eq!(q.schema, Some("sales".to_string()));
    assert_eq!(q.table, "orders");

    let db = DbNode::new(
        "d".to_string(),
        "app".to_string(),
        DbNodeType::Database,
        "c".to_string(),
        DatabaseType::PostgreSQL,
    )
    .with_metadata(vec![("schema".to_string(), "sales".to_string())]);
    let q = object_view_request(&db, &None, false, false).unwrap();
    assert_eq!(q.listing, ObjectListing::Tables);
    assert_eq!(q.schema, None);
    assert_eq!(q.database, "");
    assert_eq!(object_view_request(&db, &None, true, false).unwrap().listing, ObjectListing::Schemas);

    let conn = DbNode::new(
        "c".to_string(),
        "pg".to_string(),
        DbNodeType::Connection,
        "c".to_string(),
        DatabaseType::PostgreSQL,
    );
    assert!(object_view_request(&conn, &None, true, true).is_none());
    let conn = conn.with_children_loaded(true);
    assert_eq!(object_view_request(&conn, &None, true, true).unwrap().listing, ObjectListing::Schemas);
    assert_eq!(object_view_request(&conn, &None, true, false).unwrap().listing, ObjectListing::Databases);

    let column = DbNode::new(
        "x".to_string(),
        "id".to_string(),
        DbNodeType::Column,
        "c".to_string(),
        DatabaseType::PostgreSQL,
    );
    assert!(object_view_request(&column, &None, true, false).is_none());
}
