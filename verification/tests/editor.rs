use onetcli::db_types::{ColumnInfo, DbNodeType, FilterOperator};
use onetcli::editor::{explain_target, new_query_file_name, next_query_number, run_target, RunRefusal};
use onetcli::filter::{ColumnSelectItem, OperatorSelectItem};
use onetcli::models::{ConnectionType, DatabaseType, DbConnectionConfig, StoredConnection};

#[test]
fn query_file_numbers() {
    let names: Vec<String> = vec!["Query7.sql", "Query12.sql", "Query x.sql", "Other3.sql", "Query2.txt"]
        .into_iter()
        .map(|s| s.to_string())
        .collect();
    assert_eq!(next_query_number(&names, "Query"), 13);
    assert_eq!(next_query_number(&Vec::new(), "Query"), 1);
    // names written with a space after the prefix are not read back
    assert_eq!(next_query_number(&vec!["Query 4.sql".to_string()], "Query"), 1);
    assert_eq!(new_query_file_name("Query", 13), "Query 13.sql");
}

#[test]
fn picker_search_ignores_case() {
    let item = ColumnSelectItem {
        column: ColumnInfo {
            name: "UserName".to_string(),
            data_type: "text".to_string(),
            is_nullable: true,
            is_primary_key: false,
            default_value: None,
            comment: None,
            charset: None,
            collation: None,
        },
    };
    assert!(item.matches("sern"));
    assert!(!item.matches("id"));
    let op = OperatorSelectItem { operator: FilterOperator::NotLike, label: "NOT LIKE" };
    assert!(op.matches("like"));
}

#[test]
fn display_names() {
    assert_eq!(DbNodeType::ForeignKeysFolder.label(), "Foreign Keys");
    assert_eq!(DbNodeType::NamedQuery.label(), "Query");
    assert_eq!(ConnectionType::SshSftp.name(), "SshSftp");
}

#[test]
fn selected_databases_round_trip() {
    let config = DbConnectionConfig {
        id: String::new(),
        database_type: DatabaseType::PostgreSQL,
        name: "n".to_string(),
        host: "h".to_string(),
        port: 1,
        username: "u".to_string(),
        password: "p".to_string(),
        database: None,
        schema: None,
        service_name: None,
        sid: None,
        workspace_id: None,
        extra_params: vec![],
    };
    let mut stored = StoredConnection::from_db_connection(config, String::new());
    assert_eq!(stored.get_selected_databases(), None);
    stored.set_selected_databases(Some(vec!["a\"b".to_string(), "c".to_string()]));
    assert_eq!(stored.selected_databases, Some("[\"a\\\"b\",\"c\"]".to_string()));
    assert_eq!(stored.get_selected_databases(), Some(vec!["a\"b".to_string(), "c".to_string()]));
    stored.selected_databases = Some("not json".to_string());
    assert_eq!(stored.get_selected_databases(), None);
    stored.set_selected_databases(None);
    assert_eq!(stored.selected_databases, None);
}

#[test]
fn editor_selects_initial_or_first_database() {
    let dbs = vec!["postgres".to_string(), "app".to_string(), "app".to_string()];
    assert_eq!(onetcli::editor::selected_database_index(&Some("app".to_string()), &dbs), Some(1));
    assert_eq!(onetcli::editor::selected_database_index(&None, &dbs), Some(0));
    assert_eq!(onetcli::editor::selected_database_index(&Some("gone".to_string()), &dbs), None);
    assert_eq!(onetcli::editor::selected_database_index(&None, &Vec::new()), None);
}

#[test]
fn editor_run_needs_database_and_text() {
    let db = Some("app".to_string());
    let schema = Some("public".to_string());
    let t = run_target("SELECT 1".to_string(), db.clone(), schema.clone(), false, true).unwrap();
    assert_eq!((t.sql.as_str(), t.database.as_deref(), t.schema.as_deref()), ("SELECT 1", Some("app"), Some("public")));
    let t = run_target("SELECT 1".to_string(), db.clone(), schema.clone(), false, false).unwrap();
    assert_eq!(t.schema, None);
    let t = run_target("SELECT 1".to_string(), Some("HR".to_string()), None, true, true).unwrap();
    assert_eq!((t.database, t.schema), (None, Some("HR".to_string())));
    assert_eq!(run_target("SELECT 1".to_string(), None, None, false, true).err(), Some(RunRefusal::NoDatabase));
    assert_eq!(run_target(" \n".to_string(), None, None, false, true).err(), Some(RunRefusal::NoDatabase));
    assert_eq!(run_target(" \n".to_string(), db.clone(), None, false, true).err(), Some(RunRefusal::EmptyQuery));
}

#[test]
fn editor_explain_uses_selection_or_whole_text() {
    let db = Some("app".to_string());
    let whole = "UPDATE t SET a = 1; SELECT * FROM t";
    let t = explain_target(DatabaseType::PostgreSQL, "  ", whole, db.clone(), None, false, true).unwrap();
    assert_eq!(t.sql, "EXPLAIN SELECT * FROM t");
    assert_eq!(t.database, Some("app".to_string()));
    assert_eq!(
        explain_target(DatabaseType::PostgreSQL, "UPDATE t SET a = 2", whole, db.clone(), None, false, true).err(),
        Some(RunRefusal::NotSelect)
    );
    assert_eq!(
        explain_target(DatabaseType::PostgreSQL, "", " ", None, None, false, true).err(),
        Some(RunRefusal::EmptyQuery)
    );
    assert_eq!(
        explain_target(DatabaseType::PostgreSQL, "SELECT 1", whole, None, None, false, true).err(),
        Some(RunRefusal::NoDatabase)
    );
}

#[test]
fn completion_items_describe_tables_and_columns() {
    let tables = vec![
        onetcli::db_types::TableInfo {
            name: "users".to_string(),
            schema: None,
            comment: Some("people".to_string()),
            engine: None,
            row_count: None,
            create_time: None,
            charset: None,
            collation: None,
        },
        onetcli::db_types::TableInfo {
            name: "orders".to_string(),
            schema: None,
            comment: None,
            engine: None,
            row_count: Some(3),
            create_time: None,
            charset: None,
            collation: None,
        },
    ];
    let items = onetcli::editor::table_completion_items(&tables);
    assert_eq!(items[0], ("users".to_string(), "Table: users - people".to_string()));
    assert_eq!(items[1], ("orders".to_string(), "Table: orders".to_string()));
    let columns = vec![ColumnInfo {
        name: "id".to_string(),
        data_type: "int4".to_string(),
        is_nullable: false,
        is_primary_key: true,
        default_value: None,
        comment: None,
        charset: None,
        collation: None,
    }];
    let cols = onetcli::editor::column_completion_items(&columns);
    assert_eq!(cols, vec![("id".to_string(), "int4".to_string(), String::new())]);
    assert_eq!(
        onetcli::editor::completion_scope("HR", None, true, true),
        (String::new(), Some("HR".to_string()))
    );
    assert_eq!(
        onetcli::editor::completion_scope("app", Some("s".to_string()), false, true),
        ("app".to_string(), Some("s".to_string()))
    );
    assert_eq!(onetcli::editor::completion_scope("app", Some("s".to_string()), false, false), ("app".to_string(), None));
}

#[test]
fn failure_statuses_are_recognised() {
    assert!(onetcli::editor::is_failure_status("Connection failed: timeout"));
    assert!(onetcli::editor::is_failure_status("Failed to connect"));
    assert!(!onetcli::editor::is_failure_status("Connecting..."));
    assert!(!onetcli::editor::is_failure_status("FAILED"));
}

#[test]
fn tab_title_prefers_workspace_then_connection() {
    let ws = Some(onetcli::models::Workspace::new("Team".to_string()));
    assert_eq!(onetcli::editor::tab_title(&ws, &Vec::new()), "Team");
    let conns = vec![StoredConnection::new_database(
        "local".to_string(),
        DbConnectionConfig {
            id: String::new(),
            database_type: DatabaseType::PostgreSQL,
            name: "local".to_string(),
            host: "h".to_string(),
            port: 5432,
            username: "u".to_string(),
            password: String::new(),
            database: None,
            schema: None,
            service_name: None,
            sid: None,
            workspace_id: None,
            extra_params: Vec::new(),
        },
        String::new(),
        None,
    )];
    assert_eq!(onetcli::editor::tab_title(&None, &conns), "local");
    assert_eq!(onetcli::editor::tab_title(&None, &Vec::new()), "Database");
}
