use onetcli::models::{
    parse_db_type, ActiveConnections, ConnectionType, DatabaseType,
    DbConnectionConfig, KeyValue, StoredConnection, Workspace,
};

fn config() -> DbConnectionConfig {
    DbConnectionConfig {
        id: "7".to_string(),
        database_type: DatabaseType::PostgreSQL,
        name: "local".to_string(),
        host: "localhost".to_string(),
        port: 5432,
        username: "post\"gres".to_string(),
        password: "p\\w\n".to_string(),
        database: Some("app".to_string()),
        schema: None,
        service_name: None,
        sid: None,
        workspace_id: Some(3),
        extra_params: vec![
            ("connect_timeout".to_string(), "30".to_string()),
            ("sslmode".to_string(), "disable".to_string()),
            ("flag".to_string(), "1".to_string()),
        ],
    }
}

#[test]
fn active_connections_track_open_ids() {
    let mut a = ActiveConnections::new();
    a.add(1);
    a.add(1);
    a.add(2);
    assert!(a.is_active(1));
    assert_eq!(a.active_count(), 2);
    a.remove(1);
    assert!(!a.is_active(1));
    assert_eq!(a.active_count(), 1);
}

#[test]
fn connection_type_names() {
    assert_eq!(ConnectionType::from_str("SshSftp"), ConnectionType::SshSftp);
    assert_eq!(ConnectionType::from_str("All"), ConnectionType::Database);
    assert_eq!(ConnectionType::All.label(), "全部");
    assert_eq!(ConnectionType::all().len(), 4);
    assert_eq!(DatabaseType::from_str("PostgreSQL"), Some(DatabaseType::PostgreSQL));
    assert_eq!(DatabaseType::from_str("postgresql"), None);
    assert_eq!(DatabaseType::PostgreSQL.as_str(), "PostgreSQL");
    assert_eq!(parse_db_type("MySQL"), DatabaseType::PostgreSQL);
}

#[test]
fn params_are_read_by_key() {
    let c = config();
    assert_eq!(c.get_param("sslmode"), Some(&"disable".to_string()));
    assert_eq!(c.get_param("missing"), None);
    assert_eq!(c.get_param_as("connect_timeout"), Some(30));
    assert_eq!(c.get_param_as("sslmode"), None);
    assert!(c.get_param_bool("flag"));
    assert!(!c.get_param_bool("sslmode"));
    assert_eq!(c.server_info(), "localhost:5432");
}

#[test]
fn is_change_ignores_param_order_and_names() {
    let a = config();
    let mut b = config();
    b.name = "renamed".to_string();
    b.extra_params.reverse();
    assert!(!a.is_change(&b));
    b.port = 5433;
    assert!(a.is_change(&b));
}

const PARAMS: &str = "{\"database_type\":\"PostgreSQL\",\"host\":\"localhost\"}";

#[test]
fn stored_connection_keeps_the_config_text() {
    let c = config();
    let stored = StoredConnection::from_db_connection(c, PARAMS.to_string());
    assert_eq!(stored.name, "local");
    assert_eq!(stored.workspace_id, Some(3));
    assert_eq!(stored.selected_databases, Some("[\"app\"]".to_string()));
    assert_eq!(stored.params, PARAMS);
    assert_eq!(stored.encrypt_params(), stored.params);
    assert_eq!(stored.with_decrypted_params().params, stored.params);
    let mut none = config();
    none.database = None;
    assert_eq!(StoredConnection::new_database("n".to_string(), none, String::new(), None).selected_databases, None);
}

#[test]
fn new_records_are_unsaved() {
    let w = Workspace::new("w".to_string());
    assert!(w.id.is_none() && w.created_at.is_none());
    let kv = KeyValue::new("k".to_string(), "v".to_string());
    assert_eq!((kv.key.as_str(), kv.value.as_str()), ("k", "v"));
    assert!(kv.id.is_none());
}

#[test]
fn ssh_connection_record_stores_params_text() {
    let stored = StoredConnection::new_ssh("gw".to_string(), "{\"host\":\"gw\"}".to_string(), Some(4));
    assert_eq!(stored.connection_type, ConnectionType::SshSftp);
    assert_eq!(stored.name, "gw");
    assert_eq!(stored.workspace_id, Some(4));
    assert_eq!(stored.selected_databases, None);
    assert_eq!(stored.params, "{\"host\":\"gw\"}");
}

#[test]
fn stored_record_gives_its_configuration() {
    let mut stored = StoredConnection::from_db_connection(config(), PARAMS.to_string());
    stored.name = "renamed".to_string();
    stored.workspace_id = Some(9);
    let c = stored.to_db_connection(config());
    assert_eq!(c.id, "0");
    assert_eq!(c.name, "renamed");
    assert_eq!(c.workspace_id, Some(9));
    assert_eq!(c.host, "localhost");
    stored.id = Some(-12);
    assert_eq!(stored.to_db_connection(config()).id, "-12");
    stored.id = Some(305);
    assert_eq!(stored.to_db_connection(config()).id, "305");
}
