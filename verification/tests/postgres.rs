use onetcli::models::{DatabaseType, DbConnectionConfig};
use onetcli::postgres::connect_plan;

fn pg_config(params: Vec<(String, String)>) -> DbConnectionConfig {
    DbConnectionConfig {
        id: "1".to_string(),
        database_type: DatabaseType::PostgreSQL,
        name: "pg".to_string(),
        host: "db.local".to_string(),
        port: 6543,
        username: "app".to_string(),
        password: "secret".to_string(),
        database: Some("main".to_string()),
        schema: None,
        service_name: None,
        sid: None,
        workspace_id: None,
        extra_params: params,
    }
}

#[test]
fn connect_plan_defaults_to_prefer() {
    let p = connect_plan(&pg_config(Vec::new()));
    assert_eq!(p.host, "db.local");
    assert_eq!(p.port, 6543);
    assert_eq!(p.user, "app");
    assert_eq!(p.password, "secret");
    assert_eq!(p.dbname, Some("main".to_string()));
    assert_eq!(p.connect_timeout, None);
    assert_eq!(p.application_name, None);
    assert!(p.use_tls);
    assert!(p.accept_invalid_certs);
}

#[test]
fn connect_plan_reads_parameters() {
    let p = connect_plan(&pg_config(vec![
        ("sslmode".to_string(), "DISABLE".to_string()),
        ("connect_timeout".to_string(), "15".to_string()),
        ("application_name".to_string(), "cli".to_string()),
    ]));
    assert!(!p.use_tls);
    assert!(!p.accept_invalid_certs);
    assert_eq!(p.connect_timeout, Some(15));
    assert_eq!(p.application_name, Some("cli".to_string()));

    let q = connect_plan(&pg_config(vec![
        ("sslmode".to_string(), "require".to_string()),
        ("connect_timeout".to_string(), "soon".to_string()),
    ]));
    assert!(q.use_tls);
    assert!(!q.accept_invalid_certs);
    assert_eq!(q.connect_timeout, None);
}
