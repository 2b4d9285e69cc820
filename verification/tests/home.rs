use onetcli::home::{match_connection, WorkspaceFilter};
use onetcli::models::{DatabaseType, DbConnectionConfig, StoredConnection, Workspace};

fn workspace(id: Option<i64>, name: &str) -> Workspace {
    let mut w = Workspace::new(name.to_string());
    w.id = id;
    w
}

#[test]
fn workspace_filter_toggles_from_all() {
    let ws = vec![workspace(Some(1), "a"), workspace(Some(2), "b"), workspace(None, "draft")];
    let mut f = WorkspaceFilter::new();
    assert!(f.is_all_selected(&ws));
    assert!(f.shows(&ws[0]) && f.shows(&ws[1]));
    f.toggle(&ws, 1);
    assert!(!f.shows(&ws[0]));
    assert!(f.shows(&ws[1]));
    assert!(f.shows(&ws[2]));
    assert!(!f.is_all_selected(&ws));
    f.toggle(&ws, 1);
    assert!(f.shows(&ws[0]));
    assert!(f.is_all_selected(&ws));
    f.remove_workspace(2);
    assert!(!f.shows(&ws[1]));
    f.select_all(&ws);
    assert!(f.shows(&ws[1]));
    f.clear();
    assert!(f.shows(&ws[1]) && f.is_all_selected(&ws));
}

fn pg(host: &str, port: u16, user: &str, database: Option<&str>) -> DbConnectionConfig {
    DbConnectionConfig {
        id: String::new(),
        database_type: DatabaseType::PostgreSQL,
        name: "n".to_string(),
        host: host.to_string(),
        port,
        username: user.to_string(),
        password: String::new(),
        database: database.map(|d| d.to_string()),
        schema: None,
        service_name: None,
        sid: None,
        workspace_id: None,
        extra_params: Vec::new(),
    }
}

#[test]
fn connection_search_reads_name_and_params() {
    let params = pg("DB.Example.com", 6543, "Admin", Some("Sales"));
    let conn = StoredConnection::new_database("Production".to_string(), pg("x", 1, "y", None), String::new(), None);
    let p = Some(params);
    assert!(match_connection(&conn, &p, ""));
    assert!(match_connection(&conn, &p, "produc"));
    assert!(match_connection(&conn, &p, "example"));
    assert!(match_connection(&conn, &p, "654"));
    assert!(match_connection(&conn, &p, "sales"));
    assert!(match_connection(&conn, &p, "admin@db"));
    assert!(match_connection(&conn, &p, "com:6543"));
    assert!(!match_connection(&conn, &p, "Sales"));
    assert!(!match_connection(&conn, &None, "example"));
    let ssh = StoredConnection::new_ssh("gw".to_string(), "{\"host\":\"example\"}".to_string(), None);
    assert!(!match_connection(&ssh, &p, "example"));
}

#[test]
fn saved_workspace_replaces_or_joins_the_list() {
    let mut list = vec![workspace(Some(1), "a"), workspace(Some(2), "b")];
    list[1].color = Some("red".to_string());
    let edited = onetcli::home::workspace_to_save(&list, Some(2), "renamed".to_string());
    assert_eq!(edited.id, Some(2));
    assert_eq!(edited.color, Some("red".to_string()));
    assert_eq!(edited.name, "renamed");
    onetcli::home::apply_saved_workspace(&mut list, Some(2), edited);
    assert_eq!(list[1].name, "renamed");
    assert_eq!(list.len(), 2);

    let fresh = onetcli::home::workspace_to_save(&list, None, "new".to_string());
    assert_eq!(fresh.id, None);
    let mut stored = fresh;
    stored.id = Some(3);
    onetcli::home::apply_saved_workspace(&mut list, None, stored);
    assert_eq!(list.len(), 3);
    assert_eq!(list[2].id, Some(3));

    let missing = onetcli::home::workspace_to_save(&list, Some(9), "x".to_string());
    assert_eq!((missing.id, missing.name.as_str()), (None, "x"));
    onetcli::home::apply_saved_workspace(&mut list, Some(9), missing);
    assert_eq!(list.len(), 3);
}
