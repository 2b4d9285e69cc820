use onetcli::form::{
    build_connection, simplify_connection_error_message, validate, validate_ssh_tunnel,
    FormError, FormField, FormFieldType, TabGroup,
};
use onetcli::models::DatabaseType;

fn values(pairs: &[(&str, &str)]) -> Vec<(String, String)> {
    pairs.iter().map(|(k, v)| (k.to_string(), v.to_string())).collect()
}

#[test]
fn form_field_defaults() {
    let f = FormField::new("Host".to_string(), "Host".to_string(), FormFieldType::Text);
    assert_eq!(f.placeholder, "Enter host");
    assert!(f.required);
    assert_eq!(f.rows, 5);
    let f = f.optional().default("x".to_string()).rows(3);
    assert!(!f.required);
    assert_eq!((f.default_value.as_str(), f.rows), ("x", 3));
}

#[test]
fn connection_from_form_values() {
    let v = values(&[
        ("name", "local"),
        ("host", "db"),
        ("port", "5433"),
        ("username", "u"),
        ("password", "p"),
        ("database", ""),
        ("sslmode", "disable"),
        ("application_name", ""),
        ("remark", "note"),
    ]);
    let c = build_connection(&v, DatabaseType::PostgreSQL, Some(4));
    assert_eq!((c.name.as_str(), c.host.as_str(), c.port), ("local", "db", 5433));
    assert_eq!(c.database, Some(String::new()));
    assert_eq!(c.extra_params, vec![("sslmode".to_string(), "disable".to_string())]);
    assert_eq!(c.workspace_id, Some(4));
    let bad_port = build_connection(&values(&[("port", "99999")]), DatabaseType::PostgreSQL, None);
    assert_eq!(bad_port.port, 3306);
    assert_eq!(bad_port.database, None);
}

#[test]
fn required_fields_and_ssh() {
    let groups = vec![TabGroup::new("general".to_string(), "General".to_string())
        .field(FormField::new("host".to_string(), "Host".to_string(), FormFieldType::Text))
        .field(FormField::new("remark".to_string(), "Remark".to_string(), FormFieldType::TextArea).optional())];
    assert_eq!(validate(&groups, &values(&[])), Err(FormError::Required("Host".to_string())));
    assert_eq!(validate(&groups, &values(&[("host", "")])), Ok(()));
    let ssh = values(&[("host", "h"), ("ssh_tunnel_enabled", "true"), ("ssh_host", "j"), ("ssh_username", " ")]);
    assert_eq!(validate(&groups, &ssh), Err(FormError::SshFieldMissing("ssh_username".to_string())));
    let key = values(&[("ssh_tunnel_enabled", "1"), ("ssh_host", "j"), ("ssh_username", "u"), ("ssh_auth_type", "private_key")]);
    assert_eq!(validate_ssh_tunnel(&key), Err(FormError::SshFieldMissing("ssh_private_key_path".to_string())));
    let pw = values(&[("ssh_tunnel_enabled", "true"), ("ssh_host", "j"), ("ssh_username", "u"), ("ssh_password", "s")]);
    assert_eq!(validate_ssh_tunnel(&pw), Ok(()));
}

#[test]
fn connection_errors_are_simplified() {
    let chain = vec![
        "connection error: failed to connect: could not reach server".to_string(),
        "failed to connect:   connection error:  timed out ".to_string(),
    ];
    assert_eq!(simplify_connection_error_message(&chain, "outer"), "timed out");
    let ora = vec!["query error: DPI-1080: ORA-01017: invalid username ".to_string()];
    assert_eq!(simplify_connection_error_message(&ora, "outer"), "ORA-01017: invalid username");
    assert_eq!(simplify_connection_error_message(&Vec::new(), " plain "), "plain");
}

#[test]
fn postgres_form_has_general_and_ssh_tabs() {
    let form = onetcli::form::DbFormConfig::postgres("New");
    assert_eq!(form.title, "New (PostgreSQL)");
    assert_eq!(form.tab_groups.len(), 2);
    let general = &form.tab_groups[0];
    assert_eq!(general.name, "general");
    let names: Vec<&str> = general.fields.iter().map(|f| f.name.as_str()).collect();
    assert_eq!(
        names,
        vec![
            "name", "host", "port", "username", "password", "database", "connect_timeout",
            "application_name", "sslmode", "remark"
        ]
    );
    assert_eq!(general.fields[2].default_value, "5432");
    assert!(general.fields[4].required);
    assert!(!general.fields[5].required);
    assert_eq!(general.fields[8].placeholder, "Enter sslmode");
    assert_eq!(general.fields[8].options.len(), 4);
    assert_eq!(general.fields[8].options[2].0, "verify-ca");
    assert_eq!(general.fields[9].rows, 3);
    let ssh = &form.tab_groups[1];
    assert_eq!(ssh.name, "ssh");
    assert_eq!(ssh.fields.len(), 10);
    assert_eq!(ssh.fields[0].name, "ssh_tunnel_enabled");
    assert_eq!(ssh.fields[0].default_value, "false");
    assert_eq!(ssh.fields[2].default_value, "22");
    assert_eq!(ssh.fields[9].placeholder, "3306");
    assert!(ssh.fields.iter().all(|f| !f.required));
}

#[test]
fn form_saves_new_and_edited_records() {
    let groups = vec![TabGroup::new("general".to_string(), "General".to_string())
        .field(FormField::new("host".to_string(), "Host".to_string(), FormFieldType::Text))];
    let v = values(&[("name", "pg"), ("host", "db"), ("port", "5432"), ("remark", "main")]);
    let (fresh, is_update) =
        onetcli::form::build_stored_connection(&groups, &v, DatabaseType::PostgreSQL, Some(2), None, "{\"host\":\"db\"}".to_string()).unwrap();
    assert!(!is_update);
    assert_eq!(fresh.id, None);
    assert_eq!(fresh.name, "pg");
    assert_eq!(fresh.workspace_id, Some(2));
    assert_eq!(fresh.remark, Some("main".to_string()));
    assert!(fresh.params.contains("\"host\":\"db\""));

    let mut existing = onetcli::models::StoredConnection::from_db_connection(build_connection(
        &values(&[("name", "old"), ("host", "h0")]),
        DatabaseType::PostgreSQL,
        None,
    ), "{\"host\":\"h0\"}".to_string());
    existing.id = Some(11);
    existing.created_at = Some(100);
    let (edited, is_update) =
        onetcli::form::build_stored_connection(&groups, &v, DatabaseType::PostgreSQL, None, Some(existing), "{\"host\":\"db\"}".to_string()).unwrap();
    assert!(is_update);
    assert_eq!(edited.id, Some(11));
    assert_eq!(edited.created_at, Some(100));
    assert_eq!(edited.name, "pg");
    assert_eq!(edited.workspace_id, None);
    assert!(edited.params.contains("\"host\":\"db\""));

    let missing = onetcli::form::build_stored_connection(&groups, &values(&[]), DatabaseType::PostgreSQL, None, None, String::new());
    assert_eq!(missing.err(), Some(FormError::Required("Host".to_string())));
}

#[test]
fn loaded_connection_builds_back() {
    let form = onetcli::form::DbFormConfig::postgres("New");
    let mut form_values = onetcli::form::initial_values(&form.tab_groups);
    let mut c = build_connection(
        &values(&[("host", "db.internal"), ("port", "6432"), ("username", "app"), ("password", "pw"), ("database", "sales")]),
        DatabaseType::PostgreSQL,
        None,
    );
    c.extra_params = vec![
        ("sslmode".to_string(), "require".to_string()),
        ("application_name".to_string(), "cli".to_string()),
    ];
    onetcli::form::load_connection_values(&mut form_values, "prod", &c, &Some("main db".to_string()));
    let back = build_connection(&form_values, DatabaseType::PostgreSQL, None);
    assert_eq!(back.name, "prod");
    assert_eq!(back.host, "db.internal");
    assert_eq!(back.port, 6432);
    assert_eq!(back.username, "app");
    assert_eq!(back.password, "pw");
    assert_eq!(back.database, Some("sales".to_string()));
    assert!(back.extra_params.contains(&("sslmode".to_string(), "require".to_string())));
    assert!(back.extra_params.contains(&("application_name".to_string(), "cli".to_string())));
    let remark = form_values.iter().find(|(k, _)| k == "remark").map(|(_, v)| v.clone());
    assert_eq!(remark, Some("main db".to_string()));

    let mut only_host = vec![("host".to_string(), String::new())];
    onetcli::form::set_field_value(&mut only_host, "port", "1");
    assert_eq!(only_host, vec![("host".to_string(), String::new())]);
}

#[test]
fn new_form_starts_on_defaults() {
    let form = onetcli::form::DbFormConfig::postgres("New");
    let v = onetcli::form::initial_values(&form.tab_groups);
    assert_eq!(v.len(), 20);
    assert_eq!(v[0], ("name".to_string(), "Local PostgreSQL".to_string()));
    assert_eq!(v[8], ("sslmode".to_string(), "disable".to_string()));
    assert_eq!(v[10], ("ssh_tunnel_enabled".to_string(), "false".to_string()));
    let general = &form.tab_groups[0];
    assert_eq!(onetcli::form::default_option_index(&general.fields[8]), Some(0));
    let ssh = &form.tab_groups[1];
    assert_eq!(onetcli::form::default_option_index(&ssh.fields[0]), Some(0));
    let picked = FormField::new("mode".to_string(), "Mode".to_string(), FormFieldType::Select)
        .default("b".to_string())
        .options(values(&[("a", "A"), ("b", "B")]));
    assert_eq!(onetcli::form::default_option_index(&picked), Some(1));
    let missing = picked.default("z".to_string());
    assert_eq!(onetcli::form::default_option_index(&missing), None);
    let no_default = FormField::new("m".to_string(), "M".to_string(), FormFieldType::Select);
    assert_eq!(onetcli::form::default_option_index(&no_default), Some(0));
}

#[test]
fn select_items_of_the_form() {
    let item = onetcli::form::FormSelectItem::new("require".to_string(), "Require".to_string());
    assert_eq!((item.value.as_str(), item.label.as_str()), ("require", "Require"));
    let none = onetcli::form::WorkspaceSelectItem::none();
    assert_eq!(none.id, None);
    assert_eq!(none.name, "Common.none");
    let mut ws = onetcli::models::Workspace::new("Ops".to_string());
    ws.id = Some(7);
    let w = onetcli::form::WorkspaceSelectItem::from_workspace(&ws);
    assert_eq!((w.id, w.name.as_str()), (Some(7), "Ops"));
    let p = onetcli::form::TeamSelectItem::personal();
    assert_eq!((p.id, p.name.as_str()), (None, "Personal"));
    let schema = onetcli::filter::TableSchema { columns: Vec::new() };
    assert!(schema.columns.is_empty());
}
