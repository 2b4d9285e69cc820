use onetcli::db_types::{
    DbNodeType,
    ColumnDefinition, FieldType, FilterOperator, IndexDefinition, TableDataRequest, TableDesign,
};
use onetcli::text::truncate_str;

#[test]
fn field_types_from_database_types() {
    assert_eq!(FieldType::from_db_type("varchar(255)"), FieldType::Text);
    assert_eq!(FieldType::from_db_type("BIGINT"), FieldType::Integer);
    assert_eq!(FieldType::from_db_type("double precision"), FieldType::Decimal);
    assert_eq!(FieldType::from_db_type(" timestamp (6)"), FieldType::DateTime);
    assert_eq!(FieldType::from_db_type("jsonb"), FieldType::Json);
    assert_eq!(FieldType::from_db_type("bytea"), FieldType::Binary);
    assert_eq!(FieldType::from_db_type("uuid"), FieldType::Unknown);
    assert_eq!(FieldType::from_db_type("GEOMETRY"), FieldType::Unknown);
    assert_eq!(FilterOperator::IsTrue.to_sql(), "= TRUE");
}

#[test]
fn table_data_request_defaults_and_clauses() {
    let r = TableDataRequest::new("db".to_string(), "t".to_string())
        .with_page(3, 50)
        .with_where_clause(String::new())
        .with_order_by_clause("id DESC".to_string());
    assert_eq!((r.page, r.page_size), (3, 50));
    assert_eq!(r.where_clause, None);
    assert_eq!(r.order_by_clause, Some("id DESC".to_string()));
}

#[test]
fn table_design_primary_keys() {
    let mut d = TableDesign::new("db".to_string(), "t".to_string());
    d.add_column(ColumnDefinition::new("id".to_string()).primary_key(true).nullable(false));
    d.add_column(ColumnDefinition::new("name".to_string()));
    d.add_column(ColumnDefinition::new("org".to_string()).primary_key(true));
    d.add_index(IndexDefinition::new("pk".to_string()).primary(true));
    assert_eq!(d.primary_key_columns(), vec!["id", "org"]);
    assert!(d.columns[1].is_nullable);
    assert_eq!(d.indexes.len(), 1);
}

#[test]
fn truncate_keeps_whole_characters() {
    assert_eq!(truncate_str("hello", 10), "hello");
    assert_eq!(truncate_str("hello", 3), "hel");
    assert_eq!(truncate_str("中文", 4), "中");
    assert_eq!(truncate_str("中文", 2), "");
}

fn tree_node(id: &str, name: &str, node_type: onetcli::db_types::DbNodeType) -> onetcli::db_types::DbNode {
    onetcli::db_types::DbNode::new(
        id.to_string(),
        name.to_string(),
        node_type,
        "c1".to_string(),
        onetcli::models::DatabaseType::PostgreSQL,
    )
}

#[test]
fn nodes_compare_by_type_then_name_then_id() {
    let a = tree_node("2", "alpha", DbNodeType::Table);
    let b = tree_node("1", "Beta", DbNodeType::Table);
    let v = tree_node("0", "aaa", DbNodeType::View);
    let a2 = tree_node("3", "ALPHA", DbNodeType::Table);
    assert_eq!(a.compare(&b), -1);
    assert_eq!(b.compare(&a), 1);
    assert_eq!(v.compare(&a), 1);
    assert_eq!(a.compare(&a2), -1);
    assert_eq!(a.compare(&a), 0);
}

#[test]
fn children_sorted_in_tree_order() {
    let mut root = tree_node("root", "root", DbNodeType::Schema);
    let mut t = tree_node("t", "orders", DbNodeType::Table);
    t.set_children(vec![
        tree_node("t.b", "b", DbNodeType::Column),
        tree_node("t.a", "A", DbNodeType::Column),
        tree_node("t.i", "idx", DbNodeType::IndexesFolder),
    ]);
    root.set_children(vec![
        tree_node("v", "view1", DbNodeType::View),
        t,
        tree_node("u", "Users", DbNodeType::Table),
    ]);
    let mut shallow = tree_node("root", "root", DbNodeType::Schema);
    shallow.set_children(vec![
        tree_node("v", "view1", DbNodeType::View),
        tree_node("u", "Users", DbNodeType::Table),
        tree_node("t", "orders", DbNodeType::Table),
    ]);
    shallow.sort_children();
    let ids: Vec<&str> = shallow.children.iter().map(|c| c.id.as_str()).collect();
    assert_eq!(ids, vec!["t", "u", "v"]);

    root.sort_children_recursive();
    let ids: Vec<&str> = root.children.iter().map(|c| c.id.as_str()).collect();
    assert_eq!(ids, vec!["t", "u", "v"]);
    let inner: Vec<&str> = root.children[0].children.iter().map(|c| c.id.as_str()).collect();
    assert_eq!(inner, vec!["t.a", "t.b", "t.i"]);
    assert!(root.children_loaded);
}

#[test]
fn field_types_ignore_case_and_length() {
    for name in ["varchar", "int", "timestamp", "double precision", "jsonb", "bytea", "bit", "geometry"] {
        let t = FieldType::from_db_type(name);
        assert_eq!(FieldType::from_db_type(&name.to_uppercase()), t);
        assert_eq!(FieldType::from_db_type(&format!("{}(12)", name)), t);
    }
    assert_eq!(FieldType::from_db_type("TIMESTAMP(6)"), FieldType::DateTime);
    assert_eq!(FieldType::from_db_type("bit"), FieldType::Boolean);
}
