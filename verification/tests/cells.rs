use onetcli::cells::{classify_column, format_cell, CellValue, PgTypeClass};

#[test]
fn column_classes() {
    assert_eq!(classify_column("int8", false), PgTypeClass::Int8);
    assert_eq!(classify_column("varchar", false), PgTypeClass::Text);
    assert_eq!(classify_column("_int4", false), PgTypeClass::Array);
    assert_eq!(classify_column("mood", true), PgTypeClass::Enum);
    assert_eq!(classify_column("inet", false), PgTypeClass::Other);
}

#[test]
fn cell_texts() {
    assert_eq!(format_cell(PgTypeClass::Int8, "int8", CellValue::Int(i64::MIN)), Some("-9223372036854775808".to_string()));
    assert_eq!(format_cell(PgTypeClass::Int4, "int4", CellValue::Int(42)), Some("42".to_string()));
    assert_eq!(format_cell(PgTypeClass::Int4, "int4", CellValue::Null), None);
    assert_eq!(format_cell(PgTypeClass::Bool, "bool", CellValue::Bool(true)), Some("true".to_string()));
    assert_eq!(format_cell(PgTypeClass::Bytea, "bytea", CellValue::Bytes(vec![0, 171, 255])), Some("\\x00abff".to_string()));
    assert_eq!(
        format_cell(PgTypeClass::Array, "_text", CellValue::List(vec!["a".to_string(), "b".to_string()])),
        Some("{a, b}".to_string())
    );
    assert_eq!(format_cell(PgTypeClass::Array, "_text", CellValue::Failed), Some("<array: _text>".to_string()));
    assert_eq!(format_cell(PgTypeClass::Other, "inet", CellValue::Null), Some("<inet>".to_string()));
    assert_eq!(format_cell(PgTypeClass::Float8, "float8", CellValue::Formatted("1.5".to_string())), Some("1.5".to_string()));
}
