//! How a PostgreSQL result cell is shown: which decoding a column type
//! gets, and the text each decoded value becomes.
use vstd::prelude::*;
use crate::text::{
    str_eq, str_to_owned, push_str, push_char, signed_decimal, i64_to_decimal, starts_with, ends_with,
    chars_of, slice_starts_with, slice_ends_with,
};
use crate::models::hex_digit;
use crate::filter::{join, push_joined};

verus! {

/// The decoding a column type gets.
#[derive(Debug, Clone, Copy, PartialEq, Eq, Structural)]
pub enum PgTypeClass {
    Bool,
    Int2,
    Int4,
    Int8,
    Float4,
    Float8,
    Numeric,
    Text,
    Timestamp,
    TimestampTz,
    Date,
    Time,
    Bytea,
    Json,
    Uuid,
    Array,
    Enum,
    Other,
}

/// The class of a column type, from its name and whether it is an enum.
pub open spec fn class_of(name: Seq<char>, is_enum: bool) -> PgTypeClass {
    if name == "bool"@ {
        PgTypeClass::Bool
    } else if name == "int2"@ {
        PgTypeClass::Int2
    } else if name == "int4"@ {
        PgTypeClass::Int4
    } else if name == "int8"@ {
        PgTypeClass::Int8
    } else if name == "float4"@ {
        PgTypeClass::Float4
    } else if name == "float8"@ {
        PgTypeClass::Float8
    } else if name == "numeric"@ {
        PgTypeClass::Numeric
    } else if name == "text"@ || name == "varchar"@ || name == "bpchar"@ || name == "name"@ {
        PgTypeClass::Text
    } else if name == "timestamp"@ {
        PgTypeClass::Timestamp
    } else if name == "timestamptz"@ {
        PgTypeClass::TimestampTz
    } else if name == "date"@ {
        PgTypeClass::Date
    } else if name == "time"@ {
        PgTypeClass::Time
    } else if name == "bytea"@ {
        PgTypeClass::Bytea
    } else if name == "json"@ || name == "jsonb"@ {
        PgTypeClass::Json
    } else if name == "uuid"@ {
        PgTypeClass::Uuid
    } else if starts_with(name, "_"@) || ends_with(name, "[]"@) {
        PgTypeClass::Array
    } else if is_enum {
        PgTypeClass::Enum
    } else {
        PgTypeClass::Other
    }
}

pub fn classify_column(pg_type: &str, is_enum: bool) -> (r: PgTypeClass)
    ensures
        r == class_of(pg_type@, is_enum),
{
    let n = pg_type;
    if str_eq(n, "bool") {
        PgTypeClass::Bool
    } else if str_eq(n, "int2") {
        PgTypeClass::Int2
    } else if str_eq(n, "int4") {
        PgTypeClass::Int4
    } else if str_eq(n, "int8") {
        PgTypeClass::Int8
    } else if str_eq(n, "float4") {
        PgTypeClass::Float4
    } else if str_eq(n, "float8") {
        PgTypeClass::Float8
    } else if str_eq(n, "numeric") {
        PgTypeClass::Numeric
    } else if str_eq(n, "text") || str_eq(n, "varchar") || str_eq(n, "bpchar") || str_eq(n, "name") {
        PgTypeClass::Text
    } else if str_eq(n, "timestamp") {
        PgTypeClass::Timestamp
    } else if str_eq(n, "timestamptz") {
        PgTypeClass::TimestampTz
    } else if str_eq(n, "date") {
        PgTypeClass::Date
    } else if str_eq(n, "time") {
        PgTypeClass::Time
    } else if str_eq(n, "bytea") {
        PgTypeClass::Bytea
    } else if str_eq(n, "json") || str_eq(n, "jsonb") {
        PgTypeClass::Json
    } else if str_eq(n, "uuid") {
        PgTypeClass::Uuid
    } else {
        let cs = chars_of(n);
        let u = chars_of("_");
        let b = chars_of("[]");
        if slice_starts_with(cs.as_slice(), u.as_slice()) || slice_ends_with(cs.as_slice(), b.as_slice()) {
            PgTypeClass::Array
        } else if is_enum {
            PgTypeClass::Enum
        } else {
            PgTypeClass::Other
        }
    }
}

/// What the driver decoded for a cell.
#[derive(Debug)]
pub enum CellValue {
    /// SQL NULL.
    Null,
    /// The value could not be decoded as the class asks.
    Failed,
    Bool(bool),
    Int(i64),
    Text(String),
    Bytes(Vec<u8>),
    List(Vec<String>),
    /// Text the driver side formatted (floats, dates and times, JSON, UUIDs).
    Formatted(String),
}


/// Lower-case hexadecimal of bytes, two digits each.
pub open spec fn hex_of(b: Seq<u8>) -> Seq<char>
    decreases b.len(),
{
    if b.len() == 0 {
        Seq::empty()
    } else {
        hex_of(b.drop_last()) + seq![hex_digit((b.last() / 16) as nat), hex_digit((b.last() % 16) as nat)]
    }
}

/// The text a cell shows; `None` shows as NULL.
pub open spec fn cell_text(class: PgTypeClass, pg_type: Seq<char>, v: CellValue) -> Option<Seq<char>> {
    match class {
        PgTypeClass::Bool => match v {
            CellValue::Bool(b) => Some(if b { "true"@ } else { "false"@ }),
            _ => None,
        },
        PgTypeClass::Int2 | PgTypeClass::Int4 | PgTypeClass::Int8 => match v {
            CellValue::Int(n) => Some(signed_decimal(n as int)),
            _ => None,
        },
        PgTypeClass::Text => match v {
            CellValue::Text(s) => Some(s@),
            _ => None,
        },
        PgTypeClass::Bytea => match v {
            CellValue::Bytes(b) => Some("\\x"@ + hex_of(b@)),
            _ => None,
        },
        PgTypeClass::Array => match v {
            CellValue::List(items) => Some("{"@ + join(items@.map_values(|s: String| s@), ", "@) + "}"@),
            _ => Some("<array: "@ + pg_type + ">"@),
        },
        PgTypeClass::Enum | PgTypeClass::Other => match v {
            CellValue::Text(s) => Some(s@),
            _ => Some("<"@ + pg_type + ">"@),
        },
        _ => match v {
            CellValue::Formatted(s) => Some(s@),
            _ => None,
        },
    }
}

fn hex_char(d: u8) -> (c: char)
    requires
        d < 16,
    ensures
        c == hex_digit(d as nat),
{
    if d < 10 {
        (48u8 + d) as char
    } else {
        (97u8 + (d - 10)) as char
    }
}

/// The text a decoded cell shows (`None` for NULL and values that failed
/// to decode, except where the column's class shows a placeholder).
pub fn format_cell(class: PgTypeClass, pg_type: &str, v: CellValue) -> (r: Option<String>)
    ensures
        crate::models::opt_view(r) == cell_text(class, pg_type@, v),
{
    match class {
        PgTypeClass::Bool => match v {
            CellValue::Bool(b) => Some(str_to_owned(if b { "true" } else { "false" })),
            _ => None,
        },
        PgTypeClass::Int2 | PgTypeClass::Int4 | PgTypeClass::Int8 => match v {
            CellValue::Int(n) => {
                Some(i64_to_decimal(n))
            },
            _ => None,
        },
        PgTypeClass::Text => match v {
            CellValue::Text(s) => Some(s),
            _ => None,
        },
        PgTypeClass::Bytea => match v {
            CellValue::Bytes(b) => {
                let mut out = str_to_owned("\\x");
                let ghost head = out@;
                let mut i: usize = 0;
                while i < b.len()
                    invariant
                        i <= b.len(),
                        out@ == head + hex_of(b@.subrange(0, i as int)),
                    decreases b.len() - i,
                {
                    let x = b[i];
                    push_char(&mut out, hex_char(x / 16));
                    push_char(&mut out, hex_char(x % 16));
                    assert(b@.subrange(0, i + 1).drop_last() =~= b@.subrange(0, i as int));
                    assert(out@ =~= head + hex_of(b@.subrange(0, i + 1)));
                    i += 1;
                }
                assert(b@.subrange(0, b@.len() as int) =~= b@);
                Some(out)
            },
            _ => None,
        },
        PgTypeClass::Array => match v {
            CellValue::List(items) => {
                let mut out = str_to_owned("{");
                push_joined(&mut out, &items, ", ");
                push_str(&mut out, "}");
                Some(out)
            },
            _ => {
                let mut out = str_to_owned("<array: ");
                push_str(&mut out, pg_type);
                push_str(&mut out, ">");
                Some(out)
            },
        },
        PgTypeClass::Enum | PgTypeClass::Other => match v {
            CellValue::Text(s) => Some(s),
            _ => {
                let mut out = str_to_owned("<");
                push_str(&mut out, pg_type);
                push_str(&mut out, ">");
                Some(out)
            },
        },
        _ => match v {
            CellValue::Formatted(s) => Some(s),
            _ => None,
        },
    }
}

/// A value of an enum or other-typed column that the driver decoded as
/// text is shown as that text; the `<type>` placeholder stands only for a
/// value that was not decoded as text.
pub proof fn law_text_values_shown(class: PgTypeClass, pg_type: Seq<char>, v: CellValue)
    requires
        class == PgTypeClass::Enum || class == PgTypeClass::Other,
    ensures
        v matches CellValue::Text(s) ==> cell_text(class, pg_type, v) == Some(s@),
        !(v is Text) ==> cell_text(class, pg_type, v) == Some("<"@ + pg_type + ">"@),
{
}

} // verus!
