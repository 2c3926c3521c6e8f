use pnkr::codec::{decode, decode_row, encode, kind_of_tag, tag_of_kind, NativeCell, TypeKind};
use pnkr::errors::BuildError;
use pnkr::value::{NativeValue, Value};

fn round_trips(tag: &str, native: NativeValue) {
    let (_, v) = decode("c".to_string(), tag, Some(native.clone()));
    assert_eq!(encode(&v).unwrap(), native);
}

#[test]
fn bool_round_trips() {
    round_trips("BOOL", NativeValue::Bool(true));
    round_trips("BOOLEAN", NativeValue::Bool(false));
}

#[test]
fn integer_round_trips_all_widths_widened() {
    round_trips("INT2", NativeValue::Int(-7));
    round_trips("INT4", NativeValue::Int(123456));
    round_trips("INT8", NativeValue::Int(i64::MAX));
    round_trips("INTEGER", NativeValue::Int(0));
}

#[test]
fn float_round_trips_on_finite_bits() {
    round_trips("FLOAT8", NativeValue::Float(1.5f64.to_bits()));
    round_trips("REAL", NativeValue::Float((1.25f32 as f64).to_bits()));
    round_trips("FLOAT4", NativeValue::Float((-0.5f64).to_bits()));
}

#[test]
fn text_round_trips() {
    round_trips("TEXT", NativeValue::Text("hello".to_string()));
    round_trips("VARCHAR", NativeValue::Text(String::new()));
    round_trips("NAME", NativeValue::Text("users".to_string()));
}

#[test]
fn json_round_trips_as_opaque_text() {
    round_trips("JSON", NativeValue::Json("{\"a\":1}".to_string()));
    round_trips("JSONB", NativeValue::Json("[1,2]".to_string()));
}

#[test]
fn temporal_round_trips() {
    round_trips("TIMESTAMPTZ", NativeValue::Timestamp(1700000000));
    round_trips("TIMESTAMP", NativeValue::Timestamp(-1));
    round_trips(
        "DATE",
        NativeValue::Date {
            year: 2024,
            month: 2,
            day: 29,
        },
    );
    round_trips(
        "TIME",
        NativeValue::Time {
            hour: 23,
            minute: 59,
            second: 60,
        },
    );
}

#[test]
fn unmapped_tag_decodes_to_unsupported_and_keeps_the_column() {
    let (name, v) = decode(
        "geom".to_string(),
        "POINT",
        Some(NativeValue::Text("(1,2)".to_string())),
    );
    assert_eq!(name, "geom");
    assert_eq!(v, Value::Unsupported("POINT".to_string()));

    let (name, v) = decode("geom".to_string(), "POINT", None);
    assert_eq!(name, "geom");
    assert_eq!(v, Value::Unsupported("POINT".to_string()));
}

#[test]
fn failed_read_decodes_to_null() {
    let (_, v) = decode("c".to_string(), "INT8", None);
    assert_eq!(v, Value::Null);
}

#[test]
fn non_finite_float_decodes_to_null() {
    let (_, v) = decode(
        "c".to_string(),
        "FLOAT8",
        Some(NativeValue::Float(f64::NAN.to_bits())),
    );
    assert_eq!(v, Value::Null);
    let (_, v) = decode(
        "c".to_string(),
        "FLOAT8",
        Some(NativeValue::Float(f64::INFINITY.to_bits())),
    );
    assert_eq!(v, Value::Null);
}

#[test]
fn null_tag_decodes_to_null() {
    let (_, v) = decode("c".to_string(), "NULL", Some(NativeValue::Null));
    assert_eq!(v, Value::Null);
}

#[test]
fn encode_unsupported_fails_with_the_type_name() {
    let r = encode(&Value::Unsupported("POINT".to_string()));
    assert_eq!(r.unwrap_err(), BuildError::UnencodableValue("POINT".to_string()));
}

#[test]
fn tag_table_is_inverse_on_canonical_tags() {
    for kind in [
        TypeKind::Bool,
        TypeKind::Integer,
        TypeKind::Float,
        TypeKind::Text,
        TypeKind::Json,
        TypeKind::Timestamp,
        TypeKind::Date,
        TypeKind::Time,
        TypeKind::Null,
    ] {
        assert_eq!(kind_of_tag(tag_of_kind(kind)), Some(kind));
    }
    assert_eq!(kind_of_tag("POINT"), None);
}

#[test]
fn decode_row_preserves_column_order() {
    let cells = vec![
        NativeCell {
            name: "b".to_string(),
            type_tag: "TEXT".to_string(),
            read: Some(NativeValue::Text("z".to_string())),
        },
        NativeCell {
            name: "a".to_string(),
            type_tag: "INT8".to_string(),
            read: Some(NativeValue::Int(1)),
        },
        NativeCell {
            name: "geom".to_string(),
            type_tag: "POINT".to_string(),
            read: None,
        },
    ];
    let d = decode_row(cells);
    assert_eq!(d.len(), 3);
    let e0 = d.entry_at(0);
    assert_eq!(e0.0, "b");
    assert_eq!(e0.1, Value::Text("z".to_string()));
    let e1 = d.entry_at(1);
    assert_eq!(e1.0, "a");
    assert_eq!(e1.1, Value::Integer(1));
    let e2 = d.entry_at(2);
    assert_eq!(e2.0, "geom");
    assert_eq!(e2.1, Value::Unsupported("POINT".to_string()));
}

#[test]
fn decode_row_repeated_name_keeps_first_position_and_last_value() {
    let cells = vec![
        NativeCell {
            name: "a".to_string(),
            type_tag: "INT8".to_string(),
            read: Some(NativeValue::Int(1)),
        },
        NativeCell {
            name: "b".to_string(),
            type_tag: "INT8".to_string(),
            read: Some(NativeValue::Int(2)),
        },
        NativeCell {
            name: "a".to_string(),
            type_tag: "INT8".to_string(),
            read: Some(NativeValue::Int(3)),
        },
    ];
    let d = decode_row(cells);
    assert_eq!(d.len(), 2);
    let e0 = d.entry_at(0);
    assert_eq!(e0.0, "a");
    assert_eq!(e0.1, Value::Integer(3));
    let e1 = d.entry_at(1);
    assert_eq!(e1.0, "b");
    assert_eq!(e1.1, Value::Integer(2));
}

#[test]
fn document_get_finds_by_name() {
    let cells = vec![NativeCell {
        name: "a".to_string(),
        type_tag: "BOOL".to_string(),
        read: Some(NativeValue::Bool(true)),
    }];
    let d = decode_row(cells);
    assert_eq!(d.get("a"), Some(&Value::Bool(true)));
    assert_eq!(d.get("missing"), None);
}
