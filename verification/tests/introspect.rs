use pnkr::codec::{decode_row, NativeCell};
use pnkr::introspect::{
    columns_statement, field_from_catalog_row, field_from_parts, parse_field, parse_i32,
    parse_introspect, sort_columns, split_commas, tables_statement, Field,
};
use pnkr::value::NativeValue;

fn field(name: &str, ordinal: i32) -> Field {
    Field {
        name: name.to_string(),
        constraint: None,
        ordinal_position: ordinal,
        data_type: "integer".to_string(),
        char_max_len: None,
        numeric_precision: None,
        numeric_scale: None,
        is_nullable: false,
        is_unique: false,
        is_auto_increment: false,
        default_value: None,
    }
}

#[test]
fn tables_statement_binds_the_catalog_name() {
    let st = tables_statement(&"mydb".to_string());
    assert_eq!(
        st.text,
        "select table_name from information_schema.tables where table_schema = 'public' and table_type = 'BASE TABLE' and table_catalog = $1 order by table_name"
    );
    assert_eq!(st.binds, vec![NativeValue::Text("mydb".to_string())]);
}

#[test]
fn columns_statement_binds_the_table_name_never_interpolates() {
    let st = columns_statement(&"nonexistent_table".to_string());
    assert_eq!(
        st.text,
        "select column_name, ordinal_position, data_type, character_maximum_length, numeric_precision, numeric_scale, is_nullable, column_default from information_schema.columns where table_schema = 'public' and table_name = $1 order by ordinal_position"
    );
    assert_eq!(
        st.binds,
        vec![NativeValue::Text("nonexistent_table".to_string())]
    );
    assert!(!st.text.contains("nonexistent_table"));
}

#[test]
fn sort_columns_of_nothing_is_nothing() {
    let r = sort_columns(vec![]);
    assert!(r.is_empty());
}

#[test]
fn sort_columns_orders_by_ordinal_ascending() {
    let r = sort_columns(vec![field("c", 3), field("a", 1), field("b", 2)]);
    let names: Vec<&str> = r.iter().map(|f| f.name.as_str()).collect();
    assert_eq!(names, vec!["a", "b", "c"]);
}

#[test]
fn parse_i32_accepts_short_decimals_only() {
    assert_eq!(parse_i32("0"), Some(0));
    assert_eq!(parse_i32("123"), Some(123));
    assert_eq!(parse_i32("999999999"), Some(999999999));
    assert_eq!(parse_i32(""), None);
    assert_eq!(parse_i32("12a"), None);
    assert_eq!(parse_i32("-3"), None);
    assert_eq!(parse_i32("1234567890"), None);
}

#[test]
fn split_commas_keeps_empty_segments() {
    let parts = split_commas("a,,b,");
    assert_eq!(parts, vec!["a", "", "b", ""]);
    assert_eq!(split_commas(""), vec![""]);
}

#[test]
fn field_from_parts_reads_every_position() {
    let parts: Vec<String> = vec![
        "id", "1", "\"PRIMARY KEY\"", "", "32", "0", "\"integer\"", "f", "t", "t",
        "\"nextval('id_seq')\"",
    ]
    .into_iter()
    .map(|s| s.to_string())
    .collect();
    let f = field_from_parts(&parts).unwrap();
    assert_eq!(f.name, "id");
    assert_eq!(f.ordinal_position, 1);
    assert_eq!(f.constraint, Some("PRIMARY KEY".to_string()));
    assert_eq!(f.char_max_len, None);
    assert_eq!(f.numeric_precision, Some(32));
    assert_eq!(f.numeric_scale, Some(0));
    assert_eq!(f.data_type, "integer");
    assert!(!f.is_nullable);
    assert!(f.is_unique);
    assert!(f.is_auto_increment);
    assert_eq!(f.default_value, Some("nextval('id_seq')".to_string()));
}

#[test]
fn parse_field_strips_the_tuple_parens() {
    let f = parse_field("(name,2,,64,,,text,t,f,f,)").unwrap();
    assert_eq!(f.name, "name");
    assert_eq!(f.ordinal_position, 2);
    assert_eq!(f.constraint, None);
    assert_eq!(f.char_max_len, Some(64));
    assert_eq!(f.data_type, "text");
    assert!(f.is_nullable);
    assert!(!f.is_unique);
}

#[test]
fn parse_field_rejects_short_rows_and_bad_ordinals() {
    assert!(parse_field("(a,b,c)").is_none());
    assert!(parse_field("(name,notanumber,,,,,text,t,f,f,)").is_none());
}

#[test]
fn parse_introspect_reads_an_aggregated_row_list() {
    let raw = r#"{"(id,1,,,,,integer,f,t,t,)","(name,2,,64,,,text,t,f,f,)"}"#;
    let fields = parse_introspect(raw).unwrap();
    assert_eq!(fields.len(), 2);
    assert_eq!(fields[0].name, "id");
    assert_eq!(fields[0].ordinal_position, 1);
    assert_eq!(fields[0].data_type, "integer");
    assert!(fields[0].is_unique);
    assert_eq!(fields[1].name, "name");
    assert_eq!(fields[1].ordinal_position, 2);
    assert_eq!(fields[1].char_max_len, Some(64));
}

#[test]
fn field_from_catalog_row_reads_the_columns_listing() {
    let cells = vec![
        NativeCell {
            name: "column_name".to_string(),
            type_tag: "NAME".to_string(),
            read: Some(NativeValue::Text("email".to_string())),
        },
        NativeCell {
            name: "ordinal_position".to_string(),
            type_tag: "INT4".to_string(),
            read: Some(NativeValue::Int(2)),
        },
        NativeCell {
            name: "data_type".to_string(),
            type_tag: "TEXT".to_string(),
            read: Some(NativeValue::Text("character varying".to_string())),
        },
        NativeCell {
            name: "character_maximum_length".to_string(),
            type_tag: "INT4".to_string(),
            read: Some(NativeValue::Int(255)),
        },
        NativeCell {
            name: "numeric_precision".to_string(),
            type_tag: "INT4".to_string(),
            read: None,
        },
        NativeCell {
            name: "numeric_scale".to_string(),
            type_tag: "INT4".to_string(),
            read: None,
        },
        NativeCell {
            name: "is_nullable".to_string(),
            type_tag: "TEXT".to_string(),
            read: Some(NativeValue::Text("YES".to_string())),
        },
        NativeCell {
            name: "column_default".to_string(),
            type_tag: "TEXT".to_string(),
            read: None,
        },
    ];
    let doc = decode_row(cells);
    let f = field_from_catalog_row(&doc).unwrap();
    assert_eq!(f.name, "email");
    assert_eq!(f.ordinal_position, 2);
    assert_eq!(f.data_type, "character varying");
    assert_eq!(f.char_max_len, Some(255));
    assert_eq!(f.numeric_precision, None);
    assert_eq!(f.numeric_scale, None);
    assert!(f.is_nullable);
    assert_eq!(f.default_value, None);
    assert_eq!(f.constraint, None);
    assert!(!f.is_unique);
    assert!(!f.is_auto_increment);
}

#[test]
fn field_from_catalog_row_needs_name_ordinal_and_type() {
    let doc = decode_row(vec![NativeCell {
        name: "column_name".to_string(),
        type_tag: "NAME".to_string(),
        read: Some(NativeValue::Text("email".to_string())),
    }]);
    assert!(field_from_catalog_row(&doc).is_none());
}

#[test]
fn parse_introspect_rejects_malformed_aggregates() {
    assert!(parse_introspect("").is_none());
    assert!(parse_introspect("{not json at all").is_none());
    assert!(parse_introspect(r#"{"(only,three,parts)"}"#).is_none());
}
