use pnkr::builder::{build_delete, build_insert, build_select, build_update, DBQuery, OrderDir, UpdateSpec};
use pnkr::errors::BuildError;
use pnkr::predicate::{CmpOp, Predicate};
use pnkr::value::{Document, NativeValue, Value};

fn plain_query(table: &str) -> DBQuery {
    DBQuery {
        table: table.to_string(),
        columns: None,
        predicate: None,
        order_by: None,
        order: None,
        limit: None,
        offset: None,
    }
}

fn doc(pairs: &[(&str, Value)]) -> Document {
    let mut d = Document::new();
    for (k, v) in pairs {
        d.insert(k.to_string(), v.clone());
    }
    d
}

#[test]
fn select_bare_table_is_star_with_no_binds() {
    let st = build_select(&plain_query("users")).unwrap();
    assert_eq!(st.text, "select * from \"users\"");
    assert!(st.binds.is_empty());
}

#[test]
fn select_limit_appends_one_clause_and_one_bind() {
    let mut q = plain_query("users");
    q.limit = Some(10);
    let st = build_select(&q).unwrap();
    assert_eq!(st.text, "select * from \"users\" limit $1");
    assert_eq!(st.binds, vec![NativeValue::Int(10)]);
}

#[test]
fn select_full_clause_order() {
    let q = DBQuery {
        table: "t".to_string(),
        columns: Some(vec!["a".to_string(), "b".to_string()]),
        predicate: Some(Predicate::Cmp {
            column: "a".to_string(),
            op: CmpOp::Eq,
            value: Value::Integer(5),
        }),
        order_by: Some("b".to_string()),
        order: Some(OrderDir::Desc),
        limit: Some(10),
        offset: Some(20),
    };
    let st = build_select(&q).unwrap();
    assert_eq!(
        st.text,
        "select \"a\", \"b\" from \"t\" where (\"a\" = $1) order by \"b\" desc limit $2 offset $3"
    );
    assert_eq!(
        st.binds,
        vec![NativeValue::Int(5), NativeValue::Int(10), NativeValue::Int(20)]
    );
}

#[test]
fn select_order_direction_defaults_to_ascending() {
    let mut q = plain_query("t");
    q.order_by = Some("c".to_string());
    let st = build_select(&q).unwrap();
    assert_eq!(st.text, "select * from \"t\" order by \"c\" asc");
}

#[test]
fn select_invalid_table_is_rejected_before_any_text() {
    let r = build_select(&plain_query("x; drop table y"));
    assert_eq!(
        r.unwrap_err(),
        BuildError::InvalidIdentifier("x; drop table y".to_string())
    );
}

#[test]
fn select_invalid_column_is_rejected() {
    let mut q = plain_query("t");
    q.columns = Some(vec!["ok".to_string(), "bad\"col".to_string()]);
    let r = build_select(&q);
    assert_eq!(
        r.unwrap_err(),
        BuildError::InvalidIdentifier("bad\"col".to_string())
    );
}

#[test]
fn insert_two_documents_row_major_binds() {
    let batch = vec![
        doc(&[("a", Value::Integer(1)), ("b", Value::Text("x".to_string()))]),
        doc(&[("a", Value::Integer(2)), ("b", Value::Text("y".to_string()))]),
    ];
    let st = build_insert(&"t".to_string(), &batch).unwrap();
    assert_eq!(
        st.text,
        "insert into \"t\" (\"a\", \"b\") values ($1, $2), ($3, $4)"
    );
    assert_eq!(
        st.binds,
        vec![
            NativeValue::Int(1),
            NativeValue::Text("x".to_string()),
            NativeValue::Int(2),
            NativeValue::Text("y".to_string()),
        ]
    );
}

#[test]
fn insert_mismatched_key_sets_fail_before_any_statement() {
    let batch = vec![
        doc(&[("a", Value::Integer(1)), ("b", Value::Text("x".to_string()))]),
        doc(&[("a", Value::Integer(2)), ("c", Value::Text("y".to_string()))]),
    ];
    let r = build_insert(&"t".to_string(), &batch);
    assert_eq!(r.unwrap_err(), BuildError::MismatchedBatchKeys);
}

#[test]
fn insert_empty_batch_fails_with_empty_batch() {
    let r = build_insert(&"t".to_string(), &vec![]);
    assert_eq!(r.unwrap_err(), BuildError::EmptyBatch);
}

#[test]
fn insert_unsupported_value_fails_with_unencodable() {
    let batch = vec![doc(&[("a", Value::Unsupported("POINT".to_string()))])];
    let r = build_insert(&"t".to_string(), &batch);
    assert_eq!(
        r.unwrap_err(),
        BuildError::UnencodableValue("POINT".to_string())
    );
}

#[test]
fn update_sets_and_scopes() {
    let u = UpdateSpec {
        table: "t".to_string(),
        assignments: doc(&[
            ("a", Value::Integer(1)),
            ("b", Value::Text("x".to_string())),
        ]),
        predicate: Some(Predicate::Cmp {
            column: "id".to_string(),
            op: CmpOp::Eq,
            value: Value::Integer(7),
        }),
    };
    let st = build_update(&u).unwrap();
    assert_eq!(
        st.text,
        "update \"t\" set \"a\" = $1, \"b\" = $2 where (\"id\" = $3)"
    );
    assert_eq!(
        st.binds,
        vec![
            NativeValue::Int(1),
            NativeValue::Text("x".to_string()),
            NativeValue::Int(7),
        ]
    );
}

#[test]
fn update_empty_assignments_fail() {
    let u = UpdateSpec {
        table: "t".to_string(),
        assignments: Document::new(),
        predicate: None,
    };
    assert_eq!(build_update(&u).unwrap_err(), BuildError::EmptyAssignments);
}

#[test]
fn delete_with_and_without_predicate() {
    let st = build_delete(&"t".to_string(), &None).unwrap();
    assert_eq!(st.text, "delete from \"t\"");
    assert!(st.binds.is_empty());

    let p = Some(Predicate::Cmp {
        column: "id".to_string(),
        op: CmpOp::Eq,
        value: Value::Integer(3),
    });
    let st = build_delete(&"t".to_string(), &p).unwrap();
    assert_eq!(st.text, "delete from \"t\" where (\"id\" = $1)");
    assert_eq!(st.binds, vec![NativeValue::Int(3)]);
}

#[test]
fn predicate_composition_is_fully_parenthesized() {
    let mut q = plain_query("t");
    q.predicate = Some(Predicate::And(
        Box::new(Predicate::Cmp {
            column: "a".to_string(),
            op: CmpOp::Gt,
            value: Value::Integer(1),
        }),
        Box::new(Predicate::Or(
            Box::new(Predicate::IsNull {
                column: "b".to_string(),
            }),
            Box::new(Predicate::Cmp {
                column: "c".to_string(),
                op: CmpOp::Like,
                value: Value::Text("%x%".to_string()),
            }),
        )),
    ));
    let st = build_select(&q).unwrap();
    assert_eq!(
        st.text,
        "select * from \"t\" where ((\"a\" > $1) and ((\"b\" is null) or (\"c\" like $2)))"
    );
    assert_eq!(
        st.binds,
        vec![NativeValue::Int(1), NativeValue::Text("%x%".to_string())]
    );
}

#[test]
fn predicate_in_list_numbers_slots() {
    let mut q = plain_query("t");
    q.predicate = Some(Predicate::InList {
        column: "k".to_string(),
        values: vec![Value::Integer(1), Value::Integer(2), Value::Integer(3)],
    });
    q.limit = Some(5);
    let st = build_select(&q).unwrap();
    assert_eq!(
        st.text,
        "select * from \"t\" where (\"k\" in ($1, $2, $3)) limit $4"
    );
    assert_eq!(
        st.binds,
        vec![
            NativeValue::Int(1),
            NativeValue::Int(2),
            NativeValue::Int(3),
            NativeValue::Int(5),
        ]
    );
}

#[test]
fn predicate_empty_in_list_matches_nothing() {
    let mut q = plain_query("t");
    q.predicate = Some(Predicate::InList {
        column: "k".to_string(),
        values: vec![],
    });
    let st = build_select(&q).unwrap();
    assert_eq!(st.text, "select * from \"t\" where (1 = 0)");
    assert!(st.binds.is_empty());
}

#[test]
fn predicate_invalid_column_never_reaches_text() {
    let mut q = plain_query("t");
    q.predicate = Some(Predicate::Cmp {
        column: "x; drop table y".to_string(),
        op: CmpOp::Eq,
        value: Value::Integer(1),
    });
    let r = build_select(&q);
    assert_eq!(
        r.unwrap_err(),
        BuildError::InvalidIdentifier("x; drop table y".to_string())
    );
}
