//! The type coercion table: native type tags map to value variants and back.
//!
//! Decoding never fails: an unmapped tag yields `Value::Unsupported` with the
//! original tag, and a failed native read yields `Value::Null`. Encoding
//! fails only on `Value::Unsupported`, which carries no data.

use vstd::prelude::*;

use crate::errors::BuildError;
use crate::strutil::str_eq;
use crate::value::{doc_wf, spec_insert, Document, NativeValue, Value};

verus! {

/// The value variant a native type tag maps to.
#[derive(Debug, Clone, Copy, PartialEq, Eq, Structural)]
pub enum TypeKind {
    Bool,
    Integer,
    Float,
    Text,
    Json,
    Timestamp,
    Date,
    Time,
    Null,
}

/// The coercion table, native tag to variant. Both the Postgres family of
/// tags (`INT4`, `TIMESTAMPTZ`, ...) and the SQLite family (`INTEGER`,
/// `REAL`, ...) are mapped; an unknown tag maps to nothing.
pub open spec fn spec_kind_of_tag(t: Seq<char>) -> Option<TypeKind> {
    if t == "BOOL"@ || t == "BOOLEAN"@ {
        Some(TypeKind::Bool)
    } else if t == "INT2"@ || t == "INT4"@ || t == "INT8"@ || t == "INTEGER"@ {
        Some(TypeKind::Integer)
    } else if t == "FLOAT4"@ || t == "FLOAT8"@ || t == "REAL"@ {
        Some(TypeKind::Float)
    } else if t == "TEXT"@ || t == "VARCHAR"@ || t == "NAME"@ {
        Some(TypeKind::Text)
    } else if t == "JSON"@ || t == "JSONB"@ {
        Some(TypeKind::Json)
    } else if t == "TIMESTAMPTZ"@ || t == "TIMESTAMP"@ {
        Some(TypeKind::Timestamp)
    } else if t == "DATE"@ {
        Some(TypeKind::Date)
    } else if t == "TIME"@ {
        Some(TypeKind::Time)
    } else if t == "NULL"@ {
        Some(TypeKind::Null)
    } else {
        None
    }
}

/// Looks a native type tag up in the coercion table.
pub fn kind_of_tag(tag: &str) -> (r: Option<TypeKind>)
    ensures
        r == spec_kind_of_tag(tag@),
{
    if str_eq(tag, "BOOL") || str_eq(tag, "BOOLEAN") {
        Some(TypeKind::Bool)
    } else if str_eq(tag, "INT2") || str_eq(tag, "INT4") || str_eq(tag, "INT8") || str_eq(
        tag,
        "INTEGER",
    ) {
        Some(TypeKind::Integer)
    } else if str_eq(tag, "FLOAT4") || str_eq(tag, "FLOAT8") || str_eq(tag, "REAL") {
        Some(TypeKind::Float)
    } else if str_eq(tag, "TEXT") || str_eq(tag, "VARCHAR") || str_eq(tag, "NAME") {
        Some(TypeKind::Text)
    } else if str_eq(tag, "JSON") || str_eq(tag, "JSONB") {
        Some(TypeKind::Json)
    } else if str_eq(tag, "TIMESTAMPTZ") || str_eq(tag, "TIMESTAMP") {
        Some(TypeKind::Timestamp)
    } else if str_eq(tag, "DATE") {
        Some(TypeKind::Date)
    } else if str_eq(tag, "TIME") {
        Some(TypeKind::Time)
    } else if str_eq(tag, "NULL") {
        Some(TypeKind::Null)
    } else {
        None
    }
}

/// The canonical native tag for each variant, the table's other direction.
pub open spec fn spec_tag_of_kind(k: TypeKind) -> Seq<char> {
    match k {
        TypeKind::Bool => "BOOL"@,
        TypeKind::Integer => "INT8"@,
        TypeKind::Float => "FLOAT8"@,
        TypeKind::Text => "TEXT"@,
        TypeKind::Json => "JSONB"@,
        TypeKind::Timestamp => "TIMESTAMPTZ"@,
        TypeKind::Date => "DATE"@,
        TypeKind::Time => "TIME"@,
        TypeKind::Null => "NULL"@,
    }
}

/// The canonical native tag for a variant.
pub fn tag_of_kind(k: TypeKind) -> (r: &'static str)
    ensures
        r@ == spec_tag_of_kind(k),
{
    match k {
        TypeKind::Bool => "BOOL",
        TypeKind::Integer => "INT8",
        TypeKind::Float => "FLOAT8",
        TypeKind::Text => "TEXT",
        TypeKind::Json => "JSONB",
        TypeKind::Timestamp => "TIMESTAMPTZ",
        TypeKind::Date => "DATE",
        TypeKind::Time => "TIME",
        TypeKind::Null => "NULL",
    }
}

/// Whether a binary64 bit pattern is a finite number (its exponent field is
/// not all ones, which would make it an infinity or a NaN).
pub open spec fn spec_float_is_finite(bits: u64) -> bool {
    (bits >> 52) & 0x7ff != 0x7ff
}

/// Decides finiteness of a binary64 bit pattern.
pub fn float_is_finite(bits: u64) -> (r: bool)
    ensures
        r == spec_float_is_finite(bits),
{
    (bits >> 52) & 0x7ff != 0x7ff
}

/// Whether a native value is of the shape a tag of kind `k` reads as.
pub open spec fn native_matches(k: TypeKind, n: NativeValue) -> bool {
    match k {
        TypeKind::Bool => n is Bool,
        TypeKind::Integer => n is Int,
        TypeKind::Float => n is Float,
        TypeKind::Text => n is Text,
        TypeKind::Json => n is Json,
        TypeKind::Timestamp => n is Timestamp,
        TypeKind::Date => n is Date,
        TypeKind::Time => n is Time,
        TypeKind::Null => n is Null,
    }
}

/// What a mapped tag of kind `k` decodes to. A failed read (`None`), a read
/// of the wrong shape, and a non-finite float all decode to `Null`.
pub open spec fn spec_decoded(k: TypeKind, read: Option<NativeValue>) -> Value {
    match read {
        None => Value::Null,
        Some(n) => match (k, n) {
            (TypeKind::Bool, NativeValue::Bool(b)) => Value::Bool(b),
            (TypeKind::Integer, NativeValue::Int(i)) => Value::Integer(i),
            (TypeKind::Float, NativeValue::Float(bits)) => if spec_float_is_finite(bits) {
                Value::Float(bits)
            } else {
                Value::Null
            },
            (TypeKind::Text, NativeValue::Text(s)) => Value::Text(s),
            (TypeKind::Json, NativeValue::Json(s)) => Value::Json(s),
            (TypeKind::Timestamp, NativeValue::Timestamp(t)) => Value::Timestamp(t),
            (TypeKind::Date, NativeValue::Date { year, month, day }) => Value::Date {
                year,
                month,
                day,
            },
            (TypeKind::Time, NativeValue::Time { hour, minute, second }) => Value::Time {
                hour,
                minute,
                second,
            },
            (TypeKind::Null, _) => Value::Null,
            _ => Value::Null,
        },
    }
}

/// Whether a value has a native encoding: every variant but `Unsupported`.
pub open spec fn spec_encodable(v: Value) -> bool {
    !(v is Unsupported)
}

/// The native bind form of an encodable value.
pub open spec fn spec_encoded(v: Value) -> NativeValue {
    match v {
        Value::Null => NativeValue::Null,
        Value::Bool(b) => NativeValue::Bool(b),
        Value::Integer(i) => NativeValue::Int(i),
        Value::Float(bits) => NativeValue::Float(bits),
        Value::Text(s) => NativeValue::Text(s),
        Value::Json(s) => NativeValue::Json(s),
        Value::Timestamp(t) => NativeValue::Timestamp(t),
        Value::Date { year, month, day } => NativeValue::Date { year, month, day },
        Value::Time { hour, minute, second } => NativeValue::Time { hour, minute, second },
        Value::Unsupported(_) => NativeValue::Null,
    }
}

/// Decodes one native column read into a named value. Never fails: an
/// unmapped tag yields `Unsupported` carrying the tag, a failed read yields
/// `Null`, and the column is always present in the result.
pub fn decode(name: String, tag: &str, read: Option<NativeValue>) -> (r: (String, Value))
    ensures
        r.0 == name,
        match spec_kind_of_tag(tag@) {
            Some(k) => r.1 == spec_decoded(k, read),
            None => r.1 matches Value::Unsupported(t) && t@ == tag@,
        },
{
    match kind_of_tag(tag) {
        None => (name, Value::Unsupported(tag.to_owned())),
        Some(k) => (name, decoded_value(k, read)),
    }
}

/// Decodes one read under an already-looked-up kind.
pub fn decoded_value(k: TypeKind, read: Option<NativeValue>) -> (v: Value)
    ensures
        v == spec_decoded(k, read),
{
    match read {
        None => Value::Null,
        Some(n) => match (k, n) {
            (TypeKind::Bool, NativeValue::Bool(b)) => Value::Bool(b),
            (TypeKind::Integer, NativeValue::Int(i)) => Value::Integer(i),
            (TypeKind::Float, NativeValue::Float(bits)) => if float_is_finite(bits) {
                Value::Float(bits)
            } else {
                Value::Null
            },
            (TypeKind::Text, NativeValue::Text(s)) => Value::Text(s),
            (TypeKind::Json, NativeValue::Json(s)) => Value::Json(s),
            (TypeKind::Timestamp, NativeValue::Timestamp(t)) => Value::Timestamp(t),
            (TypeKind::Date, NativeValue::Date { year, month, day }) => Value::Date {
                year,
                month,
                day,
            },
            (TypeKind::Time, NativeValue::Time { hour, minute, second }) => Value::Time {
                hour,
                minute,
                second,
            },
            (TypeKind::Null, _) => Value::Null,
            _ => Value::Null,
        },
    }
}

/// Encodes a value as a native bind parameter. Fails exactly on
/// `Unsupported`, whose original type name the error carries.
pub fn encode(v: &Value) -> (r: Result<NativeValue, BuildError>)
    ensures
        spec_encodable(*v) ==> (r matches Ok(n) && n == spec_encoded(*v)),
        !spec_encodable(*v) ==> (r matches Err(e) && ((*v) matches Value::Unsupported(t) && e
            == BuildError::UnencodableValue(t))),
{
    match v {
        Value::Null => Ok(NativeValue::Null),
        Value::Bool(b) => Ok(NativeValue::Bool(*b)),
        Value::Integer(i) => Ok(NativeValue::Int(*i)),
        Value::Float(bits) => Ok(NativeValue::Float(*bits)),
        Value::Text(s) => Ok(NativeValue::Text(s.clone())),
        Value::Json(s) => Ok(NativeValue::Json(s.clone())),
        Value::Timestamp(t) => Ok(NativeValue::Timestamp(*t)),
        Value::Date { year, month, day } => Ok(
            NativeValue::Date { year: *year, month: *month, day: *day },
        ),
        Value::Time { hour, minute, second } => Ok(
            NativeValue::Time { hour: *hour, minute: *minute, second: *second },
        ),
        Value::Unsupported(t) => Err(BuildError::UnencodableValue(t.clone())),
    }
}

/// One column of a native row, as the engine handed it over: the column
/// name, the native type tag, and the read result (`None` for a failed
/// read or a SQL null the engine would not hand out).
pub struct NativeCell {
    pub name: String,
    pub type_tag: String,
    pub read: Option<NativeValue>,
}

/// What one cell decodes to.
pub open spec fn spec_cell_value(c: NativeCell) -> Value {
    match spec_kind_of_tag(c.type_tag@) {
        Some(k) => spec_decoded(k, c.read),
        None => Value::Unsupported(c.type_tag),
    }
}

/// A whole row decoded into a document, cells inserted in row order.
pub open spec fn spec_decode_row(cells: Seq<NativeCell>) -> Seq<(String, Value)>
    decreases cells.len(),
{
    if cells.len() == 0 {
        Seq::empty()
    } else {
        spec_insert(
            spec_decode_row(cells.drop_last()),
            cells.last().name,
            spec_cell_value(cells.last()),
        )
    }
}

/// Decodes a native row into an ordered document. Column order is the
/// engine's; no cell is dropped (a repeated column name keeps its first
/// position and takes the later value).
pub fn decode_row(cells: Vec<NativeCell>) -> (doc: Document)
    ensures
        doc@ == spec_decode_row(cells@),
        doc_wf(doc@),
{
    let mut doc = Document::new();
    let mut rest = cells;
    let ghost all = rest@;
    let ghost mut done: int = 0;
    while rest.len() > 0
        invariant
            0 <= done <= all.len(),
            rest@ == all.subrange(done, all.len() as int),
            doc@ == spec_decode_row(all.subrange(0, done)),
            doc_wf(doc@),
        decreases rest.len(),
    {
        let c = rest.remove(0);
        let kind = kind_of_tag(c.type_tag.as_str());
        let NativeCell { name, type_tag, read } = c;
        let v = match kind {
            None => Value::Unsupported(type_tag),
            Some(k) => decoded_value(k, read),
        };
        proof {
            assert(v == spec_cell_value(all[done]));
        }
        doc.insert(name, v);
        proof {
            done = done + 1;
            assert(all.subrange(0, done).drop_last() =~= all.subrange(0, done - 1));
            assert(all.subrange(0, done).last() == all[done - 1]);
            assert(rest@ =~= all.subrange(done, all.len() as int));
        }
    }
    proof {
        assert(all.subrange(0, all.len() as int) =~= all);
    }
    doc
}

/// The two directions of the coercion table agree: looking the canonical
/// tag of any variant up yields that variant.
pub proof fn lemma_tag_table_inverse()
    ensures
        forall|k: TypeKind| #[trigger] spec_kind_of_tag(spec_tag_of_kind(k)) == Some(k),
{
    reveal_strlit("BOOL");
    reveal_strlit("BOOLEAN");
    reveal_strlit("INT2");
    reveal_strlit("INT4");
    reveal_strlit("INT8");
    reveal_strlit("INTEGER");
    reveal_strlit("FLOAT4");
    reveal_strlit("FLOAT8");
    reveal_strlit("REAL");
    reveal_strlit("TEXT");
    reveal_strlit("VARCHAR");
    reveal_strlit("NAME");
    reveal_strlit("JSON");
    reveal_strlit("JSONB");
    reveal_strlit("TIMESTAMPTZ");
    reveal_strlit("TIMESTAMP");
    reveal_strlit("DATE");
    reveal_strlit("TIME");
    reveal_strlit("NULL");
    broadcast use vstd::string::group_string_axioms;

    assert("BOOL"@.len() == 4);
    assert("BOOLEAN"@.len() == 7);
    assert("INT2"@.len() == 4);
    assert("INT4"@.len() == 4);
    assert("INT8"@.len() == 4);
    assert("INTEGER"@.len() == 7);
    assert("FLOAT4"@.len() == 6);
    assert("FLOAT8"@.len() == 6);
    assert("REAL"@.len() == 4);
    assert("TEXT"@.len() == 4);
    assert("VARCHAR"@.len() == 7);
    assert("NAME"@.len() == 4);
    assert("JSON"@.len() == 4);
    assert("JSONB"@.len() == 5);
    assert("TIMESTAMPTZ"@.len() == 11);
    assert("TIMESTAMP"@.len() == 9);
    assert("DATE"@.len() == 4);
    assert("TIME"@.len() == 4);
    assert("NULL"@.len() == 4);
    assert("BOOL"@[0] == 'B');
    assert("INT2"@[0] == 'I');
    assert("INT4"@[0] == 'I');
    assert("INT8"@[0] == 'I');
    assert("INT2"@[3] == '2');
    assert("INT4"@[3] == '4');
    assert("INT8"@[3] == '8');
    assert("REAL"@[0] == 'R');
    assert("TEXT"@[0] == 'T');
    assert("TEXT"@[1] == 'E');
    assert("NAME"@[0] == 'N');
    assert("NAME"@[1] == 'A');
    assert("JSON"@[0] == 'J');
    assert("DATE"@[0] == 'D');
    assert("TIME"@[0] == 'T');
    assert("TIME"@[1] == 'I');
    assert("NULL"@[0] == 'N');
    assert("NULL"@[1] == 'U');
    assert forall|k: TypeKind| #[trigger] spec_kind_of_tag(spec_tag_of_kind(k)) == Some(k) by {
        match k {
            TypeKind::Bool => assert(spec_kind_of_tag("BOOL"@) == Some(TypeKind::Bool)),
            TypeKind::Integer => assert(spec_kind_of_tag("INT8"@) == Some(TypeKind::Integer)),
            TypeKind::Float => assert(spec_kind_of_tag("FLOAT8"@) == Some(TypeKind::Float)),
            TypeKind::Text => assert(spec_kind_of_tag("TEXT"@) == Some(TypeKind::Text)),
            TypeKind::Json => assert(spec_kind_of_tag("JSONB"@) == Some(TypeKind::Json)),
            TypeKind::Timestamp => assert(spec_kind_of_tag("TIMESTAMPTZ"@) == Some(
                TypeKind::Timestamp,
            )),
            TypeKind::Date => assert(spec_kind_of_tag("DATE"@) == Some(TypeKind::Date)),
            TypeKind::Time => assert(spec_kind_of_tag("TIME"@) == Some(TypeKind::Time)),
            TypeKind::Null => assert(spec_kind_of_tag("NULL"@) == Some(TypeKind::Null)),
        }
    }
}

/// Round trip, native side: a successful read of the shape its mapped tag
/// expects decodes to a value that encodes back to exactly that read.
/// The one exception the model admits is a non-finite float, which decodes
/// to `Null` by design.
pub proof fn lemma_decode_encode_round_trip(k: TypeKind, n: NativeValue)
    requires
        native_matches(k, n),
        n matches NativeValue::Float(bits) ==> spec_float_is_finite(bits),
    ensures
        spec_encodable(spec_decoded(k, Some(n))),
        spec_encoded(spec_decoded(k, Some(n))) == n,
{
}

/// The kind a value encodes under.
pub open spec fn spec_kind_of_value(v: Value) -> TypeKind {
    match v {
        Value::Null => TypeKind::Null,
        Value::Bool(_) => TypeKind::Bool,
        Value::Integer(_) => TypeKind::Integer,
        Value::Float(_) => TypeKind::Float,
        Value::Text(_) => TypeKind::Text,
        Value::Json(_) => TypeKind::Json,
        Value::Timestamp(_) => TypeKind::Timestamp,
        Value::Date { .. } => TypeKind::Date,
        Value::Time { .. } => TypeKind::Time,
        Value::Unsupported(_) => TypeKind::Null,
    }
}

/// Round trip, value side: every encodable, finite value comes back equal
/// after encoding and decoding under its own kind's canonical tag.
pub proof fn lemma_encode_decode_round_trip(v: Value)
    requires
        spec_encodable(v),
        v matches Value::Float(bits) ==> spec_float_is_finite(bits),
    ensures
        spec_kind_of_tag(spec_tag_of_kind(spec_kind_of_value(v))) == Some(spec_kind_of_value(v)),
        spec_decoded(spec_kind_of_value(v), Some(spec_encoded(v))) == v,
{
    lemma_tag_table_inverse();
}

} // verus!
