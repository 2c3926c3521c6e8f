//! The structured condition tree used in `where` clauses.
//!
//! A predicate is never caller-assembled text: every comparison is rendered
//! with full parentheses, its column name must pass the identifier
//! allow-list, and every compared value is bound through a numbered
//! parameter slot, never interpolated.

use vstd::prelude::*;

use crate::codec::{encode, spec_encodable, spec_encoded};
use crate::errors::BuildError;
use crate::ident::{is_valid_identifier, quoted_ident, validate_identifier};
use crate::strutil::{dec_digits, push_char, push_u64_dec};
use crate::value::{NativeValue, Value};

verus! {

/// A comparison operator from the fixed set.
#[derive(Debug, Clone, Copy, PartialEq, Eq, Structural)]
pub enum CmpOp {
    Eq,
    Ne,
    Lt,
    Le,
    Gt,
    Ge,
    Like,
}

/// A structured condition: comparisons against bound values, null tests,
/// and explicit `and`/`or` composition.
#[derive(Debug, PartialEq)]
pub enum Predicate {
    Cmp { column: String, op: CmpOp, value: Value },
    InList { column: String, values: Vec<Value> },
    IsNull { column: String },
    IsNotNull { column: String },
    And(Box<Predicate>, Box<Predicate>),
    Or(Box<Predicate>, Box<Predicate>),
}

/// The operator's statement text.
pub open spec fn spec_op_text(op: CmpOp) -> Seq<char> {
    match op {
        CmpOp::Eq => "="@,
        CmpOp::Ne => "<>"@,
        CmpOp::Lt => "<"@,
        CmpOp::Le => "<="@,
        CmpOp::Gt => ">"@,
        CmpOp::Ge => ">="@,
        CmpOp::Like => "like"@,
    }
}

fn op_text(op: CmpOp) -> (r: &'static str)
    ensures
        r@ == spec_op_text(op),
{
    match op {
        CmpOp::Eq => "=",
        CmpOp::Ne => "<>",
        CmpOp::Lt => "<",
        CmpOp::Le => "<=",
        CmpOp::Gt => ">",
        CmpOp::Ge => ">=",
        CmpOp::Like => "like",
    }
}

/// The ordered bind list a predicate contributes.
pub open spec fn pred_binds(p: Predicate) -> Seq<NativeValue>
    decreases p,
{
    match p {
        Predicate::Cmp { value, .. } => seq![spec_encoded(value)],
        Predicate::InList { values, .. } => values@.map_values(|v: Value| spec_encoded(v)),
        Predicate::IsNull { .. } => Seq::empty(),
        Predicate::IsNotNull { .. } => Seq::empty(),
        Predicate::And(a, b) => pred_binds(*a) + pred_binds(*b),
        Predicate::Or(a, b) => pred_binds(*a) + pred_binds(*b),
    }
}

/// How many parameter slots a predicate takes.
pub open spec fn pred_bind_count(p: Predicate) -> nat {
    pred_binds(p).len()
}

/// A numbered parameter slot, `$1`, `$2`, ...
pub open spec fn placeholder(k: nat) -> Seq<char> {
    seq!['$'] + dec_digits(k)
}

/// `count` consecutive slots starting at `start`, comma-separated.
pub open spec fn placeholder_list(start: nat, count: nat) -> Seq<char>
    decreases count,
{
    if count == 0 {
        Seq::empty()
    } else if count == 1 {
        placeholder(start)
    } else {
        placeholder_list(start, (count - 1) as nat) + ", "@ + placeholder(
            (start + count - 1) as nat,
        )
    }
}

/// The statement text of a predicate whose first parameter slot is `start`.
/// Every comparison is fully parenthesized; an empty in-list renders as a
/// constant-false comparison, since it can match no row.
pub open spec fn pred_text(p: Predicate, start: nat) -> Seq<char>
    decreases p,
{
    match p {
        Predicate::Cmp { column, op, value } => "("@ + quoted_ident(column@) + " "@ + spec_op_text(
            op,
        ) + " "@ + placeholder(start) + ")"@,
        Predicate::InList { column, values } => if values@.len() == 0 {
            "(1 = 0)"@
        } else {
            "("@ + quoted_ident(column@) + " in ("@ + placeholder_list(start, values@.len())
                + "))"@
        },
        Predicate::IsNull { column } => "("@ + quoted_ident(column@) + " is null)"@,
        Predicate::IsNotNull { column } => "("@ + quoted_ident(column@) + " is not null)"@,
        Predicate::And(a, b) => "("@ + pred_text(*a, start) + " and "@ + pred_text(
            *b,
            start + pred_bind_count(*a),
        ) + ")"@,
        Predicate::Or(a, b) => "("@ + pred_text(*a, start) + " or "@ + pred_text(
            *b,
            start + pred_bind_count(*a),
        ) + ")"@,
    }
}

/// The first construction error a list of values holds, if any: a value
/// without a native encoding.
pub open spec fn values_check(vs: Seq<Value>) -> Option<BuildError>
    decreases vs.len(),
{
    if vs.len() == 0 {
        None
    } else if !spec_encodable(vs[0]) {
        match vs[0] {
            Value::Unsupported(t) => Some(BuildError::UnencodableValue(t)),
            _ => None,
        }
    } else {
        values_check(vs.drop_first())
    }
}

/// The first construction error a predicate holds, if any, in rendering
/// order: an invalid column identifier or an unencodable value.
pub open spec fn pred_check(p: Predicate) -> Option<BuildError>
    decreases p,
{
    match p {
        Predicate::Cmp { column, op, value } => if !is_valid_identifier(column@) {
            Some(BuildError::InvalidIdentifier(column))
        } else if !spec_encodable(value) {
            match value {
                Value::Unsupported(t) => Some(BuildError::UnencodableValue(t)),
                _ => None,
            }
        } else {
            None
        },
        Predicate::InList { column, values } => if !is_valid_identifier(column@) {
            Some(BuildError::InvalidIdentifier(column))
        } else {
            values_check(values@)
        },
        Predicate::IsNull { column } => if !is_valid_identifier(column@) {
            Some(BuildError::InvalidIdentifier(column))
        } else {
            None
        },
        Predicate::IsNotNull { column } => if !is_valid_identifier(column@) {
            Some(BuildError::InvalidIdentifier(column))
        } else {
            None
        },
        Predicate::And(a, b) => if pred_check(*a) is Some {
            pred_check(*a)
        } else {
            pred_check(*b)
        },
        Predicate::Or(a, b) => if pred_check(*a) is Some {
            pred_check(*a)
        } else {
            pred_check(*b)
        },
    }
}

proof fn lemma_values_check_clean(vs: Seq<Value>)
    requires
        forall|j: int| 0 <= j < vs.len() ==> spec_encodable(#[trigger] vs[j]),
    ensures
        values_check(vs) is None,
    decreases vs.len(),
{
    if vs.len() > 0 {
        lemma_values_check_clean(vs.drop_first());
    }
}

proof fn lemma_values_check_err(vs: Seq<Value>, i: int)
    requires
        0 <= i < vs.len(),
        !spec_encodable(vs[i]),
        forall|j: int| 0 <= j < i ==> spec_encodable(#[trigger] vs[j]),
    ensures
        values_check(vs) == match vs[i] {
            Value::Unsupported(t) => Some(BuildError::UnencodableValue(t)),
            _ => None::<BuildError>,
        },
    decreases i,
{
    if i > 0 {
        lemma_values_check_err(vs.drop_first(), i - 1);
    }
}

/// Appends an identifier between double quotes.
pub(crate) fn push_quoted(s: &mut String, ident: &str)
    ensures
        final(s)@ == old(s)@ + quoted_ident(ident@),
{
    push_char(s, '"');
    s.append(ident);
    push_char(s, '"');
    proof {
        assert(s@ =~= old(s)@ + quoted_ident(ident@));
    }
}

/// Appends the slot text `$start`.
pub(crate) fn push_placeholder(s: &mut String, slot: u64)
    ensures
        final(s)@ == old(s)@ + placeholder(slot as nat),
{
    push_char(s, '$');
    push_u64_dec(s, slot);
    proof {
        assert(s@ =~= old(s)@ + placeholder(slot as nat));
    }
}

/// Renders a predicate whose first parameter slot is `start`: the clause
/// text and the ordered bind list, or the predicate's first construction
/// error, in which case no text is produced.
pub fn render_predicate(p: &Predicate, start: u64) -> (r: Result<
    (String, Vec<NativeValue>),
    BuildError,
>)
    requires
        1 <= start,
        start + pred_bind_count(*p) <= u64::MAX,
    ensures
        match r {
            Ok(tb) => {
                &&& pred_check(*p) is None
                &&& tb.0@ == pred_text(*p, start as nat)
                &&& tb.1@ == pred_binds(*p)
            },
            Err(e) => pred_check(*p) == Some(e),
        },
    decreases *p,
{
    match p {
        Predicate::Cmp { column, op, value } => {
            if !validate_identifier(column.as_str()) {
                return Err(BuildError::InvalidIdentifier(column.clone()));
            }
            let bound = match encode(value) {
                Ok(n) => n,
                Err(e) => {
                    return Err(e);
                },
            };
            let mut t = String::new();
            t.append("(");
            push_quoted(&mut t, column.as_str());
            t.append(" ");
            t.append(op_text(*op));
            t.append(" ");
            push_placeholder(&mut t, start);
            t.append(")");
            let mut binds: Vec<NativeValue> = Vec::new();
            binds.push(bound);
            proof {
                assert(t@ =~= pred_text(*p, start as nat));
                assert(binds@ =~= pred_binds(*p));
            }
            Ok((t, binds))
        },
        Predicate::InList { column, values } => {
            if !validate_identifier(column.as_str()) {
                return Err(BuildError::InvalidIdentifier(column.clone()));
            }
            let count = values.len();
            let mut binds: Vec<NativeValue> = Vec::new();
            let mut i: usize = 0;
            while i < count
                invariant
                    0 <= i <= count,
                    count == values@.len(),
                    binds@ == values@.subrange(0, i as int).map_values(
                        |v: Value| spec_encoded(v),
                    ),
                    forall|j: int| 0 <= j < i ==> spec_encodable(#[trigger] values@[j]),
                    pred_check(*p) == values_check(values@),
                decreases count - i,
            {
                match encode(&values[i]) {
                    Ok(n) => {
                        binds.push(n);
                        proof {
                            assert(binds@ =~= values@.subrange(0, i + 1).map_values(
                                |v: Value| spec_encoded(v),
                            ));
                        }
                    },
                    Err(e) => {
                        proof {
                            lemma_values_check_err(values@, i as int);
                        }
                        return Err(e);
                    },
                }
                i += 1;
            }
            proof {
                lemma_values_check_clean(values@);
                assert(values@.subrange(0, count as int) =~= values@);
            }
            let mut t = String::new();
            if count == 0 {
                t.append("(1 = 0)");
                proof {
                    assert(t@ =~= pred_text(*p, start as nat));
                }
                return Ok((t, binds));
            }
            t.append("(");
            push_quoted(&mut t, column.as_str());
            t.append(" in (");
            let ghost prefix = t@;
            let mut k: usize = 0;
            while k < count
                invariant
                    0 < count == values@.len(),
                    0 <= k <= count,
                    start + count <= u64::MAX,
                    k > 0 ==> t@ == prefix + placeholder_list(start as nat, k as nat),
                    k == 0 ==> t@ == prefix,
                decreases count - k,
            {
                if k > 0 {
                    t.append(", ");
                }
                push_placeholder(&mut t, start + (k as u64));
                proof {
                    assert(t@ =~= prefix + placeholder_list(start as nat, (k + 1) as nat));
                }
                k += 1;
            }
            t.append("))");
            proof {
                assert(t@ =~= pred_text(*p, start as nat));
            }
            Ok((t, binds))
        },
        Predicate::IsNull { column } => {
            if !validate_identifier(column.as_str()) {
                return Err(BuildError::InvalidIdentifier(column.clone()));
            }
            let mut t = String::new();
            t.append("(");
            push_quoted(&mut t, column.as_str());
            t.append(" is null)");
            proof {
                assert(t@ =~= pred_text(*p, start as nat));
                assert(Seq::<NativeValue>::empty() =~= pred_binds(*p));
            }
            Ok((t, Vec::new()))
        },
        Predicate::IsNotNull { column } => {
            if !validate_identifier(column.as_str()) {
                return Err(BuildError::InvalidIdentifier(column.clone()));
            }
            let mut t = String::new();
            t.append("(");
            push_quoted(&mut t, column.as_str());
            t.append(" is not null)");
            proof {
                assert(t@ =~= pred_text(*p, start as nat));
                assert(Seq::<NativeValue>::empty() =~= pred_binds(*p));
            }
            Ok((t, Vec::new()))
        },
        Predicate::And(a, b) => {
            let (ta, mut ba) = match render_predicate(a, start) {
                Ok(tb) => tb,
                Err(e) => {
                    return Err(e);
                },
            };
            let na = ba.len() as u64;
            proof {
                assert(na == pred_bind_count(**a));
            }
            let (tb, mut bb) = match render_predicate(b, start + na) {
                Ok(tb) => tb,
                Err(e) => {
                    return Err(e);
                },
            };
            let mut t = String::new();
            t.append("(");
            t.append(ta.as_str());
            t.append(" and ");
            t.append(tb.as_str());
            t.append(")");
            ba.append(&mut bb);
            proof {
                assert(t@ =~= pred_text(*p, start as nat));
                assert(ba@ =~= pred_binds(*p));
            }
            Ok((t, ba))
        },
        Predicate::Or(a, b) => {
            let (ta, mut ba) = match render_predicate(a, start) {
                Ok(tb) => tb,
                Err(e) => {
                    return Err(e);
                },
            };
            let na = ba.len() as u64;
            proof {
                assert(na == pred_bind_count(**a));
            }
            let (tb, mut bb) = match render_predicate(b, start + na) {
                Ok(tb) => tb,
                Err(e) => {
                    return Err(e);
                },
            };
            let mut t = String::new();
            t.append("(");
            t.append(ta.as_str());
            t.append(" or ");
            t.append(tb.as_str());
            t.append(")");
            ba.append(&mut bb);
            proof {
                assert(t@ =~= pred_text(*p, start as nat));
                assert(ba@ =~= pred_binds(*p));
            }
            Ok((t, ba))
        },
    }
}

} // verus!
